use snake_game::snake::contains_cell;
use snake_game::{Direction, GameStatus, SnakeCell, World};

fn cells(indices: &[usize]) -> Vec<SnakeCell> {
    indices.iter().map(|index| SnakeCell(*index)).collect()
}

#[test]
fn new_world_has_three_segments_in_a_row() {
    let world = World::new(8, 10);
    assert_eq!(world.width(), 8);
    assert_eq!(world.snake_length(), 3);
    assert_eq!(world.snake_head_idx(), 10);
    assert_eq!(world.snake_cells(), cells(&[10, 9, 8]));
    assert_eq!(world.points(), 0);
    assert_eq!(world.game_status(), None);
    assert_eq!(world.game_status_text(), "No Status");
    assert_eq!(world.reward_cell(), None);
    assert_eq!(world.reward_request(), Some(64));
}

#[test]
fn new_world_on_the_smallest_spawn() {
    let world = World::new(2, 2);
    assert_eq!(world.snake_cells(), cells(&[2, 1, 0]));
    assert_eq!(world.reward_request(), Some(4));
}

#[test]
fn one_step_moves_the_body_right() {
    let mut world = World::new(8, 10);
    world.start_game();
    world.step();
    assert_eq!(world.snake_head_idx(), 11);
    assert_eq!(world.snake_cells(), cells(&[11, 10, 9]));
    assert_eq!(world.snake_length(), 3);
    assert_eq!(world.points(), 0);
    assert_eq!(world.game_status(), Some(GameStatus::Played));
}

#[test]
fn world_stands_still_before_the_start() {
    let mut world = World::new(8, 10);
    world.step();
    world.step();
    assert_eq!(world.snake_cells(), cells(&[10, 9, 8]));
    assert_eq!(world.game_status(), None);
}

#[test]
fn status_text_follows_the_status() {
    let mut world = World::new(2, 3);
    assert_eq!(world.game_status_text(), "No Status");
    world.start_game();
    assert_eq!(world.game_status(), Some(GameStatus::Played));
    assert_eq!(world.game_status_text(), "Playing!");
    world.step();
    assert_eq!(world.game_status(), Some(GameStatus::Lost));
    assert_eq!(world.game_status_text(), "You have lost!");
}

#[test]
fn reward_on_the_snake_is_refused() {
    let mut world = World::new(8, 10);
    assert!(!world.place_reward(10));
    assert!(!world.place_reward(9));
    assert!(!world.place_reward(8));
    assert_eq!(world.reward_cell(), None);
    assert_eq!(world.reward_request(), Some(64));
}

#[test]
fn reward_off_the_board_is_refused() {
    let mut world = World::new(8, 10);
    assert!(!world.place_reward(64));
    assert!(!world.place_reward(usize::MAX));
    assert_eq!(world.reward_cell(), None);
    assert_eq!(world.reward_request(), Some(64));
}

#[test]
fn free_cell_becomes_the_reward() {
    let mut world = World::new(8, 10);
    assert!(world.place_reward(63));
    assert_eq!(world.reward_cell(), Some(63));
    assert_eq!(world.reward_request(), None);
    assert_eq!(world.snake_cells(), cells(&[10, 9, 8]));
}

#[test]
fn reward_is_placed_only_when_due() {
    let mut world = World::new(8, 10);
    assert!(world.place_reward(0));
    assert!(!world.place_reward(1));
    assert_eq!(world.reward_cell(), Some(0));
}

#[test]
fn drawn_cell_is_taken_or_drawn_again() {
    let body = cells(&[10, 9, 8]);
    assert_eq!(World::gen_reward_cell(64, &body, 7), Some(7));
    assert_eq!(World::gen_reward_cell(64, &body, 11), Some(11));
    assert_eq!(World::gen_reward_cell(64, &body, 0), Some(0));
    assert_eq!(World::gen_reward_cell(64, &body, 63), Some(63));
    assert_eq!(World::gen_reward_cell(64, &body, 8), None);
    assert_eq!(World::gen_reward_cell(64, &body, 9), None);
    assert_eq!(World::gen_reward_cell(64, &body, 10), None);
    assert_eq!(World::gen_reward_cell(64, &body, 64), None);
    assert_eq!(World::gen_reward_cell(0, &body, 0), None);
    assert_eq!(World::gen_reward_cell(16, &Vec::new(), 15), Some(15));
}

#[test]
fn cell_is_searched_from_a_position_on() {
    let body = cells(&[5, 6, 7, 5]);
    assert!(contains_cell(&body, 0, SnakeCell(5)));
    assert!(contains_cell(&body, 1, SnakeCell(5)));
    assert!(contains_cell(&body, 3, SnakeCell(5)));
    assert!(!contains_cell(&body, 4, SnakeCell(5)));
    assert!(contains_cell(&body, 0, SnakeCell(6)));
    assert!(!contains_cell(&body, 2, SnakeCell(6)));
    assert!(!contains_cell(&body, 0, SnakeCell(8)));
}

#[test]
fn turn_fixes_the_next_move() {
    let mut world = World::new(8, 10);
    world.start_game();
    world.change_snake_dir(Direction::Down);
    world.step();
    assert_eq!(world.snake_cells(), cells(&[18, 10, 9]));
    world.step();
    assert_eq!(world.snake_cells(), cells(&[26, 18, 10]));
}

#[test]
fn reversal_is_ignored() {
    let mut world = World::new(8, 10);
    world.start_game();
    world.change_snake_dir(Direction::Left);
    world.step();
    assert_eq!(world.snake_cells(), cells(&[11, 10, 9]));
}

#[test]
fn reversal_keeps_the_move_already_fixed() {
    let mut world = World::new(8, 10);
    world.start_game();
    world.change_snake_dir(Direction::Up);
    world.change_snake_dir(Direction::Left);
    world.step();
    assert_eq!(world.snake_cells(), cells(&[2, 10, 9]));
    world.step();
    assert_eq!(world.snake_cells(), cells(&[58, 2, 10]));
}

#[test]
fn later_turn_replaces_the_earlier() {
    let mut world = World::new(8, 10);
    world.start_game();
    world.change_snake_dir(Direction::Up);
    world.change_snake_dir(Direction::Down);
    world.step();
    assert_eq!(world.snake_cells(), cells(&[18, 10, 9]));
}

#[test]
fn eating_scores_and_grows() {
    let mut world = World::new(8, 10);
    assert!(world.place_reward(11));
    world.start_game();
    world.step();
    assert_eq!(world.points(), 1);
    assert_eq!(world.snake_length(), 4);
    assert_eq!(world.snake_cells(), cells(&[11, 10, 9, 10]));
    assert_eq!(world.reward_cell(), None);
    assert_eq!(world.reward_request(), Some(64));
    assert_eq!(world.game_status(), Some(GameStatus::Played));
    assert!(!world.place_reward(11));
    assert!(!world.place_reward(9));
    assert!(world.place_reward(8));
    assert_eq!(world.reward_cell(), Some(8));
}

#[test]
fn grown_snake_repeats_its_second_to_last_segment() {
    let mut world = World::new(8, 10);
    assert!(world.place_reward(11));
    world.start_game();
    world.step();
    assert!(world.place_reward(12));
    world.step();
    assert_eq!(world.points(), 2);
    assert_eq!(world.snake_cells(), cells(&[12, 11, 10, 9, 10]));
    assert!(world.place_reward(63));
    world.step();
    assert_eq!(world.snake_cells(), cells(&[13, 12, 11, 10, 9]));
    assert_eq!(world.points(), 2);
    assert_eq!(world.reward_cell(), Some(63));
}

#[test]
fn step_without_reward_keeps_length_and_points() {
    let mut world = World::new(8, 10);
    assert!(world.place_reward(40));
    world.start_game();
    world.step();
    world.step();
    assert_eq!(world.snake_length(), 3);
    assert_eq!(world.points(), 0);
    assert_eq!(world.reward_cell(), Some(40));
    assert_eq!(world.reward_request(), None);
}

#[test]
fn biting_the_body_loses() {
    let mut world = World::new(8, 10);
    assert!(world.place_reward(11));
    world.start_game();
    world.step();
    assert!(world.place_reward(12));
    world.step();
    assert!(world.place_reward(63));
    world.change_snake_dir(Direction::Down);
    world.step();
    assert_eq!(world.snake_cells(), cells(&[20, 12, 11, 10, 9]));
    world.change_snake_dir(Direction::Left);
    world.step();
    assert_eq!(world.snake_cells(), cells(&[19, 20, 12, 11, 10]));
    assert_eq!(world.game_status(), Some(GameStatus::Played));
    world.change_snake_dir(Direction::Up);
    world.step();
    assert_eq!(world.game_status(), Some(GameStatus::Lost));
    assert_eq!(world.game_status_text(), "You have lost!");
    assert_eq!(world.snake_cells(), cells(&[11, 19, 20, 12, 11]));
    world.step();
    world.change_snake_dir(Direction::Right);
    world.step();
    assert_eq!(world.snake_cells(), cells(&[11, 19, 20, 12, 11]));
    assert_eq!(world.game_status(), Some(GameStatus::Lost));
    assert_eq!(world.points(), 2);
}

#[test]
fn moving_onto_the_cell_the_tail_leaves_is_safe() {
    let mut world = World::new(8, 10);
    assert!(world.place_reward(11));
    world.start_game();
    world.step();
    assert!(world.place_reward(63));
    world.change_snake_dir(Direction::Down);
    world.step();
    world.change_snake_dir(Direction::Left);
    world.step();
    assert_eq!(world.snake_cells(), cells(&[18, 19, 11, 10]));
    world.change_snake_dir(Direction::Up);
    world.step();
    assert_eq!(world.snake_cells(), cells(&[10, 18, 19, 11]));
    assert_eq!(world.game_status(), Some(GameStatus::Played));
}

#[test]
fn eating_on_a_full_board_wins() {
    let mut world = World::new(2, 2);
    assert!(world.place_reward(3));
    world.start_game();
    world.step();
    assert_eq!(world.snake_cells(), cells(&[3, 2, 1, 2]));
    assert_eq!(world.snake_length(), 4);
    assert_eq!(world.game_status(), Some(GameStatus::Played));
    assert_eq!(world.reward_request(), Some(4));
    assert!(world.place_reward(0));
    world.step();
    assert_eq!(world.game_status(), Some(GameStatus::Lost));
    assert_eq!(world.snake_cells(), cells(&[2, 3, 2, 1]));
    world.start_game();
    world.change_snake_dir(Direction::Up);
    world.step();
    assert_eq!(world.game_status(), Some(GameStatus::Won));
    assert_eq!(world.game_status_text(), "You have won!");
    assert_eq!(world.reward_cell(), None);
    assert_eq!(world.reward_request(), None);
    assert_eq!(world.points(), 2);
    assert_eq!(world.snake_length(), 5);
    assert_eq!(world.snake_cells(), cells(&[0, 2, 3, 2, 3]));
    world.step();
    assert_eq!(world.snake_cells(), cells(&[0, 2, 3, 2, 3]));
    assert_eq!(world.game_status(), Some(GameStatus::Won));
}

#[test]
fn started_again_after_a_loss_the_snake_moves_on() {
    let mut world = World::new(2, 3);
    world.start_game();
    world.step();
    assert_eq!(world.game_status(), Some(GameStatus::Lost));
    assert_eq!(world.snake_cells(), cells(&[2, 3, 2]));
    world.start_game();
    assert_eq!(world.game_status(), Some(GameStatus::Played));
    world.change_snake_dir(Direction::Up);
    world.step();
    assert_eq!(world.snake_cells(), cells(&[0, 2, 3]));
    assert_eq!(world.game_status(), Some(GameStatus::Played));
}

#[test]
fn reward_never_lies_on_the_snake() {
    let mut world = World::new(4, 5);
    world.start_game();
    let turns = [Direction::Down, Direction::Right, Direction::Up, Direction::Right];
    let mut tick: usize = 0;
    while tick < 40 {
        let mut drawn: usize = (tick * 7) % 16;
        while world.reward_request().is_some() {
            world.place_reward(drawn);
            drawn = (drawn + 1) % 16;
        }
        if let Some(reward) = world.reward_cell() {
            assert!(reward < 16);
            assert!(!world.snake_cells().contains(&SnakeCell(reward)));
        }
        assert_eq!(world.snake_length(), world.points() + 3);
        world.change_snake_dir(turns[tick % 4]);
        world.step();
        tick += 1;
    }
}

#[test]
fn a_request_can_always_be_met() {
    let mut world = World::new(2, 2);
    assert_eq!(world.reward_request(), Some(4));
    assert!(!world.place_reward(0));
    assert!(!world.place_reward(1));
    assert!(!world.place_reward(2));
    assert!(world.place_reward(3));
    world.start_game();
    world.step();
    assert_eq!(world.reward_request(), Some(4));
    assert!(!world.place_reward(1));
    assert!(!world.place_reward(2));
    assert!(!world.place_reward(3));
    assert!(world.place_reward(0));
    assert_eq!(world.reward_request(), None);
}
