//! The world that a host drives: one board, one snake, one reward.
//!
//! The world draws no random numbers. Whenever a reward cell is wanted it says
//! so through [`World::reward_request`]; the host draws a cell and hands it to
//! [`World::place_reward`], again and again until one is taken.

use crate::grid::{lemma_coordinates, neighbor, Direction};
use crate::model::{
    index_of, is_free, lemma_initial_wf, lemma_offer_wf, lemma_step_wf, lemma_turn_wf,
    status_text, GameStatus, WorldModel,
};
use crate::snake::{cell_indices, contains_cell, lemma_cell_indices_contains, Snake, SnakeCell};
use vstd::prelude::*;

verus! {

/// The state of one game.
pub struct World {
    width: usize,
    size: usize,
    snake: Snake,
    next_cell: Option<SnakeCell>,
    reward_cell: Option<usize>,
    reward_due: bool,
    status: Option<GameStatus>,
    points: usize,
}

impl View for World {
    type V = WorldModel;

    closed spec fn view(&self) -> WorldModel {
        WorldModel {
            width: self.width as int,
            size: self.size as int,
            body: cell_indices(self.snake.body@),
            direction: self.snake.direction,
            pending: match self.next_cell {
                Some(cell) => Some(cell.0 as int),
                None => None,
            },
            reward: index_of(self.reward_cell),
            reward_due: self.reward_due,
            status: self.status,
            points: self.points as int,
        }
    }
}

impl World {
    /// The invariant of a world: that of its model.
    pub open spec fn wf(&self) -> bool {
        self@.wf()
    }

    /// A world of `width * width` cells with a snake of three segments whose
    /// head lies on `snake_idx`. It has no reward yet and asks for one.
    pub fn new(width: usize, snake_idx: usize) -> (world: World)
        requires
            2 <= snake_idx < width * width <= usize::MAX,
        ensures
            world.wf(),
            world@ == WorldModel::initial(width as int, snake_idx as int),
    {
        let snake = Snake::new(snake_idx, 3);
        let size: usize = width * width;
        let world = World {
            width,
            size,
            snake,
            next_cell: None,
            reward_cell: None,
            reward_due: true,
            status: None,
            points: 0,
        };
        proof {
            lemma_initial_wf(width as int, snake_idx as int);
            assert(world@.body =~= seq![snake_idx as int, snake_idx - 1, snake_idx - 2]);
        }
        world
    }

    /// Side of the board.
    pub fn width(&self) -> (width: usize)
        ensures
            width == self@.width,
    {
        self.width
    }

    /// Rewards eaten so far.
    pub fn points(&self) -> (points: usize)
        ensures
            points == self@.points,
    {
        self.points
    }

    /// The cell the head lies on.
    pub fn snake_head_idx(&self) -> (index: usize)
        requires
            self.wf(),
        ensures
            index == self@.body[0],
    {
        self.snake.body[0].0
    }

    /// The cell that holds the reward, if there is one.
    pub fn reward_cell(&self) -> (cell: Option<usize>)
        ensures
            index_of(cell) == self@.reward,
    {
        self.reward_cell
    }

    /// Number of segments of the snake.
    pub fn snake_length(&self) -> (length: usize)
        ensures
            length == self@.body.len(),
    {
        self.snake.body.len()
    }

    /// The segments of the snake, head first.
    pub fn snake_cells(&self) -> (cells: Vec<SnakeCell>)
        ensures
            cell_indices(cells@) == self@.body,
    {
        let mut cells: Vec<SnakeCell> = Vec::new();
        let mut i: usize = 0;
        while i < self.snake.body.len()
            invariant
                i <= self.snake.body@.len(),
                cells@ == self.snake.body@.take(i as int),
            decreases self.snake.body@.len() - i,
        {
            cells.push(self.snake.body[i]);
            i += 1;
        }
        assert(cells@ == self.snake.body@);
        cells
    }

    /// `None` until the game is started.
    pub fn game_status(&self) -> (status: Option<GameStatus>)
        ensures
            status == self@.status,
    {
        self.status
    }

    /// The status in words.
    pub fn game_status_text(&self) -> (text: String)
        ensures
            text@ == status_text(self@.status),
    {
        match self.status {
            Some(GameStatus::Won) => "You have won!".to_owned(),
            Some(GameStatus::Lost) => "You have lost!".to_owned(),
            Some(GameStatus::Played) => "Playing!".to_owned(),
            None => "No Status".to_owned(),
        }
    }

    /// Starts the game, whatever its status was.
    pub fn start_game(&mut self)
        requires
            old(self).wf(),
        ensures
            final(self).wf(),
            final(self)@ == old(self)@.start(),
    {
        self.status = Some(GameStatus::Played);
    }

    /// The cell next to the head in `direction`.
    pub fn gen_next_snake_cell(&self, direction: &Direction) -> (cell: SnakeCell)
        requires
            self.wf(),
        ensures
            cell.0 == neighbor(self@.width, self@.body[0], *direction),
    {
        let snake_idx: usize = self.snake_head_idx();
        let row: usize = snake_idx / self.width;
        proof {
            let width = self.width as int;
            lemma_coordinates(width, snake_idx as int);
            assert((width - 1) * width == width * width - width) by (nonlinear_arith);
            assert(row * width + width <= width * width) by (nonlinear_arith)
                requires
                    0 <= row < width,
            ;
            assert(row > 0 ==> row * width >= width) by (nonlinear_arith)
                requires
                    0 < width,
            ;
            assert(row + 1 < width ==> row * width + width + width <= width * width)
                by (nonlinear_arith)
                requires
                    0 <= row,
            ;
        }
        let row_start: usize = row * self.width;
        let col: usize = snake_idx - row_start;
        match direction {
            Direction::Right => {
                if col + 1 == self.width {
                    SnakeCell(row_start)
                } else {
                    SnakeCell(snake_idx + 1)
                }
            },
            Direction::Left => {
                if col == 0 {
                    SnakeCell(row_start + (self.width - 1))
                } else {
                    SnakeCell(snake_idx - 1)
                }
            },
            Direction::Up => {
                if row == 0 {
                    SnakeCell((self.size - self.width) + col)
                } else {
                    SnakeCell(snake_idx - self.width)
                }
            },
            Direction::Down => {
                if row + 1 == self.width {
                    SnakeCell(col)
                } else {
                    SnakeCell(snake_idx + self.width)
                }
            },
        }
    }

    /// Asks the snake to turn to `direction`. A turn that would send the head
    /// straight back onto the segment behind it is ignored; any other fixes
    /// the cell of the next move.
    pub fn change_snake_dir(&mut self, direction: Direction)
        requires
            old(self).wf(),
        ensures
            final(self).wf(),
            final(self)@ == old(self)@.turn(direction),
            old(self)@.reverses(direction) ==> final(self)@ == old(self)@,
    {
        let next_cell: SnakeCell = self.gen_next_snake_cell(&direction);
        if self.snake.body[1].0 == next_cell.0 {
            return;
        }
        self.next_cell = Some(next_cell);
        self.snake.direction = direction;
        proof {
            lemma_turn_wf(old(self)@, direction);
        }
    }

    /// What the world wants drawn: `Some(size)` while it waits for a reward
    /// cell, to be drawn below `size`, and `None` otherwise.
    pub fn reward_request(&self) -> (request: Option<usize>)
        ensures
            self@.reward_due ==> index_of(request) == Some(self@.size),
            !self@.reward_due ==> request is None,
    {
        if self.reward_due {
            Some(self.size)
        } else {
            None
        }
    }

    /// Decides on a cell drawn for the reward: `Some(drawn)` if it lies below
    /// `max` and off `snake_body`, `None` if another has to be drawn.
    pub fn gen_reward_cell(
        max: usize,
        snake_body: &Vec<SnakeCell>,
        drawn: usize,
    ) -> (cell: Option<usize>)
        ensures
            is_free(max as int, cell_indices(snake_body@), drawn as int) ==> cell == Some(drawn),
            !is_free(max as int, cell_indices(snake_body@), drawn as int) ==> cell is None,
    {
        proof {
            lemma_cell_indices_contains(snake_body@, SnakeCell(drawn));
            assert(snake_body@.skip(0) == snake_body@);
        }
        if drawn < max && !contains_cell(snake_body, 0, SnakeCell(drawn)) {
            Some(drawn)
        } else {
            None
        }
    }

    /// Offers `drawn` as the reward cell. It is taken, and `true` returned, if
    /// a reward is due and `drawn` is a cell of the board that the snake does
    /// not lie on. Otherwise nothing changes.
    pub fn place_reward(&mut self, drawn: usize) -> (placed: bool)
        requires
            old(self).wf(),
        ensures
            final(self).wf(),
            final(self)@ == old(self)@.offer(drawn as int),
            placed == old(self)@.accepts(drawn as int),
    {
        if !self.reward_due {
            return false;
        }
        match World::gen_reward_cell(self.size, &self.snake.body, drawn) {
            Some(cell) => {
                self.reward_cell = Some(cell);
                self.reward_due = false;
                proof {
                    lemma_offer_wf(old(self)@, drawn as int);
                }
                true
            },
            None => false,
        }
    }

    /// Advances the game by one tick. Only a game that is being played moves:
    /// the head goes to its next cell and the body follows. Running into the
    /// body loses the game. Reaching the reward scores a point and grows the
    /// snake by one segment; the world then asks for a new reward, or, with
    /// no room left on the board, the game is won.
    pub fn step(&mut self)
        requires
            old(self).wf(),
        ensures
            final(self).wf(),
            final(self)@ == old(self)@.step(),
    {
        proof {
            lemma_step_wf(old(self)@);
        }
        match self.status {
            Some(GameStatus::Played) => {
                let head: SnakeCell = match self.next_cell {
                    Some(cell) => cell,
                    None => self.gen_next_snake_cell(&self.snake.direction),
                };
                self.next_cell = None;
                let ghost before = self.snake.body@;
                self.snake.advance(head);
                proof {
                    assert(cell_indices(self.snake.body@) == old(self)@.moved_body());
                    assert(self.snake.body@.skip(1) == before.drop_last());
                    assert(cell_indices(before.drop_last()) == cell_indices(before).drop_last());
                    lemma_cell_indices_contains(before.drop_last(), head);
                }
                if contains_cell(&self.snake.body, 1, head) {
                    self.status = Some(GameStatus::Lost);
                }
                if self.reward_cell == Some(head.0) {
                    let length: usize = self.snake.body.len();
                    assert(self.points + 3 == length);
                    self.points += 1;
                    if length < self.size {
                        self.reward_due = true;
                    } else {
                        self.status = Some(GameStatus::Won);
                    }
                    self.reward_cell = None;
                    let tail: SnakeCell = self.snake.body[length - 2];
                    let ghost grown = self.snake.body@;
                    self.snake.body.push(tail);
                    proof {
                        assert(cell_indices(grown.push(tail)) == cell_indices(grown).push(
                            tail.0 as int,
                        ));
                    }
                }
            },
            _ => {},
        }
    }
}

} // verus!
