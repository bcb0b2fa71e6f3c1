//! What holds of every game, proved from the model.

use crate::grid::{neighbor, Direction};
use crate::model::{
    is_free, lemma_initial_wf, lemma_offer_wf, lemma_step_wf, GameStatus, WorldModel,
};
use vstd::prelude::*;
use vstd::seq_lib::seq_to_set_is_finite;
use vstd::set_lib::{lemma_int_range, lemma_len_subset, set_int_range};

verus! {

/// A new world holds a snake of three segments, the head on `spawn` and
/// each further segment on the cell before, facing right. It has no reward
/// until one is offered, and a reward that it takes lies off the snake.
pub proof fn lemma_new_world(width: int, spawn: int, drawn: int)
    requires
        width > 0,
        2 <= spawn < width * width,
    ensures
        WorldModel::initial(width, spawn).wf(),
        WorldModel::initial(width, spawn).body.len() == 3,
        WorldModel::initial(width, spawn).body[0] == spawn,
        forall|i: int|
            0 < i < 3 ==> #[trigger] WorldModel::initial(width, spawn).body[i]
                == WorldModel::initial(width, spawn).body[i - 1] - 1,
        WorldModel::initial(width, spawn).direction == Direction::Right,
        WorldModel::initial(width, spawn).reward is None,
        WorldModel::initial(width, spawn).offer(drawn).body == WorldModel::initial(
            width,
            spawn,
        ).body,
        WorldModel::initial(width, spawn).offer(drawn).reward matches Some(cell)
            ==> cell == drawn && !WorldModel::initial(width, spawn).body.contains(cell),
{
    lemma_initial_wf(width, spawn);
}

/// The reward never lies on the snake, whatever is offered and however the
/// game goes on.
pub proof fn lemma_reward_off_snake(world: WorldModel, drawn: int, direction: Direction)
    requires
        world.wf(),
    ensures
        world.reward matches Some(cell) ==> !world.body.contains(cell),
        world.offer(drawn).reward matches Some(cell) ==> !world.offer(drawn).body.contains(cell),
        world.turn(direction).reward matches Some(cell) ==> !world.turn(direction).body.contains(
            cell,
        ),
        world.start().reward matches Some(cell) ==> !world.start().body.contains(cell),
        world.step().reward matches Some(cell) ==> !world.step().body.contains(cell),
{
    lemma_offer_wf(world, drawn);
    lemma_step_wf(world);
}

/// A snake with fewer segments than the board has cells leaves a cell free.
pub proof fn lemma_short_body_leaves_a_cell(body: Seq<int>, size: int)
    requires
        body.len() < size,
    ensures
        exists|cell: int| is_free(size, body, cell),
{
    if forall|cell: int| !is_free(size, body, cell) {
        let board = set_int_range(0, size);
        let covered = body.to_set();
        assert(board.subset_of(covered)) by {
            assert forall|cell: int| board.contains(cell) implies covered.contains(cell) by {
                assert(!is_free(size, body, cell));
            }
        }
        seq_to_set_is_finite(body);
        lemma_len_subset(board, covered);
        lemma_int_range(0, size);
        body.lemma_cardinality_of_set();
    }
}

/// The first request for a reward can be met: a new world has a cell that
/// it would take.
pub proof fn lemma_first_request_can_be_met(width: int, spawn: int)
    requires
        width > 0,
        2 <= spawn < width * width,
    ensures
        exists|cell: int| WorldModel::initial(width, spawn).accepts(cell),
{
    let world = WorldModel::initial(width, spawn);
    assert(width * width >= 4) by (nonlinear_arith)
        requires
            width > 0,
            2 < width * width,
    ;
    lemma_short_body_leaves_a_cell(world.body, world.size);
    let cell = choose|cell: int| is_free(world.size, world.body, cell);
    assert(world.accepts(cell));
}

/// Every later request can be met when it is made: after a tick that eats
/// and asks for a new reward, the world has a cell that it would take.
pub proof fn lemma_request_can_be_met(world: WorldModel)
    requires
        world.wf(),
        world.status == Some(GameStatus::Played),
        world.eats(),
        world.has_room(),
    ensures
        world.step().reward_due,
        exists|cell: int| world.step().accepts(cell),
{
    let moved = world.moved_body();
    let grown = world.step().body;
    lemma_short_body_leaves_a_cell(moved, world.size);
    let cell = choose|cell: int| is_free(world.size, moved, cell);
    assert(!grown.contains(cell)) by {
        if grown.contains(cell) {
            let i = choose|i: int| 0 <= i < grown.len() && grown[i] == cell;
            if i < moved.len() {
                assert(moved[i] == cell);
            } else {
                assert(moved[moved.len() - 2] == cell);
            }
        }
    }
    assert(world.step().accepts(cell));
}

/// A game that is not being played stands still: a tick changes nothing
/// before the start, after a loss and after a win.
pub proof fn lemma_idle_world_stands_still(world: WorldModel)
    requires
        world.status != Some(GameStatus::Played),
    ensures
        world.step() == world,
{
}

/// The game is lost exactly by the tick that moves the head onto a segment
/// which stays on the board. A lost game moves no more.
pub proof fn lemma_collision_loses(world: WorldModel)
    requires
        world.wf(),
        world.status == Some(GameStatus::Played),
    ensures
        world.hits_itself() <==> world.step().status == Some(GameStatus::Lost),
        world.hits_itself() ==> world.step().step() == world.step(),
        world.hits_itself() ==> world.step().body == world.moved_body(),
{
    if world.hits_itself() && world.eats() {
        let head = world.next_head();
        let kept = world.body.drop_last();
        let i = choose|i: int| 0 <= i < kept.len() && kept[i] == head;
        assert(world.body[i] == head);
    }
}

/// Eating the reward scores one point and adds one segment, and nothing
/// else does. The reward is gone from its cell; a reward that is then
/// offered and taken lies off the grown snake.
pub proof fn lemma_eating_grows(world: WorldModel, drawn: int)
    requires
        world.wf(),
        world.status == Some(GameStatus::Played),
    ensures
        world.eats() ==> world.step().body.len() == world.body.len() + 1,
        world.eats() ==> world.step().points == world.points + 1,
        world.eats() ==> world.step().reward is None,
        world.eats() ==> world.step().reward_due == world.has_room(),
        !world.eats() ==> world.step().body.len() == world.body.len(),
        !world.eats() ==> world.step().points == world.points,
        !world.eats() ==> world.step().reward == world.reward,
        world.step().offer(drawn).body == world.step().body,
        world.step().offer(drawn).reward matches Some(cell) ==> !world.step().body.contains(cell),
{
    lemma_step_wf(world);
    lemma_offer_wf(world.step(), drawn);
}

/// The game is won exactly by the tick at which a snake with as many
/// segments as the board has cells, or more, eats the reward. No reward is
/// left then and none is asked for.
pub proof fn lemma_full_board_wins(world: WorldModel)
    requires
        world.wf(),
        world.status == Some(GameStatus::Played),
    ensures
        world.eats() && world.body.len() >= world.size <==> world.step().status == Some(
            GameStatus::Won,
        ),
        world.step().status == Some(GameStatus::Won) ==> world.step().reward is None
            && !world.step().reward_due,
        world.step().status == Some(GameStatus::Won) ==> world.step().step() == world.step(),
{
}

/// A turn that would send the head straight back onto the second segment
/// changes nothing: the snake keeps its direction and the move it had.
pub proof fn lemma_no_reversal(world: WorldModel, direction: Direction)
    requires
        world.reverses(direction),
    ensures
        world.turn(direction) == world,
        world.turn(direction).step() == world.step(),
{
}

/// Any other turn is taken: the snake faces the new direction and its next
/// move goes that way.
pub proof fn lemma_turn_is_taken(world: WorldModel, direction: Direction)
    requires
        !world.reverses(direction),
    ensures
        world.turn(direction).direction == direction,
        world.turn(direction).next_head() == neighbor(world.width, world.body[0], direction),
        world.turn(direction).body == world.body,
{
}

} // verus!
