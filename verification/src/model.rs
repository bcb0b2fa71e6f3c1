//! The game as mathematics: the state of a world and what each operation makes
//! of it. The executable [`World`](crate::world::World) is specified against
//! these functions.

use crate::grid::{lemma_neighbor_on_board, neighbor, on_board, Direction};
use vstd::prelude::*;

verus! {

/// How a game stands once it has been started.
#[derive(Clone, Copy, Debug, PartialEq, Eq, Structural)]
pub enum GameStatus {
    Won,
    Lost,
    Played,
}

/// The line of text that goes with a status.
pub open spec fn status_text(status: Option<GameStatus>) -> Seq<char> {
    match status {
        Some(GameStatus::Won) => "You have won!"@,
        Some(GameStatus::Lost) => "You have lost!"@,
        Some(GameStatus::Played) => "Playing!"@,
        None => "No Status"@,
    }
}

/// A cell index held by the program, as the model sees it.
pub open spec fn index_of(cell: Option<usize>) -> Option<int> {
    match cell {
        Some(index) => Some(index as int),
        None => None,
    }
}

/// Whether `cell` is one of `size` cells and none of `body` lies on it.
pub open spec fn is_free(size: int, body: Seq<int>, cell: int) -> bool {
    0 <= cell < size && !body.contains(cell)
}

/// The number of segments a snake is born with.
pub open spec fn initial_length() -> int {
    3
}

/// The state of a world.
pub struct WorldModel {
    /// Side of the board.
    pub width: int,
    /// Number of cells of the board.
    pub size: int,
    /// The cells the snake lies on, head first.
    pub body: Seq<int>,
    /// The way the snake faces.
    pub direction: Direction,
    /// The cell that a change of direction has fixed for the next move.
    pub pending: Option<int>,
    /// The cell that holds the reward.
    pub reward: Option<int>,
    /// Whether the world waits for the host to draw a new reward cell.
    pub reward_due: bool,
    /// `None` until the game is started.
    pub status: Option<GameStatus>,
    /// Rewards eaten so far.
    pub points: int,
}

impl WorldModel {
    /// What holds of every world that the operations can reach.
    pub open spec fn wf(self) -> bool {
        &&& self.width > 0
        &&& self.size == self.width * self.width
        &&& self.points >= 0
        &&& self.body.len() == self.points + initial_length()
        &&& forall|i: int| 0 <= i < self.body.len() ==> on_board(self.width, #[trigger] self.body[i])
        &&& self.pending matches Some(cell) ==> cell == neighbor(
            self.width,
            self.body[0],
            self.direction,
        )
        &&& self.reward matches Some(cell) ==> on_board(self.width, cell) && !self.body.contains(
            cell,
        )
        &&& self.reward_due ==> self.reward is None
    }

    /// The world right after construction: three segments in a row that end
    /// on `spawn` and face right, no reward yet, the game not started.
    pub open spec fn initial(width: int, spawn: int) -> WorldModel {
        WorldModel {
            width,
            size: width * width,
            body: seq![spawn, spawn - 1, spawn - 2],
            direction: Direction::Right,
            pending: None,
            reward: None,
            reward_due: true,
            status: None,
            points: 0,
        }
    }

    /// Whether a cell drawn by the host becomes the reward: one is due, and
    /// the cell is on the board and free of the snake.
    pub open spec fn accepts(self, drawn: int) -> bool {
        self.reward_due && is_free(self.size, self.body, drawn)
    }

    /// The world after the host has offered `drawn` as the reward cell.
    pub open spec fn offer(self, drawn: int) -> WorldModel {
        if self.accepts(drawn) {
            WorldModel { reward: Some(drawn), reward_due: false, ..self }
        } else {
            self
        }
    }

    /// The world after the game is started, or started again.
    pub open spec fn start(self) -> WorldModel {
        WorldModel { status: Some(GameStatus::Played), ..self }
    }

    /// Whether turning to `direction` would send the head straight back onto
    /// the segment behind it.
    pub open spec fn reverses(self, direction: Direction) -> bool {
        neighbor(self.width, self.body[0], direction) == self.body[1]
    }

    /// The world after a request to turn to `direction`: unchanged if that
    /// reverses the snake, else facing `direction` with the next move fixed.
    pub open spec fn turn(self, direction: Direction) -> WorldModel {
        if self.reverses(direction) {
            self
        } else {
            WorldModel {
                pending: Some(neighbor(self.width, self.body[0], direction)),
                direction,
                ..self
            }
        }
    }

    /// The cell that the head moves to at the next tick.
    pub open spec fn next_head(self) -> int {
        match self.pending {
            Some(cell) => cell,
            None => neighbor(self.width, self.body[0], self.direction),
        }
    }

    /// The body after one move: the new head, then every segment but the last.
    pub open spec fn moved_body(self) -> Seq<int> {
        seq![self.next_head()] + self.body.drop_last()
    }

    /// Whether the next move runs the head into a segment that stays on the
    /// board, that is into any segment but the last, which moves away.
    pub open spec fn hits_itself(self) -> bool {
        self.body.drop_last().contains(self.next_head())
    }

    /// Whether the next move brings the head onto the reward.
    pub open spec fn eats(self) -> bool {
        self.reward == Some(self.next_head())
    }

    /// Whether the board has more cells than the snake has segments.
    pub open spec fn has_room(self) -> bool {
        self.body.len() < self.size
    }

    /// The world after one tick. Only a game that is being played moves.
    pub open spec fn step(self) -> WorldModel {
        if self.status != Some(GameStatus::Played) {
            self
        } else {
            let moved = self.moved_body();
            if self.eats() {
                WorldModel {
                    body: moved.push(moved[moved.len() - 2]),
                    pending: None,
                    reward: None,
                    reward_due: self.has_room(),
                    status: if !self.has_room() {
                        Some(GameStatus::Won)
                    } else if self.hits_itself() {
                        Some(GameStatus::Lost)
                    } else {
                        Some(GameStatus::Played)
                    },
                    points: self.points + 1,
                    ..self
                }
            } else {
                WorldModel {
                    body: moved,
                    pending: None,
                    status: if self.hits_itself() {
                        Some(GameStatus::Lost)
                    } else {
                        Some(GameStatus::Played)
                    },
                    ..self
                }
            }
        }
    }
}

/// A freshly constructed world is well formed.
pub proof fn lemma_initial_wf(width: int, spawn: int)
    requires
        width > 0,
        2 <= spawn < width * width,
    ensures
        WorldModel::initial(width, spawn).wf(),
{
}

/// Offering a reward cell keeps a world well formed.
pub proof fn lemma_offer_wf(world: WorldModel, drawn: int)
    requires
        world.wf(),
    ensures
        world.offer(drawn).wf(),
{
}

/// Starting the game keeps a world well formed.
pub proof fn lemma_start_wf(world: WorldModel)
    requires
        world.wf(),
    ensures
        world.start().wf(),
{
}

/// A request to turn keeps a world well formed.
pub proof fn lemma_turn_wf(world: WorldModel, direction: Direction)
    requires
        world.wf(),
    ensures
        world.turn(direction).wf(),
{
}

/// The head's next cell is on the board.
pub proof fn lemma_next_head_on_board(world: WorldModel)
    requires
        world.wf(),
    ensures
        on_board(world.width, world.next_head()),
{
    lemma_neighbor_on_board(world.width, world.body[0], world.direction);
}

/// A tick keeps a world well formed.
pub proof fn lemma_step_wf(world: WorldModel)
    requires
        world.wf(),
    ensures
        world.step().wf(),
{
    lemma_next_head_on_board(world);
    let moved = world.moved_body();
    assert forall|i: int| 0 <= i < moved.len() implies on_board(world.width, #[trigger] moved[i]) by {
        if i > 0 {
            assert(moved[i] == world.body[i - 1]);
        }
    }
    if world.status == Some(GameStatus::Played) && !world.eats() {
        if let Some(cell) = world.reward {
            assert(!moved.contains(cell)) by {
                if moved.contains(cell) {
                    let i = choose|i: int| 0 <= i < moved.len() && moved[i] == cell;
                    assert(i > 0);
                    assert(world.body[i - 1] == cell);
                }
            }
        }
    }
}

} // verus!
