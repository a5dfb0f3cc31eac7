use super::tile::{TileProducer, TileShape};
use vstd::prelude::*;

verus! {

/// The phase of the game-rules engine, named after the engine's own states.
#[derive(Debug, Clone, Copy, PartialEq, Eq, Structural)]
pub enum Phase {
    TileNeeded,
    TileFloating,
    ProcessRows,
}

/// Which of its two results a state transition of the engine returned.
/// `Left` is the first alternative the engine names: the tile still
/// descends, rows remain to process, or a placed tile now floats. `Right` is
/// the second: the tile landed, row processing ended, or the tile could not
/// be placed because the board is full.
#[derive(Debug, Clone, Copy, PartialEq, Eq, Structural)]
pub enum Branch {
    Left,
    Right,
}

/// The engine operation that a timer tick asks for.
#[derive(Debug, Clone, Copy, PartialEq, Eq, Structural)]
pub enum TickCall {
    DescendTile,
    ProcessRow,
    PlaceTile(TileShape),
}

/// A single-step horizontal move of the floating tile.
#[derive(Debug, Clone, Copy, PartialEq, Eq, Structural)]
pub enum Direction {
    Left,
    Right,
}

/// The engine operation that a tick asks for in `phase`, given the shape that
/// the producer would hand out.
pub open spec fn tick_call_for(phase: Phase, upcoming: TileShape) -> TickCall {
    match phase {
        Phase::TileFloating => TickCall::DescendTile,
        Phase::ProcessRows => TickCall::ProcessRow,
        Phase::TileNeeded => TickCall::PlaceTile(upcoming),
    }
}

/// The phase after the engine answered the tick operation of `phase`. A
/// game over while placing a tile restarts the game with a new tile, so the
/// game is floating a tile again.
pub open spec fn phase_after_tick(phase: Phase, answer: Branch) -> Phase {
    match (phase, answer) {
        (Phase::TileFloating, Branch::Left) => Phase::TileFloating,
        (Phase::TileFloating, Branch::Right) => Phase::ProcessRows,
        (Phase::ProcessRows, Branch::Left) => Phase::ProcessRows,
        (Phase::ProcessRows, Branch::Right) => Phase::TileNeeded,
        (Phase::TileNeeded, _) => Phase::TileFloating,
    }
}

/// Whether the engine's answer to the tick operation of `phase` is a game
/// over.
pub open spec fn is_game_over(phase: Phase, answer: Branch) -> bool {
    phase == Phase::TileNeeded && answer == Branch::Right
}

/// The game's state: the engine's phase and the tile producer.
enum State<P> {
    TileNeeded(P),
    TileFloating(P),
    ProcessRows(P),
}

impl<P: TileProducer> State<P> {
    spec fn phase(&self) -> Phase {
        match self {
            State::TileNeeded(_) => Phase::TileNeeded,
            State::TileFloating(_) => Phase::TileFloating,
            State::ProcessRows(_) => Phase::ProcessRows,
        }
    }

    spec fn producer(&self) -> P {
        match self {
            State::TileNeeded(p) => *p,
            State::TileFloating(p) => *p,
            State::ProcessRows(p) => *p,
        }
    }

    fn tick_call(self) -> (r: (State<P>, TickCall))
        ensures
            r.0.phase() == self.phase(),
            r.1 == tick_call_for(self.phase(), self.producer().upcoming()),
            self.phase() == Phase::TileNeeded ==> r.0.producer() == self.producer().advanced(),
            self.phase() != Phase::TileNeeded ==> r.0.producer() == self.producer(),
    {
        match self {
            State::TileFloating(p) => (State::TileFloating(p), TickCall::DescendTile),
            State::ProcessRows(p) => (State::ProcessRows(p), TickCall::ProcessRow),
            State::TileNeeded(mut p) => {
                let shape = p.generate_tile();
                (State::TileNeeded(p), TickCall::PlaceTile(shape))
            },
        }
    }

    fn tick_done(self, answer: Branch) -> (r: (State<P>, Option<TileShape>))
        ensures
            r.0.phase() == phase_after_tick(self.phase(), answer),
            is_game_over(self.phase(), answer) ==> r.1 == Some(self.producer().upcoming())
                && r.0.producer() == self.producer().advanced(),
            !is_game_over(self.phase(), answer) ==> r.1 is None && r.0.producer()
                == self.producer(),
    {
        match self {
            State::TileFloating(p) => match answer {
                Branch::Left => (State::TileFloating(p), None),
                Branch::Right => (State::ProcessRows(p), None),
            },
            State::ProcessRows(p) => match answer {
                Branch::Left => (State::ProcessRows(p), None),
                Branch::Right => (State::TileNeeded(p), None),
            },
            State::TileNeeded(mut p) => match answer {
                Branch::Left => (State::TileFloating(p), None),
                Branch::Right => {
                    let shape = p.generate_tile();
                    (State::TileFloating(p), Some(shape))
                },
            },
        }
    }
}

/// Drives the game: decides, for each event, which operation the game-rules
/// engine performs, and follows the engine's phase from its answers. The
/// engine itself stays with the caller, which performs each operation and
/// hands the answer back.
pub struct GameDriver<P> {
    s: Option<State<P>>,
}

impl<P: TileProducer> GameDriver<P> {
    /// The state is present at every moment a caller can observe.
    pub closed spec fn wf(&self) -> bool {
        self.s is Some
    }

    pub closed spec fn phase(&self) -> Phase {
        self.s->Some_0.phase()
    }

    pub closed spec fn producer(&self) -> P {
        self.s->Some_0.producer()
    }

    /// A driver for a fresh game, and the shape of the first tile to place on
    /// it; a first tile never ends the game, so the game floats a tile.
    pub fn new(producer: P) -> (r: (Self, TileShape))
        ensures
            r.0.wf(),
            r.0.phase() == Phase::TileFloating,
            r.1 == producer.upcoming(),
            r.0.producer() == producer.advanced(),
    {
        let mut producer = producer;
        let shape = producer.generate_tile();
        (GameDriver { s: Some(State::TileFloating(producer)) }, shape)
    }

    /// The engine operation for a timer tick. Placing a tile draws its shape
    /// from the producer.
    pub fn tick_call(&mut self) -> (r: TickCall)
        requires
            old(self).wf(),
        ensures
            final(self).wf(),
            final(self).phase() == old(self).phase(),
            r == tick_call_for(old(self).phase(), old(self).producer().upcoming()),
            old(self).phase() == Phase::TileNeeded
                ==> final(self).producer() == old(self).producer().advanced(),
            old(self).phase() != Phase::TileNeeded
                ==> final(self).producer() == old(self).producer(),
    {
        let state = self.s.take();
        match state {
            Some(st) => {
                let (next, call) = st.tick_call();
                self.s = Some(next);
                call
            },
            None => {
                proof {
                    assert(false);
                }
                TickCall::DescendTile
            },
        }
    }

    /// Takes the engine's answer to the operation of [`GameDriver::tick_call`].
    /// On a game over it returns the shape of the tile that starts the next
    /// game: the caller replaces the engine with a fresh one, moves the
    /// board-changed subscriber over to it, and places that tile.
    pub fn tick_done(&mut self, answer: Branch) -> (r: Option<TileShape>)
        requires
            old(self).wf(),
        ensures
            final(self).wf(),
            final(self).phase() == phase_after_tick(old(self).phase(), answer),
            is_game_over(old(self).phase(), answer) ==> final(self).phase() == Phase::TileFloating,
            is_game_over(old(self).phase(), answer) ==> r == Some(old(self).producer().upcoming())
                && final(self).producer() == old(self).producer().advanced(),
            !is_game_over(old(self).phase(), answer)
                ==> r is None && final(self).producer() == old(self).producer(),
    {
        let state = self.s.take();
        match state {
            Some(st) => {
                let (next, restart) = st.tick_done(answer);
                self.s = Some(next);
                restart
            },
            None => {
                proof {
                    assert(false);
                }
                None
            },
        }
    }

    /// Whether a rotation request goes to the engine: only while a tile
    /// floats. The engine ignores a rotation that would collide, and the
    /// driver's state stays as it is in either case.
    pub fn rotate(&self) -> (r: bool)
        requires
            self.wf(),
        ensures
            r == (self.phase() == Phase::TileFloating),
    {
        match &self.s {
            Some(State::TileFloating(_)) => true,
            _ => false,
        }
    }

    /// The single-step moves that bring the floating tile from `tile_column`
    /// to `column`. Outside of `TileFloating` there is none.
    pub fn move_to(&self, column: u8, tile_column: u8) -> (r: MovePlan)
        requires
            self.wf(),
        ensures
            r.direction() == (if column < tile_column {
                Direction::Left
            } else {
                Direction::Right
            }),
            self.phase() == Phase::TileFloating ==> r.remaining() == distance(column, tile_column),
            self.phase() != Phase::TileFloating ==> r.remaining() == 0,
    {
        let direction = if column < tile_column {
            Direction::Left
        } else {
            Direction::Right
        };
        let steps: u8 = if column < tile_column {
            tile_column - column
        } else {
            column - tile_column
        };
        match &self.s {
            Some(State::TileFloating(_)) => MovePlan { direction, remaining: steps },
            _ => MovePlan { direction, remaining: 0 },
        }
    }
}

/// `|c - k|`.
pub open spec fn distance(c: u8, k: u8) -> nat {
    if c < k {
        (k - c) as nat
    } else {
        (c - k) as nat
    }
}

/// The steps that remain of a move after the engine answered one step.
pub open spec fn remaining_after(remaining: nat, accepted: bool) -> nat {
    if accepted {
        (remaining - 1) as nat
    } else {
        0
    }
}

/// How many steps a move with `remaining` steps asks the engine for, when the
/// engine answers them with `answers` in order.
pub open spec fn steps_issued(remaining: nat, answers: Seq<bool>) -> nat
    decreases answers.len(),
{
    if remaining == 0 || answers.len() == 0 {
        0
    } else {
        1 + steps_issued(remaining_after(remaining, answers[0]), answers.drop_first())
    }
}

/// A move of `n` steps asks for all `n` while the engine accepts them, and
/// for none after the first step that the engine rejects.
pub proof fn lemma_move_steps(n: nat, answers: Seq<bool>)
    requires
        answers.len() >= n,
    ensures
        (forall|i: int| 0 <= i < n ==> answers[i]) ==> steps_issued(n, answers) == n,
        forall|j: int|
            0 <= j < n && !answers[j] && (forall|i: int| 0 <= i < j ==> answers[i])
                ==> steps_issued(n, answers) == j + 1,
    decreases n,
{
    if n > 0 {
        let rest = answers.drop_first();
        lemma_move_steps((n - 1) as nat, rest);
        assert forall|j: int|
            0 <= j < n && !answers[j] && (forall|i: int| 0 <= i < j ==> answers[i]) implies steps_issued(
                n,
                answers,
            ) == j + 1 by {
            if j > 0 {
                assert(answers[0]);
                assert(!rest[j - 1]);
                assert forall|i: int| 0 <= i < j - 1 implies rest[i] by {
                    assert(answers[i + 1]);
                }
            } else {
                assert(steps_issued(0, rest) == 0);
            }
        }
        if forall|i: int| 0 <= i < n ==> answers[i] {
            assert(answers[0]);
            assert forall|i: int| 0 <= i < n - 1 implies rest[i] by {
                assert(answers[i + 1]);
            }
        }
    }
}

/// The moves that remain of a `move_to`: single steps in one direction,
/// issued one at a time, until none remain or the engine rejects one.
pub struct MovePlan {
    direction: Direction,
    remaining: u8,
}

impl MovePlan {
    pub closed spec fn direction(&self) -> Direction {
        self.direction
    }

    pub closed spec fn remaining(&self) -> nat {
        self.remaining as nat
    }

    /// The step to ask the engine for next, if any remains.
    pub fn next_step(&self) -> (r: Option<Direction>)
        ensures
            self.remaining() > 0 ==> r == Some(self.direction()),
            self.remaining() == 0 ==> r is None,
    {
        if self.remaining > 0 {
            Some(self.direction)
        } else {
            None
        }
    }

    /// Takes the engine's answer to the step of [`MovePlan::next_step`]: an
    /// accepted step uses it up, and a rejected one ends the move where the
    /// tile stands.
    pub fn record(&mut self, accepted: bool)
        requires
            old(self).remaining() > 0,
        ensures
            final(self).direction() == old(self).direction(),
            final(self).remaining() == remaining_after(old(self).remaining(), accepted),
    {
        if accepted {
            self.remaining = self.remaining - 1;
        } else {
            self.remaining = 0;
        }
    }
}

} // verus!
