//! Actions the bot hands to the game.
use vstd::prelude::*;

verus! {

/// One action. Rotation is in millionths of a radian, movement in millionths
/// of a cell side.
#[derive(Clone, Copy, Debug, PartialEq, Eq, Structural)]
pub enum Decision {
    Movement { rotation: i64, forward_diff: i64, lateral_diff: i64 },
    Attack { target_handle: usize },
    Activate { column: usize, line: usize },
    Throw,
}

/// A decision together with the handle of the entity that carries it out.
#[derive(Clone, Copy, Debug, PartialEq, Eq, Structural)]
pub struct DecisionCommit {
    pub entity_handle: usize,
    pub decision: Decision,
}

impl Decision {
    pub fn movement(rotation: i64, forward_diff: i64, lateral_diff: i64) -> (r: Decision)
        ensures
            r == (Decision::Movement { rotation, forward_diff, lateral_diff }),
    {
        Decision::Movement { rotation, forward_diff, lateral_diff }
    }

    pub fn attack(target_handle: usize) -> (r: Decision)
        ensures
            r == (Decision::Attack { target_handle }),
    {
        Decision::Attack { target_handle }
    }

    pub fn activate(column: usize, line: usize) -> (r: Decision)
        ensures
            r == (Decision::Activate { column, line }),
    {
        Decision::Activate { column, line }
    }

    pub fn throw() -> (r: Decision)
        ensures
            r == Decision::Throw,
    {
        Decision::Throw
    }

    pub fn commit(self, entity_handle: usize) -> (r: DecisionCommit)
        ensures
            r == (DecisionCommit { entity_handle, decision: self }),
    {
        DecisionCommit { entity_handle, decision: self }
    }
}

} // verus!
