use vstd::prelude::*;

verus! {

/// Feedback for one letter slot. Ordered for hint upgrades:
/// `Empty < Absent < Present < Correct`.
#[derive(Debug, Clone, Copy, PartialEq, Eq, Structural)]
pub enum CellState {
    /// Not yet scored.
    Empty,
    /// The letter does not occur (or no further copy occurs) in the secret.
    Absent,
    /// The letter occurs in the secret at another position.
    Present,
    /// The letter stands at this position in the secret.
    Correct,
}

/// The rank of a state in the upgrade order.
pub open spec fn rank(s: CellState) -> nat {
    match s {
        CellState::Empty => 0,
        CellState::Absent => 1,
        CellState::Present => 2,
        CellState::Correct => 3,
    }
}

/// The higher-ranked of two states.
pub open spec fn max_state(a: CellState, b: CellState) -> CellState {
    if rank(a) >= rank(b) {
        a
    } else {
        b
    }
}

/// Raises `cell` to `state` when `state` ranks higher; never lowers it.
pub fn promote_cell_state(cell: &mut CellState, state: CellState)
    ensures
        *final(cell) == max_state(*old(cell), state),
{
    match state {
        CellState::Empty => {},
        CellState::Absent => {
            if matches!(*cell, CellState::Empty) {
                *cell = state;
            }
        },
        CellState::Present => {
            if matches!(*cell, CellState::Empty | CellState::Absent) {
                *cell = state;
            }
        },
        CellState::Correct => {
            *cell = state;
        },
    }
}

/// One letter slot: a letter (or `' '` when blank) and its feedback.
#[derive(Debug, Clone, Copy, PartialEq, Eq, Structural)]
pub struct WordleCell {
    pub state: CellState,
    pub letter: char,
}

/// A blank, unscored cell.
pub open spec fn blank_cell() -> WordleCell {
    WordleCell { state: CellState::Empty, letter: ' ' }
}

impl WordleCell {
    /// A keyboard key for letter `c`, with no hint yet.
    pub fn keyboard(c: char) -> (r: Self)
        ensures
            r == (WordleCell { state: CellState::Empty, letter: c }),
    {
        WordleCell { state: CellState::Empty, letter: c }
    }

    /// A blank, unscored cell.
    pub fn blank() -> (r: Self)
        ensures
            r == blank_cell(),
    {
        WordleCell { state: CellState::Empty, letter: ' ' }
    }
}

impl Default for WordleCell {
    fn default() -> (r: Self)
        ensures
            r == blank_cell(),
    {
        WordleCell::blank()
    }
}

} // verus!
