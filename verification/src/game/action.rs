use vstd::prelude::*;

use crate::board::Position;

verus! {

/// A command for the game, whatever device it came from.
#[derive(Clone, Copy, Debug, PartialEq, Eq)]
pub enum Action {
    MoveUp,
    MoveDown,
    MoveLeft,
    MoveRight,
    Select,
    /// Selects a position directly, without moving the cursor there step by step.
    SelectAt(Position),
    RequestInit,
    RequestQuit,
    Confirm,
    Cancel,
    EnterHistory,
    HistoryPrev,
    HistoryNext,
}

} // verus!
