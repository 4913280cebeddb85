use vstd::prelude::*;

verus! {

/// Why a board, a display or a game could not be made from the given settings.
#[derive(Clone, Debug, PartialEq, Eq)]
pub enum TriversiError {
    /// The number of positions on one edge is below 5 or is 1 modulo 3.
    InvalidBoardRange(usize),
    /// The distance between positions is below 2 or above the display's maximum.
    InvalidBoardDistance(usize),
    /// The player names do not split into three by `,`.
    InvalidStringForPlayerNames(String),
    /// The player marks do not split into three non-empty names starting with ASCII.
    InvalidStringForPlayerMarks(String),
}

} // verus!
