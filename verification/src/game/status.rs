use vstd::prelude::*;

verus! {

/// Where the game stands.
#[derive(Clone, Copy, Debug, PartialEq, Eq, Structural)]
pub enum Status {
    Play(Play),
    AskInit,
    AskQuit,
    Quit,
}

/// The phases of play.
#[derive(Clone, Copy, Debug, PartialEq, Eq, Structural)]
pub enum Play {
    Turn,
    History,
    Skipped,
    Finished,
}

} // verus!
