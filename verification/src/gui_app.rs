//! What the graphical front end offers: the buttons for each status, with the action that
//! each sends, and the cells that it outlines as legal moves. Laying out and painting the
//! board is left to that front end.

use vstd::prelude::*;

use crate::board::rules::available_moves;
use crate::board::{Player, Position};
use crate::game::{Action, Game, Play, Status};

verus! {

/// A button below the board.
#[derive(Clone, Copy, Debug, PartialEq, Eq, Structural)]
pub enum Control {
    Initialize,
    Quit,
    Prev,
    Next,
    BackToGame,
    ContinueSkipped,
    History,
}

/// The buttons shown in status `s`, in order, each with the action that a click sends:
/// none outside play; otherwise initialize, quit (only in a native window), then the
/// history's steps and the way back while looking through it, the way on after a
/// skipped turn, or the way into the history.
pub open spec fn spec_controls(s: Status, native: bool) -> Seq<(Control, Action)> {
    match s {
        Status::Play(play) => {
            let head = if native {
                seq![(Control::Initialize, Action::RequestInit), (Control::Quit, Action::RequestQuit)]
            } else {
                seq![(Control::Initialize, Action::RequestInit)]
            };
            head + match play {
                Play::History => seq![
                    (Control::Prev, Action::HistoryPrev),
                    (Control::Next, Action::HistoryNext),
                    (Control::BackToGame, Action::Select),
                ],
                Play::Skipped => seq![
                    (Control::ContinueSkipped, Action::Select),
                    (Control::History, Action::EnterHistory),
                ],
                _ => seq![(Control::History, Action::EnterHistory)],
            }
        },
        _ => Seq::empty(),
    }
}

pub fn controls(s: Status, native: bool) -> (v: Vec<(Control, Action)>)
    ensures
        v@ == spec_controls(s, native),
{
    let mut v: Vec<(Control, Action)> = Vec::new();
    match s {
        Status::Play(play) => {
            v.push((Control::Initialize, Action::RequestInit));
            if native {
                v.push((Control::Quit, Action::RequestQuit));
            }
            match play {
                Play::History => {
                    v.push((Control::Prev, Action::HistoryPrev));
                    v.push((Control::Next, Action::HistoryNext));
                    v.push((Control::BackToGame, Action::Select));
                },
                Play::Skipped => {
                    v.push((Control::ContinueSkipped, Action::Select));
                    v.push((Control::History, Action::EnterHistory));
                },
                _ => {
                    v.push((Control::History, Action::EnterHistory));
                },
            }
        },
        _ => {},
    }
    assert(v@ =~= spec_controls(s, native));
    v
}

/// The cells outlined as legal moves: where the current player may put a stone, when
/// the outline is switched on and a turn is being played; otherwise none.
pub fn outlined_cells(game: &Game, show_legal: bool) -> (v: Vec<Position>)
    requires
        game.wf(),
    ensures
        show_legal && game@.current_status == Status::Play(Play::Turn) ==> {
            &&& v@.to_set() == available_moves(game@.board, game@.current_player).dom()
            &&& v@.no_duplicates()
        },
        !(show_legal && game@.current_status == Status::Play(Play::Turn)) ==> v@ == Seq::<Position>::empty(),
{
    if show_legal && game.current_status() == Status::Play(Play::Turn) {
        let p: Player = game.current_player();
        let a = game.availables();
        let m = a.get(p);
        proof {
            assert(a.of(p) == available_moves(game@.board, p));
            assert(m@ == a.of(p));
        }
        m.keys()
    } else {
        Vec::new()
    }
}

} // verus!
