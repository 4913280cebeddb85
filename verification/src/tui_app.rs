//! What a key does: it either changes the view of the board or is handed to the game.

use vstd::prelude::*;

use crate::board_display::paragraph_board::{ParagraphBoardView, MAX_DISTANCE};
use crate::board_display::{BoardDisplay, ParagraphBoard};
use crate::game::{after_dispatch, Action, Game, GameView, Play, Status};
use crate::key_binding::{
    confirmation_action, game_action, lemma_each_key_gives_its_command, spec_game_action, spec_view_action, view_action, Key,
    KeyBinding, ViewAction,
};

verus! {

/// The view after a view command.
pub open spec fn viewed(v: ParagraphBoardView, a: ViewAction) -> ParagraphBoardView {
    match a {
        ViewAction::ScrollLeft => ParagraphBoardView { offset: (v.offset.0 + 1, v.offset.1), ..v },
        ViewAction::ScrollRight => ParagraphBoardView { offset: (v.offset.0 - 1, v.offset.1), ..v },
        ViewAction::ScrollUp => ParagraphBoardView { offset: (v.offset.0, v.offset.1 + 1), ..v },
        ViewAction::ScrollDown => ParagraphBoardView { offset: (v.offset.0, v.offset.1 - 1), ..v },
        ViewAction::ScrollReset => ParagraphBoardView { offset: (0, 0), ..v },
        ViewAction::ZoomIn => ParagraphBoardView {
            distance: if v.distance < MAX_DISTANCE { v.distance + 1 } else { v.distance },
            ..v
        },
        ViewAction::ZoomOut => ParagraphBoardView {
            distance: if v.distance > 2 { (v.distance - 1) as nat } else { v.distance },
            ..v
        },
        ViewAction::ToggleFrame => ParagraphBoardView { frame_visibility: !v.frame_visibility, ..v },
    }
}

/// The offset stays within 16 bits after the command.
pub open spec fn view_action_fits(v: ParagraphBoardView, a: ViewAction) -> bool {
    match a {
        ViewAction::ScrollLeft => v.offset.0 < i16::MAX,
        ViewAction::ScrollRight => v.offset.0 > i16::MIN,
        ViewAction::ScrollUp => v.offset.1 < i16::MAX,
        ViewAction::ScrollDown => v.offset.1 > i16::MIN,
        _ => true,
    }
}

/// The view command that `key` gives in status `s`: the bound one during play,
/// except that the frame cannot be toggled while looking through the history.
pub open spec fn key_view_action(s: Status, b: KeyBinding, key: Key) -> Option<ViewAction> {
    match s {
        Status::Play(play) => match spec_view_action(b, key) {
            Some(va) => if va == ViewAction::ToggleFrame && play == Play::History {
                None
            } else {
                Some(va)
            },
            None => None,
        },
        _ => None,
    }
}

/// The action that `key` hands to the game in status `s`: the answer to a question,
/// or during play the bound game command of a key that is not a view command.
pub open spec fn key_game_action(s: Status, b: KeyBinding, key: Key) -> Option<Action> {
    match s {
        Status::AskInit | Status::AskQuit => Some(
            if key == Key::Char('Y') {
                Action::Confirm
            } else {
                Action::Cancel
            },
        ),
        Status::Play(_) => if spec_view_action(b, key) is Some {
            None
        } else {
            spec_game_action(b, key)
        },
        Status::Quit => None,
    }
}

/// Applies a view command to the board view.
pub fn apply_view_action(action: ViewAction, display: &mut ParagraphBoard)
    requires
        old(display).wf(),
        view_action_fits(old(display)@, action),
    ensures
        final(display).wf(),
        final(display)@ == viewed(old(display)@, action),
{
    match action {
        ViewAction::ScrollLeft => display.scroll_left(),
        ViewAction::ScrollRight => display.scroll_right(),
        ViewAction::ScrollUp => display.scroll_up(),
        ViewAction::ScrollDown => display.scroll_down(),
        ViewAction::ScrollReset => display.scroll_reset(),
        ViewAction::ZoomIn => display.zoom_in(),
        ViewAction::ZoomOut => display.zoom_out(),
        ViewAction::ToggleFrame => display.toggle_frame_visibility(),
    }
}

/// Whether the view command that `key` gives keeps the offset within 16 bits;
/// `handle_key` asks this of its key.
pub fn key_fits(game: &Game, display: &ParagraphBoard, binding: &KeyBinding, key: Key) -> (b: bool)
    ensures
        b == match key_view_action(game@.current_status, *binding, key) {
            Some(va) => view_action_fits(display@, va),
            None => true,
        },
{
    match game.current_status() {
        Status::Play(play) => match view_action(binding, key) {
            Some(va) => {
                if va == ViewAction::ToggleFrame && play == Play::History {
                    true
                } else {
                    let (x, y) = display.offset();
                    match va {
                        ViewAction::ScrollLeft => x < i16::MAX,
                        ViewAction::ScrollRight => x > i16::MIN,
                        ViewAction::ScrollUp => y < i16::MAX,
                        ViewAction::ScrollDown => y > i16::MIN,
                        _ => true,
                    }
                }
            },
            None => true,
        },
        _ => true,
    }
}

/// Sends a key either to the view (scrolling, zooming, frames) or to the game.
pub fn handle_key(key: Key, game: &mut Game, display: &mut ParagraphBoard, binding: &KeyBinding)
    requires
        old(game).wf(),
        old(game)@.current_status != Status::Quit,
        old(display).wf(),
        match key_view_action(old(game)@.current_status, *binding, key) {
            Some(va) => view_action_fits(old(display)@, va),
            None => true,
        },
    ensures
        final(game).wf(),
        final(display).wf(),
        final(game)@ == match key_game_action(old(game)@.current_status, *binding, key) {
            Some(a) => after_dispatch(old(game)@, a),
            None => old(game)@,
        },
        final(display)@ == match key_view_action(old(game)@.current_status, *binding, key) {
            Some(va) => viewed(old(display)@, va),
            None => old(display)@,
        },
{
    match game.current_status() {
        Status::AskInit | Status::AskQuit => {
            game.dispatch(confirmation_action(key));
        },
        Status::Play(play) => {
            if let Some(va) = view_action(binding, key) {
                if va != ViewAction::ToggleFrame || play != Play::History {
                    apply_view_action(va, display);
                }
            } else if let Some(a) = game_action(binding, key) {
                game.dispatch(a);
            }
        },
        Status::Quit => {},
    }
}

/// With no key bound twice: during a turn the frame key toggles the frame, while looking
/// through the history it does nothing; the scroll keys scroll in every phase of play; and a
/// question is confirmed by `Y` and by nothing else.
pub proof fn lemma_keys_by_status(b: KeyBinding, key: Key)
    requires
        b.distinct(),
    ensures
        key_view_action(Status::Play(Play::Turn), b, b.frame_toggle) == Some(ViewAction::ToggleFrame),
        key_view_action(Status::Play(Play::History), b, b.frame_toggle) is None,
        key_game_action(Status::Play(Play::History), b, b.frame_toggle) is None,
        forall|play: Play|
            #[trigger] key_view_action(Status::Play(play), b, b.scroll_left) == Some(ViewAction::ScrollLeft),
        key_game_action(Status::AskQuit, b, key) == Some(
            if key == Key::Char('Y') {
                Action::Confirm
            } else {
                Action::Cancel
            },
        ),
        key_game_action(Status::AskInit, b, key) == Some(
            if key == Key::Char('Y') {
                Action::Confirm
            } else {
                Action::Cancel
            },
        ),
        key_view_action(Status::AskQuit, b, key) is None,
{
    lemma_each_key_gives_its_command(b, key);
}

} // verus!
