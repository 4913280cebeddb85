use triversi::game::{Action, Play};
use triversi::key_binding::{
    change_key_to_str, confirmation_action, game_action, make_guidance_in_history,
    make_guidance_in_turn, view_action, Key, KeyBinding, ViewAction,
};

#[test]
fn keys_are_named() {
    assert_eq!(change_key_to_str(Key::Char('\n')), "Enter");
    assert_eq!(change_key_to_str(Key::Char('\t')), "Tab");
    assert_eq!(change_key_to_str(Key::Char('q')), "q");
    assert_eq!(change_key_to_str(Key::Char('\u{3042}')), "\u{3042}");
    assert_eq!(change_key_to_str(Key::Alt('\n')), "Alt-Enter");
    assert_eq!(change_key_to_str(Key::Alt('x')), "Alt-x");
    assert_eq!(change_key_to_str(Key::Ctrl('\t')), "Ctrl-Tab");
    assert_eq!(change_key_to_str(Key::Ctrl('c')), "Ctrl-c");
    assert_eq!(change_key_to_str(Key::F(12)), "F12");
    assert_eq!(change_key_to_str(Key::Backspace), "BS");
    assert_eq!(change_key_to_str(Key::Delete), "Del");
    assert_eq!(change_key_to_str(Key::Home), "Home");
    assert_eq!(change_key_to_str(Key::PageDown), "PageDown");
    assert_eq!(change_key_to_str(Key::Esc), "Esc");
}

#[test]
fn only_capital_y_confirms() {
    assert_eq!(confirmation_action(Key::Char('Y')), Action::Confirm);
    assert_eq!(confirmation_action(Key::Char('y')), Action::Cancel);
    assert_eq!(confirmation_action(Key::Char('\n')), Action::Cancel);
}

#[test]
fn default_bindings() {
    let b = KeyBinding::default_binding();
    assert_eq!(view_action(&b, Key::Left), Some(ViewAction::ScrollLeft));
    assert_eq!(view_action(&b, Key::Home), Some(ViewAction::ScrollReset));
    assert_eq!(view_action(&b, Key::Char('+')), Some(ViewAction::ZoomIn));
    assert_eq!(view_action(&b, Key::Char('f')), Some(ViewAction::ToggleFrame));
    assert_eq!(view_action(&b, Key::Char('h')), None);
    assert_eq!(game_action(&b, Key::Char('h')), Some(Action::MoveLeft));
    assert_eq!(game_action(&b, Key::Char('k')), Some(Action::MoveUp));
    assert_eq!(game_action(&b, Key::Char('t')), Some(Action::EnterHistory));
    assert_eq!(game_action(&b, Key::Char('\n')), Some(Action::Select));
    assert_eq!(game_action(&b, Key::Char('p')), Some(Action::HistoryPrev));
    assert_eq!(game_action(&b, Key::Char('0')), Some(Action::RequestInit));
    assert_eq!(game_action(&b, Key::Char('q')), Some(Action::RequestQuit));
    assert_eq!(game_action(&b, Key::Left), None);
    assert_eq!(game_action(&b, Key::Char('z')), None);
}

#[test]
fn alternative_bindings() {
    let b = KeyBinding::alternative_binding();
    assert_eq!(game_action(&b, Key::Char('i')), Some(Action::MoveUp));
    assert_eq!(game_action(&b, Key::Char('k')), Some(Action::MoveDown));
    assert_eq!(game_action(&b, Key::Char('j')), Some(Action::MoveLeft));
    assert_eq!(game_action(&b, Key::Char('h')), Some(Action::EnterHistory));
    assert_eq!(game_action(&b, Key::Char('t')), None);
}

#[test]
fn key_guides() {
    let b = KeyBinding::default_binding();
    assert_eq!(
        make_guidance_in_turn(&b),
        " Quit [q], Initialize [0], History [t], Frame On/Off [f], Select [Enter]\n Move \u{25c0}\u{fe0e}/\u{25bc}/\u{25b2}/\u{25b6}\u{fe0e} [h/j/k/l], Scroll \u{25c0}\u{fe0e}/\u{25bc}/\u{25b2}/\u{25b6}\u{fe0e}/reset [Left/Down/Up/Right/Home], Zoom In/Out [+/-]"
    );
    assert_eq!(
        make_guidance_in_history(&b),
        " Frame On/Off [f], Select [Enter]\n Prev/Next [p/n], Scroll \u{25c0}\u{fe0e}/\u{25bc}/\u{25b2}/\u{25b6}\u{fe0e}/reset [Left/Down/Up/Right/Home], Zoom In/Out [+/-]"
    );
    assert_eq!(triversi::render::guidance(&b, Play::History), make_guidance_in_history(&b));
    assert_eq!(triversi::render::guidance(&b, Play::Skipped), make_guidance_in_turn(&b));
}
