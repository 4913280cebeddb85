use triversi::board::Board;
use triversi::board_display::{BoardDisplay, ParagraphBoard};
use triversi::game::{Game, Play, Status};
use triversi::key_binding::{Key, KeyBinding, ViewAction};
use triversi::tui_app::{apply_view_action, handle_key, key_fits};

fn setup() -> (Game, ParagraphBoard, KeyBinding) {
    let game = Game::try_new(Board::try_new(5).unwrap(), "a,b,c").unwrap();
    let display = ParagraphBoard::try_new(3, "a,b,c").unwrap();
    (game, display, KeyBinding::default_binding())
}

#[test]
fn view_keys_change_only_the_view() {
    let (mut game, mut display, binding) = setup();
    handle_key(Key::Left, &mut game, &mut display, &binding);
    assert_eq!(display.offset(), (1, 0));
    handle_key(Key::Down, &mut game, &mut display, &binding);
    assert_eq!(display.offset(), (1, -1));
    handle_key(Key::Char('+'), &mut game, &mut display, &binding);
    assert_eq!(display.distance(), 4);
    handle_key(Key::Char('f'), &mut game, &mut display, &binding);
    assert!(display.frame_visibility());
    handle_key(Key::Home, &mut game, &mut display, &binding);
    assert_eq!(display.offset(), (0, 0));
    assert_eq!(game.current_position(), (0, 0));
    assert_eq!(game.current_status(), Status::Play(Play::Turn));
}

#[test]
fn game_keys_go_to_the_game() {
    let (mut game, mut display, binding) = setup();
    handle_key(Key::Char('j'), &mut game, &mut display, &binding);
    assert_eq!(game.current_position(), (0, 1));
    handle_key(Key::Char('q'), &mut game, &mut display, &binding);
    assert_eq!(game.current_status(), Status::AskQuit);
    handle_key(Key::Char('y'), &mut game, &mut display, &binding);
    assert_eq!(game.current_status(), Status::Play(Play::Turn));
    handle_key(Key::Char('q'), &mut game, &mut display, &binding);
    handle_key(Key::Char('Y'), &mut game, &mut display, &binding);
    assert_eq!(game.current_status(), Status::Quit);
}

#[test]
fn the_frame_stays_while_browsing_the_history() {
    let (mut game, mut display, binding) = setup();
    handle_key(Key::Char('t'), &mut game, &mut display, &binding);
    assert_eq!(game.current_status(), Status::Play(Play::History));
    handle_key(Key::Char('f'), &mut game, &mut display, &binding);
    assert!(!display.frame_visibility());
    handle_key(Key::Right, &mut game, &mut display, &binding);
    assert_eq!(display.offset(), (-1, 0));
    handle_key(Key::Char('\n'), &mut game, &mut display, &binding);
    assert_eq!(game.current_status(), Status::Play(Play::Turn));
}

#[test]
fn zoom_stays_between_two_and_ten() {
    let (_, mut display, _) = setup();
    for _ in 0..20 {
        apply_view_action(ViewAction::ZoomIn, &mut display);
    }
    assert_eq!(display.distance(), 10);
    for _ in 0..20 {
        apply_view_action(ViewAction::ZoomOut, &mut display);
    }
    assert_eq!(display.distance(), 2);
}

#[test]
fn scrolling_past_sixteen_bits_does_not_fit() {
    let (game, mut display, binding) = setup();
    for _ in 0..i16::MAX {
        display.scroll_left();
    }
    assert_eq!(display.offset(), (i16::MAX, 0));
    assert!(!key_fits(&game, &display, &binding, Key::Left));
    assert!(key_fits(&game, &display, &binding, Key::Right));
    assert!(key_fits(&game, &display, &binding, Key::Char('j')));
}
