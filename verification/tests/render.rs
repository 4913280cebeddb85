use triversi::board::{Board, Player};
use triversi::color_config::{Color, ColorConfig};
use triversi::game::{Action, Game, MessageKind, Play};
use triversi::key_binding::KeyBinding;
use triversi::render::{message_kind, message_label, player_box_width, player_labels, position_label};

fn new_game(range: usize, names: &str) -> Game {
    Game::try_new(Board::try_new(range).unwrap(), names).unwrap()
}

#[test]
fn the_player_box_fits_the_names() {
    assert_eq!(player_box_width(&new_game(5, "Cyan,Magenta,Yellow")), Some(23));
    assert_eq!(player_box_width(&new_game(5, "\u{6f22}\u{5b57},a,b")), Some(12));
    assert_eq!(player_box_width(&new_game(5, "\u{b1},,")), Some(8));
    assert_eq!(player_box_width(&new_game(5, ",,")), Some(6));
}

#[test]
fn player_labels_dim_the_waiting_players() {
    let game = new_game(5, "a,b,c");
    let labels = player_labels(&game, Play::Turn);
    let texts: Vec<&str> = labels.iter().map(|l| l.text.as_str()).collect();
    assert_eq!(texts, vec!["a ", "b ", "c"]);
    assert_eq!(labels[1].player, Player::One);
    let lit: Vec<bool> = labels.iter().map(|l| l.highlighted).collect();
    assert_eq!(lit, vec![true, false, false]);
    let finished = player_labels(&game, Play::Finished);
    assert!(finished.iter().all(|l| l.highlighted));
}

#[test]
fn position_and_message_labels() {
    let mut game = new_game(5, "a,b,c");
    let b = KeyBinding::default_binding();
    assert_eq!(position_label(&game), "0, 0");
    game.dispatch(Action::MoveLeft);
    game.dispatch(Action::MoveLeft);
    assert_eq!(position_label(&game), "0, 2");
    assert_eq!(message_label(&game, &b), "");
    game.dispatch(Action::Select);
    assert_eq!(message_label(&game, &b), " Player-a: You cannot select (0, 2).");
    assert_eq!(message_kind(&game), MessageKind::Error);
    game.dispatch(Action::SelectAt((4, 4)));
    game.dispatch(Action::SelectAt((0, 4)));
    assert_eq!(
        message_label(&game, &b),
        " Player-c: Your turn is skipped, you cannot select any position. Press [Enter]."
    );
}

#[test]
fn default_colors_are_cyan_magenta_yellow() {
    let colors = ColorConfig::default();
    assert_eq!(colors.player(Player::Zero), Color::Cyan);
    assert_eq!(colors.player(Player::One), Color::Magenta);
    assert_eq!(colors.player(Player::Two), Color::Yellow);
}
