use triversi::board::{Board, Player};
use triversi::error::TriversiError;
use triversi::game::{Action, Game, MessageKind, Play, Status};

fn new_game(range: usize, names: &str) -> Game {
    Game::try_new(Board::try_new(range).unwrap(), names).unwrap()
}

fn cells(board: &Board) -> Vec<String> {
    board
        .board()
        .iter()
        .map(|row| {
            row.iter()
                .map(|c| match c {
                    None => '.',
                    Some(Player::Zero) => '0',
                    Some(Player::One) => '1',
                    Some(Player::Two) => '2',
                })
                .collect()
        })
        .collect()
}

fn total(game: &Game) -> u64 {
    let c = game.board().count();
    c.get(Player::Zero) + c.get(Player::One) + c.get(Player::Two)
}

#[test]
fn names_must_split_into_three() {
    let err = Game::try_new(Board::try_new(5).unwrap(), "a,b").err().unwrap();
    assert_eq!(err, TriversiError::InvalidStringForPlayerNames("a,b".to_string()));
    let err = Game::try_new(Board::try_new(5).unwrap(), "a,b,c,d").err().unwrap();
    assert_eq!(err, TriversiError::InvalidStringForPlayerNames("a,b,c,d".to_string()));
    assert!(Game::try_new(Board::try_new(5).unwrap(), ",,").is_ok());
}

#[test]
fn a_new_game_waits_for_the_first_player() {
    let game = new_game(14, "Cyan,Magenta,Yellow");
    assert_eq!(game.current_player(), Player::Zero);
    assert_eq!(game.current_position(), (0, 0));
    assert_eq!(game.current_status(), Status::Play(Play::Turn));
    assert_eq!(game.message().text, "");
    assert_eq!(game.message().kind, MessageKind::Normal);
    assert_eq!(game.player_name(Player::One), "Magenta");
    assert_eq!(game.history().current_turn(), 0);
    assert_eq!(game.availables().get(Player::Zero).keys().len(), 13);
}

#[test]
fn selecting_a_position_that_captures_nothing_is_refused() {
    let mut game = new_game(14, "Cyan,Magenta,Yellow");
    game.dispatch(Action::Select);
    assert_eq!(game.message().text, " Player-Cyan: You cannot select (0, 0).");
    assert_eq!(game.message().kind, MessageKind::Error);
    assert_eq!(game.current_player(), Player::Zero);
    assert_eq!(game.current_status(), Status::Play(Play::Turn));
    assert_eq!(game.history().current_turn(), 0);
    game.dispatch(Action::SelectAt((13, 13)));
    assert_eq!(game.message().text, " Player-Cyan: You cannot select (13, 13).");
    assert_eq!(game.current_position(), (13, 13));
}

#[test]
fn a_game_of_range_five_that_ends_after_two_moves() {
    let mut game = new_game(5, "a,b,c");
    game.dispatch(Action::Select);
    assert_eq!(cells(game.board()), vec!["0", "00", "000", "0120", ".201."]);
    assert_eq!(game.current_player(), Player::One);
    assert_eq!(game.message().text, "");
    assert_eq!(total(&game), 13);
    game.dispatch(Action::SelectAt((0, 4)));
    assert_eq!(cells(game.board()), vec!["0", "00", "000", "0120", "1111."]);
    assert_eq!(total(&game), 14);
    assert_eq!(game.current_status(), Status::Play(Play::Finished));
    assert_eq!(game.message().text, " Game is finished! Final Score is a = 8, b = 5, and c = 1.");
    assert_eq!(game.message().kind, MessageKind::Normal);
    assert_eq!(game.current_player(), Player::One);
    assert_eq!(game.history().current_turn(), 2);
    assert_eq!(
        game.history().record().player_positions(),
        &vec![(Player::Zero, (0, 0)), (Player::One, (0, 4))]
    );
    game.dispatch(Action::Select);
    assert_eq!(game.current_status(), Status::Play(Play::Finished));
}

#[test]
fn a_player_without_moves_is_skipped() {
    let mut game = new_game(5, "a,b,c");
    game.dispatch(Action::SelectAt((4, 4)));
    game.dispatch(Action::SelectAt((0, 4)));
    assert_eq!(game.current_player(), Player::Two);
    assert_eq!(game.current_status(), Status::Play(Play::Skipped));
    assert_eq!(
        game.message().text,
        " Player-c: Your turn is skipped, you cannot select any position."
    );
    assert_eq!(game.message().kind, MessageKind::Error);
    game.dispatch(Action::Select);
    assert_eq!(game.current_player(), Player::Zero);
    assert_eq!(game.current_status(), Status::Play(Play::Turn));
    assert_eq!(game.message().text, "");
    assert_eq!(game.message().kind, MessageKind::Normal);
    game.dispatch(Action::SelectAt((0, 0)));
    assert_eq!(cells(game.board()), vec!["0", "10", "100", "1120", "12000"]);
    assert_eq!(game.message().text, " Game is finished! Final Score is a = 8, b = 5, and c = 2.");
}

#[test]
fn history_shows_earlier_boards() {
    let mut game = new_game(5, "a,b,c");
    game.dispatch(Action::Select);
    game.dispatch(Action::EnterHistory);
    assert_eq!(game.current_status(), Status::Play(Play::History));
    game.dispatch(Action::HistoryPrev);
    assert_eq!(cells(game.board()), vec![".", "12", "201", "0120", ".201."]);
    assert_eq!(game.current_player(), Player::Zero);
    assert_eq!(game.current_position(), (0, 0));
    assert_eq!(game.history().current_turn(), 0);
    game.dispatch(Action::HistoryPrev);
    assert_eq!(game.history().current_turn(), 0);
    game.dispatch(Action::MoveDown);
    assert_eq!(game.current_position(), (0, 0));
    game.dispatch(Action::HistoryNext);
    assert_eq!(game.history().current_turn(), 1);
    assert_eq!(game.current_player(), Player::One);
    assert_eq!(cells(game.board()), vec!["0", "00", "000", "0120", ".201."]);
    game.dispatch(Action::HistoryNext);
    assert_eq!(game.history().current_turn(), 1);
    game.dispatch(Action::HistoryPrev);
    game.dispatch(Action::Select);
    assert_eq!(game.current_status(), Status::Play(Play::Turn));
    assert_eq!(game.current_player(), Player::Zero);
    game.dispatch(Action::SelectAt((4, 4)));
    assert_eq!(game.history().current_turn(), 1);
    assert_eq!(game.history().record().player_positions(), &vec![(Player::Zero, (4, 4))]);
    assert_eq!(cells(game.board()), vec![".", "12", "201", "0120", ".2000"]);
}

#[test]
fn quitting_asks_first() {
    let mut game = new_game(5, "a,b,c");
    game.dispatch(Action::RequestQuit);
    assert_eq!(game.current_status(), Status::AskQuit);
    game.dispatch(Action::Cancel);
    assert_eq!(game.current_status(), Status::Play(Play::Turn));
    game.dispatch(Action::EnterHistory);
    game.dispatch(Action::RequestQuit);
    game.dispatch(Action::MoveUp);
    assert_eq!(game.current_status(), Status::Play(Play::History));
    game.dispatch(Action::RequestQuit);
    game.dispatch(Action::Confirm);
    assert_eq!(game.current_status(), Status::Quit);
}

#[test]
fn starting_over_asks_first() {
    let mut game = new_game(5, "a,b,c");
    game.dispatch(Action::Select);
    game.dispatch(Action::MoveDown);
    game.dispatch(Action::RequestInit);
    assert_eq!(game.current_status(), Status::AskInit);
    game.dispatch(Action::Select);
    assert_eq!(game.current_status(), Status::Play(Play::Turn));
    assert_eq!(game.current_player(), Player::One);
    game.dispatch(Action::RequestInit);
    game.dispatch(Action::Confirm);
    assert_eq!(game.current_status(), Status::Play(Play::Turn));
    assert_eq!(game.current_player(), Player::Zero);
    assert_eq!(game.current_position(), (0, 0));
    assert_eq!(cells(game.board()), vec![".", "12", "201", "0120", ".201."]);
    assert_eq!(game.history().current_turn(), 0);
    assert!(game.history().record().player_positions().is_empty());
    assert_eq!(game.player_name(Player::Two), "c");
}

#[test]
fn the_cursor_follows_the_move_actions() {
    let mut game = new_game(5, "a,b,c");
    game.dispatch(Action::MoveLeft);
    assert_eq!(game.current_position(), (0, 1));
    game.dispatch(Action::MoveRight);
    game.dispatch(Action::MoveRight);
    assert_eq!(game.current_position(), (2, 2));
    game.dispatch(Action::MoveDown);
    assert_eq!(game.current_position(), (2, 3));
    game.dispatch(Action::MoveUp);
    assert_eq!(game.current_position(), (2, 2));
    game.dispatch(Action::Cancel);
    assert_eq!(game.current_position(), (2, 2));
}

#[test]
fn every_accepted_move_adds_one_stone() {
    let mut game = new_game(14, "a,b,c");
    let mut moves = 0;
    while game.current_status() != Status::Play(Play::Finished) && moves < 200 {
        match game.current_status() {
            Status::Play(Play::Skipped) => game.dispatch(Action::Select),
            _ => {
                let mut keys = game.availables().get(game.current_player()).keys();
                keys.sort();
                let before = total(&game);
                game.dispatch(Action::SelectAt(keys[0]));
                assert_eq!(total(&game), before + 1);
                moves += 1;
            }
        }
    }
    assert_eq!(game.current_status(), Status::Play(Play::Finished));
    assert_eq!(game.history().current_turn(), moves);
}

#[test]
fn looking_back_after_a_move_shows_it() {
    let mut game = Game::try_new(Board::try_new(5).unwrap(), "a,b,c").unwrap();
    let before: Vec<Vec<Option<Player>>> = game.board().board().clone();
    game.dispatch(Action::SelectAt((0, 0)));
    let after: Vec<Vec<Option<Player>>> = game.board().board().clone();
    let mover_next = game.current_player();
    assert_eq!(after[0][0], Some(Player::Zero));
    game.dispatch(Action::EnterHistory);
    game.dispatch(Action::HistoryPrev);
    assert_eq!(game.current_status(), Status::Play(Play::History));
    assert_eq!(game.board().board(), &before);
    assert_eq!(game.current_player(), Player::Zero);
    assert_eq!(game.current_position(), (0, 0));
    game.dispatch(Action::HistoryNext);
    assert_eq!(game.board().board(), &after);
    assert_eq!(game.current_player(), mover_next);
}
