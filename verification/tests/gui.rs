use triversi::board::{Board, Player};
use triversi::game::{Action, Game, Play, Status};
use triversi::gui_app::{controls, outlined_cells, Control};

#[test]
fn controls_follow_the_status() {
    assert_eq!(
        controls(Status::Play(Play::Turn), true),
        vec![
            (Control::Initialize, Action::RequestInit),
            (Control::Quit, Action::RequestQuit),
            (Control::History, Action::EnterHistory)
        ]
    );
    assert_eq!(
        controls(Status::Play(Play::History), false),
        vec![
            (Control::Initialize, Action::RequestInit),
            (Control::Prev, Action::HistoryPrev),
            (Control::Next, Action::HistoryNext),
            (Control::BackToGame, Action::Select)
        ]
    );
    assert_eq!(
        controls(Status::Play(Play::Skipped), false),
        vec![
            (Control::Initialize, Action::RequestInit),
            (Control::ContinueSkipped, Action::Select),
            (Control::History, Action::EnterHistory)
        ]
    );
    assert_eq!(controls(Status::Play(Play::Finished), false).len(), 2);
    assert!(controls(Status::AskQuit, true).is_empty());
    assert!(controls(Status::AskInit, true).is_empty());
}

#[test]
fn legal_moves_are_outlined_only_when_asked_during_a_turn() {
    let mut game = Game::try_new(Board::try_new(5).unwrap(), "a,b,c").unwrap();
    assert!(outlined_cells(&game, false).is_empty());
    let mut cells = outlined_cells(&game, true);
    cells.sort();
    assert_eq!(cells, vec![(0, 0), (0, 4), (4, 4)]);
    assert_eq!(game.current_player(), Player::Zero);
    game.dispatch(Action::EnterHistory);
    assert!(outlined_cells(&game, true).is_empty());
}
