use triversi::board::history::{History, HistoryView};
use triversi::board::{Board, Player, Record};
use triversi::text::split_at_commas;

#[test]
fn splitting_at_commas() {
    assert_eq!(split_at_commas("a,b,c"), vec!["a", "b", "c"]);
    assert_eq!(split_at_commas(""), vec![""]);
    assert_eq!(split_at_commas(","), vec!["", ""]);
    assert_eq!(split_at_commas("Cyan,Magenta,Yellow"), vec!["Cyan", "Magenta", "Yellow"]);
    assert_eq!(split_at_commas("\u{6f22},x"), vec!["\u{6f22}", "x"]);
}

#[test]
fn advancing_cycles_through_the_players() {
    let mut p = Player::default();
    assert_eq!(p, Player::Zero);
    assert_eq!(p.index(), 0);
    p.advance();
    assert_eq!(p, Player::One);
    assert_eq!(p.index(), 1);
    p.advance();
    assert_eq!(p.index(), 2);
    p.advance();
    assert_eq!(p, Player::Zero);
}

#[test]
fn history_push_and_navigation() {
    let b0 = Board::try_new(5).unwrap();
    let mut h = History::new(b0.clone());
    assert_eq!(h.current_turn(), 0);
    assert_eq!(h.past_position(), None);
    assert_eq!(h.current_player(), Player::Zero);
    let mut b1 = b0.clone();
    b1.set_player((0, 0), Some(Player::Zero));
    h.push((Player::Zero, (0, 0)), b1.clone());
    h.set_next_player(Player::One);
    assert_eq!(h.current_turn(), 1);
    assert_eq!(h.board().player((0, 0)), Some(Player::Zero));
    assert_eq!(h.current_player(), Player::One);
    h.go_next();
    assert_eq!(h.current_turn(), 1);
    h.go_prev();
    assert_eq!(h.current_turn(), 0);
    assert_eq!(h.past_position(), Some((0, 0)));
    assert_eq!(h.past_player(), Some(Player::Zero));
    assert_eq!(h.board().player((0, 0)), None);
    h.go_prev();
    assert_eq!(h.current_turn(), 0);
    h.go_next();
    assert_eq!(h.current_turn(), 1);
    h.go_prev();
    let mut b2 = b0.clone();
    b2.set_player((4, 4), Some(Player::Zero));
    h.push((Player::Zero, (4, 4)), b2);
    assert_eq!(h.current_turn(), 1);
    assert_eq!(h.record().player_positions(), &vec![(Player::Zero, (4, 4))]);
    assert_eq!(h.board().player((0, 0)), None);
    assert_eq!(h.board().player((4, 4)), Some(Player::Zero));
    h.init(b0);
    assert_eq!(h.current_turn(), 0);
    assert!(h.record().player_positions().is_empty());
    let r = Record::new(5);
    assert_eq!(r.range(), 5);
    let _ = std::marker::PhantomData::<HistoryView>;
}
