use triversi::board::{valid_range_for, Availables, Board, History, Player};
use triversi::error::TriversiError;

fn cells(board: &Board) -> Vec<String> {
    board
        .board()
        .iter()
        .map(|row| {
            row.iter()
                .map(|c| match c {
                    None => '.',
                    Some(Player::Zero) => '0',
                    Some(Player::One) => '1',
                    Some(Player::Two) => '2',
                })
                .collect()
        })
        .collect()
}

#[test]
fn new_board_has_four_stones_each() {
    let board = Board::try_new(14).unwrap();
    assert_eq!(board.range(), 14);
    assert_eq!(board.count().get(Player::Zero), 4);
    assert_eq!(board.count().get(Player::One), 4);
    assert_eq!(board.count().get(Player::Two), 4);
}

#[test]
fn board_ranges_below_five_or_one_mod_three_are_refused() {
    assert_eq!(Board::try_new(4).unwrap_err(), TriversiError::InvalidBoardRange(4));
    assert_eq!(Board::try_new(0).unwrap_err(), TriversiError::InvalidBoardRange(0));
    assert_eq!(Board::try_new(7).unwrap_err(), TriversiError::InvalidBoardRange(7));
    assert_eq!(Board::try_new(13).unwrap_err(), TriversiError::InvalidBoardRange(13));
    assert!(Board::try_new(5).is_ok());
    assert!(Board::try_new(6).is_ok());
    assert!(Board::try_new(8).is_ok());
}

#[test]
fn starting_layout_of_range_five() {
    let board = Board::try_new(5).unwrap();
    assert_eq!(cells(&board), vec![".", "12", "201", "0120", ".201."]);
}

#[test]
fn starting_layout_of_range_six() {
    let board = Board::try_new(6).unwrap();
    assert_eq!(cells(&board), vec![".", "..", "102", "0210", ".102.", "..21.."]);
}

#[test]
fn starting_layout_of_range_fourteen() {
    let board = Board::try_new(14).unwrap();
    let c = cells(&board);
    assert_eq!(c[7], "...12...");
    assert_eq!(c[8], "...201...");
    assert_eq!(c[9], "...0120...");
    assert_eq!(c[10], "....201....");
    assert_eq!(c[13], "..............");
}

#[test]
fn set_player_keeps_the_counts() {
    let mut board = Board::try_new(5).unwrap();
    board.set_player((0, 0), Some(Player::Two));
    assert_eq!(board.count().get(Player::Two), 5);
    board.set_player((0, 1), Some(Player::Two));
    assert_eq!(board.count().get(Player::Two), 6);
    assert_eq!(board.count().get(Player::One), 3);
    board.set_player((0, 1), None);
    assert_eq!(board.count().get(Player::Two), 5);
    assert_eq!(board.player((0, 1)), None);
    assert_eq!(board.player((0, 0)), Some(Player::Two));
}

#[test]
fn init_restores_the_starting_board() {
    let mut board = Board::try_new(5).unwrap();
    board.set_player((0, 0), Some(Player::One));
    board.set_player((4, 4), Some(Player::One));
    board.init();
    assert_eq!(cells(&board), vec![".", "12", "201", "0120", ".201."]);
    assert_eq!(board.count().get(Player::One), 4);
}

#[test]
fn cursor_moves() {
    let mut board = Board::try_new(5).unwrap();
    let mut pos = board.initial_position();
    assert_eq!(pos, (0, 0));
    board.move_position_up(&mut pos);
    assert_eq!(pos, (0, 0));
    board.move_position_left(&mut pos);
    assert_eq!(pos, (0, 1));
    board.move_position_right(&mut pos);
    assert_eq!(pos, (1, 1));
    board.move_position_right(&mut pos);
    assert_eq!(pos, (2, 2));
    board.move_position_down(&mut pos);
    assert_eq!(pos, (2, 3));
    board.move_position_up(&mut pos);
    assert_eq!(pos, (2, 2));
    board.move_position_up(&mut pos);
    assert_eq!(pos, (1, 1));
    let mut corner = (4, 4);
    board.move_position_right(&mut corner);
    assert_eq!(corner, (4, 4));
    board.move_position_down(&mut corner);
    assert_eq!(corner, (4, 4));
    let mut left = (0, 4);
    board.move_position_left(&mut left);
    assert_eq!(left, (0, 4));
    let mut inner = (1, 3);
    board.move_position_right(&mut inner);
    assert_eq!(inner, (2, 3));
}

fn sorted(v: &Vec<(usize, usize)>) -> Vec<(usize, usize)> {
    let mut v = v.clone();
    v.sort();
    v
}

#[test]
fn moves_of_the_starting_board_of_range_five() {
    let board = Board::try_new(5).unwrap();
    let mut a = Availables::default();
    board.update_availables(&mut a);
    let mut keys = a.get(Player::Zero).keys();
    keys.sort();
    assert_eq!(keys, vec![(0, 0), (0, 4), (4, 4)]);
    assert_eq!(
        sorted(a.get(Player::Zero).get(&(0, 0)).unwrap()),
        vec![(0, 1), (0, 2), (1, 1), (2, 2)]
    );
    assert_eq!(sorted(a.get(Player::One).get(&(4, 4)).unwrap()), vec![(3, 3)]);
    assert_eq!(
        sorted(a.get(Player::Two).get(&(4, 4)).unwrap()),
        vec![(2, 2), (2, 4), (3, 3), (3, 4)]
    );
    assert!(a.get(Player::One).get(&(1, 1)).is_none());
    assert!(!a.get(Player::Two).contains_key(&(2, 2)));
    assert!(!a.get(Player::Two).is_empty());
}

#[test]
fn moves_of_the_starting_board_of_range_six() {
    let board = Board::try_new(6).unwrap();
    let mut a = Availables::default();
    board.update_availables(&mut a);
    for p in [Player::Zero, Player::One, Player::Two] {
        assert_eq!(a.get(p).keys().len(), 6);
    }
    assert_eq!(sorted(a.get(Player::Zero).get(&(1, 5)).unwrap()), vec![(1, 3), (1, 4)]);
    assert_eq!(sorted(a.get(Player::Two).get(&(0, 1)).unwrap()), vec![(1, 2), (2, 3)]);
}

#[test]
fn add_or_extend_merges_without_repeats() {
    let mut a = Availables::default();
    a.add_or_extend(Player::One, (1, 1), vec![]);
    assert!(a.get(Player::One).is_empty());
    a.add_or_extend(Player::One, (1, 1), vec![(1, 1), (1, 2)]);
    a.add_or_extend(Player::One, (1, 1), vec![(1, 2), (2, 2), (1, 1)]);
    assert_eq!(sorted(a.get(Player::One).get(&(1, 1)).unwrap()), vec![(1, 1), (1, 2), (2, 2)]);
    assert!(a.get(Player::Zero).is_empty());
    a.get_mut(Player::One).clear();
    assert!(a.get(Player::One).is_empty());
    assert_eq!(a.values().len(), 3);
    a.positions_buf_mut().push((3, 4));
    assert_eq!(a.positions_buf(), &vec![(3, 4)]);
}

#[test]
fn valid_ranges_are_at_least_five_and_not_one_mod_three() {
    let valid: Vec<usize> = (0..20).filter(|r| valid_range_for(*r)).collect();
    assert_eq!(valid, vec![5, 6, 8, 9, 11, 12, 14, 15, 17, 18]);
}

#[test]
fn the_scratch_list_holds_the_last_line_looked_at() {
    let board = Board::try_new(5).unwrap();
    let mut a = Availables::default();
    a.positions_buf_mut().push((9, 9));
    board.update_availables(&mut a);
    assert_eq!(a.positions_buf(), &vec![(4, 4), (3, 3), (2, 2)]);
    let board = Board::try_new(6).unwrap();
    board.update_availables(&mut a);
    assert_eq!(a.positions_buf(), &vec![(4, 5)]);
}

#[test]
fn starting_a_history_over_forgets_everything() {
    let board = Board::try_new(5).unwrap();
    let mut h = History::new(board.clone());
    h.push((Player::Zero, (0, 0)), board.clone());
    h.set_next_player(Player::One);
    let other = Board::try_new(6).unwrap();
    h.init(other.clone());
    assert_eq!(h.current_turn(), 0);
    assert!(h.record().player_positions().is_empty());
    assert_eq!(h.board().range(), 6);
    assert_eq!(h.past_position(), None);
    assert_eq!(h.current_player(), Player::Zero);
    h.go_next();
    assert_eq!(h.current_turn(), 0);
}
