//! What holds of every game, whatever its actions.

use vstd::prelude::*;

use crate::board::cells::{cell, initial_cells, shaped, valid_pos, Cells, Position};
use crate::board::history::HistoryView;
use crate::board::rules::{available_moves, flip_set, lemma_flip_set};
use crate::board::{Player, MAX_RANGE};
use crate::game::{accepted_move, after_dispatch, placed, started_game, Action, GameView, MessageKind, Play, Status};

verus! {

/// The game ends only when the question to quit is confirmed.
pub proof fn lemma_quit_only_by_confirm(v: GameView, a: Action)
    requires
        v.current_status != Status::Quit,
        (v.current_status is AskInit || v.current_status is AskQuit) ==> v.previous_status is Play,
    ensures
        after_dispatch(v, a).current_status == Status::Quit ==> v.current_status == Status::AskQuit
            && a is Confirm,
{
}

/// Answering a question with anything but a confirmation goes back to the play that asked it,
/// and changes nothing else.
pub proof fn lemma_cancel_returns(v: GameView, a: Action)
    requires
        v.current_status is AskInit || v.current_status is AskQuit,
        !(a is Confirm),
    ensures
        after_dispatch(v, a).current_status == v.previous_status,
        after_dispatch(v, a).previous_status == v.current_status,
        after_dispatch(v, a).board == v.board,
        after_dispatch(v, a).history == v.history,
        after_dispatch(v, a).current_player == v.current_player,
        after_dispatch(v, a).current_position == v.current_position,
{
}

/// Selecting a position that the current player cannot take leaves the board, the history,
/// the player and the status as they are, and shows an error message.
pub proof fn lemma_rejected_selection(v: GameView, a: Action)
    requires
        v.current_status == Status::Play(Play::Turn),
        a is Select || a is SelectAt,
        accepted_move(v, a) is None,
    ensures
        after_dispatch(v, a).board == v.board,
        after_dispatch(v, a).history == v.history,
        after_dispatch(v, a).current_player == v.current_player,
        after_dispatch(v, a).current_status == v.current_status,
        after_dispatch(v, a).message_kind == MessageKind::Error,
{
}

/// After an accepted move the chosen position and every stone it captures (all of them
/// other players' stones) belong to the mover, the rest of the board is unchanged, and the history shows the new board with the
/// move as its last one.
pub proof fn lemma_move_turns_stones(v: GameView, a: Action, pos: Position)
    requires
        shaped(v.board, v.board.len() as int),
        v.board.len() <= MAX_RANGE,
        v.history.consistent(),
        accepted_move(v, a) == Some(pos),
    ensures
        ({
            let p = v.current_player;
            let w = after_dispatch(v, a);
            let s = flip_set(v.board, p, pos);
            &&& cell(w.board, pos.0 as int, pos.1 as int) == Some(p)
            &&& forall|q: Position| #[trigger] s.contains(q) ==> cell(v.board, q.0 as int, q.1 as int) is Some
                && cell(v.board, q.0 as int, q.1 as int) != Some(p)
            &&& forall|x: int, y: int|
                valid_pos(v.board.len() as int, x, y) ==> #[trigger] cell(w.board, x, y) == if s.insert(pos).contains(
                    (x as usize, y as usize),
                ) {
                    Some(p)
                } else {
                    cell(v.board, x, y)
                }
            &&& w.history.board() == w.board
            &&& w.history.moves.last() == (p, pos)
            &&& w.history.turn == v.history.turn + 1
        }),
{
    let p = v.current_player;
    let v2 = match a {
        Action::SelectAt(q) => GameView { current_position: q, ..v },
        _ => v,
    };
    assert(v2.current_position == pos);
    assert(available_moves(v.board, p).dom().contains(pos));
    lemma_flip_set(v.board, p, pos, 6);
}

/// Confirming the question to start over gives the starting board, an empty history,
/// the first player to move and the cursor at the top.
pub proof fn lemma_init_restarts(v: GameView)
    requires
        v.current_status == Status::AskInit,
    ensures
        after_dispatch(v, Action::Confirm).board == initial_cells(v.board.len() as int),
        after_dispatch(v, Action::Confirm).history == HistoryView::started(initial_cells(v.board.len() as int)),
        after_dispatch(v, Action::Confirm).current_player == Player::Zero,
        after_dispatch(v, Action::Confirm).current_position == (0usize, 0usize),
        after_dispatch(v, Action::Confirm).current_status == Status::Play(Play::Turn),
        after_dispatch(v, Action::Confirm).names == v.names,
{
}

/// Stepping through the history shows its board, and whose move it was on that board.
pub proof fn lemma_history_move_shows(v: GameView, a: Action)
    requires
        v.current_status == Status::Play(Play::History),
        a is HistoryPrev || a is HistoryNext,
    ensures
        after_dispatch(v, a).board == after_dispatch(v, a).history.board(),
        after_dispatch(v, a).current_player == after_dispatch(v, a).history.current_player(),
        after_dispatch(v, a).history.boards == v.history.boards,
        after_dispatch(v, a).history.moves == v.history.moves,
{
}

/// Moving the cursor keeps it on the board.
pub proof fn lemma_cursor_stays_on_board(v: GameView, a: Action)
    requires
        v.current_status is Play,
        v.board.len() <= MAX_RANGE,
        valid_pos(v.board.len() as int, v.current_position.0 as int, v.current_position.1 as int),
        a is MoveUp || a is MoveDown || a is MoveLeft || a is MoveRight,
    ensures
        valid_pos(
            after_dispatch(v, a).board.len() as int,
            after_dispatch(v, a).current_position.0 as int,
            after_dispatch(v, a).current_position.1 as int,
        ),
{
}

/// The cursor and every recorded move lie on the board, and every kept board has the
/// board's size.
pub open spec fn on_board(v: GameView) -> bool {
    let n = v.board.len() as int;
    &&& valid_pos(n, v.current_position.0 as int, v.current_position.1 as int)
    &&& forall|i: int|
        0 <= i < v.history.moves.len() ==> valid_pos(
            n,
            (#[trigger] v.history.moves[i]).1.0 as int,
            v.history.moves[i].1.1 as int,
        )
    &&& forall|i: int| 0 <= i < v.history.boards.len() ==> (#[trigger] v.history.boards[i]).len() == n
}

/// A game starts with the cursor and its history on the board.
pub proof fn lemma_start_on_board(board: Cells, names: Seq<Seq<char>>)
    requires
        board.len() >= 1,
    ensures
        on_board(started_game(board, names)),
{
}

/// Every action keeps the cursor and the recorded moves on the board, as long as the
/// positions selected directly lie on the board: with `lemma_start_on_board`, the cursor is
/// on the board in every state that a game reaches by such actions.
pub proof fn lemma_cursor_always_on_board(v: GameView, a: Action)
    requires
        v.current_status != Status::Quit,
        v.history.consistent(),
        v.board.len() <= MAX_RANGE,
        on_board(v),
        a matches Action::SelectAt(q) ==> valid_pos(v.board.len() as int, q.0 as int, q.1 as int),
    ensures
        on_board(after_dispatch(v, a)),
        after_dispatch(v, a).board.len() == v.board.len(),
{
    let n = v.board.len() as int;
    let w = after_dispatch(v, a);
    match v.current_status {
        Status::Play(play) => {
            let v2 = match a {
                Action::SelectAt(q) => GameView { current_position: q, ..v },
                _ => v,
            };
            if (play == Play::Turn && (a is Select || a is SelectAt))
                && available_moves(v2.board, v2.current_player).dom().contains(v2.current_position) {
                let p = v2.current_player;
                let pos = v2.current_position;
                let b = placed(v.board, p, available_moves(v.board, p)[pos].insert(pos));
                let h = v.history.pushed((p, pos), b);
                assert(b.len() == n);
                assert forall|i: int| 0 <= i < h.moves.len() implies valid_pos(
                    n,
                    (#[trigger] h.moves[i]).1.0 as int,
                    h.moves[i].1.1 as int,
                ) by {
                    if i < h.moves.len() - 1 {
                        assert(h.moves[i] == v.history.moves[i]);
                    }
                }
                assert forall|i: int| 0 <= i < h.boards.len() implies (#[trigger] h.boards[i]).len() == n by {
                    if i < h.boards.len() - 1 {
                        assert(h.boards[i] == v.history.boards[i]);
                    }
                }
                assert(w.history.moves == h.moves);
                assert(w.history.boards == h.boards);
            } else if play == Play::History && (a is HistoryPrev || a is HistoryNext) {
                let h = if a is HistoryPrev {
                    v.history.went_prev()
                } else {
                    v.history.went_next()
                };
                assert(h.board() == h.boards[h.turn as int]);
                match h.past_move() {
                    Some(m) => {
                        assert(m == h.moves[h.turn as int]);
                    },
                    None => {},
                }
            } else if a is MoveUp || a is MoveDown || a is MoveLeft || a is MoveRight {
                if play != Play::History {
                    lemma_cursor_stays_on_board(v, a);
                }
            }
        },
        Status::AskInit => {
            if a is Confirm {
                lemma_start_on_board(initial_cells(n), v.names);
            }
        },
        _ => {},
    }
}

/// Right after a legal move, looking back one board in the history shows the board, the
/// player and the position of that move; stepping forward again shows the board and the
/// player that the move led to.
pub proof fn lemma_look_back_after_move(v: GameView)
    requires
        v.current_status == Status::Play(Play::Turn),
        v.history.consistent(),
        v.board == v.history.board(),
        accepted_move(v, Action::Select) is Some,
    ensures
        ({
            let w1 = after_dispatch(v, Action::Select);
            let w3 = after_dispatch(after_dispatch(w1, Action::EnterHistory), Action::HistoryPrev);
            let w4 = after_dispatch(w3, Action::HistoryNext);
            &&& w3.current_status == Status::Play(Play::History)
            &&& w3.board == v.board
            &&& w3.current_player == v.current_player
            &&& w3.current_position == v.current_position
            &&& w4.board == w1.board
            &&& w4.current_player == w1.current_player
            &&& w4.history == w1.history
        }),
{
    let w1 = after_dispatch(v, Action::Select);
    let w2 = after_dispatch(w1, Action::EnterHistory);
    assert(w1.current_status is Play);
    assert(w2.current_status == Status::Play(Play::History));
    assert(w1.history.turn == v.history.turn + 1);
    assert(w1.history.boards[v.history.turn as int] == v.history.boards[v.history.turn as int]);
    assert(w1.history.moves[v.history.turn as int] == (v.current_player, v.current_position));
}

/// While looking through the history, one step back and one step forward return to the
/// same history, board and player.
pub proof fn lemma_history_back_and_forth(v: GameView)
    requires
        v.current_status == Status::Play(Play::History),
        v.history.consistent(),
        v.history.turn != 0,
    ensures
        ({
            let w = after_dispatch(after_dispatch(v, Action::HistoryPrev), Action::HistoryNext);
            &&& w.history == v.history
            &&& w.board == v.history.board()
            &&& w.current_player == v.history.current_player()
            &&& w.current_status == v.current_status
        }),
{
    assert(v.history.went_prev().went_next() == v.history);
}

/// After an accepted move the game is finished exactly when none of the three players can
/// put a stone on the new board. Otherwise the turn passes to the next player, and it is
/// that player's skipped turn exactly when they have no move.
pub proof fn lemma_finished_iff_nobody_can_move(v: GameView, a: Action)
    requires
        accepted_move(v, a) is Some,
    ensures
        ({
            let w = after_dispatch(v, a);
            let none = Map::<Position, Set<Position>>::empty();
            &&& (w.current_status == Status::Play(Play::Finished)) <==> (available_moves(w.board, Player::Zero)
                == none && available_moves(w.board, Player::One) == none && available_moves(
                w.board,
                Player::Two,
            ) == none)
            &&& w.current_status != Status::Play(Play::Finished) ==> {
                &&& w.current_player == v.current_player.next()
                &&& (w.current_status == Status::Play(Play::Skipped)) <==> available_moves(w.board, w.current_player)
                    == none
                &&& w.current_status == Status::Play(Play::Skipped) || w.current_status == Status::Play(Play::Turn)
            }
        }),
{
}

/// Stepping through the history shows the board of the turn reached, and puts the cursor
/// on the position of the move made from that board, with the player who made it; on the
/// last board, where no move was made yet, the cursor stays and the player to move next is
/// shown. A step back goes one turn back unless at the first board, a step forward one
/// turn forward unless at the last.
pub proof fn lemma_history_step_marks_the_move(v: GameView, a: Action)
    requires
        v.current_status == Status::Play(Play::History),
        v.history.consistent(),
        a is HistoryPrev || a is HistoryNext,
    ensures
        ({
            let w = after_dispatch(v, a);
            let h = w.history;
            let t = h.turn;
            &&& a is HistoryPrev ==> t == if v.history.turn > 0 { v.history.turn - 1 } else { 0int }
            &&& a is HistoryNext ==> t == if v.history.turn + 1 < v.history.boards.len() {
                v.history.turn + 1int
            } else {
                v.history.turn as int
            }
            &&& h.moves == v.history.moves && h.boards == v.history.boards
            &&& w.board == h.boards[t as int]
            &&& t < h.moves.len() ==> w.current_position == h.moves[t as int].1 && w.current_player
                == h.moves[t as int].0
            &&& t >= h.moves.len() ==> w.current_position == v.current_position && w.current_player
                == h.next_player
        }),
{
}

/// Acknowledging a skipped turn passes the turn to the next player, whose turn is skipped
/// as well exactly when they have no move; the board and the history's boards stay.
pub proof fn lemma_skip_passes_the_turn(v: GameView)
    requires
        v.current_status == Status::Play(Play::Skipped),
    ensures
        ({
            let w = after_dispatch(v, Action::Select);
            &&& w.current_player == v.current_player.next()
            &&& w.board == v.board
            &&& w.history.boards == v.history.boards && w.history.moves == v.history.moves
            &&& w.history.next_player == w.current_player
            &&& (w.current_status == Status::Play(Play::Skipped)) <==> available_moves(v.board, w.current_player)
                == Map::<Position, Set<Position>>::empty()
            &&& w.current_status == Status::Play(Play::Skipped) || w.current_status == Status::Play(Play::Turn)
        }),
{
}

} // verus!
