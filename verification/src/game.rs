//! The game itself: a state machine that takes abstract actions, independent of any view.

pub mod action;
pub mod laws;
pub mod message;
pub mod status;

pub use action::Action;
pub use message::{Message, MessageKind};
pub use status::{Play, Status};

use crate::board::cells::{
    board_count, cell, empties, initial_cells, lemma_empties_none, total_stones, ind, moved_down, moved_left, moved_right, moved_up, set_cell, shaped,
    valid_pos, Cells, Position,
};
use crate::board::history::{lemma_push_shows_new_board, HistoryView};
use crate::board::rules::{available_moves, flip_set, lemma_flip_set};
use crate::board::{Availables, Board, History, Player, PlayerMap, MAX_RANGE};
use crate::error::TriversiError;
use crate::text::{decimal, push_decimal, split_at_commas, split_commas};
use vstd::prelude::*;

verus! {

/// What a game holds, as plain values.
pub struct GameView {
    pub current_player: Player,
    pub current_position: Position,
    pub board: Cells,
    pub history: HistoryView,
    pub current_status: Status,
    pub previous_status: Status,
    pub message: Seq<char>,
    pub message_kind: MessageKind,
    pub names: Seq<Seq<char>>,
}

impl GameView {
    /// The name of `p`.
    pub open spec fn name(self, p: Player) -> Seq<char> {
        self.names[p.spec_index() as int]
    }
}

/// The cells with every position of `s` holding a stone of `p`.
pub open spec fn placed(c: Cells, p: Player, s: Set<Position>) -> Cells {
    Seq::new(
        c.len(),
        |y: int|
            Seq::new(
                c[y].len(),
                |x: int|
                    if s.contains((x as usize, y as usize)) {
                        Some(p)
                    } else {
                        c[y][x]
                    },
            ),
    )
}

/// No player can put a stone anywhere.
pub open spec fn no_moves(c: Cells) -> bool {
    &&& available_moves(c, Player::Zero) == Map::<Position, Set<Position>>::empty()
    &&& available_moves(c, Player::One) == Map::<Position, Set<Position>>::empty()
    &&& available_moves(c, Player::Two) == Map::<Position, Set<Position>>::empty()
}

/// One player's score, as the final message writes it.
pub open spec fn score_text(name: Seq<char>, n: nat) -> Seq<char> {
    " "@ + name + " = "@ + decimal(n)
}

/// The text shown when the game ends.
pub open spec fn finished_text(v: GameView, c: Cells) -> Seq<char> {
    " Game is finished! Final Score is"@ + score_text(v.name(Player::Zero), board_count(c, Player::Zero))
        + ","@ + score_text(v.name(Player::One), board_count(c, Player::One)) + ","@ + " and"@
        + score_text(v.name(Player::Two), board_count(c, Player::Two)) + "."@
}

/// The text shown when a player has no position to take.
pub open spec fn skipped_text(name: Seq<char>) -> Seq<char> {
    " Player-"@ + name + ": Your turn is skipped, you cannot select any position."@
}

/// The text shown when a player selects a position that they cannot take.
pub open spec fn cannot_select_text(name: Seq<char>, pos: Position) -> Seq<char> {
    " Player-"@ + name + ": You cannot select ("@ + decimal(pos.0 as nat) + ", "@ + decimal(
        pos.1 as nat,
    ) + ")."@
}

/// The game in a new status, remembering the one it leaves.
pub open spec fn with_status(v: GameView, s: Status) -> GameView {
    GameView { previous_status: v.current_status, current_status: s, ..v }
}

/// A game that starts on the given board.
pub open spec fn started_game(board: Cells, names: Seq<Seq<char>>) -> GameView {
    GameView {
        current_player: Player::Zero,
        current_position: (0, 0),
        board,
        history: HistoryView::started(board),
        current_status: Status::Play(Play::Turn),
        previous_status: Status::Play(Play::Turn),
        message: Seq::empty(),
        message_kind: MessageKind::Normal,
        names,
    }
}

/// The current player selects the cursor's position: where the move is legal, a stone goes
/// there and the stones it captures turn.
pub open spec fn after_select_turn(v: GameView) -> GameView {
    let p = v.current_player;
    let pos = v.current_position;
    if available_moves(v.board, p).dom().contains(pos) {
        let b = placed(v.board, p, available_moves(v.board, p)[pos].insert(pos));
        if no_moves(b) {
            GameView {
                board: b,
                history: HistoryView { next_player: p, ..v.history.pushed((p, pos), b) },
                previous_status: v.current_status,
                current_status: Status::Play(Play::Finished),
                message: finished_text(v, b),
                message_kind: MessageKind::Normal,
                ..v
            }
        } else {
            let q = p.next();
            let h = HistoryView { next_player: q, ..v.history.pushed((p, pos), b) };
            if available_moves(b, q) == Map::<Position, Set<Position>>::empty() {
                GameView {
                    board: b,
                    current_player: q,
                    history: h,
                    previous_status: v.current_status,
                    current_status: Status::Play(Play::Skipped),
                    message: skipped_text(v.name(q)),
                    message_kind: MessageKind::Error,
                    ..v
                }
            } else {
                GameView {
                    board: b,
                    current_player: q,
                    history: h,
                    message: Seq::empty(),
                    message_kind: MessageKind::Normal,
                    ..v
                }
            }
        }
    } else {
        GameView {
            message: cannot_select_text(v.name(p), pos),
            message_kind: MessageKind::Error,
            ..v
        }
    }
}

/// The player whose turn was skipped acknowledges it.
pub open spec fn after_select_skip(v: GameView) -> GameView {
    let q = v.current_player.next();
    let h = HistoryView { next_player: q, ..v.history };
    if available_moves(v.board, q) == Map::<Position, Set<Position>>::empty() {
        GameView {
            current_player: q,
            history: h,
            previous_status: v.current_status,
            current_status: Status::Play(Play::Skipped),
            message: skipped_text(v.name(q)),
            message_kind: MessageKind::Error,
            ..v
        }
    } else {
        GameView {
            current_player: q,
            history: h,
            previous_status: v.current_status,
            current_status: Status::Play(Play::Turn),
            message: Seq::empty(),
            message_kind: MessageKind::Normal,
            ..v
        }
    }
}

/// One step back (`HistoryPrev`) or forward (otherwise) in the history, showing that board.
pub open spec fn after_history_move(v: GameView, a: Action) -> GameView {
    let h = if a is HistoryPrev {
        v.history.went_prev()
    } else {
        v.history.went_next()
    };
    GameView {
        history: h,
        board: h.board(),
        current_player: h.current_player(),
        current_position: match h.past_move() {
            Some(m) => m.1,
            None => v.current_position,
        },
        ..v
    }
}

/// The actions that every phase of play takes alike.
pub open spec fn after_common(v: GameView, a: Action) -> GameView {
    let range = v.board.len() as int;
    match a {
        Action::RequestQuit => with_status(v, Status::AskQuit),
        Action::RequestInit => with_status(v, Status::AskInit),
        Action::MoveLeft => GameView {
            current_position: moved_left(v.current_position, range),
            ..v
        },
        Action::MoveRight => GameView {
            current_position: moved_right(v.current_position, range),
            ..v
        },
        Action::MoveUp => GameView { current_position: moved_up(v.current_position), ..v },
        Action::MoveDown => GameView {
            current_position: moved_down(v.current_position, range),
            ..v
        },
        Action::EnterHistory => with_status(v, Status::Play(Play::History)),
        _ => v,
    }
}

/// An action during play.
pub open spec fn after_play(v: GameView, a: Action, play: Play) -> GameView {
    match play {
        Play::Turn => match a {
            Action::Select => after_select_turn(v),
            Action::SelectAt(pos) => after_select_turn(GameView { current_position: pos, ..v }),
            _ => after_common(v, a),
        },
        Play::Skipped => match a {
            Action::Select => after_select_skip(v),
            _ => after_common(v, a),
        },
        Play::Finished => after_common(v, a),
        Play::History => match a {
            Action::RequestQuit => with_status(v, Status::AskQuit),
            Action::RequestInit => with_status(v, Status::AskInit),
            Action::HistoryPrev | Action::HistoryNext => after_history_move(v, a),
            Action::Select => with_status(v, Status::Play(Play::Turn)),
            _ => v,
        },
    }
}

/// The game started over on a fresh board, keeping the names.
pub open spec fn after_init(v: GameView) -> GameView {
    started_game(initial_cells(v.board.len() as int), v.names)
}

/// The position where the action puts a stone, if the game accepts it there.
pub open spec fn accepted_move(v: GameView, a: Action) -> Option<Position> {
    if v.current_status == Status::Play(Play::Turn) {
        let pos = match a {
            Action::SelectAt(p) => Some(p),
            Action::Select => Some(v.current_position),
            _ => None,
        };
        match pos {
            Some(p) => if available_moves(v.board, v.current_player).dom().contains(p) {
                Some(p)
            } else {
                None
            },
            None => None,
        }
    } else {
        None
    }
}

/// The game after one action.
pub open spec fn after_dispatch(v: GameView, a: Action) -> GameView {
    match v.current_status {
        Status::Play(play) => after_play(v, a, play),
        Status::AskInit => if a is Confirm {
            after_init(v)
        } else {
            with_status(v, v.previous_status)
        },
        Status::AskQuit => if a is Confirm {
            with_status(v, Status::Quit)
        } else {
            with_status(v, v.previous_status)
        },
        Status::Quit => v,
    }
}

/// A game of Triversi.
pub struct Game {
    current_player: Player,
    current_position: Position,
    board: Board,
    availables: Availables,
    history: History,
    current_status: Status,
    previous_status: Status,
    message: Message,
    player_name: PlayerMap<String>,
}

impl View for Game {
    type V = GameView;

    closed spec fn view(&self) -> GameView {
        GameView {
            current_player: self.current_player,
            current_position: self.current_position,
            board: self.board@,
            history: self.history@,
            current_status: self.current_status,
            previous_status: self.previous_status,
            message: self.message.text@,
            message_kind: self.message.kind,
            names: seq![
                self.player_name.at(Player::Zero)@,
                self.player_name.at(Player::One)@,
                self.player_name.at(Player::Two)@,
            ],
        }
    }
}

impl Game {
    pub closed spec fn wf(self) -> bool {
        &&& self.wf_core()
        &&& self.board@ == self.history@.board()
    }

    /// Everything that `wf` holds but that the board is the one the history shows.
    closed spec fn wf_core(self) -> bool {
        &&& self.board.wf()
        &&& self.history.wf()
        &&& self.history.uniform()
        &&& self.history.spec_range() == self.board.spec_range()
        &&& self.availables.wf()
        &&& forall|p: Player| #[trigger] self.availables.of(p) == available_moves(self.board@, p)
        &&& (self.current_status is AskInit || self.current_status is AskQuit)
            ==> self.previous_status is Play
    }

    /// The number of positions on one edge of the board.
    pub closed spec fn spec_range(self) -> nat {
        self.board.spec_range()
    }

    pub proof fn lemma_wf(self)
        requires
            self.wf(),
        ensures
            shaped(self@.board, self.spec_range() as int),
            self@.history.consistent(),
            self@.history.boards.len() >= 1,
            (self@.current_status is AskInit || self@.current_status is AskQuit)
                ==> self@.previous_status is Play,
            self@.board == self@.history.board(),
    {
        self.board.lemma_wf();
        self.history.lemma_wf();
    }

    pub fn try_new(board: Board, player_names_str: &str) -> (res: Result<Game, TriversiError>)
        requires
            board.wf(),
        ensures
            match res {
                Ok(g) => {
                    &&& split_commas(player_names_str@).len() == 3
                    &&& g.wf()
                    &&& g@ == started_game(board@, split_commas(player_names_str@))
                    &&& g.spec_range() == board.spec_range()
                },
                Err(e) => {
                    &&& split_commas(player_names_str@).len() != 3
                    &&& e matches TriversiError::InvalidStringForPlayerNames(s)
                    &&& s@ == player_names_str@
                },
            },
    {
        let mut names = split_at_commas(player_names_str);
        if names.len() != 3 {
            return Err(TriversiError::InvalidStringForPlayerNames(String::from_str(player_names_str)));
        }
        let ghost pieces = names@;
        let two = names.pop().unwrap();
        let one = names.pop().unwrap();
        let zero = names.pop().unwrap();
        let player_name = PlayerMap::new(zero, one, two);
        let mut availables = Availables::default();
        board.update_availables(&mut availables);
        let history = History::new(board.clone());
        let current_position = board.initial_position();
        let g = Game {
            history,
            current_player: Player::Zero,
            current_position,
            board,
            message: Message::default(),
            current_status: Status::Play(Play::Turn),
            previous_status: Status::Play(Play::Turn),
            availables,
            player_name,
        };
        proof {
            assert(g@.names =~= split_commas(player_names_str@));
        }
        Ok(g)
    }

    pub fn player_name(&self, player: Player) -> (name: &str)
        ensures
            name@ == self@.name(player),
    {
        self.player_name.get(player).as_str()
    }

    pub fn current_player(&self) -> (p: Player)
        ensures
            p == self@.current_player,
    {
        self.current_player
    }

    pub fn current_position(&self) -> (pos: Position)
        ensures
            pos == self@.current_position,
    {
        self.current_position
    }

    pub fn current_status(&self) -> (s: Status)
        ensures
            s == self@.current_status,
    {
        self.current_status
    }

    pub fn board(&self) -> (b: &Board)
        requires
            self.wf(),
        ensures
            b.wf(),
            b@ == self@.board,
            b.spec_range() == self.spec_range(),
    {
        &self.board
    }

    /// For each player, where they may put a stone and what each move turns.
    pub fn availables(&self) -> (a: &Availables)
        requires
            self.wf(),
        ensures
            a.wf(),
            forall|p: Player| #[trigger] a.of(p) == available_moves(self@.board, p),
    {
        &self.availables
    }

    pub fn history(&self) -> (h: &History)
        requires
            self.wf(),
        ensures
            h.wf(),
            h@ == self@.history,
    {
        &self.history
    }

    pub fn message(&self) -> (m: &Message)
        ensures
            m.text@ == self@.message,
            m.kind == self@.message_kind,
    {
        &self.message
    }

    /// Takes one action.
    pub fn dispatch(&mut self, action: Action)
        requires
            old(self).wf(),
            old(self)@.current_status != Status::Quit,
        ensures
            final(self).wf(),
            final(self)@ == after_dispatch(old(self)@, action),
            final(self).spec_range() == old(self).spec_range(),
            accepted_move(old(self)@, action) is Some ==> total_stones(final(self)@.board) == total_stones(
                old(self)@.board,
            ) + 1,
    {
        match self.current_status {
            Status::Play(play) => self.play(action, play),
            Status::AskInit => self.ask_init(action),
            Status::AskQuit => self.ask_quit(action),
            Status::Quit => {},
        }
    }

    fn update_status(&mut self, status: Status)
        requires
            old(self).wf(),
            (status is AskInit || status is AskQuit) ==> old(self).current_status is Play,
        ensures
            final(self).wf(),
            final(self)@ == with_status(old(self)@, status),
            final(self).spec_range() == old(self).spec_range(),
    {
        self.previous_status = self.current_status;
        self.current_status = status;
    }

    fn update_available_list(&mut self)
        requires
            old(self).board.wf(),
            old(self).availables.wf(),
        ensures
            final(self).availables.wf(),
            forall|p: Player| #[trigger] final(self).availables.of(p) == available_moves(final(self).board@, p),
            final(self).board == old(self).board,
            final(self).history == old(self).history,
            final(self)@ == old(self)@,
    {
        self.board.update_availables(&mut self.availables);
    }

    fn init(&mut self)
        requires
            old(self).wf(),
        ensures
            final(self).wf(),
            final(self)@ == after_init(old(self)@),
            final(self).spec_range() == old(self).spec_range(),
    {
        proof {
            self.board.lemma_wf();
        }
        self.board.init();
        self.current_player = Player::Zero;
        self.message.clear();
        self.current_position = self.board.initial_position();
        self.current_status = Status::Play(Play::Turn);
        self.previous_status = Status::Play(Play::Turn);
        self.update_available_list();
        self.history.init(self.board.clone());
    }

    fn play(&mut self, action: Action, play: Play)
        requires
            old(self).wf(),
            old(self).current_status == Status::Play(play),
        ensures
            final(self).wf(),
            final(self)@ == after_play(old(self)@, action, play),
            final(self).spec_range() == old(self).spec_range(),
            accepted_move(old(self)@, action) is Some ==> total_stones(final(self)@.board) == total_stones(
                old(self)@.board,
            ) + 1,
    {
        match play {
            Play::Turn => match action {
                Action::Select => self.select_in_play_turn(),
                Action::SelectAt(position) => {
                    self.current_position = position;
                    self.select_in_play_turn();
                },
                _ => self.handle_common_play_action(action),
            },
            Play::Skipped => match action {
                Action::Select => self.select_in_play_skip(),
                _ => self.handle_common_play_action(action),
            },
            Play::Finished => self.handle_common_play_action(action),
            Play::History => match action {
                Action::RequestQuit => self.update_status(Status::AskQuit),
                Action::RequestInit => self.update_status(Status::AskInit),
                Action::HistoryPrev | Action::HistoryNext => self.history_move(action),
                Action::Select => self.update_status(Status::Play(Play::Turn)),
                _ => {},
            },
        }
    }

    fn handle_common_play_action(&mut self, action: Action)
        requires
            old(self).wf(),
            old(self).current_status is Play,
        ensures
            final(self).wf(),
            final(self)@ == after_common(old(self)@, action),
            final(self).spec_range() == old(self).spec_range(),
    {
        proof {
            self.board.lemma_wf();
        }
        match action {
            Action::RequestQuit => self.update_status(Status::AskQuit),
            Action::RequestInit => self.update_status(Status::AskInit),
            Action::MoveLeft => self.board.move_position_left(&mut self.current_position),
            Action::MoveRight => self.board.move_position_right(&mut self.current_position),
            Action::MoveUp => self.board.move_position_up(&mut self.current_position),
            Action::MoveDown => self.board.move_position_down(&mut self.current_position),
            Action::EnterHistory => self.update_status(Status::Play(Play::History)),
            _ => {},
        }
    }

    /// Puts the current player's stone at the cursor and turns what it captures.
    fn set_player(&mut self)
        requires
            old(self).wf(),
            available_moves(old(self)@.board, old(self)@.current_player).dom().contains(
                old(self)@.current_position,
            ),
        ensures
            final(self).wf_core(),
            final(self)@ == (GameView {
                board: placed(
                    old(self)@.board,
                    old(self)@.current_player,
                    available_moves(old(self)@.board, old(self)@.current_player)[old(self)@.current_position].insert(
                        old(self)@.current_position,
                    ),
                ),
                ..old(self)@
            }),
            final(self).spec_range() == old(self).spec_range(),
            total_stones(final(self)@.board) == total_stones(old(self)@.board) + 1,
    {
        let p = self.current_player;
        let pos = self.current_position;
        let ghost c0 = self.board@;
        let ghost s = available_moves(c0, p)[pos];
        proof {
            self.board.lemma_wf();
            lemma_flip_set(c0, p, pos, 6);
            assert(self.availables.of(p) == available_moves(c0, p));
        }
        let ghost b0 = self.board;
        proof {
            assert(cell(c0, pos.0 as int, pos.1 as int) == None::<Player>);
        }
        self.board.set_player(pos, Some(p));
        let ghost c1 = self.board@;
        proof {
            self.board.lemma_wf();
            assert(self.board.stones(Player::Zero) == b0.stones(Player::Zero) + ind(p == Player::Zero));
            assert(self.board.stones(Player::One) == b0.stones(Player::One) + ind(p == Player::One));
            assert(self.board.stones(Player::Two) == b0.stones(Player::Two) + ind(p == Player::Two));
            assert(total_stones(c1) == total_stones(c0) + 1);
            lemma_placed_empty(c0, p);
            lemma_placed_insert(c0, p, Set::empty(), pos);
            assert(Set::<Position>::empty().insert(pos) == set![pos]);
            assert(c1 == placed(c0, p, set![pos]));
        }
        let flips = self.availables.get(p).get(&pos).unwrap();
        proof {
            assert forall|q: Position| #[trigger] flips@.contains(q) implies valid_pos(
                c0.len() as int,
                q.0 as int,
                q.1 as int,
            ) && cell(c1, q.0 as int, q.1 as int) is Some by {
                assert(flips@.to_set().contains(q));
                assert(s.contains(q));
            }
            lemma_empties_none(c1, flips@);
        }
        place_all(&mut self.board, p, flips);
        proof {
            lemma_placed_twice(c0, p, set![pos], s);
            assert(set![pos] + s =~= s.insert(pos));
        }
        self.update_available_list();
    }

    fn select_in_play_turn(&mut self)
        requires
            old(self).wf(),
            old(self).current_status == Status::Play(Play::Turn),
        ensures
            final(self).wf(),
            final(self)@ == after_select_turn(old(self)@),
            final(self).spec_range() == old(self).spec_range(),
            available_moves(old(self)@.board, old(self)@.current_player).dom().contains(old(self)@.current_position)
                ==> total_stones(final(self)@.board) == total_stones(old(self)@.board) + 1,
    {
        let ghost v = self@;
        let p = self.current_player;
        let pos = self.current_position;
        proof {
            self.board.lemma_wf();
            assert(self.availables.of(p) == available_moves(v.board, p));
        }
        if self.availables.get(p).contains_key(&pos) {
            self.set_player();
            proof {
                assert(self.availables.of(Player::Zero) == available_moves(self.board@, Player::Zero));
                assert(self.availables.of(Player::One) == available_moves(self.board@, Player::One));
                assert(self.availables.of(Player::Two) == available_moves(self.board@, Player::Two));
                assert(self.availables.of(p.next()) == available_moves(self.board@, p.next()));
            }
            let values = self.availables.values();
            let finished = values[0].is_empty() && values[1].is_empty() && values[2].is_empty();
            if finished {
                let ghost h0 = self.history@;
                proof {
                    self.history.lemma_wf();
                    lemma_push_shows_new_board(h0, (p, pos), self.board@);
                }
                self.history.push((p, pos), self.board.clone());
                self.history.set_next_player(p);
                self.update_status(Status::Play(Play::Finished));
                self.message.clear();
                self.write_final_score();
            } else {
                self.current_player.advance();
                let q = self.current_player;
                let ghost h0 = self.history@;
                proof {
                    self.history.lemma_wf();
                    lemma_push_shows_new_board(h0, (p, pos), self.board@);
                }
                self.history.push((p, pos), self.board.clone());
                self.history.set_next_player(q);
                self.message.clear();
                if self.availables.get(q).is_empty() {
                    self.update_status(Status::Play(Play::Skipped));
                    self.message.kind = MessageKind::Error;
                    self.write_skipped();
                }
            }
        } else {
            self.message.clear();
            self.message.kind = MessageKind::Error;
            proof {
                reveal_strlit(" Player-");
            }
            self.message.text.append(" Player-");
            self.message.text.append(self.player_name.get(p).as_str());
            self.message.text.append(": You cannot select (");
            push_decimal(&mut self.message.text, pos.0 as u64);
            self.message.text.append(", ");
            push_decimal(&mut self.message.text, pos.1 as u64);
            self.message.text.append(").");
            proof {
                assert(self.message.text@ =~= cannot_select_text(v.name(p), pos));
            }
        }
    }

    /// Writes the score of `p`.
    fn write_score(&mut self, p: Player)
        requires
            old(self).wf(),
        ensures
            final(self).wf(),
            final(self)@ == (GameView {
                message: old(self)@.message + score_text(old(self)@.name(p), board_count(old(self)@.board, p)),
                ..old(self)@
            }),
            final(self).spec_range() == old(self).spec_range(),
    {
        let ghost t0 = self.message.text@;
        self.message.text.append(" ");
        self.message.text.append(self.player_name.get(p).as_str());
        self.message.text.append(" = ");
        let n = self.board.count().get(p);
        push_decimal(&mut self.message.text, n);
        proof {
            assert(self.message.text@ =~= t0 + score_text(self@.name(p), board_count(self@.board, p)));
        }
    }

    /// Writes the final score of each player.
    fn write_final_score(&mut self)
        requires
            old(self).wf(),
        ensures
            final(self).wf(),
            final(self)@ == (GameView {
                message: old(self)@.message + finished_text(old(self)@, old(self)@.board),
                ..old(self)@
            }),
            final(self).spec_range() == old(self).spec_range(),
    {
        let ghost v = self@;
        let ghost s0 = score_text(v.name(Player::Zero), board_count(v.board, Player::Zero));
        let ghost s1 = score_text(v.name(Player::One), board_count(v.board, Player::One));
        let ghost s2 = score_text(v.name(Player::Two), board_count(v.board, Player::Two));
        self.message.text.append(" Game is finished! Final Score is");
        self.write_score(Player::Zero);
        self.message.text.append(",");
        self.write_score(Player::One);
        self.message.text.append(",");
        self.message.text.append(" and");
        self.write_score(Player::Two);
        self.message.text.append(".");
        proof {
            assert(self.message.text@ =~= v.message + (" Game is finished! Final Score is"@ + s0 + ","@ + s1
                + ","@ + " and"@ + s2 + "."@));
        }
    }

    /// Writes that the current player's turn is skipped.
    fn write_skipped(&mut self)
        requires
            old(self).wf(),
        ensures
            final(self).wf(),
            final(self)@ == (GameView {
                message: old(self)@.message + skipped_text(old(self)@.name(old(self)@.current_player)),
                ..old(self)@
            }),
            final(self).spec_range() == old(self).spec_range(),
    {
        let ghost v = self@;
        self.message.text.append(" Player-");
        self.message.text.append(self.player_name.get(self.current_player).as_str());
        self.message.text.append(": Your turn is skipped, you cannot select any position.");
        proof {
            assert(self.message.text@ =~= v.message + skipped_text(v.name(v.current_player)));
        }
    }

    fn select_in_play_skip(&mut self)
        requires
            old(self).wf(),
            old(self).current_status == Status::Play(Play::Skipped),
        ensures
            final(self).wf(),
            final(self)@ == after_select_skip(old(self)@),
            final(self).spec_range() == old(self).spec_range(),
    {
        self.message.clear();
        self.current_player.advance();
        self.history.set_next_player(self.current_player);
        proof {
            assert(self.availables.of(self.current_player) == available_moves(self.board@, self.current_player));
        }
        if self.availables.get(self.current_player).is_empty() {
            self.update_status(Status::Play(Play::Skipped));
            self.message.kind = MessageKind::Error;
            self.write_skipped();
        } else {
            self.update_status(Status::Play(Play::Turn));
        }
    }

    fn history_move(&mut self, action: Action)
        requires
            old(self).wf(),
            action is HistoryPrev || action is HistoryNext,
        ensures
            final(self).wf(),
            final(self)@ == after_history_move(old(self)@, action),
            final(self).spec_range() == old(self).spec_range(),
    {
        match action {
            Action::HistoryPrev => self.history.go_prev(),
            _ => self.history.go_next(),
        }
        self.board = self.history.board().clone();
        self.current_player = self.history.current_player();
        if let Some(position) = self.history.past_position() {
            self.current_position = position;
        }
        self.update_available_list();
    }

    fn ask_quit(&mut self, action: Action)
        requires
            old(self).wf(),
            old(self).current_status == Status::AskQuit,
        ensures
            final(self).wf(),
            final(self)@ == (if action is Confirm {
                with_status(old(self)@, Status::Quit)
            } else {
                with_status(old(self)@, old(self)@.previous_status)
            }),
            final(self).spec_range() == old(self).spec_range(),
    {
        match action {
            Action::Confirm => self.update_status(Status::Quit),
            _ => self.update_status(self.previous_status),
        }
    }

    fn ask_init(&mut self, action: Action)
        requires
            old(self).wf(),
            old(self).current_status == Status::AskInit,
        ensures
            final(self).wf(),
            final(self)@ == (if action is Confirm {
                after_init(old(self)@)
            } else {
                with_status(old(self)@, old(self)@.previous_status)
            }),
            final(self).spec_range() == old(self).spec_range(),
    {
        match action {
            Action::Confirm => self.init(),
            _ => self.update_status(self.previous_status),
        }
    }
}

/// Puts a stone of `p` at every listed position.
fn place_all(board: &mut Board, p: Player, flips: &Vec<Position>)
    requires
        old(board).wf(),
        forall|q: Position| #[trigger] flips@.contains(q) ==> valid_pos(old(board).spec_range() as int, q.0 as int, q.1 as int),
        flips@.no_duplicates(),
    ensures
        final(board).wf(),
        final(board).spec_range() == old(board).spec_range(),
        final(board)@ == placed(old(board)@, p, flips@.to_set()),
        total_stones(final(board)@) == total_stones(old(board)@) + empties(old(board)@, flips@),
{
    let ghost c0 = board@;
    proof {
        board.lemma_wf();
        lemma_placed_empty(c0, p);
        assert(flips@.take(0).to_set() =~= Set::<Position>::empty());
    }
    let mut i: usize = 0;
    while i < flips.len()
        invariant
            board.wf(),
            board.spec_range() == c0.len(),
            shaped(c0, c0.len() as int),
            c0.len() <= MAX_RANGE,
            forall|q: Position| #[trigger] flips@.contains(q) ==> valid_pos(c0.len() as int, q.0 as int, q.1 as int),
            i <= flips@.len(),
            board@ == placed(c0, p, flips@.take(i as int).to_set()),
            flips@.no_duplicates(),
            total_stones(board@) == total_stones(c0) + empties(c0, flips@.take(i as int)),
        decreases flips@.len() - i,
    {
        let q = flips[i];
        proof {
            assert(flips@.contains(q));
            assert(!flips@.take(i as int).to_set().contains(q)) by {
                if flips@.take(i as int).to_set().contains(q) {
                    assert(flips@.take(i as int).contains(q));
                    let k = choose|k: int| 0 <= k < i && flips@.take(i as int)[k] == q;
                    assert(flips@[k] == flips@[i as int]);
                }
            }
            assert(cell(board@, q.0 as int, q.1 as int) == cell(c0, q.0 as int, q.1 as int));
            board.lemma_wf();
            assert(flips@.take(i as int + 1).drop_last() =~= flips@.take(i as int));
            assert(flips@.take(i as int + 1).last() == q);
        }
        let ghost prev = *board;
        board.set_player(q, Some(p));
        proof {
            prev.lemma_wf();
            board.lemma_wf();
            assert(board.stones(Player::Zero) == board_count(board@, Player::Zero));
            assert(board.stones(Player::One) == board_count(board@, Player::One));
            assert(board.stones(Player::Two) == board_count(board@, Player::Two));
            assert(prev.stones(Player::Zero) == board_count(prev@, Player::Zero));
            assert(prev.stones(Player::One) == board_count(prev@, Player::One));
            assert(prev.stones(Player::Two) == board_count(prev@, Player::Two));
            assert(empties(c0, flips@.take(i as int + 1)) == empties(c0, flips@.take(i as int)) + ind(
                cell(c0, q.0 as int, q.1 as int) is None,
            ));
            if cell(prev@, q.0 as int, q.1 as int) is None {
                assert(total_stones(board@) == total_stones(prev@) + 1);
            } else {
                let o = cell(prev@, q.0 as int, q.1 as int)->0;
                let old_cell = cell(prev@, q.0 as int, q.1 as int);
                assert(board.stones(Player::Zero) == prev.stones(Player::Zero) - ind(old_cell == Some(Player::Zero)) + ind(Some(p) == Some(Player::Zero)));
                assert(board.stones(Player::One) == prev.stones(Player::One) - ind(old_cell == Some(Player::One)) + ind(Some(p) == Some(Player::One)));
                assert(board.stones(Player::Two) == prev.stones(Player::Two) - ind(old_cell == Some(Player::Two)) + ind(Some(p) == Some(Player::Two)));
                match o {
                    Player::Zero => {},
                    Player::One => {},
                    Player::Two => {},
                }
                match p {
                    Player::Zero => {},
                    Player::One => {},
                    Player::Two => {},
                }
                assert(total_stones(board@) == total_stones(prev@));
            }
            let before = flips@.take(i as int).to_set();
            flips@.take(i as int).lemma_push_to_set_commute(q);
            assert(flips@.take(i as int + 1) =~= flips@.take(i as int).push(q));
            lemma_placed_insert(c0, p, before, q);
        }
        i = i + 1;
    }
    proof {
        assert(flips@.take(flips@.len() as int) =~= flips@);
    }
}

/// Putting nothing leaves the cells as they are.
pub proof fn lemma_placed_empty(c: Cells, p: Player)
    ensures
        placed(c, p, Set::empty()) == c,
{
    let r = placed(c, p, Set::empty());
    assert forall|y: int| 0 <= y < c.len() implies #[trigger] r[y] =~= c[y] by {}
    assert(r =~= c);
}

/// Putting stones on one set of positions, then on another, puts them on both.
pub proof fn lemma_placed_twice(c: Cells, p: Player, a: Set<Position>, b: Set<Position>)
    ensures
        placed(placed(c, p, a), p, b) == placed(c, p, a + b),
{
    let l = placed(placed(c, p, a), p, b);
    let r = placed(c, p, a + b);
    assert forall|y: int| 0 <= y < c.len() implies #[trigger] l[y] =~= r[y] by {}
    assert(l =~= r);
}

/// Putting one more position to `p`.
pub proof fn lemma_placed_insert(c: Cells, p: Player, s: Set<Position>, q: Position)
    requires
        shaped(c, c.len() as int),
        c.len() <= usize::MAX,
        valid_pos(c.len() as int, q.0 as int, q.1 as int),
    ensures
        set_cell(placed(c, p, s), q.0 as int, q.1 as int, Some(p)) == placed(c, p, s.insert(q)),
{
    let l = set_cell(placed(c, p, s), q.0 as int, q.1 as int, Some(p));
    let r = placed(c, p, s.insert(q));
    assert forall|y: int| 0 <= y < c.len() implies #[trigger] l[y] =~= r[y] by {
        assert forall|x: int| 0 <= x < l[y].len() implies #[trigger] l[y][x] == r[y][x] by {
            assert(y < c.len());
            assert((x as usize, y as usize) == q <==> (x == q.0 && y == q.1));
        }
    }
    assert(l =~= r);
}

} // verus!
