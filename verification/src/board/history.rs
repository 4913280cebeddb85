use vstd::prelude::*;

use crate::board::cells::{Cells, Position};
use crate::board::player::Player;
use crate::board::Board;

verus! {

/// The moves of a game: who put a stone, and where.
#[derive(Debug)]
pub struct Record {
    range: usize,
    player_positions: Vec<(Player, Position)>,
}

impl Record {
    pub closed spec fn moves(self) -> Seq<(Player, Position)> {
        self.player_positions@
    }

    pub closed spec fn spec_range(self) -> nat {
        self.range as nat
    }

    pub fn new(range: usize) -> (r: Record)
        ensures
            r.moves() == Seq::<(Player, Position)>::empty(),
            r.spec_range() == range,
    {
        Record { range, player_positions: Vec::new() }
    }

    /// Forgets every move.
    pub fn init(&mut self)
        ensures
            final(self).moves() == Seq::<(Player, Position)>::empty(),
            final(self).spec_range() == old(self).spec_range(),
    {
        self.player_positions.clear();
    }

    fn push(&mut self, player_position: (Player, Position))
        ensures
            final(self).moves() == old(self).moves().push(player_position),
            final(self).spec_range() == old(self).spec_range(),
    {
        self.player_positions.push(player_position);
    }

    pub fn player_positions(&self) -> (v: &Vec<(Player, Position)>)
        ensures
            v@ == self.moves(),
    {
        &self.player_positions
    }

    pub fn range(&self) -> (r: usize)
        ensures
            r == self.spec_range(),
    {
        self.range
    }
}

/// What a history holds: the boards after each move, the moves, which board is shown,
/// and who moves after the last one.
pub struct HistoryView {
    pub turn: nat,
    pub moves: Seq<(Player, Position)>,
    pub boards: Seq<Cells>,
    pub next_player: Player,
}

impl HistoryView {
    /// The board after the last move.
    pub open spec fn last_turn(self) -> nat {
        (self.boards.len() - 1) as nat
    }

    /// The move made from the shown board, if one was made.
    pub open spec fn past_move(self) -> Option<(Player, Position)> {
        if self.turn < self.moves.len() {
            Some(self.moves[self.turn as int])
        } else {
            None
        }
    }

    /// Who moves on the shown board.
    pub open spec fn current_player(self) -> Player {
        match self.past_move() {
            Some(m) => m.0,
            None => self.next_player,
        }
    }

    /// The shown board.
    pub open spec fn board(self) -> Cells {
        self.boards[self.turn as int]
    }

    /// A history holding a single board.
    pub open spec fn started(board: Cells) -> HistoryView {
        HistoryView { turn: 0, moves: Seq::empty(), boards: seq![board], next_player: Player::Zero }
    }

    /// A move made from the shown board: later boards and moves are dropped,
    /// then the move and its board are added and shown.
    pub open spec fn pushed(self, player_position: (Player, Position), board: Cells) -> HistoryView {
        HistoryView {
            turn: self.turn + 1,
            moves: self.moves.take(self.turn as int).push(player_position),
            boards: self.boards.take(self.turn + 1int).push(board),
            next_player: self.next_player,
        }
    }

    /// One board back, if there is one.
    pub open spec fn went_prev(self) -> HistoryView {
        HistoryView { turn: if self.turn != 0 { (self.turn - 1) as nat } else { self.turn }, ..self }
    }

    /// One board forward, if there is one.
    pub open spec fn went_next(self) -> HistoryView {
        HistoryView { turn: if self.turn != self.last_turn() { self.turn + 1 } else { self.turn }, ..self }
    }

    /// The turn shown lies on a kept board, and each board but the last has its move.
    pub open spec fn consistent(self) -> bool {
        &&& self.boards.len() >= 1
        &&& self.turn < self.boards.len()
        &&& self.moves.len() + 1 == self.boards.len()
    }
}

/// The boards of a game, move by move, with the board that is shown.
pub struct History {
    current_turn: usize,
    record: Record,
    boards: Vec<Board>,
    next_player: Player,
}

impl View for History {
    type V = HistoryView;

    closed spec fn view(&self) -> HistoryView {
        HistoryView {
            turn: self.current_turn as nat,
            moves: self.record.moves(),
            boards: Seq::new(self.boards@.len(), |i: int| self.boards@[i]@),
            next_player: self.next_player,
        }
    }
}

impl History {
    /// The range of every kept board.
    pub closed spec fn spec_range(self) -> nat {
        self.record.spec_range()
    }

    pub closed spec fn wf(self) -> bool {
        &&& self@.consistent()
        &&& forall|i: int| 0 <= i < self.boards@.len() ==> (#[trigger] self.boards@[i]).wf()
    }

    /// Every kept board has the range of the record.
    pub closed spec fn uniform(self) -> bool {
        forall|i: int| 0 <= i < self.boards@.len() ==> (#[trigger] self.boards@[i]).spec_range() == self.record.spec_range()
    }

    pub proof fn lemma_wf(self)
        requires
            self.wf(),
        ensures
            self@.consistent(),
    {
    }

    pub fn new(board: Board) -> (h: History)
        requires
            board.wf(),
        ensures
            h.wf(),
            h.uniform(),
            h@ == HistoryView::started(board@),
            h.spec_range() == board.spec_range(),
    {
        let range = board.range();
        let mut boards: Vec<Board> = Vec::new();
        boards.push(board);
        let h = History {
            current_turn: 0,
            record: Record::new(range),
            boards,
            next_player: Player::Zero,
        };
        assert(h@.boards =~= seq![board@]);
        h
    }

    /// Starts over from `board`, whatever the history held; the record keeps its range.
    pub fn init(&mut self, board: Board)
        requires
            board.wf(),
        ensures
            final(self).wf(),
            final(self)@ == HistoryView::started(board@),
            final(self).spec_range() == old(self).spec_range(),
            final(self).uniform() == (board.spec_range() == old(self).spec_range()),
    {
        self.current_turn = 0;
        self.record.init();
        self.boards.clear();
        self.boards.push(board);
        self.next_player = Player::Zero;
        assert(self@.boards =~= seq![board@]);
        assert(self.boards@[0] == board);
    }

    /// Sets who moves after the last move.
    pub fn set_next_player(&mut self, player: Player)
        requires
            old(self).wf(),
        ensures
            final(self).wf(),
            final(self)@ == (HistoryView { next_player: player, ..old(self)@ }),
            final(self).spec_range() == old(self).spec_range(),
            final(self).uniform() == old(self).uniform(),
    {
        self.next_player = player;
    }

    /// Records a move made from the shown board, dropping what followed it.
    pub fn push(&mut self, player_position: (Player, Position), board: Board)
        requires
            old(self).wf(),
            board.wf(),
        ensures
            final(self).wf(),
            final(self)@ == old(self)@.pushed(player_position, board@),
            final(self).spec_range() == old(self).spec_range(),
            old(self).uniform() && board.spec_range() == old(self).spec_range() ==> final(self).uniform(),
    {
        let ghost old_view = self@;
        if self.current_turn < self.boards.len() - 1 {
            self.boards.truncate(self.current_turn + 1);
            self.record.player_positions.truncate(self.current_turn);
        }
        self.current_turn = self.current_turn + 1;
        self.record.push(player_position);
        self.boards.push(board);
        proof {
            assert(self@.moves =~= old_view.moves.take(old_view.turn as int).push(player_position));
            assert(self@.boards =~= old_view.boards.take(old_view.turn + 1int).push(board@));
        }
    }

    /// Shows the board before the shown one, if there is one.
    pub fn go_prev(&mut self)
        requires
            old(self).wf(),
        ensures
            final(self).wf(),
            final(self)@ == old(self)@.went_prev(),
            final(self).spec_range() == old(self).spec_range(),
            final(self).uniform() == old(self).uniform(),
    {
        if self.current_turn != 0 {
            self.current_turn = self.current_turn - 1;
        }
    }

    /// Shows the board after the shown one, if there is one.
    pub fn go_next(&mut self)
        requires
            old(self).wf(),
        ensures
            final(self).wf(),
            final(self)@ == old(self)@.went_next(),
            final(self).spec_range() == old(self).spec_range(),
            final(self).uniform() == old(self).uniform(),
    {
        if self.current_turn != self.boards.len() - 1 {
            self.current_turn = self.current_turn + 1;
        }
    }

    /// Where the move made from the shown board was put, if one was made.
    pub fn past_position(&self) -> (r: Option<Position>)
        requires
            self.wf(),
        ensures
            r == match self@.past_move() {
                Some(m) => Some(m.1),
                None => None::<Position>,
            },
    {
        if self.current_turn < self.record.player_positions.len() {
            Some(self.record.player_positions[self.current_turn].1)
        } else {
            None
        }
    }

    /// Who made the move from the shown board, if one was made.
    pub fn past_player(&self) -> (r: Option<Player>)
        requires
            self.wf(),
        ensures
            r == match self@.past_move() {
                Some(m) => Some(m.0),
                None => None::<Player>,
            },
    {
        if self.current_turn < self.record.player_positions.len() {
            Some(self.record.player_positions[self.current_turn].0)
        } else {
            None
        }
    }

    /// Who moves on the shown board.
    pub fn current_player(&self) -> (p: Player)
        requires
            self.wf(),
        ensures
            p == self@.current_player(),
    {
        match self.past_player() {
            Some(p) => p,
            None => self.next_player,
        }
    }

    /// The shown board.
    pub fn board(&self) -> (b: &Board)
        requires
            self.wf(),
        ensures
            b.wf(),
            b@ == self@.board(),
            self.uniform() ==> b.spec_range() == self.spec_range(),
    {
        &self.boards[self.current_turn]
    }

    pub fn current_turn(&self) -> (t: usize)
        ensures
            t == self@.turn,
    {
        self.current_turn
    }

    pub fn record(&self) -> (r: &Record)
        ensures
            r.moves() == self@.moves,
            r.spec_range() == self.spec_range(),
    {
        &self.record
    }
}

} // verus!

verus! {

/// After a move is recorded, the history shows the board of that move, as its last board,
/// and the move's player and position are the record's last entry.
pub proof fn lemma_push_shows_new_board(h: HistoryView, player_position: (Player, Position), board: Cells)
    requires
        h.consistent(),
    ensures
        h.pushed(player_position, board).consistent(),
        h.pushed(player_position, board).board() == board,
        h.pushed(player_position, board).turn == h.pushed(player_position, board).last_turn(),
        h.pushed(player_position, board).moves.last() == player_position,
        h.pushed(player_position, board).past_move() == None::<(Player, Position)>,
{
}

/// Recording a move keeps every board up to the shown one and every move made before it.
pub proof fn lemma_push_keeps_past(h: HistoryView, player_position: (Player, Position), board: Cells)
    requires
        h.consistent(),
    ensures
        forall|i: int| 0 <= i <= h.turn ==> #[trigger] h.pushed(player_position, board).boards[i] == h.boards[i],
        forall|i: int| 0 <= i < h.turn ==> #[trigger] h.pushed(player_position, board).moves[i] == h.moves[i],
{
}

/// Going back one board and then forward again returns to the same history.
pub proof fn lemma_prev_then_next(h: HistoryView)
    requires
        h.consistent(),
        h.turn != 0,
    ensures
        h.went_prev().went_next() == h,
        h.went_prev().consistent(),
{
}

/// Going forward one board and then back again returns to the same history.
pub proof fn lemma_next_then_prev(h: HistoryView)
    requires
        h.consistent(),
        h.turn != h.last_turn(),
    ensures
        h.went_next().went_prev() == h,
        h.went_next().consistent(),
{
}

/// Moving through the history never changes the boards or the moves.
pub proof fn lemma_moves_keep_record(h: HistoryView)
    ensures
        h.went_prev().boards == h.boards && h.went_prev().moves == h.moves,
        h.went_next().boards == h.boards && h.went_next().moves == h.moves,
        h.consistent() ==> h.went_prev().consistent() && h.went_next().consistent(),
{
}

/// A history that was just started or started over holds one board, shows it, has no
/// move to tell, lets the first player move, and stays where it is when stepped through.
pub proof fn lemma_started_holds_one_board(board: Cells)
    ensures
        HistoryView::started(board).consistent(),
        HistoryView::started(board).board() == board,
        HistoryView::started(board).past_move() == None::<(Player, Position)>,
        HistoryView::started(board).current_player() == Player::Zero,
        HistoryView::started(board).went_next() == HistoryView::started(board),
        HistoryView::started(board).went_prev() == HistoryView::started(board),
{
}

} // verus!
