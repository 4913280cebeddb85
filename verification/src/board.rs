//! The triangular board of Triversi and the data kept beside it.
//!
//! Row `y` of a board of range `n` holds the cells `(0, y) ..= (y, y)`:
//!
//! ```text
//! o
//! oo
//! ooo
//! oooo
//! ```

pub mod availables;
pub mod cells;
pub mod count;
pub mod history;
pub mod player;
pub mod rules;

pub use availables::{Availables, PositionMap};
pub use count::Count;
pub use history::{History, HistoryView, Record};
pub use player::{Player, PlayerMap, PLAYERS};

pub use cells::{Cells, Position};

use crate::error::TriversiError;
use rules::{
    available_moves, before, captures, captures_upto, dir_at, flip_set, flips, flips_upto, is_available,
    line_pos, moves_before, run_len, scan, scratch_all, scratch_before, scratch_dir, scratch_upto, step, Dir,
};
use cells::{
    board_count, empty_cells, initial_cells, lemma_board_count_bound, lemma_board_count_update,
    lemma_empty_count, set_cell, ind, initial_list, place_list, list_count,
    lemma_initial_list, lemma_initial_step, lemma_initial_cells, moved_up, moved_down, moved_left, moved_right, shaped, valid_pos, cell,
};
use vstd::prelude::*;

verus! {

/// The largest number of positions on one edge that a board may have.
pub const MAX_RANGE: usize = 0x100_0000;

/// The stones on a triangular board, with the number that each player owns.
#[derive(Debug)]
pub struct Board {
    board: Vec<Vec<Option<Player>>>,
    range: usize,
    count: Count,
}

impl View for Board {
    type V = Cells;

    closed spec fn view(&self) -> Cells {
        Seq::new(self.board@.len(), |y: int| self.board@[y]@)
    }
}

/// A range that a board accepts: at least 5 and 0 or 2 modulo 3.
pub open spec fn valid_range(range: int) -> bool {
    &&& 5 <= range
    &&& range % 3 != 1
}

/// Whether a board accepts `range` positions on one edge.
pub fn valid_range_for(range: usize) -> (b: bool)
    ensures
        b == valid_range(range as int),
{
    5 <= range && range % 3 != 1
}

impl Board {
    /// The number of positions on one edge.
    pub closed spec fn spec_range(self) -> nat {
        self.range as nat
    }

    /// The number of stones that `player` has, as the board keeps it.
    pub closed spec fn stones(self, player: Player) -> nat {
        self.count.of(player)
    }

    pub closed spec fn wf(self) -> bool {
        &&& valid_range(self.range as int)
        &&& self.range <= MAX_RANGE
        &&& self.board@.len() == self.range
        &&& shaped(self@, self.range as int)
        &&& forall|p: Player| self.count.of(p) == board_count(self@, p)
    }

    pub proof fn lemma_wf(self)
        requires
            self.wf(),
        ensures
            shaped(self@, self.spec_range() as int),
            valid_range(self.spec_range() as int),
            self.spec_range() <= MAX_RANGE,
            forall|p: Player| #[trigger] self.stones(p) == board_count(self@, p),
    {
    }

    pub fn range(&self) -> (r: usize)
        ensures
            r == self.spec_range(),
    {
        self.range
    }

    pub fn count(&self) -> (c: &Count)
        requires
            self.wf(),
        ensures
            forall|p: Player| #[trigger] c.of(p) == board_count(self@, p),
    {
        &self.count
    }

    pub fn board(&self) -> (b: &Vec<Vec<Option<Player>>>)
        ensures
            b@.len() == self@.len(),
            forall|y: int| 0 <= y < b@.len() ==> #[trigger] b@[y]@ == self@[y],
    {
        &self.board
    }

    fn empty_rows(range: usize) -> (rows: Vec<Vec<Option<Player>>>)
        ensures
            rows@.len() == range,
            forall|y: int| 0 <= y < range ==> #[trigger] rows@[y]@ == empty_cells(range as int)[y],
    {
        let mut rows: Vec<Vec<Option<Player>>> = Vec::new();
        let mut y: usize = 0;
        while y < range
            invariant
                y <= range,
                rows@.len() == y,
                forall|j: int| 0 <= j < y ==> #[trigger] rows@[j]@ == empty_cells(range as int)[j],
            decreases range - y,
        {
            let mut row: Vec<Option<Player>> = Vec::new();
            let mut x: usize = 0;
            while x <= y
                invariant
                    x <= y + 1,
                    y < range,
                    row@.len() == x,
                    forall|i: int| 0 <= i < x ==> #[trigger] row@[i] == None::<Player>,
                decreases y + 1 - x,
            {
                row.push(None);
                x = x + 1;
            }
            assert(row@ =~= empty_cells(range as int)[y as int]);
            rows.push(row);
            y = y + 1;
        }
        rows
    }

    pub fn try_new(range: usize) -> (res: Result<Board, TriversiError>)
        requires
            range <= MAX_RANGE,
        ensures
            match res {
                Ok(b) => {
                    &&& valid_range(range as int)
                    &&& b.wf()
                    &&& b.spec_range() == range
                    &&& b@ == initial_cells(range as int)
                },
                Err(e) => !valid_range(range as int) && e == TriversiError::InvalidBoardRange(range),
            },
    {
        if !valid_range_for(range) {
            return Err(TriversiError::InvalidBoardRange(range));
        }
        let rows = Self::empty_rows(range);
        let mut board = Board { board: rows, range, count: Count::default() };
        proof {
            assert(board@ =~= empty_cells(range as int));
            lemma_empty_count(range as int);
        }
        board.init();
        Ok(board)
    }

    /// The twelve starting stones of a board of range `r`, in the order in which they are placed.
    fn starting_stones(r: usize) -> (l: Vec<(Position, Player)>)
        requires
            valid_range(r as int),
            r <= MAX_RANGE,
        ensures
            l@ == initial_list(r as int),
    {
        let mut l: Vec<(Position, Player)> = Vec::new();
        if r % 3 == 0 {
            let m = r / 3;
            l.push(((m, 2 * m), Player::Zero));
            l.push(((m + 1, 2 * m - 1), Player::Zero));
            l.push(((m - 1, 2 * m - 2), Player::Zero));
            l.push(((m - 2, 2 * m - 1), Player::Zero));
            l.push(((m, 2 * m - 1), Player::One));
            l.push(((m - 2, 2 * m - 2), Player::One));
            l.push(((m - 1, 2 * m), Player::One));
            l.push(((m + 1, 2 * m + 1), Player::One));
            l.push(((m - 1, 2 * m - 1), Player::Two));
            l.push(((m, 2 * m + 1), Player::Two));
            l.push(((m + 1, 2 * m), Player::Two));
            l.push(((m, 2 * m - 2), Player::Two));
        } else {
            let m = (r - 2) / 3;
            l.push(((m, 2 * m), Player::Zero));
            l.push(((m - 1, 2 * m + 1), Player::Zero));
            l.push(((m + 1, 2 * m + 2), Player::Zero));
            l.push(((m + 2, 2 * m + 1), Player::Zero));
            l.push(((m, 2 * m + 1), Player::One));
            l.push(((m + 2, 2 * m + 2), Player::One));
            l.push(((m + 1, 2 * m), Player::One));
            l.push(((m - 1, 2 * m - 1), Player::One));
            l.push(((m + 1, 2 * m + 1), Player::Two));
            l.push(((m, 2 * m - 1), Player::Two));
            l.push(((m - 1, 2 * m), Player::Two));
            l.push(((m, 2 * m + 2), Player::Two));
        }
        proof {
            assert(l@ =~= initial_list(r as int));
        }
        l
    }

    /// Empties the board and puts the four starting stones of each player.
    pub fn init(&mut self)
        requires
            old(self).wf(),
        ensures
            final(self).wf(),
            final(self).spec_range() == old(self).spec_range(),
            final(self)@ == initial_cells(old(self).spec_range() as int),
            forall|p: Player| #[trigger] final(self).stones(p) == 4,
    {
        self.board = Self::empty_rows(self.range);
        self.count.reset();
        let r = self.range;
        proof {
            assert(self@ =~= empty_cells(r as int));
            lemma_empty_count(r as int);
            lemma_initial_list(r as int);
        }
        let stones = Self::starting_stones(r);
        let mut i: usize = 0;
        while i < stones.len()
            invariant
                self.wf(),
                self.range == r,
                stones@ == initial_list(r as int),
                0 <= i <= stones@.len(),
                self@ == place_list(empty_cells(r as int), stones@.take(i as int)),
                forall|p: Player| #[trigger] self.stones(p) == list_count(stones@.take(i as int), p),
            decreases stones@.len() - i,
        {
            let (pos, p) = stones[i];
            proof {
                lemma_initial_step(r as int, i as int);
            }
            self.set_player(pos, Some(p));
            i = i + 1;
        }
        proof {
            assert(stones@.take(12) =~= stones@);
            lemma_initial_cells(r as int);
        }
    }

    /// The stone at a position.
    pub fn player(&self, pos: Position) -> (p: Option<Player>)
        requires
            self.wf(),
            valid_pos(self.spec_range() as int, pos.0 as int, pos.1 as int),
        ensures
            p == cell(self@, pos.0 as int, pos.1 as int),
    {
        self.board[pos.1][pos.0]
    }

    /// Puts `player` (or nothing) at a position, keeping the stone counts.
    pub fn set_player(&mut self, pos: Position, player: Option<Player>)
        requires
            old(self).wf(),
            valid_pos(old(self).spec_range() as int, pos.0 as int, pos.1 as int),
        ensures
            final(self).wf(),
            final(self).spec_range() == old(self).spec_range(),
            final(self)@ == set_cell(old(self)@, pos.0 as int, pos.1 as int, player),
            forall|q: Player|
                #[trigger] final(self).stones(q) == old(self).stones(q) - ind(
                    cell(old(self)@, pos.0 as int, pos.1 as int) == Some(q),
                ) + ind(player == Some(q)),
    {
        let (x, y) = pos;
        let ghost old_cells = self@;
        proof {
            lemma_board_count_update(old_cells, x as int, y as int, player);
            lemma_board_count_update(old_cells, x as int, y as int, None);
            lemma_board_count_bound(old_cells, self.range as int);
            assert forall|q: Player| old_cells[y as int][x as int] == Some(q) implies #[trigger] board_count(old_cells, q) >= 1 by {
                assert(board_count(set_cell(old_cells, x as int, y as int, None), q) >= 0);
            }
        }
        let previous = self.board[y][x];
        if let Some(p) = player {
            self.count.increment(p);
        }
        if let Some(q) = previous {
            self.count.decrement(q);
        }
        self.board[y][x] = player;
        proof {
            assert(self@ =~= set_cell(old_cells, x as int, y as int, player));
        }
    }

    /// The position where the cursor starts.
    pub fn initial_position(&self) -> (pos: Position)
        ensures
            pos == (0usize, 0usize),
    {
        (0, 0)
    }

    /// Moves the cursor one row up, keeping it on the board.
    pub fn move_position_up(&mut self, pos: &mut Position)
        ensures
            *final(self) == *old(self),
            *final(pos) == moved_up(*old(pos)),
            valid_pos(old(self).spec_range() as int, old(pos).0 as int, old(pos).1 as int) ==> valid_pos(
                old(self).spec_range() as int,
                final(pos).0 as int,
                final(pos).1 as int,
            ),
    {
        if pos.1 > 0 {
            pos.1 = pos.1 - 1;
            if pos.0 > pos.1 {
                pos.0 = pos.0 - 1;
            }
        }
    }

    /// Moves the cursor one row down, if there is a row below.
    pub fn move_position_down(&mut self, pos: &mut Position)
        requires
            old(self).wf(),
        ensures
            *final(self) == *old(self),
            *final(pos) == moved_down(*old(pos), old(self).spec_range() as int),
            valid_pos(old(self).spec_range() as int, old(pos).0 as int, old(pos).1 as int) ==> valid_pos(
                old(self).spec_range() as int,
                final(pos).0 as int,
                final(pos).1 as int,
            ),
    {
        if pos.1 < self.range - 1 {
            pos.1 = pos.1 + 1;
        }
    }

    /// Moves the cursor one column left; at the left edge, one row down instead.
    pub fn move_position_left(&mut self, pos: &mut Position)
        requires
            old(self).wf(),
        ensures
            *final(self) == *old(self),
            *final(pos) == moved_left(*old(pos), old(self).spec_range() as int),
            valid_pos(old(self).spec_range() as int, old(pos).0 as int, old(pos).1 as int) ==> valid_pos(
                old(self).spec_range() as int,
                final(pos).0 as int,
                final(pos).1 as int,
            ),
    {
        if pos.0 > 0 {
            pos.0 = pos.0 - 1;
        } else if pos.1 < self.range - 1 {
            pos.1 = pos.1 + 1;
        }
    }

    /// Moves the cursor one column right; past the end of its row, down to the next row too.
    pub fn move_position_right(&mut self, pos: &mut Position)
        requires
            old(self).wf(),
        ensures
            *final(self) == *old(self),
            *final(pos) == moved_right(*old(pos), old(self).spec_range() as int),
            valid_pos(old(self).spec_range() as int, old(pos).0 as int, old(pos).1 as int) ==> valid_pos(
                old(self).spec_range() as int,
                final(pos).0 as int,
                final(pos).1 as int,
            ),
    {
        if pos.0 < self.range - 1 {
            pos.0 = pos.0 + 1;
            if pos.0 > pos.1 {
                pos.1 = pos.1 + 1;
            }
        }
    }

    /// Where the line from `t` along `d` is after `k` steps, if that is on the board.
    fn line_position(t: Position, d: Dir, k: usize, range: usize) -> (r: Option<Position>)
        requires
            valid_pos(range as int, t.0 as int, t.1 as int),
            range <= MAX_RANGE,
            k <= range,
        ensures
            match r {
                Some(q) => valid_pos(range as int, step(t, d, k as int).0, step(t, d, k as int).1)
                    && q == line_pos(t, d, k as int),
                None => !valid_pos(range as int, step(t, d, k as int).0, step(t, d, k as int).1),
            },
    {
        let (x, y) = t;
        match d {
            Dir::Left => if k <= x {
                Some((x - k, y))
            } else {
                None
            },
            Dir::LeftUp => if k <= x {
                Some((x - k, y - k))
            } else {
                None
            },
            Dir::Right => if x + k <= y {
                Some((x + k, y))
            } else {
                None
            },
            Dir::Up => if k <= y && x <= y - k {
                Some((x, y - k))
            } else {
                None
            },
            Dir::Down => if y + k < range {
                Some((x, y + k))
            } else {
                None
            },
            Dir::RightDown => if y + k < range {
                Some((x + k, y + k))
            } else {
                None
            },
        }
    }

    /// Looks from `t` along `d`, whose neighbour holds a stone, for a capture by `p`:
    /// `buf` ends up holding `t` and the run of other players' stones after it, and the
    /// result says whether a stone of `p` closes that run, which is then captured.
    fn capture_line(&self, p: Player, t: Position, d: Dir, buf: &mut Vec<Position>) -> (captured: bool)
        requires
            self.wf(),
            valid_pos(self.spec_range() as int, t.0 as int, t.1 as int),
            valid_pos(self.spec_range() as int, step(t, d, 1).0, step(t, d, 1).1),
            cell(self@, step(t, d, 1).0, step(t, d, 1).1) is Some,
        ensures
            final(buf)@ == scratch_dir(self@, p, t, d, old(buf)@),
            captured == captures(self@, p, t, d),
            final(buf)@.len() >= 1,
            captured ==> final(buf)@.len() >= 2,
            captured ==> final(buf)@.subrange(1, final(buf)@.len() as int).to_set() == flips(self@, p, t, d),
    {
        let range = self.range;
        let ghost c = self@;
        buf.clear();
        buf.push(t);
        let mut k: usize = 1;
        proof {
            self.lemma_wf();
        }
        let mut captured: bool = false;
        loop
            invariant_except_break
                !captured,
            invariant
                self.wf(),
                c == self@,
                range == self.spec_range(),
                c.len() == range,
                range <= MAX_RANGE,
                valid_pos(range as int, t.0 as int, t.1 as int),
                1 <= k <= range,
                buf@.len() == k,
                forall|j: int| 0 <= j < k ==> #[trigger] buf@[j] == line_pos(t, d, j),
                scan(c, p, t, d, 1) == scan(c, p, t, d, k as nat),
                run_len(c, p, t, d, 1) == (k - 1) + run_len(c, p, t, d, k as nat),
            ensures
                buf@.len() == k,
                forall|j: int| 0 <= j < k ==> #[trigger] buf@[j] == line_pos(t, d, j),
                run_len(c, p, t, d, 1) == k - 1,
                captured == captures(c, p, t, d),
                captured ==> scan(c, p, t, d, 1) == k,
            decreases range - k,
        {
            if k >= range {
                break;
            }
            match Self::line_position(t, d, k, range) {
                None => {
                    break;
                },
                Some(q) => {
                    match self.player(q) {
                        None => {
                            break;
                        },
                        Some(o) => {
                            if o == p {
                                captured = k >= 2;
                                break;
                            } else {
                                buf.push(q);
                                k = k + 1;
                            }
                        },
                    }
                },
            }
        }
        proof {
            assert(buf@ =~= scratch_dir(c, p, t, d, old(buf)@));
            if captured {
                let fl = flips(c, p, t, d);
                let run = buf@.subrange(1, buf@.len() as int);
                assert forall|q2: Position| #[trigger] run.to_set().contains(q2) <==> fl.contains(q2) by {
                    if run.to_set().contains(q2) {
                        assert(run.contains(q2));
                        let j = choose|j: int| 0 <= j < run.len() && run[j] == q2;
                        assert(q2 == line_pos(t, d, j + 1));
                    }
                    if fl.contains(q2) {
                        let j = choose|j: int| 1 <= j < scan(c, p, t, d, 1) && q2 == #[trigger] line_pos(t, d, j);
                        assert(run[j - 1] == q2);
                        assert(run.contains(q2));
                    }
                }
                assert(run.to_set() =~= fl);
            }
        }
        captured
    }

    /// A copy of a list of positions from index `from` on.
    fn copy_positions(v: &Vec<Position>, from: usize) -> (r: Vec<Position>)
        requires
            from <= v@.len(),
        ensures
            r@ == v@.subrange(from as int, v@.len() as int),
    {
        let mut r: Vec<Position> = Vec::new();
        let mut i: usize = from;
        while i < v.len()
            invariant
                from <= i <= v@.len(),
                r@ == v@.subrange(from as int, i as int),
            decreases v@.len() - i,
        {
            r.push(v[i]);
            i = i + 1;
            assert(r@ =~= v@.subrange(from as int, i as int));
        }
        r
    }

    /// The direction looked at `i`-th.
    fn dir_of(i: usize) -> (d: Dir)
        ensures
            d == dir_at(i as int),
    {
        if i == 0 {
            Dir::Left
        } else if i == 1 {
            Dir::LeftUp
        } else if i == 2 {
            Dir::Right
        } else if i == 3 {
            Dir::Up
        } else if i == 4 {
            Dir::Down
        } else {
            Dir::RightDown
        }
    }

    /// Records the move of `p` at the empty position `t`, if it captures.
    fn add_target(&self, p: Player, t: Position, availables: &mut Availables)
        requires
            self.wf(),
            old(availables).wf(),
            valid_pos(self.spec_range() as int, t.0 as int, t.1 as int),
            cell(self@, t.0 as int, t.1 as int) == None::<Player>,
            !old(availables).of(p).dom().contains(t),
        ensures
            final(availables).wf(),
            final(availables).of(p) == if is_available(self@, p, t) {
                old(availables).of(p).insert(t, flip_set(self@, p, t))
            } else {
                old(availables).of(p)
            },
            forall|q: Player| q != p ==> #[trigger] final(availables).of(q) == old(availables).of(q),
            final(availables).buf() == scratch_upto(self@, p, t, 6, old(availables).buf()),
    {
        let ghost c = self@;
        let ghost m0 = availables.of(p);
        let range = self.range;
        let mut i: usize = 0;
        while i < 6
            invariant
                self.wf(),
                c == self@,
                valid_pos(self.spec_range() as int, t.0 as int, t.1 as int),
                availables.wf(),
                i <= 6,
                availables.of(p) == if captures_upto(c, p, t, i as int) {
                    m0.insert(t, flips_upto(c, p, t, i as int))
                } else {
                    m0
                },
                !captures_upto(c, p, t, i as int) ==> flips_upto(c, p, t, i as int) == Set::<Position>::empty(),
                forall|q: Player| q != p ==> #[trigger] availables.of(q) == old(availables).of(q),
                availables.buf() == scratch_upto(c, p, t, i as int, old(availables).buf()),
                !m0.dom().contains(t),
                range == self.spec_range(),
            decreases 6 - i,
        {
            let d = Self::dir_of(i);
            let ghost before_map = availables.of(p);
            let ghost before_buf = availables.buf();
            proof {
                self.lemma_wf();
            }
            let mut captured = false;
            if let Some(q) = Self::line_position(t, d, 1, range) {
                if self.player(q).is_some() {
                    let ghost a0 = *availables;
                    captured = self.capture_line(p, t, d, availables.positions_buf_mut());
                    assert(forall|r: Player| #[trigger] availables.of(r) == a0.of(r));
                    if captured {
                        let line = Self::copy_positions(availables.positions_buf(), 1);
                        availables.add_or_extend(p, t, line);
                    }
                }
            }
            proof {
                assert(availables.buf() == scratch_dir(c, p, t, d, before_buf));
                assert(captured == captures(c, p, t, d)) by {
                    let s1 = step(t, d, 1);
                    if !(valid_pos(c.len() as int, s1.0, s1.1) && cell(c, s1.0, s1.1) is Some) {
                        assert(scan(c, p, t, d, 1) == 0);
                    }
                }
            }
            if captured {
                proof {
                    assert(flips_upto(c, p, t, i as int + 1) == flips_upto(c, p, t, i as int) + flips(c, p, t, d));
                    if captures_upto(c, p, t, i as int) {
                        assert(before_map.dom().contains(t));
                        assert(availables.of(p) =~= m0.insert(t, flips_upto(c, p, t, i as int + 1)));
                    } else {
                        assert(!before_map.dom().contains(t));
                        assert(Set::<Position>::empty() + flips(c, p, t, d) =~= flips(c, p, t, d));
                        assert(flips_upto(c, p, t, i as int) + flips(c, p, t, d) =~= flips(c, p, t, d));
                        assert(availables.of(p) =~= m0.insert(t, flips_upto(c, p, t, i as int + 1)));
                    }
                }
            } else {
                proof {
                    assert(flips(c, p, t, d) == Set::<Position>::empty());
                    assert(flips_upto(c, p, t, i as int + 1) =~= flips_upto(c, p, t, i as int));
                }
            }
            i = i + 1;
        }
    }

    /// Recomputes the moves of `p` from the board.
    fn update_availables_for(&self, p: Player, availables: &mut Availables)
        requires
            self.wf(),
            old(availables).wf(),
        ensures
            final(availables).wf(),
            final(availables).of(p) == available_moves(self@, p),
            forall|q: Player| q != p ==> #[trigger] final(availables).of(q) == old(availables).of(q),
            final(availables).buf() == scratch_before(self@, p, 0, self.spec_range() as int, old(availables).buf()),
    {
        let ghost c = self@;
        let range = self.range;
        availables.get_mut(p).clear();
        proof {
            assert(availables.of(p) =~= moves_before(c, p, 0, 0));
        }
        let mut y: usize = 0;
        while y < range
            invariant
                self.wf(),
                c == self@,
                range == self.spec_range(),
                y <= range,
                availables.wf(),
                availables.of(p) == moves_before(c, p, 0, y as int),
                forall|q: Player| q != p ==> #[trigger] availables.of(q) == old(availables).of(q),
                availables.buf() == scratch_before(c, p, 0, y as int, old(availables).buf()),
            decreases range - y,
        {
            let mut x: usize = 0;
            while x <= y
                invariant
                    self.wf(),
                    c == self@,
                    range == self.spec_range(),
                    y < range,
                    x <= y + 1,
                    availables.wf(),
                    availables.of(p) == moves_before(c, p, x as int, y as int),
                    forall|q: Player| q != p ==> #[trigger] availables.of(q) == old(availables).of(q),
                    availables.buf() == scratch_before(c, p, x as int, y as int, old(availables).buf()),
                decreases y + 1 - x,
            {
                let t = (x, y);
                let ghost m = availables.of(p);
                if self.player(t).is_none() {
                    self.add_target(p, t, availables);
                    proof {
                        if is_available(c, p, t) {
                            assert(availables.of(p) =~= moves_before(c, p, x as int + 1, y as int));
                        } else {
                            assert(availables.of(p) =~= moves_before(c, p, x as int + 1, y as int));
                        }
                    }
                } else {
                    proof {
                        assert(availables.of(p) =~= moves_before(c, p, x as int + 1, y as int));
                    }
                }
                x = x + 1;
            }
            proof {
                assert(moves_before(c, p, x as int, y as int) =~= moves_before(c, p, 0, y as int + 1));
                assert(scratch_before(c, p, 0, y as int + 1, old(availables).buf())
                    == scratch_before(c, p, x as int, y as int, old(availables).buf()));
            }
            y = y + 1;
        }
        proof {
            assert(moves_before(c, p, 0, range as int) =~= available_moves(c, p));
        }
    }

    /// Recomputes, for every player, the positions where a stone may be put and what each turns.
    pub fn update_availables(&self, availables: &mut Availables)
        requires
            self.wf(),
            old(availables).wf(),
        ensures
            final(availables).wf(),
            forall|p: Player| #[trigger] final(availables).of(p) == available_moves(self@, p),
            final(availables).buf() == scratch_all(self@, old(availables).buf()),
    {
        self.update_availables_for(Player::Zero, availables);
        self.update_availables_for(Player::One, availables);
        self.update_availables_for(Player::Two, availables);
    }
}

impl Clone for Board {
    /// A copy holding the same stones.
    fn clone(&self) -> (b: Board)
        ensures
            b@ == self@,
            b.spec_range() == self.spec_range(),
            self.wf() ==> b.wf(),
    {
        let mut rows: Vec<Vec<Option<Player>>> = Vec::new();
        let mut y: usize = 0;
        while y < self.board.len()
            invariant
                y <= self.board@.len(),
                rows@.len() == y,
                forall|j: int| 0 <= j < y ==> #[trigger] rows@[j]@ == self.board@[j]@,
            decreases self.board@.len() - y,
        {
            let src = &self.board[y];
            let mut row: Vec<Option<Player>> = Vec::new();
            let mut x: usize = 0;
            while x < src.len()
                invariant
                    x <= src@.len(),
                    row@.len() == x,
                    forall|i: int| 0 <= i < x ==> #[trigger] row@[i] == src@[i],
                decreases src@.len() - x,
            {
                row.push(src[x]);
                x = x + 1;
            }
            assert(row@ =~= src@);
            rows.push(row);
            y = y + 1;
        }
        let b = Board { board: rows, range: self.range, count: self.count };
        assert(b@ =~= self@);
        b
    }
}

} // verus!
