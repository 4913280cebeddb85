use vstd::prelude::*;

use crate::board::player::Player;

verus! {

/// A position `(x, y)` on the board: column `x` of row `y`.
pub type Position = (usize, usize);

/// The contents of a board, row by row.
pub type Cells = Seq<Seq<Option<Player>>>;

/// `(x, y)` lies on a board of the given range.
pub open spec fn valid_pos(range: int, x: int, y: int) -> bool {
    0 <= x <= y < range
}

/// The stone at `(x, y)`.
pub open spec fn cell(c: Cells, x: int, y: int) -> Option<Player> {
    c[y][x]
}

/// The cells with `(x, y)` holding `v`.
pub open spec fn set_cell(c: Cells, x: int, y: int, v: Option<Player>) -> Cells {
    c.update(y, c[y].update(x, v))
}

/// Row `y` of the cells has `y + 1` positions, for each of `range` rows.
pub open spec fn shaped(c: Cells, range: int) -> bool {
    &&& c.len() == range
    &&& forall|y: int| 0 <= y < range ==> #[trigger] c[y].len() == y + 1
}

/// A board of the given range without any stone.
pub open spec fn empty_cells(range: int) -> Cells {
    Seq::new(range as nat, |y: int| Seq::new((y + 1) as nat, |x: int| None::<Player>))
}

/// The stone that a freshly initialised board of the given range holds at `(x, y)`.
pub open spec fn initial_stone(range: int, x: int, y: int) -> Option<Player> {
    if range % 3 == 0 {
        let m = range / 3;
        if (x, y) == (m, 2 * m) || (x, y) == (m + 1, 2 * m - 1) || (x, y) == (m - 1, 2 * m - 2)
            || (x, y) == (m - 2, 2 * m - 1) {
            Some(Player::Zero)
        } else if (x, y) == (m, 2 * m - 1) || (x, y) == (m - 2, 2 * m - 2) || (x, y) == (
            m - 1,
            2 * m,
        ) || (x, y) == (m + 1, 2 * m + 1) {
            Some(Player::One)
        } else if (x, y) == (m - 1, 2 * m - 1) || (x, y) == (m, 2 * m + 1) || (x, y) == (
            m + 1,
            2 * m,
        ) || (x, y) == (m, 2 * m - 2) {
            Some(Player::Two)
        } else {
            None
        }
    } else {
        let m = (range - 2) / 3;
        if (x, y) == (m, 2 * m) || (x, y) == (m - 1, 2 * m + 1) || (x, y) == (m + 1, 2 * m + 2)
            || (x, y) == (m + 2, 2 * m + 1) {
            Some(Player::Zero)
        } else if (x, y) == (m, 2 * m + 1) || (x, y) == (m + 2, 2 * m + 2) || (x, y) == (
            m + 1,
            2 * m,
        ) || (x, y) == (m - 1, 2 * m - 1) {
            Some(Player::One)
        } else if (x, y) == (m + 1, 2 * m + 1) || (x, y) == (m, 2 * m - 1) || (x, y) == (
            m - 1,
            2 * m,
        ) || (x, y) == (m, 2 * m + 2) {
            Some(Player::Two)
        } else {
            None
        }
    }
}

/// A freshly initialised board of the given range.
pub open spec fn initial_cells(range: int) -> Cells {
    Seq::new(
        range as nat,
        |y: int| Seq::new((y + 1) as nat, |x: int| initial_stone(range, x, y)),
    )
}

/// 1 when `b` holds, else 0.
pub open spec fn ind(b: bool) -> int {
    if b {
        1
    } else {
        0
    }
}

/// The number of stones of `p` in one row.
pub open spec fn row_count(row: Seq<Option<Player>>, p: Player) -> nat
    decreases row.len(),
{
    if row.len() == 0 {
        0
    } else {
        row_count(row.drop_last(), p) + ind(row.last() == Some(p)) as nat
    }
}

/// The number of stones of `p` on the board.
pub open spec fn board_count(c: Cells, p: Player) -> nat
    decreases c.len(),
{
    if c.len() == 0 {
        0
    } else {
        board_count(c.drop_last(), p) + row_count(c.last(), p)
    }
}

pub proof fn lemma_row_count_update(row: Seq<Option<Player>>, i: int, v: Option<Player>, p: Player)
    requires
        0 <= i < row.len(),
    ensures
        row_count(row.update(i, v), p) == row_count(row, p) - ind(row[i] == Some(p)) + ind(
            v == Some(p),
        ),
    decreases row.len(),
{
    let r2 = row.update(i, v);
    if i == row.len() - 1 {
        assert(r2.drop_last() =~= row.drop_last());
    } else {
        assert(r2.drop_last() =~= row.drop_last().update(i, v));
        lemma_row_count_update(row.drop_last(), i, v, p);
    }
}

pub proof fn lemma_board_count_update(c: Cells, x: int, y: int, v: Option<Player>)
    requires
        0 <= y < c.len(),
        0 <= x < c[y].len(),
    ensures
        forall|p: Player|
            #![trigger board_count(set_cell(c, x, y, v), p)]
            board_count(set_cell(c, x, y, v), p) == board_count(c, p) - ind(c[y][x] == Some(p))
                + ind(v == Some(p)),
    decreases c.len(),
{
    assert forall|p: Player|
        #![trigger board_count(set_cell(c, x, y, v), p)]
        board_count(set_cell(c, x, y, v), p) == board_count(c, p) - ind(c[y][x] == Some(p)) + ind(
            v == Some(p),
        ) by {
        let c2 = set_cell(c, x, y, v);
        if y == c.len() - 1 {
            assert(c2.drop_last() =~= c.drop_last());
            assert(c2.last() == c[y].update(x, v));
            lemma_row_count_update(c[y], x, v, p);
        } else {
            assert(c2.drop_last() =~= set_cell(c.drop_last(), x, y, v));
            assert(c2.last() == c.last());
            lemma_board_count_update(c.drop_last(), x, y, v);
            assert(board_count(set_cell(c.drop_last(), x, y, v), p) == board_count(c.drop_last(), p)
                - ind(c[y][x] == Some(p)) + ind(v == Some(p)));
        }
    }
}

pub proof fn lemma_row_count_bound(row: Seq<Option<Player>>, p: Player)
    ensures
        row_count(row, p) <= row.len(),
    decreases row.len(),
{
    if row.len() > 0 {
        lemma_row_count_bound(row.drop_last(), p);
    }
}

proof fn lemma_board_count_bound_rows(c: Cells, k: int, p: Player)
    requires
        0 <= k,
        forall|y: int| 0 <= y < c.len() ==> #[trigger] c[y].len() <= k,
    ensures
        board_count(c, p) <= c.len() * k,
    decreases c.len(),
{
    if c.len() > 0 {
        let n = c.len() as int;
        lemma_board_count_bound_rows(c.drop_last(), k, p);
        lemma_row_count_bound(c.last(), p);
        assert((n - 1) * k + k == n * k) by (nonlinear_arith);
    }
}

/// On a shaped board of range at most `0x100_0000`, no count reaches `u64::MAX`.
pub proof fn lemma_board_count_bound(c: Cells, range: int)
    requires
        shaped(c, range),
        range <= 0x100_0000,
    ensures
        forall|p: Player| #[trigger] board_count(c, p) < u64::MAX,
{
    assert forall|p: Player| #[trigger] board_count(c, p) < u64::MAX by {
        lemma_board_count_bound_rows(c, range, p);
        assert(range * range <= 0x100_0000 * 0x100_0000) by (nonlinear_arith)
            requires
                0 <= range <= 0x100_0000,
        ;
    }
}

proof fn lemma_empty_row_count(n: int, p: Player)
    requires
        0 <= n,
    ensures
        row_count(Seq::new(n as nat, |x: int| None::<Player>), p) == 0,
    decreases n,
{
    if n > 0 {
        assert(Seq::new(n as nat, |x: int| None::<Player>).drop_last() =~= Seq::new(
            (n - 1) as nat,
            |x: int| None::<Player>,
        ));
        lemma_empty_row_count(n - 1, p);
    }
}

/// A board without stones counts no stone for anyone.
pub proof fn lemma_empty_count(range: int)
    requires
        0 <= range,
    ensures
        forall|p: Player| #[trigger] board_count(empty_cells(range), p) == 0,
    decreases range,
{
    assert forall|p: Player| #[trigger] board_count(empty_cells(range), p) == 0 by {
        if range > 0 {
            assert(empty_cells(range).drop_last() =~= empty_cells(range - 1));
            assert(empty_cells(range).last() =~= Seq::new(range as nat, |x: int| None::<Player>));
            lemma_empty_count(range - 1);
            lemma_empty_row_count(range, p);
            assert(board_count(empty_cells(range - 1), p) == 0);
            assert(board_count(empty_cells(range), p) == board_count(empty_cells(range).drop_last(), p)
                + row_count(empty_cells(range).last(), p));
        }
    }
}

} // verus!

verus! {

/// The starting stones of a board of range `r`, in the order in which they are put.
pub open spec fn initial_list(r: int) -> Seq<(Position, Player)> {
    if r % 3 == 0 {
        let m = r / 3;
        seq![
            ((m as usize, (2 * m) as usize), Player::Zero),
            (((m + 1) as usize, (2 * m - 1) as usize), Player::Zero),
            (((m - 1) as usize, (2 * m - 2) as usize), Player::Zero),
            (((m - 2) as usize, (2 * m - 1) as usize), Player::Zero),
            ((m as usize, (2 * m - 1) as usize), Player::One),
            (((m - 2) as usize, (2 * m - 2) as usize), Player::One),
            (((m - 1) as usize, (2 * m) as usize), Player::One),
            (((m + 1) as usize, (2 * m + 1) as usize), Player::One),
            (((m - 1) as usize, (2 * m - 1) as usize), Player::Two),
            ((m as usize, (2 * m + 1) as usize), Player::Two),
            (((m + 1) as usize, (2 * m) as usize), Player::Two),
            ((m as usize, (2 * m - 2) as usize), Player::Two),
        ]
    } else {
        let m = (r - 2) / 3;
        seq![
            ((m as usize, (2 * m) as usize), Player::Zero),
            (((m - 1) as usize, (2 * m + 1) as usize), Player::Zero),
            (((m + 1) as usize, (2 * m + 2) as usize), Player::Zero),
            (((m + 2) as usize, (2 * m + 1) as usize), Player::Zero),
            ((m as usize, (2 * m + 1) as usize), Player::One),
            (((m + 2) as usize, (2 * m + 2) as usize), Player::One),
            (((m + 1) as usize, (2 * m) as usize), Player::One),
            (((m - 1) as usize, (2 * m - 1) as usize), Player::One),
            (((m + 1) as usize, (2 * m + 1) as usize), Player::Two),
            ((m as usize, (2 * m - 1) as usize), Player::Two),
            (((m - 1) as usize, (2 * m) as usize), Player::Two),
            ((m as usize, (2 * m + 2) as usize), Player::Two),
        ]
    }
}

/// The cells after putting each stone of the list in turn.
pub open spec fn place_list(c: Cells, l: Seq<(Position, Player)>) -> Cells
    decreases l.len(),
{
    if l.len() == 0 {
        c
    } else {
        let (pos, p) = l.last();
        set_cell(place_list(c, l.drop_last()), pos.0 as int, pos.1 as int, Some(p))
    }
}

/// The stone that the list puts last at `(x, y)`, if any.
pub open spec fn stone_in_list(l: Seq<(Position, Player)>, x: int, y: int) -> Option<Player>
    decreases l.len(),
{
    if l.len() == 0 {
        None
    } else if l.last().0.0 as int == x && l.last().0.1 as int == y {
        Some(l.last().1)
    } else {
        stone_in_list(l.drop_last(), x, y)
    }
}

/// The number of stones of `p` in the list.
pub open spec fn list_count(l: Seq<(Position, Player)>, p: Player) -> nat
    decreases l.len(),
{
    if l.len() == 0 {
        0
    } else {
        list_count(l.drop_last(), p) + ind(l.last().1 == p) as nat
    }
}

pub open spec fn list_valid(l: Seq<(Position, Player)>, range: int) -> bool {
    forall|i: int| 0 <= i < l.len() ==> valid_pos(range, #[trigger] l[i].0.0 as int, l[i].0.1 as int)
}

pub proof fn lemma_place_list_cell(c: Cells, l: Seq<(Position, Player)>, x: int, y: int)
    requires
        shaped(c, c.len() as int),
        list_valid(l, c.len() as int),
        valid_pos(c.len() as int, x, y),
    ensures
        shaped(place_list(c, l), c.len() as int),
        cell(place_list(c, l), x, y) == match stone_in_list(l, x, y) {
            Some(p) => Some(p),
            None => cell(c, x, y),
        },
    decreases l.len(),
{
    if l.len() > 0 {
        let (pos, p) = l.last();
        assert(list_valid(l.drop_last(), c.len() as int)) by {
            assert forall|i: int| 0 <= i < l.drop_last().len() implies valid_pos(
                c.len() as int,
                #[trigger] l.drop_last()[i].0.0 as int,
                l.drop_last()[i].0.1 as int,
            ) by {
                assert(l.drop_last()[i] == l[i]);
            }
        }
        assert(valid_pos(c.len() as int, l[l.len() - 1].0.0 as int, l[l.len() - 1].0.1 as int));
        lemma_place_list_cell(c, l.drop_last(), x, y);
        lemma_place_list_cell(c, l.drop_last(), pos.0 as int, pos.1 as int);
    }
}

pub proof fn lemma_initial_list(r: int)
    requires
        5 <= r,
        r % 3 != 1,
        r <= 0x100_0000,
    ensures
        initial_list(r).len() == 12,
        list_valid(initial_list(r), r),
        forall|i: int, j: int|
            0 <= i < j < 12 ==> #[trigger] initial_list(r)[i].0 != #[trigger] initial_list(r)[j].0,
        forall|p: Player| #[trigger] list_count(initial_list(r), p) == 4,
{
    let l = initial_list(r);
    reveal_with_fuel(list_count, 13);
    assert(l.len() == 12);
    assert(list_valid(l, r));
    assert forall|p: Player| #[trigger] list_count(l, p) == 4 by {
        assert(l.drop_last().drop_last().drop_last().drop_last().drop_last().drop_last().drop_last().drop_last().drop_last().drop_last().drop_last().drop_last().len() == 0);
    }
}

pub proof fn lemma_stone_in_list_distinct(l: Seq<(Position, Player)>, i: int)
    requires
        0 <= i < l.len(),
        forall|a: int, b: int| 0 <= a < b < l.len() ==> #[trigger] l[a].0 != #[trigger] l[b].0,
    ensures
        stone_in_list(l.take(i), l[i].0.0 as int, l[i].0.1 as int) == None::<Player>,
    decreases i,
{
    if i > 0 {
        let l2 = l.take(i);
        assert(l2.drop_last() =~= l.take(i - 1));
        assert(l2.last() == l[i - 1]);
        assert(l[i - 1].0 != l[i].0);
        lemma_stone_in_list_distinct_prefix(l, i - 1, i);
    }
}

proof fn lemma_stone_in_list_distinct_prefix(l: Seq<(Position, Player)>, k: int, i: int)
    requires
        0 <= k < i < l.len(),
        forall|a: int, b: int| 0 <= a < b < l.len() ==> #[trigger] l[a].0 != #[trigger] l[b].0,
    ensures
        stone_in_list(l.take(k + 1), l[i].0.0 as int, l[i].0.1 as int) == None::<Player>,
    decreases k,
{
    let l2 = l.take(k + 1);
    assert(l2.last() == l[k]);
    assert(l[k].0 != l[i].0);
    assert(!(l2.last().0.0 as int == l[i].0.0 as int && l2.last().0.1 as int == l[i].0.1 as int));
    assert(stone_in_list(l2, l[i].0.0 as int, l[i].0.1 as int) == stone_in_list(
        l2.drop_last(),
        l[i].0.0 as int,
        l[i].0.1 as int,
    ));
    if k > 0 {
        assert(l2.drop_last() =~= l.take(k));
        lemma_stone_in_list_distinct_prefix(l, k - 1, i);
    } else {
        assert(l2.drop_last() =~= Seq::<(Position, Player)>::empty());
    }
}

/// The listed starting stones describe the starting board cell by cell.
#[verifier::spinoff_prover]
#[verifier::rlimit(60)]
pub proof fn lemma_initial_cells(r: int)
    requires
        5 <= r,
        r % 3 != 1,
        r <= 0x100_0000,
    ensures
        place_list(empty_cells(r), initial_list(r)) == initial_cells(r),
{
    let l = initial_list(r);
    let c = place_list(empty_cells(r), l);
    lemma_initial_list(r);
    assert forall|y: int| 0 <= y < r implies #[trigger] c[y] =~= initial_cells(r)[y] by {
        lemma_place_list_cell(empty_cells(r), l, 0, y);
        assert forall|x: int| 0 <= x < c[y].len() implies #[trigger] c[y][x] == initial_cells(r)[y][x] by {
            lemma_place_list_cell(empty_cells(r), l, x, y);
            reveal_with_fuel(stone_in_list, 13);
        }
    }
    lemma_place_list_cell(empty_cells(r), l, 0, 0);
    assert(c =~= initial_cells(r));
}

} // verus!

verus! {

/// What putting the `i`-th listed starting stone does to the board built so far.
pub proof fn lemma_initial_step(r: int, i: int)
    requires
        5 <= r,
        r % 3 != 1,
        r <= 0x100_0000,
        0 <= i < 12,
    ensures
        ({
            let l = initial_list(r);
            let c = place_list(empty_cells(r), l.take(i));
            &&& valid_pos(r, l[i].0.0 as int, l[i].0.1 as int)
            &&& cell(c, l[i].0.0 as int, l[i].0.1 as int) == None::<Player>
            &&& place_list(empty_cells(r), l.take(i + 1)) == set_cell(
                c,
                l[i].0.0 as int,
                l[i].0.1 as int,
                Some(l[i].1),
            )
            &&& forall|q: Player|
                #[trigger] list_count(l.take(i + 1), q) == list_count(l.take(i), q) + ind(
                    l[i].1 == q,
                )
        }),
{
    let l = initial_list(r);
    lemma_initial_list(r);
    assert(l.take(i + 1).drop_last() =~= l.take(i));
    assert(l.take(i + 1).last() == l[i]);
    assert(list_valid(l.take(i), r)) by {
        assert forall|j: int| 0 <= j < l.take(i).len() implies valid_pos(
            r,
            #[trigger] l.take(i)[j].0.0 as int,
            l.take(i)[j].0.1 as int,
        ) by {
            assert(l.take(i)[j] == l[j]);
        }
    }
    assert(shaped(empty_cells(r), r));
    lemma_place_list_cell(empty_cells(r), l.take(i), l[i].0.0 as int, l[i].0.1 as int);
    lemma_stone_in_list_distinct(l, i);
}

} // verus!

verus! {

/// The cursor after one step up.
pub open spec fn moved_up(p: Position) -> Position {
    if p.1 > 0 {
        let y = (p.1 - 1) as usize;
        (if p.0 > y { (p.0 - 1) as usize } else { p.0 }, y)
    } else {
        p
    }
}

/// The cursor after one step down.
pub open spec fn moved_down(p: Position, range: int) -> Position {
    if p.1 < range - 1 {
        (p.0, (p.1 + 1) as usize)
    } else {
        p
    }
}

/// The cursor after one step left.
pub open spec fn moved_left(p: Position, range: int) -> Position {
    if p.0 > 0 {
        ((p.0 - 1) as usize, p.1)
    } else if p.1 < range - 1 {
        (p.0, (p.1 + 1) as usize)
    } else {
        p
    }
}

/// The cursor after one step right.
pub open spec fn moved_right(p: Position, range: int) -> Position {
    if p.0 < range - 1 {
        let x = (p.0 + 1) as usize;
        (x, if x > p.1 { (p.1 + 1) as usize } else { p.1 })
    } else {
        p
    }
}

} // verus!

verus! {

/// The number of stones on the board.
pub open spec fn total_stones(c: Cells) -> nat {
    board_count(c, Player::Zero) + board_count(c, Player::One) + board_count(c, Player::Two)
}

/// How many of the listed positions are empty.
pub open spec fn empties(c: Cells, l: Seq<Position>) -> nat
    decreases l.len(),
{
    if l.len() == 0 {
        0
    } else {
        empties(c, l.drop_last()) + ind(cell(c, l.last().0 as int, l.last().1 as int) is None) as nat
    }
}

/// When none of the listed positions is empty, none is counted.
pub proof fn lemma_empties_none(c: Cells, l: Seq<Position>)
    ensures
        (forall|r: Position| #[trigger] l.contains(r) ==> cell(c, r.0 as int, r.1 as int) is Some) ==> empties(c, l) == 0,
    decreases l.len(),
{
    if l.len() > 0 {
        if forall|r: Position| #[trigger] l.contains(r) ==> cell(c, r.0 as int, r.1 as int) is Some {
            assert forall|r: Position| #[trigger] l.drop_last().contains(r) implies cell(c, r.0 as int, r.1 as int) is Some by {
                let j = choose|j: int| 0 <= j < l.drop_last().len() && l.drop_last()[j] == r;
                assert(l[j] == r);
                assert(l.contains(r));
            }
            assert(l.contains(l.last()));
        }
        lemma_empties_none(c, l.drop_last());
    }
}

} // verus!

verus! {

/// Moving left from a position that is not the first of its row goes one column left in the
/// same row; from the first position of a row it goes one row down, to the first position
/// there, unless it is the last row; moving right then returns to where it started.
pub proof fn lemma_left_keeps_the_row(x: usize, y: usize, range: int)
    requires
        valid_pos(range, x as int, y as int),
        range <= usize::MAX,
    ensures
        x > 0 ==> moved_left((x, y), range) == ((x - 1) as usize, y),
        x > 0 ==> moved_right(moved_left((x, y), range), range) == (x, y),
        x == 0 && y + 1 < range ==> moved_left((x, y), range) == (0usize, (y + 1) as usize),
        x == 0 && y + 1 >= range ==> moved_left((x, y), range) == (x, y),
{
}

/// Moving right goes one column right; past the end of its row it goes one row down as
/// well, so that it stays on the board; from the last column of the board it stays.
pub proof fn lemma_right_steps(x: usize, y: usize, range: int)
    requires
        valid_pos(range, x as int, y as int),
        range <= usize::MAX,
    ensures
        x < y ==> moved_right((x, y), range) == ((x + 1) as usize, y),
        x < y ==> moved_left(moved_right((x, y), range), range) == (x, y),
        x == y && x + 1 < range ==> moved_right((x, y), range) == ((x + 1) as usize, (y + 1) as usize),
        x + 1 >= range ==> moved_right((x, y), range) == (x, y),
{
}

/// Moving up goes one row up, and one column left from the last position of a row;
/// moving down goes one row down in the same column; the top and bottom rows stay.
pub proof fn lemma_up_and_down(x: usize, y: usize, range: int)
    requires
        valid_pos(range, x as int, y as int),
        range <= usize::MAX,
    ensures
        y > 0 && x < y ==> moved_up((x, y)) == (x, (y - 1) as usize),
        y > 0 && x == y ==> moved_up((x, y)) == ((x - 1) as usize, (y - 1) as usize),
        y == 0 ==> moved_up((x, y)) == (x, y),
        y + 1 < range ==> moved_down((x, y), range) == (x, (y + 1) as usize),
        y + 1 < range ==> moved_up(moved_down((x, y), range)) == (x, y),
        y + 1 >= range ==> moved_down((x, y), range) == (x, y),
{
}

/// On a board whose range `r` is a multiple of 3, with `m = r / 3`, the twelve starting
/// stones lie around `(m, 2m)`: player Zero at (m, 2m), (m+1, 2m-1), (m-1, 2m-2), (m-2, 2m-1),
/// One at (m, 2m-1), (m-2, 2m-2), (m-1, 2m), (m+1, 2m+1), Two at (m-1, 2m-1), (m, 2m+1),
/// (m+1, 2m), (m, 2m-2); every other position is empty.
pub proof fn lemma_starting_layout_of_multiples_of_three(r: int)
    requires
        r >= 5,
        r % 3 == 0,
    ensures
        ({
            let c = initial_cells(r);
            let m = r / 3;
            &&& c.len() == r
            &&& cell(c, m, 2 * m) == Some(Player::Zero)
            &&& cell(c, m + 1, 2 * m - 1) == Some(Player::Zero)
            &&& cell(c, m - 1, 2 * m - 2) == Some(Player::Zero)
            &&& cell(c, m - 2, 2 * m - 1) == Some(Player::Zero)
            &&& cell(c, m, 2 * m - 1) == Some(Player::One)
            &&& cell(c, m - 2, 2 * m - 2) == Some(Player::One)
            &&& cell(c, m - 1, 2 * m) == Some(Player::One)
            &&& cell(c, m + 1, 2 * m + 1) == Some(Player::One)
            &&& cell(c, m - 1, 2 * m - 1) == Some(Player::Two)
            &&& cell(c, m, 2 * m + 1) == Some(Player::Two)
            &&& cell(c, m + 1, 2 * m) == Some(Player::Two)
            &&& cell(c, m, 2 * m - 2) == Some(Player::Two)
            &&& forall|x: int, y: int|
                valid_pos(r, x, y) && !((x, y) == (m, 2 * m) || (x, y) == (m + 1, 2 * m - 1) || (x, y) == (
                    m - 1,
                    2 * m - 2,
                ) || (x, y) == (m - 2, 2 * m - 1) || (x, y) == (m, 2 * m - 1) || (x, y) == (m - 2, 2 * m - 2)
                    || (x, y) == (m - 1, 2 * m) || (x, y) == (m + 1, 2 * m + 1) || (x, y) == (m - 1, 2 * m - 1)
                    || (x, y) == (m, 2 * m + 1) || (x, y) == (m + 1, 2 * m) || (x, y) == (m, 2 * m - 2))
                    ==> #[trigger] cell(c, x, y) == None::<Player>
        }),
{
}

/// On a board whose range `r` is 2 more than a multiple of 3, with `m = (r - 2) / 3`, the
/// twelve starting stones lie around `(m, 2m)`: player Zero at (m, 2m), (m-1, 2m+1),
/// (m+1, 2m+2), (m+2, 2m+1), One at (m, 2m+1), (m+2, 2m+2), (m+1, 2m), (m-1, 2m-1),
/// Two at (m+1, 2m+1), (m, 2m-1), (m-1, 2m), (m, 2m+2); every other position is empty.
pub proof fn lemma_starting_layout_of_two_past_multiples_of_three(r: int)
    requires
        r >= 5,
        r % 3 == 2,
    ensures
        ({
            let c = initial_cells(r);
            let m = (r - 2) / 3;
            &&& c.len() == r
            &&& cell(c, m, 2 * m) == Some(Player::Zero)
            &&& cell(c, m - 1, 2 * m + 1) == Some(Player::Zero)
            &&& cell(c, m + 1, 2 * m + 2) == Some(Player::Zero)
            &&& cell(c, m + 2, 2 * m + 1) == Some(Player::Zero)
            &&& cell(c, m, 2 * m + 1) == Some(Player::One)
            &&& cell(c, m + 2, 2 * m + 2) == Some(Player::One)
            &&& cell(c, m + 1, 2 * m) == Some(Player::One)
            &&& cell(c, m - 1, 2 * m - 1) == Some(Player::One)
            &&& cell(c, m + 1, 2 * m + 1) == Some(Player::Two)
            &&& cell(c, m, 2 * m - 1) == Some(Player::Two)
            &&& cell(c, m - 1, 2 * m) == Some(Player::Two)
            &&& cell(c, m, 2 * m + 2) == Some(Player::Two)
            &&& forall|x: int, y: int|
                valid_pos(r, x, y) && !((x, y) == (m, 2 * m) || (x, y) == (m - 1, 2 * m + 1) || (x, y) == (
                    m + 1,
                    2 * m + 2,
                ) || (x, y) == (m + 2, 2 * m + 1) || (x, y) == (m, 2 * m + 1) || (x, y) == (m + 2, 2 * m + 2)
                    || (x, y) == (m + 1, 2 * m) || (x, y) == (m - 1, 2 * m - 1) || (x, y) == (m + 1, 2 * m + 1)
                    || (x, y) == (m, 2 * m - 1) || (x, y) == (m - 1, 2 * m) || (x, y) == (m, 2 * m + 2))
                    ==> #[trigger] cell(c, x, y) == None::<Player>
        }),
{
}

} // verus!
