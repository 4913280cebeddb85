use vstd::prelude::*;

use crate::board::cells::{cell, valid_pos, Cells, Position};
use crate::board::player::Player;

verus! {

/// The six directions along which stones are captured.
#[derive(Clone, Copy, Debug, PartialEq, Eq, Structural)]
pub enum Dir {
    Left,
    LeftUp,
    Right,
    Up,
    Down,
    RightDown,
}

/// The directions in the order in which they are looked at.
pub open spec fn dir_at(i: int) -> Dir {
    if i == 0 {
        Dir::Left
    } else if i == 1 {
        Dir::LeftUp
    } else if i == 2 {
        Dir::Right
    } else if i == 3 {
        Dir::Up
    } else if i == 4 {
        Dir::Down
    } else {
        Dir::RightDown
    }
}

/// The point `k` steps from `t` along `d`.
pub open spec fn step(t: Position, d: Dir, k: int) -> (int, int) {
    let x = t.0 as int;
    let y = t.1 as int;
    match d {
        Dir::Left => (x - k, y),
        Dir::LeftUp => (x - k, y - k),
        Dir::Right => (x + k, y),
        Dir::Up => (x, y - k),
        Dir::Down => (x, y + k),
        Dir::RightDown => (x + k, y + k),
    }
}

/// The position `k` steps from `t` along `d`.
pub open spec fn line_pos(t: Position, d: Dir, k: int) -> Position {
    (step(t, d, k).0 as usize, step(t, d, k).1 as usize)
}

/// Walking from `t` along `d` from step `k` over stones that are not `p`'s:
/// the step at which a stone of `p` is met, or 0 when the walk meets an empty
/// position or leaves the board first.
pub open spec fn scan(c: Cells, p: Player, t: Position, d: Dir, k: nat) -> nat
    decreases c.len() - k,
{
    if k >= c.len() {
        0
    } else {
        let s = step(t, d, k as int);
        if !valid_pos(c.len() as int, s.0, s.1) {
            0
        } else {
            match cell(c, s.0, s.1) {
                None => 0,
                Some(q) => if q == p {
                    k
                } else {
                    scan(c, p, t, d, k + 1)
                },
            }
        }
    }
}

/// A stone of `p` at `t` would capture at least one stone along `d`.
pub open spec fn captures(c: Cells, p: Player, t: Position, d: Dir) -> bool {
    scan(c, p, t, d, 1) >= 2
}

/// The stones that a stone of `p` at `t` captures along `d`; empty when none is captured.
pub open spec fn flips(c: Cells, p: Player, t: Position, d: Dir) -> Set<Position> {
    if captures(c, p, t, d) {
        Set::new(|q: Position| exists|j: int| 1 <= j < scan(c, p, t, d, 1) && q == #[trigger] line_pos(t, d, j))
    } else {
        Set::empty()
    }
}

/// A capture along one of the first `n` directions.
pub open spec fn captures_upto(c: Cells, p: Player, t: Position, n: int) -> bool
    decreases n,
{
    if n <= 0 {
        false
    } else {
        captures_upto(c, p, t, n - 1) || captures(c, p, t, dir_at(n - 1))
    }
}

/// What a stone of `p` at `t` turns along the first `n` directions.
pub open spec fn flips_upto(c: Cells, p: Player, t: Position, n: int) -> Set<Position>
    decreases n,
{
    if n <= 0 {
        Set::empty()
    } else {
        flips_upto(c, p, t, n - 1) + flips(c, p, t, dir_at(n - 1))
    }
}

/// The positions whose stones turn into `p`'s when `p` puts a stone at `t`.
pub open spec fn flip_set(c: Cells, p: Player, t: Position) -> Set<Position> {
    flips_upto(c, p, t, 6)
}

/// `p` may put a stone at `t`: it is an empty position of the board and the stone captures.
pub open spec fn is_available(c: Cells, p: Player, t: Position) -> bool {
    &&& valid_pos(c.len() as int, t.0 as int, t.1 as int)
    &&& cell(c, t.0 as int, t.1 as int) == None::<Player>
    &&& captures_upto(c, p, t, 6)
}

/// The positions where `p` may put a stone, each with the stones that the move turns.
pub open spec fn available_moves(c: Cells, p: Player) -> Map<Position, Set<Position>> {
    Map::new(|t: Position| is_available(c, p, t), |t: Position| flip_set(c, p, t))
}

/// `t` comes before `(x, y)` in row-major order.
pub open spec fn before(t: Position, x: int, y: int) -> bool {
    t.1 < y || (t.1 == y && t.0 < x)
}

/// The moves of `p` at the positions before `(x, y)`.
pub open spec fn moves_before(c: Cells, p: Player, x: int, y: int) -> Map<Position, Set<Position>> {
    Map::new(|t: Position| is_available(c, p, t) && before(t, x, y), |t: Position| flip_set(c, p, t))
}

/// Walking from `t` along `d` from step `k`: how many stones of players other than `p`
/// follow one another before a stone of `p`, an empty position or the edge.
pub open spec fn run_len(c: Cells, p: Player, t: Position, d: Dir, k: nat) -> nat
    decreases c.len() - k,
{
    if k >= c.len() {
        0
    } else {
        let s = step(t, d, k as int);
        if !valid_pos(c.len() as int, s.0, s.1) {
            0
        } else {
            match cell(c, s.0, s.1) {
                None => 0,
                Some(q) => if q == p {
                    0
                } else {
                    1 + run_len(c, p, t, d, k + 1)
                },
            }
        }
    }
}

/// The scratch list left by looking from `t` along `d` for `p`: where the neighbour along
/// `d` holds a stone, `t` followed by the run of other players' stones from there;
/// otherwise `buf` as it was.
pub open spec fn scratch_dir(c: Cells, p: Player, t: Position, d: Dir, buf: Seq<Position>) -> Seq<Position> {
    let s = step(t, d, 1);
    if valid_pos(c.len() as int, s.0, s.1) && cell(c, s.0, s.1) is Some {
        Seq::new(run_len(c, p, t, d, 1) + 1, |j: int| line_pos(t, d, j))
    } else {
        buf
    }
}

/// The scratch list left by looking from `t` along the first `n` directions.
pub open spec fn scratch_upto(c: Cells, p: Player, t: Position, n: int, buf: Seq<Position>) -> Seq<Position>
    decreases n,
{
    if n <= 0 {
        buf
    } else {
        scratch_dir(c, p, t, dir_at(n - 1), scratch_upto(c, p, t, n - 1, buf))
    }
}

/// The scratch list left by looking, for `p`, from every empty position before `(x, y)`
/// in row-major order.
pub open spec fn scratch_before(c: Cells, p: Player, x: int, y: int, buf: Seq<Position>) -> Seq<Position>
    decreases y, x,
{
    if y < 0 || (x <= 0 && y == 0) {
        buf
    } else if x <= 0 {
        scratch_before(c, p, y, y - 1, buf)
    } else {
        let prev = scratch_before(c, p, x - 1, y, buf);
        if cell(c, x - 1, y) is None {
            scratch_upto(c, p, ((x - 1) as usize, y as usize), 6, prev)
        } else {
            prev
        }
    }
}

/// The scratch list left by looking for the moves of the three players in turn.
pub open spec fn scratch_all(c: Cells, buf: Seq<Position>) -> Seq<Position> {
    let r = c.len() as int;
    scratch_before(
        c,
        Player::Two,
        0,
        r,
        scratch_before(c, Player::One, 0, r, scratch_before(c, Player::Zero, 0, r, buf)),
    )
}

} // verus!

verus! {

/// Along a walk that ends on a stone of `p`, every position before it holds
/// another player's stone, and the end holds `p`'s.
pub proof fn lemma_scan(c: Cells, p: Player, t: Position, d: Dir, k: nat)
    requires
        k >= 1,
        scan(c, p, t, d, k) != 0,
    ensures
        k <= scan(c, p, t, d, k) < c.len(),
        ({
            let m = scan(c, p, t, d, k);
            let s = step(t, d, m as int);
            valid_pos(c.len() as int, s.0, s.1) && cell(c, s.0, s.1) == Some(p)
        }),
        forall|j: int|
            k <= j < scan(c, p, t, d, k) ==> {
                let s = #[trigger] step(t, d, j);
                &&& valid_pos(c.len() as int, s.0, s.1)
                &&& cell(c, s.0, s.1) is Some
                &&& cell(c, s.0, s.1) != Some(p)
            },
    decreases c.len() - k,
{
    let s = step(t, d, k as int);
    if cell(c, s.0, s.1) != Some(p) {
        lemma_scan(c, p, t, d, k + 1);
    }
}

/// The positions turned along one direction hold other players' stones on the board.
pub proof fn lemma_flips(c: Cells, p: Player, t: Position, d: Dir)
    requires
        valid_pos(c.len() as int, t.0 as int, t.1 as int),
        c.len() <= usize::MAX,
    ensures
        forall|q: Position| #[trigger] flips(c, p, t, d).contains(q) ==> {
            &&& valid_pos(c.len() as int, q.0 as int, q.1 as int)
            &&& cell(c, q.0 as int, q.1 as int) is Some
            &&& cell(c, q.0 as int, q.1 as int) != Some(p)
        },
{
    if captures(c, p, t, d) {
        lemma_scan(c, p, t, d, 1);
        assert forall|q: Position| #[trigger] flips(c, p, t, d).contains(q) implies {
            &&& valid_pos(c.len() as int, q.0 as int, q.1 as int)
            &&& cell(c, q.0 as int, q.1 as int) is Some
            &&& cell(c, q.0 as int, q.1 as int) != Some(p)
        } by {
            let j = choose|j: int| 1 <= j < scan(c, p, t, d, 1) && q == #[trigger] line_pos(t, d, j);
            let s = step(t, d, j);
            assert(valid_pos(c.len() as int, s.0, s.1));
        }
    }
}

/// Every position that a move turns is on the board and holds another player's stone.
pub proof fn lemma_flip_set(c: Cells, p: Player, t: Position, n: int)
    requires
        valid_pos(c.len() as int, t.0 as int, t.1 as int),
        c.len() <= usize::MAX,
    ensures
        forall|q: Position| #[trigger] flips_upto(c, p, t, n).contains(q) ==> {
            &&& valid_pos(c.len() as int, q.0 as int, q.1 as int)
            &&& cell(c, q.0 as int, q.1 as int) is Some
            &&& cell(c, q.0 as int, q.1 as int) != Some(p)
        },
    decreases n,
{
    if n > 0 {
        lemma_flip_set(c, p, t, n - 1);
        lemma_flips(c, p, t, dir_at(n - 1));
        assert forall|q: Position| #[trigger] flips_upto(c, p, t, n).contains(q) implies {
            &&& valid_pos(c.len() as int, q.0 as int, q.1 as int)
            &&& cell(c, q.0 as int, q.1 as int) is Some
            &&& cell(c, q.0 as int, q.1 as int) != Some(p)
        } by {
            if flips_upto(c, p, t, n - 1).contains(q) {
            } else {
                assert(flips(c, p, t, dir_at(n - 1)).contains(q));
            }
        }
    }
}

} // verus!

verus! {

/// A stone of `p` lies `k` steps from `t` along `d`, and every position strictly between
/// holds a stone of another player.
pub open spec fn closes(c: Cells, p: Player, t: Position, d: Dir, k: int) -> bool {
    &&& valid_pos(c.len() as int, step(t, d, k).0, step(t, d, k).1)
    &&& cell(c, step(t, d, k).0, step(t, d, k).1) == Some(p)
    &&& forall|j: int|
        1 <= j < k ==> {
            let s = #[trigger] step(t, d, j);
            &&& valid_pos(c.len() as int, s.0, s.1)
            &&& cell(c, s.0, s.1) is Some
            &&& cell(c, s.0, s.1) != Some(p)
        }
}

/// A position on the board is fewer steps away from another one than the board's range.
proof fn lemma_step_within(c: Cells, t: Position, d: Dir, k: int)
    requires
        valid_pos(c.len() as int, t.0 as int, t.1 as int),
        k >= 1,
        valid_pos(c.len() as int, step(t, d, k).0, step(t, d, k).1),
    ensures
        k < c.len(),
{
}

/// Walking from step `i` towards a stone of `p` that closes a run of other players' stones
/// finds that stone.
proof fn lemma_scan_finds(c: Cells, p: Player, t: Position, d: Dir, k: int, i: int)
    requires
        valid_pos(c.len() as int, t.0 as int, t.1 as int),
        1 <= i <= k,
        closes(c, p, t, d, k),
    ensures
        scan(c, p, t, d, i as nat) == k,
    decreases k - i,
{
    lemma_step_within(c, t, d, k);
    if i < k {
        let s = step(t, d, i);
        assert(valid_pos(c.len() as int, s.0, s.1));
        lemma_scan_finds(c, p, t, d, k, i + 1);
    }
}

/// The stones that a stone of `p` at `t` captures along `d` are exactly those strictly
/// between `t` and a stone of `p` at least two steps away, with only other players' stones
/// in between.
pub proof fn lemma_flips_are_the_enclosed_stones(c: Cells, p: Player, t: Position, d: Dir, q: Position)
    requires
        valid_pos(c.len() as int, t.0 as int, t.1 as int),
    ensures
        flips(c, p, t, d).contains(q) <==> exists|k: int, j: int|
            #![trigger closes(c, p, t, d, k), line_pos(t, d, j)]
            2 <= k && 1 <= j < k && closes(c, p, t, d, k) && q == line_pos(t, d, j),
{
    if flips(c, p, t, d).contains(q) {
        let k = scan(c, p, t, d, 1) as int;
        lemma_scan(c, p, t, d, 1);
        let j = choose|j: int| 1 <= j < k && q == #[trigger] line_pos(t, d, j);
        assert(closes(c, p, t, d, k));
    }
    if exists|k: int, j: int|
        #![trigger closes(c, p, t, d, k), line_pos(t, d, j)]
        2 <= k && 1 <= j < k && closes(c, p, t, d, k) && q == line_pos(t, d, j) {
        let (k, j) = choose|k: int, j: int|
            #![trigger closes(c, p, t, d, k), line_pos(t, d, j)]
            2 <= k && 1 <= j < k && closes(c, p, t, d, k) && q == line_pos(t, d, j);
        lemma_scan_finds(c, p, t, d, k, 1);
        assert(flips(c, p, t, d).contains(q));
    }
}

} // verus!
