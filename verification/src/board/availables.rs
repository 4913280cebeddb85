use vstd::prelude::*;

use crate::board::cells::Position;
use crate::board::player::{Player, PlayerMap};

verus! {

/// For each position where a player may put a stone, the set of positions whose stones
/// get flipped.
///
/// The map is a list of entries without repeated keys, each set a list without repeats:
/// vstd specifies hash maps and sets only for keys with a key model, which it gives to
/// integers but not to pairs of them.
pub struct PositionMap {
    entries: Vec<(Position, Vec<Position>)>,
}

impl View for PositionMap {
    type V = Map<Position, Set<Position>>;

    closed spec fn view(&self) -> Map<Position, Set<Position>> {
        Map::new(
            |k: Position| exists|i: int| 0 <= i < self.entries@.len() && #[trigger] self.entries@[i].0 == k,
            |k: Position| self.entries@[self.index_of(k)].1@.to_set(),
        )
    }
}

impl PositionMap {
    closed spec fn index_of(self, k: Position) -> int {
        choose|i: int| 0 <= i < self.entries@.len() && #[trigger] self.entries@[i].0 == k
    }

    /// Each key is kept once, and each set without repeats.
    pub closed spec fn wf(self) -> bool {
        &&& forall|i: int, j: int|
            0 <= i < j < self.entries@.len() ==> #[trigger] self.entries@[i].0
                != #[trigger] self.entries@[j].0
        &&& forall|i: int| 0 <= i < self.entries@.len() ==> (#[trigger] self.entries@[i]).1@.no_duplicates()
    }

    proof fn lemma_entry(self, i: int)
        requires
            self.wf(),
            0 <= i < self.entries@.len(),
        ensures
            self@.dom().contains(self.entries@[i].0),
            self@[self.entries@[i].0] == self.entries@[i].1@.to_set(),
    {
        let k = self.entries@[i].0;
        assert(self@.dom().contains(k));
        let j = self.index_of(k);
        assert(self.entries@[j].0 == k);
        if j != i {
            if i < j {
                assert(self.entries@[i].0 != self.entries@[j].0);
            } else {
                assert(self.entries@[j].0 != self.entries@[i].0);
            }
        }
    }

    pub fn new() -> (m: PositionMap)
        ensures
            m.wf(),
            m@ == Map::<Position, Set<Position>>::empty(),
    {
        let m = PositionMap { entries: Vec::new() };
        assert(m@ =~= Map::<Position, Set<Position>>::empty());
        m
    }

    pub fn clear(&mut self)
        ensures
            final(self).wf(),
            final(self)@ == Map::<Position, Set<Position>>::empty(),
    {
        self.entries = Vec::new();
        assert(self@ =~= Map::<Position, Set<Position>>::empty());
    }

    pub fn is_empty(&self) -> (b: bool)
        requires
            self.wf(),
        ensures
            b == (self@ == Map::<Position, Set<Position>>::empty()),
    {
        if self.entries.len() == 0 {
            assert(self@ =~= Map::<Position, Set<Position>>::empty());
            true
        } else {
            proof {
                self.lemma_entry(0);
                assert(!Map::<Position, Set<Position>>::empty().dom().contains(self.entries@[0].0));
            }
            false
        }
    }

    fn find(&self, k: &Position) -> (r: Option<usize>)
        requires
            self.wf(),
        ensures
            match r {
                Some(i) => i < self.entries@.len() && self.entries@[i as int].0 == *k,
                None => !self@.dom().contains(*k),
            },
    {
        let mut i: usize = 0;
        while i < self.entries.len()
            invariant
                i <= self.entries@.len(),
                forall|j: int| 0 <= j < i ==> self.entries@[j].0 != *k,
            decreases self.entries@.len() - i,
        {
            if same_position(&self.entries[i].0, k) {
                return Some(i);
            }
            i = i + 1;
        }
        None
    }

    pub fn contains_key(&self, k: &Position) -> (b: bool)
        requires
            self.wf(),
        ensures
            b == self@.dom().contains(*k),
    {
        match self.find(k) {
            Some(i) => {
                proof {
                    self.lemma_entry(i as int);
                }
                true
            },
            None => false,
        }
    }

    /// The positions kept for `k`, without repeats.
    pub fn get(&self, k: &Position) -> (r: Option<&Vec<Position>>)
        requires
            self.wf(),
        ensures
            match r {
                Some(v) => {
                    &&& self@.dom().contains(*k)
                    &&& v@.to_set() == self@[*k]
                    &&& v@.no_duplicates()
                },
                None => !self@.dom().contains(*k),
            },
    {
        match self.find(k) {
            Some(i) => {
                proof {
                    self.lemma_entry(i as int);
                }
                Some(&self.entries[i].1)
            },
            None => None,
        }
    }

    /// The keys, each once.
    pub fn keys(&self) -> (ks: Vec<Position>)
        requires
            self.wf(),
        ensures
            ks@.to_set() == self@.dom(),
            ks@.no_duplicates(),
    {
        let mut ks: Vec<Position> = Vec::new();
        let mut i: usize = 0;
        while i < self.entries.len()
            invariant
                self.wf(),
                i <= self.entries@.len(),
                ks@.len() == i,
                forall|j: int| 0 <= j < i ==> #[trigger] ks@[j] == self.entries@[j].0,
            decreases self.entries@.len() - i,
        {
            ks.push(self.entries[i].0);
            i = i + 1;
        }
        proof {
            assert forall|k: Position| #[trigger] ks@.to_set().contains(k) <==> self@.dom().contains(k) by {
                if self@.dom().contains(k) {
                    let j = choose|j: int| 0 <= j < self.entries@.len() && #[trigger] self.entries@[j].0 == k;
                    assert(ks@[j] == k);
                }
                if ks@.to_set().contains(k) {
                    assert(ks@.contains(k));
                }
            }
            assert(ks@.to_set() =~= self@.dom());
            assert forall|a: int, b: int| 0 <= a < ks@.len() && 0 <= b < ks@.len() && a != b implies ks@[a]
                != ks@[b] by {
                if a < b {
                    assert(self.entries@[a].0 != self.entries@[b].0);
                } else {
                    assert(self.entries@[b].0 != self.entries@[a].0);
                }
            }
        }
        ks
    }

    /// The positions of `set` followed by the candidates that it lacks, each once.
    fn merged(set: Vec<Position>, candidates: &Vec<Position>) -> (r: Vec<Position>)
        requires
            set@.no_duplicates(),
        ensures
            r@.no_duplicates(),
            r@.to_set() == set@.to_set() + candidates@.to_set(),
    {
        let ghost base = set@.to_set();
        let mut set = set;
        let mut j: usize = 0;
        while j < candidates.len()
            invariant
                j <= candidates@.len(),
                set@.no_duplicates(),
                set@.to_set() == base + candidates@.take(j as int).to_set(),
            decreases candidates@.len() - j,
        {
            let c = candidates[j];
            let mut present = false;
            let mut t: usize = 0;
            while t < set.len()
                invariant
                    t <= set@.len(),
                    present == (exists|u: int| 0 <= u < t && set@[u] == c),
                decreases set@.len() - t,
            {
                if same_position(&set[t], &c) {
                    present = true;
                }
                t = t + 1;
            }
            let ghost before = set@;
            if !present {
                set.push(c);
                proof {
                    before.lemma_push_to_set_commute(c);
                    assert(set@.to_set() =~= before.to_set().insert(c));
                }
            } else {
                proof {
                    assert(before.contains(c));
                    assert(before.to_set().insert(c) =~= before.to_set());
                }
            }
            proof {
                assert(candidates@.take(j as int + 1) =~= candidates@.take(j as int).push(c));
                candidates@.take(j as int).lemma_push_to_set_commute(c);
                assert(candidates@.take(j as int + 1).to_set() =~= candidates@.take(j as int).to_set().insert(c));
                assert(set@.to_set() =~= base + candidates@.take(j as int + 1).to_set());
            }
            j = j + 1;
        }
        proof {
            assert(candidates@.take(candidates@.len() as int) =~= candidates@);
        }
        set
    }

    /// Adds every candidate to the set kept for `k`; nothing changes for an empty list.
    pub fn add_or_extend(&mut self, k: Position, candidates: &Vec<Position>)
        requires
            old(self).wf(),
        ensures
            final(self).wf(),
            final(self)@ == extended(old(self)@, k, candidates@),
    {
        if candidates.len() == 0 {
            return;
        }
        let ghost old_self = *self;
        let ghost old_map = self@;
        let ghost target = extended(old_map, k, candidates@);
        match self.find(&k) {
            Some(i) => {
                proof {
                    old_self.lemma_entry(i as int);
                }
                let mut entry: (Position, Vec<Position>) = (k, Vec::new());
                self.entries.set_and_swap(i, &mut entry);
                let set = Self::merged(entry.1, candidates);
                self.entries.set(i, (k, set));
                proof {
                    assert(self.entries@ == old_self.entries@.update(i as int, (k, set)));
                    assert(self.wf());
                    assert forall|key: Position| #[trigger] self@.dom().contains(key) <==> target.dom().contains(key) by {
                        if self@.dom().contains(key) {
                            let j = choose|j: int| 0 <= j < self.entries@.len() && #[trigger] self.entries@[j].0 == key;
                            if j != i {
                                old_self.lemma_entry(j);
                            }
                        }
                        if old_map.dom().contains(key) {
                            let j = choose|j: int| 0 <= j < old_self.entries@.len() && #[trigger] old_self.entries@[j].0 == key;
                            assert(self.entries@[j].0 == key);
                        }
                        self.lemma_entry(i as int);
                    }
                    assert forall|key: Position| #[trigger] self@.dom().contains(key) implies self@[key] == target[key] by {
                        let j = choose|j: int| 0 <= j < self.entries@.len() && #[trigger] self.entries@[j].0 == key;
                        self.lemma_entry(j);
                        if j != i {
                            old_self.lemma_entry(j);
                        }
                    }
                    assert(self@ =~= target);
                }
            },
            None => {
                let set = Self::merged(Vec::new(), candidates);
                self.entries.push((k, set));
                proof {
                    let n = old_self.entries@.len() as int;
                    assert(self.entries@ == old_self.entries@.push((k, set)));
                    assert forall|a: int, b: int|
                        0 <= a < b < self.entries@.len() implies #[trigger] self.entries@[a].0
                        != #[trigger] self.entries@[b].0 by {
                        if b == n {
                            assert(old_map.dom().contains(old_self.entries@[a].0));
                        }
                    }
                    assert(self.wf());
                    assert(Seq::<Position>::empty().to_set() =~= Set::<Position>::empty());
                    assert forall|key: Position| #[trigger] self@.dom().contains(key) <==> target.dom().contains(key) by {
                        if self@.dom().contains(key) {
                            let j = choose|j: int| 0 <= j < self.entries@.len() && #[trigger] self.entries@[j].0 == key;
                            if j != n {
                                old_self.lemma_entry(j);
                            }
                        }
                        if old_map.dom().contains(key) {
                            let j = choose|j: int| 0 <= j < old_self.entries@.len() && #[trigger] old_self.entries@[j].0 == key;
                            assert(self.entries@[j].0 == key);
                        }
                        self.lemma_entry(n);
                    }
                    assert forall|key: Position| #[trigger] self@.dom().contains(key) implies self@[key] == target[key] by {
                        let j = choose|j: int| 0 <= j < self.entries@.len() && #[trigger] self.entries@[j].0 == key;
                        self.lemma_entry(j);
                        if j != n {
                            old_self.lemma_entry(j);
                        }
                    }
                    assert(self@ =~= target);
                }
            },
        }
    }
}

/// The map with every candidate added to the set kept for `k`;
/// an empty list of candidates leaves the map as it is.
pub open spec fn extended(m: Map<Position, Set<Position>>, k: Position, candidates: Seq<Position>) -> Map<
    Position,
    Set<Position>,
> {
    if candidates.len() == 0 {
        m
    } else {
        m.insert(
            k,
            (if m.dom().contains(k) {
                m[k]
            } else {
                Set::empty()
            }) + candidates.to_set(),
        )
    }
}

/// Whether two positions are the same.
pub fn same_position(a: &Position, b: &Position) -> (r: bool)
    ensures
        r == (*a == *b),
{
    a.0 == b.0 && a.1 == b.1
}

/// The moves that each player may make, and the scratch list that looking for them fills.
pub struct Availables {
    availables: PlayerMap<PositionMap>,
    positions_buf: Vec<Position>,
}

impl Availables {
    /// The positions that `player` may take, each with what it turns.
    pub open spec fn of(self, player: Player) -> Map<Position, Set<Position>> {
        self.map(player)@
    }

    pub closed spec fn map(self, player: Player) -> PositionMap {
        self.availables.at(player)
    }

    pub closed spec fn buf(self) -> Seq<Position> {
        self.positions_buf@
    }

    pub closed spec fn wf(self) -> bool {
        forall|p: Player| #[trigger] self.availables.at(p).wf()
    }

    pub fn get(&self, player: Player) -> (m: &PositionMap)
        requires
            self.wf(),
        ensures
            m.wf(),
            *m == self.map(player),
    {
        self.availables.get(player)
    }

    pub fn get_mut(&mut self, player: Player) -> (m: &mut PositionMap)
        requires
            old(self).wf(),
        ensures
            *m == old(self).map(player),
            m.wf(),
            forall|q: Player| q != player ==> #[trigger] final(self).map(q) == old(self).map(q),
            final(self).map(player) == *final(m),
            final(self).buf() == old(self).buf(),
            final(m).wf() ==> final(self).wf(),
    {
        self.availables.get_mut(player)
    }

    /// The maps of the three players, in turn order.
    pub fn values(&self) -> (vs: Vec<&PositionMap>)
        requires
            self.wf(),
        ensures
            vs@.len() == 3,
            *vs@[0] == self.map(Player::Zero),
            *vs@[1] == self.map(Player::One),
            *vs@[2] == self.map(Player::Two),
            forall|i: int| 0 <= i < 3 ==> (#[trigger] vs@[i]).wf(),
    {
        self.availables.values()
    }

    pub fn positions_buf(&self) -> (b: &Vec<Position>)
        ensures
            b@ == self.buf(),
    {
        &self.positions_buf
    }

    pub fn positions_buf_mut(&mut self) -> (b: &mut Vec<Position>)
        ensures
            b@ == old(self).buf(),
            final(self).buf() == final(b)@,
            forall|q: Player| #[trigger] final(self).map(q) == old(self).map(q),
            final(self).wf() == old(self).wf(),
            old(self).wf() ==> final(self).wf(),
    {
        &mut self.positions_buf
    }

    /// Adds every candidate to the set kept for `player` at `position`.
    pub fn add_or_extend(&mut self, player: Player, position: Position, candidate_list: Vec<Position>)
        requires
            old(self).wf(),
        ensures
            final(self).wf(),
            final(self).of(player) == extended(old(self).of(player), position, candidate_list@),
            forall|q: Player| q != player ==> #[trigger] final(self).of(q) == old(self).of(q),
            final(self).buf() == old(self).buf(),
    {
        let m = self.availables.get_mut(player);
        m.add_or_extend(position, &candidate_list);
    }
}

impl Default for Availables {
    /// No moves for anyone, and an empty scratch list.
    fn default() -> (a: Availables)
        ensures
            a.wf(),
            forall|p: Player| #[trigger] a.of(p) == Map::<Position, Set<Position>>::empty(),
            a.buf() == Seq::<Position>::empty(),
    {
        Availables {
            availables: PlayerMap::new(PositionMap::new(), PositionMap::new(), PositionMap::new()),
            positions_buf: Vec::new(),
        }
    }
}

} // verus!
