use vstd::prelude::*;

use crate::board::player::{Player, PlayerMap};

verus! {

/// The number of stones that each player has on the board.
#[derive(Clone, Copy, Debug)]
pub struct Count {
    count: PlayerMap<u64>,
}

impl Count {
    /// The number kept for `player`.
    pub open spec fn of(self, player: Player) -> nat {
        self.map().at(player) as nat
    }

    pub closed spec fn map(self) -> PlayerMap<u64> {
        self.count
    }

    pub fn get(&self, player: Player) -> (n: u64)
        ensures
            n == self.of(player),
    {
        *self.count.get(player)
    }

    pub fn reset(&mut self)
        ensures
            forall|p: Player| final(self).of(p) == 0,
    {
        self.count = PlayerMap::new(0, 0, 0);
    }

    pub fn increment(&mut self, player: Player)
        requires
            old(self).of(player) < u64::MAX,
        ensures
            final(self).of(player) == old(self).of(player) + 1,
            forall|q: Player| q != player ==> final(self).of(q) == old(self).of(q),
    {
        let c = self.count.get_mut(player);
        *c = *c + 1;
    }

    /// Takes one from the number kept for `player`, stopping at zero.
    pub fn decrement(&mut self, player: Player)
        ensures
            final(self).of(player) == if old(self).of(player) == 0 {
                0
            } else {
                old(self).of(player) - 1
            },
            forall|q: Player| q != player ==> final(self).of(q) == old(self).of(q),
    {
        let c = self.count.get_mut(player);
        *c = c.saturating_sub(1);
    }
}

impl Default for Count {
    /// No stones for anyone.
    fn default() -> (c: Count)
        ensures
            forall|p: Player| c.of(p) == 0,
    {
        Count { count: PlayerMap::new(0, 0, 0) }
    }
}

} // verus!
