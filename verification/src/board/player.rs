use vstd::prelude::*;

verus! {

/// One of the three players.
#[derive(Clone, Copy, Debug, PartialEq, Eq, Structural, Hash)]
pub enum Player {
    Zero,
    One,
    Two,
}

/// The players in turn order.
pub const PLAYERS: [Player; 3] = [Player::Zero, Player::One, Player::Two];

/// Turns pass round the three players: after three advances the same player moves again,
/// and no advance keeps the same player.
pub proof fn lemma_advance_cycles(p: Player)
    ensures
        p.next().next().next() == p,
        p.next() != p,
        p.next().next() != p,
{
}

impl Default for Player {
    /// The player who moves first.
    fn default() -> (p: Player)
        ensures
            p == Player::Zero,
    {
        Player::Zero
    }
}

impl Player {
    /// The position of the player in turn order.
    pub open spec fn spec_index(self) -> nat {
        match self {
            Player::Zero => 0,
            Player::One => 1,
            Player::Two => 2,
        }
    }

    /// The player who moves after `self`.
    pub open spec fn next(self) -> Player {
        match self {
            Player::Zero => Player::One,
            Player::One => Player::Two,
            Player::Two => Player::Zero,
        }
    }

    pub fn index(self) -> (i: usize)
        ensures
            i == self.spec_index(),
            i < 3,
    {
        match self {
            Player::Zero => 0,
            Player::One => 1,
            Player::Two => 2,
        }
    }

    pub fn advance(&mut self)
        ensures
            *final(self) == old(self).next(),
    {
        match self {
            Player::Zero => *self = Player::One,
            Player::One => *self = Player::Two,
            Player::Two => *self = Player::Zero,
        }
    }
}

} // verus!

verus! {

/// A value for each of the three players, kept in turn order.
#[derive(Clone, Copy, Debug)]
pub struct PlayerMap<T> {
    zero: T,
    one: T,
    two: T,
}

impl<T> PlayerMap<T> {
    /// The value kept for `player`.
    pub open spec fn at(self, player: Player) -> T {
        match player {
            Player::Zero => self.zero_value(),
            Player::One => self.one_value(),
            Player::Two => self.two_value(),
        }
    }

    pub closed spec fn zero_value(self) -> T {
        self.zero
    }

    pub closed spec fn one_value(self) -> T {
        self.one
    }

    pub closed spec fn two_value(self) -> T {
        self.two
    }

    /// The values in turn order.
    pub open spec fn seq(self) -> Seq<T> {
        seq![self.at(Player::Zero), self.at(Player::One), self.at(Player::Two)]
    }

    pub fn new(zero: T, one: T, two: T) -> (m: Self)
        ensures
            m.at(Player::Zero) == zero,
            m.at(Player::One) == one,
            m.at(Player::Two) == two,
    {
        PlayerMap { zero, one, two }
    }

    pub fn get(&self, player: Player) -> (v: &T)
        ensures
            *v == self.at(player),
    {
        match player {
            Player::Zero => &self.zero,
            Player::One => &self.one,
            Player::Two => &self.two,
        }
    }

    pub fn get_mut(&mut self, player: Player) -> (v: &mut T)
        ensures
            *v == old(self).at(player),
            forall|q: Player| q != player ==> final(self).at(q) == old(self).at(q),
            final(self).at(player) == *final(v),
    {
        match player {
            Player::Zero => &mut self.zero,
            Player::One => &mut self.one,
            Player::Two => &mut self.two,
        }
    }

    /// The values in turn order; the vector stands for the iterator over them.
    pub fn values(&self) -> (vs: Vec<&T>)
        ensures
            vs@.len() == 3,
            forall|i: int| 0 <= i < 3 ==> *vs@[i] == self.seq()[i],
    {
        let mut vs: Vec<&T> = Vec::new();
        vs.push(&self.zero);
        vs.push(&self.one);
        vs.push(&self.two);
        vs
    }
}

} // verus!
