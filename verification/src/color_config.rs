//! The colors in which each player's stones, name and turn are drawn.

use crate::board::{Player, PlayerMap};
use vstd::prelude::*;

verus! {

/// A terminal color: one of the sixteen named colors, the terminal's default,
/// a 24-bit color or an entry of the 256-color palette.
#[derive(Clone, Copy, Debug, PartialEq, Eq, Structural)]
pub enum Color {
    Reset,
    Black,
    Red,
    Green,
    Yellow,
    Blue,
    Magenta,
    Cyan,
    Gray,
    DarkGray,
    LightRed,
    LightGreen,
    LightYellow,
    LightBlue,
    LightMagenta,
    LightCyan,
    White,
    Rgb(u8, u8, u8),
    Indexed(u8),
}

/// The color of each player.
#[derive(Clone, Copy, Debug)]
pub struct ColorConfig {
    player: PlayerMap<Color>,
}

impl ColorConfig {
    /// The color of `player`.
    pub closed spec fn color_of(self, player: Player) -> Color {
        self.player.at(player)
    }

    pub fn player(&self, player: Player) -> (c: Color)
        ensures
            c == self.color_of(player),
    {
        *self.player.get(player)
    }
}

impl Default for ColorConfig {
    /// Cyan, magenta and yellow, in turn order.
    fn default() -> (c: ColorConfig)
        ensures
            c.color_of(Player::Zero) == Color::Cyan,
            c.color_of(Player::One) == Color::Magenta,
            c.color_of(Player::Two) == Color::Yellow,
    {
        ColorConfig { player: PlayerMap::new(Color::Cyan, Color::Magenta, Color::Yellow) }
    }
}

} // verus!
