//! Drawing the triangular board as lines of characters.

pub mod paragraph_board;

pub use paragraph_board::{ParagraphBoard, PlayerMark};

use crate::board::Player;
use vstd::prelude::*;

verus! {

/// A view of the board that can be scrolled, zoomed and framed.
pub trait BoardDisplay {
    /// How far the view is scrolled, in board steps to the right and down.
    spec fn scroll_offset(&self) -> (int, int);

    fn player_name(&self, player: Player) -> &str;

    fn scroll_left(&mut self)
        requires
            old(self).scroll_offset().0 < i16::MAX,
        ensures
            final(self).scroll_offset() == (old(self).scroll_offset().0 + 1, old(self).scroll_offset().1),
    ;

    fn scroll_right(&mut self)
        requires
            old(self).scroll_offset().0 > i16::MIN,
        ensures
            final(self).scroll_offset() == (old(self).scroll_offset().0 - 1, old(self).scroll_offset().1),
    ;

    fn scroll_up(&mut self)
        requires
            old(self).scroll_offset().1 < i16::MAX,
        ensures
            final(self).scroll_offset() == (old(self).scroll_offset().0, old(self).scroll_offset().1 + 1),
    ;

    fn scroll_down(&mut self)
        requires
            old(self).scroll_offset().1 > i16::MIN,
        ensures
            final(self).scroll_offset() == (old(self).scroll_offset().0, old(self).scroll_offset().1 - 1),
    ;

    fn scroll_reset(&mut self)
        ensures
            final(self).scroll_offset() == (0int, 0int),
    ;

    fn zoom_in(&mut self);

    fn zoom_out(&mut self);

    fn toggle_frame_visibility(&mut self);
}

} // verus!
