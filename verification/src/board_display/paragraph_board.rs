use vstd::prelude::*;

use crate::board::cells::valid_pos;
use crate::board::{Board, Player};
use crate::board_display::BoardDisplay;
use crate::error::TriversiError;
use crate::text::{char_is_ascii, is_ascii_char, push_signed_decimal, signed_decimal, split_at_commas, split_commas, decimal, push_decimal};

verus! {

/// The character that marks each player's stones.
#[derive(Clone, Copy, Debug)]
pub struct PlayerMark(pub char, pub char, pub char);

impl PlayerMark {
    pub open spec fn mark(self, player: Player) -> char {
        match player {
            Player::Zero => self.0,
            Player::One => self.1,
            Player::Two => self.2,
        }
    }

    fn convert(&self, player: Player) -> (c: char)
        ensures
            c == self.mark(player),
    {
        match player {
            Player::Zero => self.0,
            Player::One => self.1,
            Player::Two => self.2,
        }
    }
}

/// The names split at commas are three, none of them empty, each starting with an ASCII character.
pub open spec fn marks_ok(s: Seq<char>) -> bool {
    let l = split_commas(s);
    &&& l.len() == 3
    &&& forall|i: int| 0 <= i < 3 ==> (#[trigger] l[i]).len() > 0 && is_ascii_char(l[i][0])
}

/// The marks are the first characters of the three names.
pub open spec fn marks_of(s: Seq<char>) -> PlayerMark {
    let l = split_commas(s);
    PlayerMark(l[0][0], l[1][0], l[2][0])
}

impl vstd::std_specs::convert::TryFromSpecImpl<String> for PlayerMark {
    open spec fn obeys_try_from_spec() -> bool {
        true
    }

    open spec fn try_from_spec(s: String) -> Result<PlayerMark, TriversiError> {
        if marks_ok(s@) {
            Ok(marks_of(s@))
        } else {
            Err(TriversiError::InvalidStringForPlayerMarks(s))
        }
    }
}

impl TryFrom<String> for PlayerMark {
    type Error = TriversiError;

    fn try_from(s: String) -> (r: Result<PlayerMark, TriversiError>)
        ensures
            r == (if marks_ok(s@) {
                Ok(marks_of(s@))
            } else {
                Err(TriversiError::InvalidStringForPlayerMarks(s))
            }),
    {
        let mark_list = split_at_commas(s.as_str());
        if mark_list.len() != 3 {
            return Err(TriversiError::InvalidStringForPlayerMarks(s));
        }
        let mut i: usize = 0;
        while i < 3
            invariant
                i <= 3,
                mark_list@.len() == 3,
                forall|j: int| 0 <= j < mark_list@.len() ==> #[trigger] mark_list@[j]@ == split_commas(s@)[j],
                forall|j: int| 0 <= j < i ==> (#[trigger] mark_list@[j])@.len() > 0,
            decreases 3 - i,
        {
            if mark_list[i].as_str().unicode_len() == 0 {
                return Err(TriversiError::InvalidStringForPlayerMarks(s));
            }
            i = i + 1;
        }
        let mut i: usize = 0;
        while i < 3
            invariant
                i <= 3,
                mark_list@.len() == 3,
                forall|j: int| 0 <= j < mark_list@.len() ==> #[trigger] mark_list@[j]@ == split_commas(s@)[j],
                forall|j: int| 0 <= j < 3 ==> (#[trigger] mark_list@[j])@.len() > 0,
                forall|j: int| 0 <= j < i ==> is_ascii_char((#[trigger] mark_list@[j])@[0]),
            decreases 3 - i,
        {
            if !char_is_ascii(mark_list[i].as_str().get_char(0)) {
                return Err(TriversiError::InvalidStringForPlayerMarks(s));
            }
            i = i + 1;
        }
        let m = PlayerMark(
            mark_list[0].as_str().get_char(0),
            mark_list[1].as_str().get_char(0),
            mark_list[2].as_str().get_char(0),
        );
        Ok(m)
    }
}

/// The largest distance between neighbouring positions on the screen.
pub const MAX_DISTANCE: usize = 10;

/// A board drawn as a paragraph of characters, one per screen cell.
pub struct ParagraphBoard {
    distance: usize,
    offset: (i16, i16),
    player_mark: PlayerMark,
    player_name: (String, String, String),
    frame_visibility: bool,
}

/// What a paragraph board holds, as plain values.
pub struct ParagraphBoardView {
    pub distance: nat,
    pub offset: (int, int),
    pub player_mark: PlayerMark,
    pub names: Seq<Seq<char>>,
    pub frame_visibility: bool,
}

impl View for ParagraphBoard {
    type V = ParagraphBoardView;

    closed spec fn view(&self) -> ParagraphBoardView {
        ParagraphBoardView {
            distance: self.distance as nat,
            offset: (self.offset.0 as int, self.offset.1 as int),
            player_mark: self.player_mark,
            names: seq![self.player_name.0@, self.player_name.1@, self.player_name.2@],
            frame_visibility: self.frame_visibility,
        }
    }
}

impl ParagraphBoard {
    /// The distance stays between 2 and the maximum.
    pub closed spec fn wf(self) -> bool {
        2 <= self.distance <= MAX_DISTANCE
    }

    pub proof fn lemma_wf(self)
        requires
            self.wf(),
        ensures
            2 <= self@.distance <= MAX_DISTANCE,
    {
    }

    pub fn try_new(distance: usize, player_names_str: &str) -> (r: Result<ParagraphBoard, TriversiError>)
        ensures
            match r {
                Ok(b) => {
                    &&& 2 <= distance <= MAX_DISTANCE
                    &&& marks_ok(player_names_str@)
                    &&& b.wf()
                    &&& b@ == (ParagraphBoardView {
                        distance: distance as nat,
                        offset: (0, 0),
                        player_mark: marks_of(player_names_str@),
                        names: split_commas(player_names_str@),
                        frame_visibility: false,
                    })
                },
                Err(e) => if !(2 <= distance <= MAX_DISTANCE) {
                    e == TriversiError::InvalidBoardDistance(distance)
                } else {
                    !marks_ok(player_names_str@) && (e matches TriversiError::InvalidStringForPlayerMarks(t)
                        && t@ == player_names_str@)
                },
            },
    {
        if !(2 <= distance && distance <= MAX_DISTANCE) {
            return Err(TriversiError::InvalidBoardDistance(distance));
        }
        let mut names = split_at_commas(player_names_str);
        let player_mark = match PlayerMark::try_from(String::from_str(player_names_str)) {
            Ok(m) => m,
            Err(e) => {
                return Err(e);
            },
        };
        if names.len() != 3 {
            return Err(TriversiError::InvalidStringForPlayerNames(String::from_str(player_names_str)));
        }
        let two = names.pop().unwrap();
        let one = names.pop().unwrap();
        let zero = names.pop().unwrap();
        let b = ParagraphBoard {
            distance,
            offset: (0, 0),
            player_mark,
            player_name: (zero, one, two),
            frame_visibility: false,
        };
        proof {
            assert(b@.names =~= split_commas(player_names_str@));
        }
        Ok(b)
    }

    /// The offset, as `x, y`.
    pub open spec fn scroll_text(v: ParagraphBoardView) -> Seq<char> {
        signed_decimal(v.offset.0) + ", "@ + signed_decimal(v.offset.1)
    }

    /// The text of the scroll box.
    pub fn scroll_label(&self) -> (s: String)
        ensures
            s@ == Self::scroll_text(self@),
    {
        let mut s = String::new();
        push_signed_decimal(&mut s, self.offset.0 as i64);
        s.append(", ");
        push_signed_decimal(&mut s, self.offset.1 as i64);
        proof {
            assert(s@ =~= Self::scroll_text(self@));
        }
        s
    }

    /// The text of the zoom box: the distance.
    pub fn zoom_label(&self) -> (s: String)
        ensures
            s@ == decimal(self@.distance),
    {
        let mut s = String::new();
        push_decimal(&mut s, self.distance as u64);
        proof {
            assert(s@ =~= decimal(self@.distance));
        }
        s
    }

    pub fn distance(&self) -> (d: usize)
        ensures
            d == self@.distance,
    {
        self.distance
    }

    pub fn offset(&self) -> (o: (i16, i16))
        ensures
            o.0 == self@.offset.0,
            o.1 == self@.offset.1,
    {
        self.offset
    }

    pub fn frame_visibility(&self) -> (f: bool)
        ensures
            f == self@.frame_visibility,
    {
        self.frame_visibility
    }
}

impl BoardDisplay for ParagraphBoard {
    open spec fn scroll_offset(&self) -> (int, int) {
        self@.offset
    }

    fn player_name(&self, player: Player) -> (name: &str)
        ensures
            name@ == self@.names[player.spec_index() as int],
    {
        match player {
            Player::Zero => self.player_name.0.as_str(),
            Player::One => self.player_name.1.as_str(),
            Player::Two => self.player_name.2.as_str(),
        }
    }

    fn scroll_left(&mut self)
        ensures
            final(self)@ == (ParagraphBoardView { offset: (old(self)@.offset.0 + 1, old(self)@.offset.1), ..old(self)@ }),
            old(self).wf() ==> final(self).wf(),
    {
        self.offset.0 = self.offset.0 + 1;
    }

    fn scroll_right(&mut self)
        ensures
            final(self)@ == (ParagraphBoardView { offset: (old(self)@.offset.0 - 1, old(self)@.offset.1), ..old(self)@ }),
            old(self).wf() ==> final(self).wf(),
    {
        self.offset.0 = self.offset.0 - 1;
    }

    fn scroll_up(&mut self)
        ensures
            final(self)@ == (ParagraphBoardView { offset: (old(self)@.offset.0, old(self)@.offset.1 + 1), ..old(self)@ }),
            old(self).wf() ==> final(self).wf(),
    {
        self.offset.1 = self.offset.1 + 1;
    }

    fn scroll_down(&mut self)
        ensures
            final(self)@ == (ParagraphBoardView { offset: (old(self)@.offset.0, old(self)@.offset.1 - 1), ..old(self)@ }),
            old(self).wf() ==> final(self).wf(),
    {
        self.offset.1 = self.offset.1 - 1;
    }

    fn scroll_reset(&mut self)
        ensures
            final(self)@ == (ParagraphBoardView { offset: (0, 0), ..old(self)@ }),
            old(self).wf() ==> final(self).wf(),
    {
        self.offset = (0, 0);
    }

    fn zoom_in(&mut self)
        ensures
            final(self)@ == (ParagraphBoardView {
                distance: if old(self)@.distance < MAX_DISTANCE { old(self)@.distance + 1 } else { old(self)@.distance },
                ..old(self)@
            }),
            old(self).wf() ==> final(self).wf(),
    {
        if self.distance < MAX_DISTANCE {
            self.distance = self.distance + 1;
        }
    }

    fn zoom_out(&mut self)
        ensures
            final(self)@ == (ParagraphBoardView {
                distance: if old(self)@.distance > 2 { (old(self)@.distance - 1) as nat } else { old(self)@.distance },
                ..old(self)@
            }),
            old(self).wf() ==> final(self).wf(),
    {
        if self.distance > 2 {
            self.distance = self.distance - 1;
        }
    }

    fn toggle_frame_visibility(&mut self)
        ensures
            final(self)@ == (ParagraphBoardView { frame_visibility: !old(self)@.frame_visibility, ..old(self)@ }),
            old(self).wf() ==> final(self).wf(),
    {
        self.frame_visibility = !self.frame_visibility;
    }
}

} // verus!

verus! {

/// What a screen cell of the board area shows.
#[derive(Clone, Copy, Debug, PartialEq, Eq, Structural)]
pub enum Glyph {
    /// The stone, or the empty mark, of position `(x, y)`.
    Stone(usize, usize),
    LeftFrame,
    RightFrame,
    BottomFrame,
    Background,
}

/// The glyph at line `l` and column `c` of the board area, for positions `d` apart
/// on a board of the given range. Row `y` of the board sits on line `d * y`, its
/// position `x` at column `d * (range - y - 1) + 2 * d * x`; between rows, the
/// frames join each position to the two below it and to its right neighbour.
pub open spec fn glyph(d: int, range: int, l: int, c: int) -> Glyph {
    let y = l / d;
    let o = l % d;
    let base = d * (range - y - 1);
    if o == 0 {
        if c >= base && (c - base) % (2 * d) == 0 && (c - base) / (2 * d) <= y {
            Glyph::Stone(((c - base) / (2 * d)) as usize, y as usize)
        } else if y >= 1 && c >= base && 2 <= (c - base) % (2 * d) <= 2 * d - 2 && (c - base) / (2
            * d) <= y - 1 {
            Glyph::BottomFrame
        } else {
            Glyph::Background
        }
    } else {
        if c + o >= base && (c + o - base) % (2 * d) == 0 && (c + o - base) / (2 * d) <= y {
            Glyph::LeftFrame
        } else if c >= base + o && (c - o - base) % (2 * d) == 0 && (c - o - base) / (2 * d) <= y {
            Glyph::RightFrame
        } else {
            Glyph::Background
        }
    }
}

/// The glyph at a cell of the board area, as `glyph` says.
fn glyph_at(d: usize, range: usize, l: usize, c: usize) -> (g: Glyph)
    requires
        2 <= d <= MAX_DISTANCE,
        1 <= range <= crate::board::MAX_RANGE,
        l as int <= (d as int) * ((range as int) - 1),
        c as int <= 2 * (d as int) * ((range as int) - 1),
    ensures
        g == glyph(d as int, range as int, l as int, c as int),
        g matches Glyph::Stone(x, y) ==> x <= y < range,
{
    proof {
        assert(d * (range - 1) <= 10 * 0x100_0000) by (nonlinear_arith)
            requires
                d <= 10,
                1 <= range <= 0x100_0000,
        ;
        assert(2 * d * (range - 1) <= 20 * 0x100_0000) by (nonlinear_arith)
            requires
                d <= 10,
                1 <= range <= 0x100_0000,
        ;
        assert(l / d <= range - 1) by (nonlinear_arith)
            requires
                l <= d * (range - 1),
                d >= 2,
        ;
        assert(d * (range - (l / d) - 1) <= d * (range - 1)) by (nonlinear_arith)
            requires
                d >= 2,
                0 <= l / d <= range - 1,
        ;
    }
    let y = l / d;
    let o = l % d;
    let base = d * (range - y - 1);
    let dd = 2 * d;
    if o == 0 {
        if c >= base && (c - base) % dd == 0 && (c - base) / dd <= y {
            Glyph::Stone((c - base) / dd, y)
        } else if y >= 1 && c >= base && 2 <= (c - base) % dd && (c - base) % dd <= dd - 2 && (c - base)
            / dd <= y - 1 {
            Glyph::BottomFrame
        } else {
            Glyph::Background
        }
    } else {
        if c + o >= base && (c + o - base) % dd == 0 && (c + o - base) / dd <= y {
            Glyph::LeftFrame
        } else if c >= base + o && (c - o - base) % dd == 0 && (c - o - base) / dd <= y {
            Glyph::RightFrame
        } else {
            Glyph::Background
        }
    }
}

} // verus!

verus! {

/// How a screen cell is drawn: in a player's color, emphasised, reversed.
#[derive(Clone, Copy, Debug, PartialEq, Eq, Structural)]
pub struct CellStyle {
    pub color: Option<Player>,
    pub bold_underlined: bool,
    pub reversed: bool,
}

/// One screen cell: a character and its style.
#[derive(Clone, Copy, Debug, PartialEq, Eq, Structural)]
pub struct Cell {
    pub symbol: char,
    pub style: CellStyle,
}

pub open spec fn plain_style() -> CellStyle {
    CellStyle { color: None, bold_underlined: false, reversed: false }
}

pub open spec fn plain(c: char) -> Cell {
    Cell { symbol: c, style: plain_style() }
}

/// The layers of the board picture, in the order in which they are painted.
#[derive(Clone, Copy, Debug, PartialEq, Eq, Structural)]
pub enum Layer {
    BottomFrame,
    LeftFrame,
    RightFrame,
    Stones,
}

/// What the cursor, the current player and the scroll make of the picture.
pub struct Focus {
    pub current_player: Player,
    pub current_position: (usize, usize),
    pub net_scroll_x: usize,
}

/// The character for a position holding `p`.
pub open spec fn player_symbol(v: ParagraphBoardView, p: Option<Player>) -> char {
    match p {
        Some(q) => v.player_mark.mark(q),
        None => if v.frame_visibility {
            ' '
        } else {
            '.'
        },
    }
}

/// The style of the position `pos` holding `p`: drawn in its player's color, emphasised for
/// the current player, reversed under the cursor; plain when it lies left of the scroll.
pub open spec fn stone_style(
    v: ParagraphBoardView,
    range: int,
    f: Focus,
    p: Option<Player>,
    pos: (usize, usize),
) -> CellStyle {
    if v.distance * (range - pos.1 - 1) + pos.0 * v.distance * 2 - f.net_scroll_x >= 0 {
        CellStyle { color: p, bold_underlined: p == Some(f.current_player), reversed: f.current_position == pos }
    } else {
        plain_style()
    }
}

/// The cell that a glyph shows.
pub open spec fn glyph_cell(v: ParagraphBoardView, g: Glyph, board: Seq<Seq<Option<Player>>>, f: Focus) -> Cell {
    match g {
        Glyph::Stone(x, y) => Cell {
            symbol: player_symbol(v, board[y as int][x as int]),
            style: stone_style(v, board.len() as int, f, board[y as int][x as int], (x, y)),
        },
        Glyph::LeftFrame => plain(if v.frame_visibility { '/' } else { ' ' }),
        Glyph::RightFrame => plain(if v.frame_visibility { '\\' } else { ' ' }),
        Glyph::BottomFrame => plain(if v.frame_visibility { '-' } else { ' ' }),
        Glyph::Background => plain(' '),
    }
}

/// The glyph belongs to the layer.
pub open spec fn in_layer(layer: Layer, g: Glyph) -> bool {
    match layer {
        Layer::BottomFrame => g is BottomFrame,
        Layer::LeftFrame => g is LeftFrame,
        Layer::RightFrame => g is RightFrame,
        Layer::Stones => g is Stone,
    }
}

/// The picture of the board: `oy` empty lines, then the board's lines, each starting with `ox` blanks.
pub open spec fn board_picture(
    v: ParagraphBoardView,
    board: Seq<Seq<Option<Player>>>,
    offset: (int, int),
    f: Focus,
) -> Seq<Seq<Cell>> {
    let d = v.distance as int;
    let range = board.len() as int;
    Seq::new(
        (offset.1 + d * (range - 1) + 1) as nat,
        |i: int|
            if i < offset.1 {
                Seq::empty()
            } else {
                Seq::new(
                    (offset.0 + 2 * d * (range - 1) + 1) as nat,
                    |j: int|
                        if j < offset.0 {
                            plain(' ')
                        } else {
                            glyph_cell(v, glyph(d, range, i - offset.1, j - offset.0), board, f)
                        },
                )
            },
    )
}

/// The picture before any layer is painted.
pub open spec fn empty_picture(v: ParagraphBoardView, range: int, offset: (int, int)) -> Seq<Seq<Cell>> {
    let d = v.distance as int;
    Seq::new(
        (offset.1 + d * (range - 1) + 1) as nat,
        |i: int|
            if i < offset.1 {
                Seq::empty()
            } else {
                Seq::new((offset.0 + 2 * d * (range - 1) + 1) as nat, |j: int| plain(' '))
            },
    )
}

/// The picture with one more layer painted over it.
pub open spec fn painted(
    pic: Seq<Seq<Cell>>,
    v: ParagraphBoardView,
    layer: Layer,
    board: Seq<Seq<Option<Player>>>,
    offset: (int, int),
    f: Focus,
) -> Seq<Seq<Cell>> {
    let d = v.distance as int;
    let range = board.len() as int;
    Seq::new(
        pic.len(),
        |i: int|
            Seq::new(
                pic[i].len(),
                |j: int|
                    if i >= offset.1 && j >= offset.0 && in_layer(
                        layer,
                        glyph(d, range, i - offset.1, j - offset.0),
                    ) {
                        glyph_cell(v, glyph(d, range, i - offset.1, j - offset.0), board, f)
                    } else {
                        pic[i][j]
                    },
            ),
    )
}

/// The picture has the shape of a board picture.
pub open spec fn picture_shaped(pic: Seq<Seq<Cell>>, d: int, range: int, offset: (int, int)) -> bool {
    &&& pic.len() == offset.1 + d * (range - 1) + 1
    &&& forall|i: int|
        0 <= i < pic.len() ==> (#[trigger] pic[i]).len() == if i < offset.1 {
            0
        } else {
            offset.0 + 2 * d * (range - 1) + 1
        }
}

} // verus!

verus! {

/// The cells of a picture, line by line.
pub open spec fn pic_of(lines: Seq<Vec<Cell>>) -> Seq<Seq<Cell>> {
    Seq::new(lines.len(), |i: int| lines[i]@)
}

/// The offset and the scroll of the view, in screen cells, are small enough to compute.
pub open spec fn renderable(v: ParagraphBoardView) -> bool {
    &&& -0x7fff <= v.offset.0 * v.distance <= 0x7fff
    &&& -0x7fff <= v.offset.1 * v.distance <= 0x7fff
}

/// The board picture, the scroll that shows it, and the color of its border.
pub struct BoardPicture {
    pub lines: Vec<Vec<Cell>>,
    /// Lines and columns scrolled away.
    pub scroll: (u16, u16),
    pub border: Option<Player>,
}

/// The number of screen cells to the left and above the board.
pub open spec fn net_offset(v: ParagraphBoardView) -> (int, int) {
    (
        if v.offset.0 * v.distance > 0 { v.offset.0 * v.distance } else { 0 },
        if v.offset.1 * v.distance > 0 { v.offset.1 * v.distance } else { 0 },
    )
}

/// The number of screen cells scrolled away, as columns and lines.
pub open spec fn net_scroll(v: ParagraphBoardView) -> (int, int) {
    (
        if -v.offset.0 * v.distance > 0 { -v.offset.0 * v.distance } else { 0 },
        if -v.offset.1 * v.distance > 0 { -v.offset.1 * v.distance } else { 0 },
    )
}

/// The border is drawn in the current player's color while a turn is played.
pub open spec fn border_color(play: crate::game::Play, current_player: Player) -> Option<Player> {
    match play {
        crate::game::Play::Finished | crate::game::Play::History => None,
        _ => Some(current_player),
    }
}

impl ParagraphBoard {
    /// The screen position of a board position, relative to the board's top left corner.
    fn cell_position(&self, board: &Board, pos: (usize, usize)) -> (r: (usize, usize))
        requires
            self.wf(),
            board.wf(),
            valid_pos(board.spec_range() as int, pos.0 as int, pos.1 as int),
        ensures
            r.0 == self@.distance * (board.spec_range() - pos.1 - 1) + pos.0 * self@.distance * 2,
            r.1 == self@.distance * pos.1,
    {
        proof {
            board.lemma_wf();
            let d = self.distance as int;
            let range = board.spec_range() as int;
            assert(d * (range - pos.1 - 1) + pos.0 * d * 2 <= 30 * 0x100_0000) by (nonlinear_arith)
                requires
                    2 <= d <= 10,
                    0 <= pos.0 <= pos.1 < range <= 0x100_0000,
            ;
            assert(d * pos.1 <= 10 * 0x100_0000) by (nonlinear_arith)
                requires
                    2 <= d <= 10,
                    0 <= pos.1 < 0x100_0000,
            ;
        }
        let (x, y) = pos;
        let x_block = self.distance * (board.range() - y - 1) + x * self.distance * 2;
        let y_block = self.distance * y;
        (x_block, y_block)
    }

    fn cell_none(&self) -> (c: char)
        ensures
            c == ' ',
    {
        ' '
    }

    fn cell_background(&self) -> (c: char)
        ensures
            c == ' ',
    {
        ' '
    }

    fn cell_bottom_frame(&self) -> (c: char)
        ensures
            c == if self@.frame_visibility { '-' } else { ' ' },
    {
        match self.frame_visibility {
            true => '-',
            false => ' ',
        }
    }

    fn cell_left_frame(&self) -> (c: char)
        ensures
            c == if self@.frame_visibility { '/' } else { ' ' },
    {
        match self.frame_visibility {
            true => '/',
            false => ' ',
        }
    }

    fn cell_right_frame(&self) -> (c: char)
        ensures
            c == if self@.frame_visibility { '\\' } else { ' ' },
    {
        match self.frame_visibility {
            true => '\\',
            false => ' ',
        }
    }

    fn cell_player(&self, player: Option<Player>) -> (c: char)
        ensures
            c == player_symbol(self@, player),
    {
        match player {
            Some(player) => self.player_mark.convert(player),
            None => match self.frame_visibility {
                true => ' ',
                false => '.',
            },
        }
    }

    fn make_player_style(
        &self,
        board: &Board,
        focus: &Focus,
        player: Option<Player>,
        position: (usize, usize),
    ) -> (style: CellStyle)
        requires
            self.wf(),
            board.wf(),
            valid_pos(board.spec_range() as int, position.0 as int, position.1 as int),
        ensures
            style == stone_style(self@, board.spec_range() as int, *focus, player, position),
    {
        let cx = self.cell_position(board, position).0;
        if cx >= focus.net_scroll_x {
            let bold = match player {
                Some(q) => q == focus.current_player,
                None => false,
            };
            let reversed = focus.current_position.0 == position.0 && focus.current_position.1 == position.1;
            CellStyle { color: player, bold_underlined: bold, reversed }
        } else {
            CellStyle { color: None, bold_underlined: false, reversed: false }
        }
    }

    /// The cell that the layer paints for the glyph, if the glyph belongs to it.
    fn layer_cell(&self, layer: Layer, g: Glyph, board: &Board, focus: &Focus) -> (r: Option<Cell>)
        requires
            self.wf(),
            board.wf(),
            g matches Glyph::Stone(x, y) ==> x <= y < board.spec_range(),
        ensures
            r == if in_layer(layer, g) {
                Some(glyph_cell(self@, g, board@, *focus))
            } else {
                None::<Cell>
            },
    {
        proof {
            board.lemma_wf();
        }
        let plain_style = CellStyle { color: None, bold_underlined: false, reversed: false };
        match layer {
            Layer::BottomFrame => match g {
                Glyph::BottomFrame => Some(Cell { symbol: self.cell_bottom_frame(), style: plain_style }),
                _ => None,
            },
            Layer::LeftFrame => match g {
                Glyph::LeftFrame => Some(Cell { symbol: self.cell_left_frame(), style: plain_style }),
                _ => None,
            },
            Layer::RightFrame => match g {
                Glyph::RightFrame => Some(Cell { symbol: self.cell_right_frame(), style: plain_style }),
                _ => None,
            },
            Layer::Stones => match g {
                Glyph::Stone(x, y) => {
                    let player = board.player((x, y));
                    Some(
                        Cell {
                            symbol: self.cell_player(player),
                            style: self.make_player_style(board, focus, player, (x, y)),
                        },
                    )
                },
                _ => None,
            },
        }
    }
}

} // verus!

verus! {

impl ParagraphBoard {
    /// Lines of blanks: `offset.1` empty lines, then the board's lines with `offset.0` blanks before each.
    fn make_empty_board_cells(&self, board: &Board, offset: (usize, usize)) -> (lines: Vec<Vec<Cell>>)
        requires
            self.wf(),
            board.wf(),
            offset.0 <= 0x8000,
            offset.1 <= 0x8000,
        ensures
            pic_of(lines@) == empty_picture(self@, board.spec_range() as int, (offset.0 as int, offset.1 as int)),
    {
        let (ox, oy) = offset;
        proof {
            board.lemma_wf();
            let d = self.distance as int;
            let range = board.spec_range() as int;
            assert(2 * d * (range - 1) <= 20 * 0x100_0000) by (nonlinear_arith)
                requires
                    2 <= d <= 10,
                    1 <= range <= 0x100_0000,
            ;
        }
        proof {
            let d = self.distance as int;
            let range = board.spec_range() as int;
            assert(d * (range - 1) <= 10 * 0x100_0000) by (nonlinear_arith)
                requires
                    2 <= d <= 10,
                    1 <= range <= 0x100_0000,
            ;
        }
        let height = self.distance * (board.range() - 1);
        let width = 2 * self.distance * (board.range() - 1) + 1;
        assert(width == 2 * height + 1) by (nonlinear_arith)
            requires
                height == self.distance * (board.spec_range() - 1),
                width == 2 * self.distance * (board.spec_range() - 1) + 1,
        ;
        let ghost target = empty_picture(self@, board.spec_range() as int, (ox as int, oy as int));
        let mut lines: Vec<Vec<Cell>> = Vec::new();
        let mut i: usize = 0;
        while i < oy
            invariant
                i <= oy,
                lines@.len() == i,
                forall|k: int| 0 <= k < i ==> (#[trigger] lines@[k])@ == Seq::<Cell>::empty(),
            decreases oy - i,
        {
            lines.push(Vec::new());
            i = i + 1;
        }
        let mut i: usize = 0;
        while i <= height
            invariant
                i <= height + 1,
                lines@.len() == oy + i,
                forall|k: int| 0 <= k < oy ==> (#[trigger] lines@[k])@ == Seq::<Cell>::empty(),
                forall|k: int| oy <= k < oy + i ==> (#[trigger] lines@[k])@ == Seq::new((ox + width) as nat, |j: int| plain(' ')),
                width <= 20 * 0x100_0000 + 1,
                height <= 10 * 0x100_0000,
                ox <= 0x8000,
            decreases height + 1 - i,
        {
            let mut line: Vec<Cell> = Vec::new();
            let mut j: usize = 0;
            while j < ox + width
                invariant
                    j <= ox + width,
                    width <= 20 * 0x100_0000 + 1,
                    ox <= 0x8000,
                    line@.len() == j,
                    forall|k: int| 0 <= k < j ==> #[trigger] line@[k] == plain(' '),
                decreases ox + width - j,
            {
                if j < ox {
                    line.push(Cell { symbol: self.cell_none(), style: CellStyle { color: None, bold_underlined: false, reversed: false } });
                } else {
                    line.push(Cell { symbol: self.cell_background(), style: CellStyle { color: None, bold_underlined: false, reversed: false } });
                }
                j = j + 1;
            }
            assert(line@ =~= Seq::new((ox + width) as nat, |j: int| plain(' ')));
            lines.push(line);
            i = i + 1;
        }
        proof {
            assert forall|k: int| 0 <= k < lines@.len() implies #[trigger] pic_of(lines@)[k] =~= target[k] by {}
            assert(pic_of(lines@) =~= target);
        }
        lines
    }

    /// Paints one layer of the picture over `lines`.
    fn paint_layer(
        &self,
        lines: &mut Vec<Vec<Cell>>,
        layer: Layer,
        board: &Board,
        offset: (usize, usize),
        focus: &Focus,
    )
        requires
            self.wf(),
            board.wf(),
            offset.0 <= 0x8000,
            offset.1 <= 0x8000,
            picture_shaped(pic_of(old(lines)@), self@.distance as int, board.spec_range() as int, (offset.0 as int, offset.1 as int)),
        ensures
            pic_of(final(lines)@) == painted(pic_of(old(lines)@), self@, layer, board@, (offset.0 as int, offset.1 as int), *focus),
    {
        let (ox, oy) = offset;
        let d = self.distance;
        let range = board.range();
        let ghost off = (ox as int, oy as int);
        let ghost old_pic = pic_of(lines@);
        let ghost target = painted(old_pic, self@, layer, board@, off, *focus);
        proof {
            board.lemma_wf();
            assert(2 * d * (range - 1) <= 20 * 0x100_0000) by (nonlinear_arith)
                requires
                    2 <= d <= 10,
                    1 <= range <= 0x100_0000,
            ;
        }
        proof {
            assert forall|k: int| 0 <= k < oy implies #[trigger] lines@[k]@ == target[k] by {
                assert(old_pic[k].len() == 0);
                assert(target[k] =~= old_pic[k]);
            }
        }
        let mut i: usize = oy;
        while i < lines.len()
            invariant
                self.wf(),
                board.wf(),
                range == board.spec_range(),
                d == self@.distance,
                1 <= range <= crate::board::MAX_RANGE,
                2 * (d as int) * ((range as int) - 1) <= 20 * 0x100_0000,
                ox <= 0x8000,
                oy <= i <= lines@.len(),
                off == (ox as int, oy as int),
                target == painted(old_pic, self@, layer, board@, off, *focus),
                board@.len() == range,
                picture_shaped(old_pic, d as int, range as int, off),
                lines@.len() == old_pic.len(),
                forall|k: int| 0 <= k < i ==> #[trigger] lines@[k]@ == target[k],
                forall|k: int| i <= k < lines@.len() ==> #[trigger] lines@[k]@ == old_pic[k],
            decreases lines@.len() - i,
        {
            let mut row: Vec<Cell> = Vec::new();
            let ghost before_swap = lines@;
            proof {
                assert(before_swap[i as int]@ == old_pic[i as int]);
            }
            lines.set_and_swap(i, &mut row);
            assert(row@ == old_pic[i as int]);
            let n = row.len();
            proof {
                assert(picture_shaped(old_pic, d as int, range as int, off));
                assert(0 <= i < old_pic.len());
                assert(old_pic[i as int].len() == (if (i as int) < off.1 { 0 } else { off.0 + 2 * (d as int) * ((range as int) - 1) + 1 }));
            }
            let mut j: usize = ox;
            while j < n
                invariant
                    self.wf(),
                    board.wf(),
                    range == board.spec_range(),
                    d == self@.distance,
                    1 <= range <= crate::board::MAX_RANGE,
                    oy <= i < old_pic.len(),
                    off == (ox as int, oy as int),
                    target == painted(old_pic, self@, layer, board@, off, *focus),
                    board@.len() == range,
                    old_pic[i as int].len() == n,
                    ox <= j <= n,
                    n as int == ox as int + 2 * (d as int) * ((range as int) - 1) + 1,
                    old_pic.len() == oy as int + (d as int) * ((range as int) - 1) + 1,
                    row@.len() == n,
                    forall|k: int| 0 <= k < j ==> #[trigger] row@[k] == target[i as int][k],
                    forall|k: int| j <= k < n ==> #[trigger] row@[k] == old_pic[i as int][k],
                decreases n - j,
            {
                proof {
                    assert((i as int) - (oy as int) <= (d as int) * ((range as int) - 1));
                }
                let g = glyph_at(d, range, i - oy, j - ox);
                if let Some(cell) = self.layer_cell(layer, g, board, focus) {
                    row.set(j, cell);
                }
                proof {
                    assert(target[i as int][j as int] == if in_layer(layer, g) {
                        glyph_cell(self@, g, board@, *focus)
                    } else {
                        old_pic[i as int][j as int]
                    });
                }
                j = j + 1;
            }
            proof {
                assert(row@ =~= target[i as int]);
            }
            lines.set(i, row);
            i = i + 1;
        }
        proof {
            assert forall|k: int| 0 <= k < lines@.len() implies #[trigger] pic_of(lines@)[k] == target[k] by {
                assert(lines@[k]@ == target[k]);
            }
            assert(pic_of(lines@) =~= target);
        }
    }
}

} // verus!

verus! {

/// Painting the four layers over the empty picture gives the board picture.
pub proof fn lemma_layers_make_picture(
    v: ParagraphBoardView,
    board: Seq<Seq<Option<Player>>>,
    offset: (int, int),
    f: Focus,
)
    requires
        offset.0 >= 0,
        offset.1 >= 0,
    ensures
        painted(
            painted(
                painted(painted(empty_picture(v, board.len() as int, offset), v, Layer::BottomFrame, board, offset, f), v, Layer::LeftFrame, board, offset, f),
                v,
                Layer::RightFrame,
                board,
                offset,
                f,
            ),
            v,
            Layer::Stones,
            board,
            offset,
            f,
        ) == board_picture(v, board, offset, f),
{
    let e = empty_picture(v, board.len() as int, offset);
    let p1 = painted(e, v, Layer::BottomFrame, board, offset, f);
    let p2 = painted(p1, v, Layer::LeftFrame, board, offset, f);
    let p3 = painted(p2, v, Layer::RightFrame, board, offset, f);
    let p4 = painted(p3, v, Layer::Stones, board, offset, f);
    let b = board_picture(v, board, offset, f);
    assert forall|i: int| 0 <= i < b.len() implies #[trigger] p4[i] =~= b[i] by {
        assert forall|j: int| 0 <= j < b[i].len() implies #[trigger] p4[i][j] == b[i][j] by {
            if i >= offset.1 && j >= offset.0 {
                let g = glyph(v.distance as int, board.len() as int, i - offset.1, j - offset.0);
                assert(g is Background ==> glyph_cell(v, g, board, f) == plain(' '));
            }
        }
    }
    assert(p4 =~= b);
}

impl ParagraphBoard {
    fn put_bottom_frame(&self, board: &Board, offset: (usize, usize), focus: &Focus, board_cells: &mut Vec<Vec<Cell>>)
        requires
            self.wf(),
            board.wf(),
            offset.0 <= 0x8000,
            offset.1 <= 0x8000,
            picture_shaped(pic_of(old(board_cells)@), self@.distance as int, board.spec_range() as int, (offset.0 as int, offset.1 as int)),
        ensures
            pic_of(final(board_cells)@) == painted(pic_of(old(board_cells)@), self@, Layer::BottomFrame, board@, (offset.0 as int, offset.1 as int), *focus),
    {
        self.paint_layer(board_cells, Layer::BottomFrame, board, offset, focus);
    }

    fn put_left_frame(&self, board: &Board, offset: (usize, usize), focus: &Focus, board_cells: &mut Vec<Vec<Cell>>)
        requires
            self.wf(),
            board.wf(),
            offset.0 <= 0x8000,
            offset.1 <= 0x8000,
            picture_shaped(pic_of(old(board_cells)@), self@.distance as int, board.spec_range() as int, (offset.0 as int, offset.1 as int)),
        ensures
            pic_of(final(board_cells)@) == painted(pic_of(old(board_cells)@), self@, Layer::LeftFrame, board@, (offset.0 as int, offset.1 as int), *focus),
    {
        self.paint_layer(board_cells, Layer::LeftFrame, board, offset, focus);
    }

    fn put_right_frame(&self, board: &Board, offset: (usize, usize), focus: &Focus, board_cells: &mut Vec<Vec<Cell>>)
        requires
            self.wf(),
            board.wf(),
            offset.0 <= 0x8000,
            offset.1 <= 0x8000,
            picture_shaped(pic_of(old(board_cells)@), self@.distance as int, board.spec_range() as int, (offset.0 as int, offset.1 as int)),
        ensures
            pic_of(final(board_cells)@) == painted(pic_of(old(board_cells)@), self@, Layer::RightFrame, board@, (offset.0 as int, offset.1 as int), *focus),
    {
        self.paint_layer(board_cells, Layer::RightFrame, board, offset, focus);
    }

    fn put_player(&self, board: &Board, offset: (usize, usize), focus: &Focus, board_cells: &mut Vec<Vec<Cell>>)
        requires
            self.wf(),
            board.wf(),
            offset.0 <= 0x8000,
            offset.1 <= 0x8000,
            picture_shaped(pic_of(old(board_cells)@), self@.distance as int, board.spec_range() as int, (offset.0 as int, offset.1 as int)),
        ensures
            pic_of(final(board_cells)@) == painted(pic_of(old(board_cells)@), self@, Layer::Stones, board@, (offset.0 as int, offset.1 as int), *focus),
    {
        self.paint_layer(board_cells, Layer::Stones, board, offset, focus);
    }

    /// The picture of the board for the given scroll, current player and cursor.
    pub fn make_board_cells(
        &self,
        board: &Board,
        net_scroll: (usize, usize),
        current_player: Player,
        current_position: (usize, usize),
    ) -> (lines: Vec<Vec<Cell>>)
        requires
            self.wf(),
            board.wf(),
            renderable(self@),
        ensures
            pic_of(lines@) == board_picture(
                self@,
                board@,
                net_offset(self@),
                Focus { current_player, current_position, net_scroll_x: net_scroll.0 },
            ),
    {
        let focus = Focus { current_player, current_position, net_scroll_x: net_scroll.0 };
        let d = self.distance as i16;
        let ox = self.offset.0 * d;
        let oy = self.offset.1 * d;
        let offset = (if ox > 0 { ox as usize } else { 0 }, if oy > 0 { oy as usize } else { 0 });
        let ghost off = (offset.0 as int, offset.1 as int);
        proof {
            board.lemma_wf();
            assert(off == net_offset(self@));
        }
        let mut board_cells = self.make_empty_board_cells(board, offset);
        proof {
            assert(picture_shaped(pic_of(board_cells@), self@.distance as int, board.spec_range() as int, off));
        }
        self.put_bottom_frame(board, offset, &focus, &mut board_cells);
        self.put_left_frame(board, offset, &focus, &mut board_cells);
        self.put_right_frame(board, offset, &focus, &mut board_cells);
        self.put_player(board, offset, &focus, &mut board_cells);
        proof {
            lemma_layers_make_picture(self@, board@, off, focus);
        }
        board_cells
    }

    fn make_border_style(&self, play: crate::game::Play, current_player: Player) -> (c: Option<Player>)
        ensures
            c == border_color(play, current_player),
    {
        match play {
            crate::game::Play::Finished | crate::game::Play::History => None,
            _ => Some(current_player),
        }
    }

    /// Everything the board box shows: the picture, how far it is scrolled, and the border's color.
    pub fn board_view(
        &self,
        board: &Board,
        play: crate::game::Play,
        current_player: Player,
        current_position: (usize, usize),
    ) -> (p: BoardPicture)
        requires
            self.wf(),
            board.wf(),
            renderable(self@),
        ensures
            p.scroll.0 == net_scroll(self@).1,
            p.scroll.1 == net_scroll(self@).0,
            pic_of(p.lines@) == board_picture(
                self@,
                board@,
                net_offset(self@),
                Focus { current_player, current_position, net_scroll_x: net_scroll(self@).0 as usize },
            ),
            p.border == border_color(play, current_player),
    {
        let d = self.distance as i16;
        proof {
            let o0 = self.offset.0 as int;
            let o1 = self.offset.1 as int;
            let dd = d as int;
            assert(o0 > -0x8000 && -0x7fff <= (-o0) * dd <= 0x7fff) by (nonlinear_arith)
                requires
                    2 <= dd <= 10,
                    -0x7fff <= o0 * dd <= 0x7fff,
            ;
            assert(o1 > -0x8000 && -0x7fff <= (-o1) * dd <= 0x7fff) by (nonlinear_arith)
                requires
                    2 <= dd <= 10,
                    -0x7fff <= o1 * dd <= 0x7fff,
            ;
        }
        let sx = -self.offset.0 * d;
        let sy = -self.offset.1 * d;
        let net_scroll_x: u16 = if sx > 0 { sx as u16 } else { 0 };
        let net_scroll_y: u16 = if sy > 0 { sy as u16 } else { 0 };
        let lines = self.make_board_cells(
            board,
            (net_scroll_x as usize, net_scroll_y as usize),
            current_player,
            current_position,
        );
        BoardPicture {
            lines,
            scroll: (net_scroll_y, net_scroll_x),
            border: self.make_border_style(play, current_player),
        }
    }
}

} // verus!

verus! {

/// Position `(x, y)` is drawn on line `d * y`, at column `d * (range - y - 1) + 2 * d * x`.
pub proof fn lemma_stone_placement(d: int, range: int, x: int, y: int)
    requires
        d >= 2,
        0 <= x <= y < range,
    ensures
        glyph(d, range, d * y, d * (range - y - 1) + 2 * d * x) == Glyph::Stone(x as usize, y as usize),
{
    let l = d * y;
    let base = d * (range - y - 1);
    let c = base + 2 * d * x;
    assert(l == y * d + 0) by (nonlinear_arith)
        requires
            l == d * y,
    ;
    vstd::arithmetic::div_mod::lemma_fundamental_div_mod_converse(l, d, y, 0);
    assert(c - base == x * (2 * d) + 0) by (nonlinear_arith)
        requires
            c == base + 2 * d * x,
    ;
    vstd::arithmetic::div_mod::lemma_fundamental_div_mod_converse(c - base, 2 * d, x, 0);
}

/// The frame under row `r + 1` is drawn at offsets `o + 1` from each of its positions, for
/// `o` from 1 to `2 * d - 3`.
pub proof fn lemma_bottom_frame_placement(d: int, range: int, r: int, o: int, k: int)
    requires
        d >= 2,
        0 <= r <= range - 2,
        1 <= o <= 2 * d - 3,
        0 <= k <= r,
    ensures
        glyph(d, range, d * (r + 1), d * (range - r - 2) + o + 1 + 2 * d * k) == Glyph::BottomFrame,
{
    let l = d * (r + 1);
    let y = r + 1;
    let base = d * (range - y - 1);
    let c = d * (range - r - 2) + o + 1 + 2 * d * k;
    assert(l == y * d + 0) by (nonlinear_arith)
        requires
            l == d * (r + 1),
            y == r + 1,
    ;
    vstd::arithmetic::div_mod::lemma_fundamental_div_mod_converse(l, d, y, 0);
    assert(base == d * (range - r - 2)) by (nonlinear_arith)
        requires
            base == d * (range - y - 1),
            y == r + 1,
    ;
    assert(c - base == k * (2 * d) + (o + 1)) by (nonlinear_arith)
        requires
            c == d * (range - r - 2) + o + 1 + 2 * d * k,
            base == d * (range - r - 2),
    ;
    vstd::arithmetic::div_mod::lemma_fundamental_div_mod_converse(c - base, 2 * d, k, o + 1);
    assert(c >= base) by (nonlinear_arith)
        requires
            c - base == k * (2 * d) + (o + 1),
            k >= 0,
            d >= 2,
            o >= 1,
    ;
}

/// The frames between rows `r` and `r + 1` are drawn `o` lines below row `r`, `o` columns to
/// the left and to the right of each of its positions, for `o` from 1 to `d - 1`.
pub proof fn lemma_side_frame_placement(d: int, range: int, r: int, o: int, k: int)
    requires
        d >= 2,
        0 <= r <= range - 2,
        1 <= o <= d - 1,
        0 <= k <= r,
    ensures
        glyph(d, range, d * r + o, d * (range - r - 1) - o + 2 * d * k) == Glyph::LeftFrame,
        glyph(d, range, d * r + o, d * (range - r - 1) + o + 2 * d * k) == Glyph::RightFrame,
{
    let l = d * r + o;
    let base = d * (range - r - 1);
    assert(l == r * d + o) by (nonlinear_arith)
        requires
            l == d * r + o,
    ;
    vstd::arithmetic::div_mod::lemma_fundamental_div_mod_converse(l, d, r, o);
    let cl = base - o + 2 * d * k;
    assert(cl + o - base == k * (2 * d) + 0) by (nonlinear_arith)
        requires
            cl == base - o + 2 * d * k,
    ;
    vstd::arithmetic::div_mod::lemma_fundamental_div_mod_converse(cl + o - base, 2 * d, k, 0);
    assert(2 * d * k >= 0) by (nonlinear_arith)
        requires
            d >= 2,
            k >= 0,
    ;
    let cr = base + o + 2 * d * k;
    assert(cr - o - base == k * (2 * d) + 0) by (nonlinear_arith)
        requires
            cr == base + o + 2 * d * k,
    ;
    vstd::arithmetic::div_mod::lemma_fundamental_div_mod_converse(cr - o - base, 2 * d, k, 0);
    assert(cr + o - base == k * (2 * d) + 2 * o) by (nonlinear_arith)
        requires
            cr == base + o + 2 * d * k,
    ;
    vstd::arithmetic::div_mod::lemma_fundamental_div_mod_converse(cr + o - base, 2 * d, k, 2 * o);
}

} // verus!
