//! What the terminal screen shows during play, computed from the game; the drawing itself
//! is left to the terminal front end.

use unicode_width::UnicodeWidthStr;
use vstd::prelude::*;

use crate::board::Player;
use crate::game::{Game, GameView, MessageKind, Play, Status};
use crate::key_binding::{
    guidance_in_history_text, guidance_in_turn_text, key_text, make_guidance_in_history,
    make_guidance_in_turn, push_key_name, KeyBinding,
};
use crate::text::{decimal, push_decimal};

verus! {

/// The width of `s` in columns, East Asian ambiguous characters counted as wide.
pub uninterp spec fn str_width_cjk(s: Seq<char>) -> usize;

/// Calls `UnicodeWidthStr::width_cjk`, whose result depends on the text alone.
#[verifier::external_body]
fn width_cjk(s: &str) -> (w: usize)
    ensures
        w == str_width_cjk(s@),
{
    UnicodeWidthStr::width_cjk(s)
}

/// The width of the box listing the players: 6 plus their names' widths,
/// the sum cut to 16 bits; `None` where that does not fit in 16 bits or the sum
/// of the widths overflows.
pub open spec fn spec_player_box_width(v: GameView) -> Option<u16> {
    let s = str_width_cjk(v.name(Player::Zero)) as int + str_width_cjk(v.name(Player::One)) as int
        + str_width_cjk(v.name(Player::Two)) as int;
    if s > usize::MAX {
        None
    } else if s % 0x10000 + 6 > u16::MAX {
        None
    } else {
        Some((s % 0x10000 + 6) as u16)
    }
}

pub fn player_box_width(game: &Game) -> (w: Option<u16>)
    ensures
        w == spec_player_box_width(game@),
{
    let w0 = width_cjk(game.player_name(Player::Zero));
    let w1 = width_cjk(game.player_name(Player::One));
    let w2 = width_cjk(game.player_name(Player::Two));
    match w0.checked_add(w1) {
        None => None,
        Some(a) => match a.checked_add(w2) {
            None => None,
            Some(s) => {
                let t = s % 0x10000;
                if t + 6 > 0xffff {
                    None
                } else {
                    Some((t + 6) as u16)
                }
            },
        },
    }
}

/// A player's name in the players' box.
pub struct PlayerLabel {
    pub text: String,
    pub player: Player,
    /// Shown in the player's color; otherwise dimmed.
    pub highlighted: bool,
}

/// The label of `p`: its name, followed by a space unless it is the last player;
/// only the current player is highlighted, except once the game is finished.
pub open spec fn label_text(v: GameView, p: Player) -> Seq<char> {
    if p == Player::Two {
        v.name(p)
    } else {
        v.name(p) + " "@
    }
}

pub open spec fn label_highlighted(v: GameView, p: Player, play: Play) -> bool {
    !(p != v.current_player && play != Play::Finished)
}

fn player_label(game: &Game, p: Player, play: Play) -> (l: PlayerLabel)
    ensures
        l.text@ == label_text(game@, p),
        l.player == p,
        l.highlighted == label_highlighted(game@, p, play),
{
    let mut text = String::from_str(game.player_name(p));
    if p != Player::Two {
        text.append(" ");
    }
    PlayerLabel { text, player: p, highlighted: !(p != game.current_player() && play != Play::Finished) }
}

/// The labels of the three players, in turn order.
pub fn player_labels(game: &Game, play: Play) -> (ls: Vec<PlayerLabel>)
    ensures
        ls@.len() == 3,
        forall|i: int|
            0 <= i < 3 ==> {
                let p = if i == 0 {
                    Player::Zero
                } else if i == 1 {
                    Player::One
                } else {
                    Player::Two
                };
                &&& (#[trigger] ls@[i]).player == p
                &&& ls@[i].text@ == label_text(game@, p)
                &&& ls@[i].highlighted == label_highlighted(game@, p, play)
            },
{
    let mut ls: Vec<PlayerLabel> = Vec::new();
    ls.push(player_label(game, Player::Zero, play));
    ls.push(player_label(game, Player::One, play));
    ls.push(player_label(game, Player::Two, play));
    ls
}

/// The cursor's position, as `x, y`.
pub open spec fn position_text(v: GameView) -> Seq<char> {
    decimal(v.current_position.0 as nat) + ", "@ + decimal(v.current_position.1 as nat)
}

pub fn position_label(game: &Game) -> (s: String)
    ensures
        s@ == position_text(game@),
{
    let (x, y) = game.current_position();
    let mut s = String::new();
    push_decimal(&mut s, x as u64);
    s.append(", ");
    push_decimal(&mut s, y as u64);
    proof {
        assert(s@ =~= position_text(game@));
    }
    s
}

/// The game's message; when a turn was skipped, followed by the key that goes on.
pub open spec fn message_text(v: GameView, b: KeyBinding) -> Seq<char> {
    if v.current_status == Status::Play(Play::Skipped) {
        v.message + " Press ["@ + key_text(b.select) + "]."@
    } else {
        v.message
    }
}

pub fn message_label(game: &Game, binding: &KeyBinding) -> (s: String)
    requires
        binding.nameable(),
    ensures
        s@ == message_text(game@, *binding),
{
    let mut s = String::from_str(game.message().text.as_str());
    if game.current_status() == Status::Play(Play::Skipped) {
        s.append(" Press [");
        push_key_name(&mut s, binding.select);
        s.append("].");
    }
    proof {
        assert(s@ =~= message_text(game@, *binding));
    }
    s
}

/// The key guide for the phase of play.
pub fn guidance(binding: &KeyBinding, play: Play) -> (s: String)
    requires
        binding.nameable(),
    ensures
        s@ == if play == Play::History {
            guidance_in_history_text(*binding)
        } else {
            guidance_in_turn_text(*binding)
        },
{
    if play == Play::History {
        make_guidance_in_history(binding)
    } else {
        make_guidance_in_turn(binding)
    }
}

/// The message's kind, which picks its color.
pub fn message_kind(game: &Game) -> (k: MessageKind)
    ensures
        k == game@.message_kind,
{
    game.message().kind
}

} // verus!
