//! Which key does what, and how keys are named in the key guide.

use vstd::prelude::*;

use crate::game::Action;
use crate::text::{decimal, push_decimal};

verus! {

/// A key as the terminal reports it.
#[derive(Clone, Copy, Debug, PartialEq, Eq, Structural)]
pub enum Key {
    Backspace,
    Left,
    Right,
    Up,
    Down,
    Home,
    End,
    PageUp,
    PageDown,
    BackTab,
    Delete,
    Insert,
    F(u8),
    Char(char),
    Alt(char),
    Ctrl(char),
    Null,
    Esc,
    /// Any other key, such as a shifted arrow.
    Other,
}

/// Commands that only change the view of the board, not the game.
#[derive(Clone, Copy, Debug, PartialEq, Eq, Structural)]
pub enum ViewAction {
    ScrollLeft,
    ScrollRight,
    ScrollUp,
    ScrollDown,
    ScrollReset,
    ZoomIn,
    ZoomOut,
    ToggleFrame,
}

/// The key bound to each command.
#[derive(Clone, Copy, Debug)]
pub struct KeyBinding {
    pub move_up: Key,
    pub move_down: Key,
    pub move_left: Key,
    pub move_right: Key,
    pub scroll_up: Key,
    pub scroll_down: Key,
    pub scroll_left: Key,
    pub scroll_right: Key,
    pub scroll_reset: Key,
    pub frame_toggle: Key,
    pub into_history: Key,
    pub prev_history: Key,
    pub next_history: Key,
    pub zoom_in: Key,
    pub zoom_out: Key,
    pub quit: Key,
    pub init: Key,
    pub select: Key,
}

impl KeyBinding {
    /// The usual keys: `hjkl` to move, `t` for the history.
    pub fn default_binding() -> (b: KeyBinding)
        ensures
            b.distinct(),
            b.move_up == Key::Char('k'),
            b.move_down == Key::Char('j'),
            b.move_left == Key::Char('h'),
            b.move_right == Key::Char('l'),
            b.scroll_up == Key::Up,
            b.scroll_down == Key::Down,
            b.scroll_left == Key::Left,
            b.scroll_right == Key::Right,
            b.scroll_reset == Key::Home,
            b.frame_toggle == Key::Char('f'),
            b.into_history == Key::Char('t'),
            b.prev_history == Key::Char('p'),
            b.next_history == Key::Char('n'),
            b.zoom_in == Key::Char('+'),
            b.zoom_out == Key::Char('-'),
            b.quit == Key::Char('q'),
            b.init == Key::Char('0'),
            b.select == Key::Char('\n'),
    {
        KeyBinding {
            move_up: Key::Char('k'),
            move_down: Key::Char('j'),
            move_left: Key::Char('h'),
            move_right: Key::Char('l'),
            scroll_up: Key::Up,
            scroll_down: Key::Down,
            scroll_left: Key::Left,
            scroll_right: Key::Right,
            scroll_reset: Key::Home,
            frame_toggle: Key::Char('f'),
            into_history: Key::Char('t'),
            prev_history: Key::Char('p'),
            next_history: Key::Char('n'),
            zoom_in: Key::Char('+'),
            zoom_out: Key::Char('-'),
            quit: Key::Char('q'),
            init: Key::Char('0'),
            select: Key::Char('\n'),
        }
    }

    /// The other keys: `ijkl` to move, `h` for the history.
    pub fn alternative_binding() -> (b: KeyBinding)
        ensures
            b.distinct(),
            b.move_up == Key::Char('i'),
            b.move_down == Key::Char('k'),
            b.move_left == Key::Char('j'),
            b.move_right == Key::Char('l'),
            b.scroll_up == Key::Up,
            b.scroll_down == Key::Down,
            b.scroll_left == Key::Left,
            b.scroll_right == Key::Right,
            b.scroll_reset == Key::Home,
            b.frame_toggle == Key::Char('f'),
            b.into_history == Key::Char('h'),
            b.prev_history == Key::Char('p'),
            b.next_history == Key::Char('n'),
            b.zoom_in == Key::Char('+'),
            b.zoom_out == Key::Char('-'),
            b.quit == Key::Char('q'),
            b.init == Key::Char('0'),
            b.select == Key::Char('\n'),
    {
        KeyBinding {
            move_up: Key::Char('i'),
            move_down: Key::Char('k'),
            move_left: Key::Char('j'),
            move_right: Key::Char('l'),
            scroll_up: Key::Up,
            scroll_down: Key::Down,
            scroll_left: Key::Left,
            scroll_right: Key::Right,
            scroll_reset: Key::Home,
            frame_toggle: Key::Char('f'),
            into_history: Key::Char('h'),
            prev_history: Key::Char('p'),
            next_history: Key::Char('n'),
            zoom_in: Key::Char('+'),
            zoom_out: Key::Char('-'),
            quit: Key::Char('q'),
            init: Key::Char('0'),
            select: Key::Char('\n'),
        }
    }

    /// The bound keys, one per command.
    pub open spec fn keys(self) -> Seq<Key> {
        seq![
            self.move_up, self.move_down, self.move_left, self.move_right, self.scroll_up,
            self.scroll_down, self.scroll_left, self.scroll_right, self.scroll_reset,
            self.frame_toggle, self.into_history, self.prev_history, self.next_history,
            self.zoom_in, self.zoom_out, self.quit, self.init, self.select,
        ]
    }

    /// No key is bound to two commands.
    pub open spec fn distinct(self) -> bool {
        self.keys().no_duplicates()
    }

    /// Every bound key has a name in the key guide.
    pub open spec fn nameable(self) -> bool {
        nameable(self.move_up) && nameable(self.move_down) && nameable(self.move_left) && nameable(self.move_right) && nameable(self.scroll_up) && nameable(self.scroll_down) && nameable(self.scroll_left) && nameable(self.scroll_right) && nameable(self.scroll_reset) && nameable(self.frame_toggle) && nameable(self.into_history) && nameable(self.prev_history) && nameable(self.next_history) && nameable(self.zoom_in) && nameable(self.zoom_out) && nameable(self.quit) && nameable(self.init) && nameable(self.select)
    }
}

/// The key has a name in the key guide.
pub open spec fn nameable(k: Key) -> bool {
    !(k is Null || k is Other)
}

/// The name of a key in the key guide.
pub open spec fn key_text(k: Key) -> Seq<char> {
    match k {
        Key::Char(c) => if c == '\n' {
            "Enter"@
        } else if c == '\t' {
            "Tab"@
        } else {
            seq![c]
        },
        Key::Alt(c) => if c == '\n' {
            "Alt-Enter"@
        } else if c == '\t' {
            "Alt-Tab"@
        } else {
            "Alt-"@.push(c)
        },
        Key::Ctrl(c) => if c == '\n' {
            "Ctrl-Enter"@
        } else if c == '\t' {
            "Ctrl-Tab"@
        } else {
            "Ctrl-"@.push(c)
        },
        Key::F(f) => "F"@ + decimal(f as nat),
        Key::Backspace => "BS"@,
        Key::Left => "Left"@,
        Key::Right => "Right"@,
        Key::Up => "Up"@,
        Key::Down => "Down"@,
        Key::Home => "Home"@,
        Key::End => "End"@,
        Key::PageUp => "PageUp"@,
        Key::PageDown => "PageDown"@,
        Key::BackTab => "BackTab"@,
        Key::Delete => "Del"@,
        Key::Insert => "Insert"@,
        Key::Esc => "Esc"@,
        Key::Null => Seq::empty(),
        Key::Other => Seq::empty(),
    }
}

/// Appends `c`, as `String::push` does.
#[verifier::external_body]
fn push_char(s: &mut String, c: char)
    ensures
        final(s)@ == old(s)@.push(c),
{
    s.push(c);
}

/// Appends the name of `key`.
pub fn push_key_name(s: &mut String, key: Key)
    requires
        nameable(key),
    ensures
        final(s)@ == old(s)@ + key_text(key),
{
    match key {
        Key::Char(c) => if c == '\n' {
            s.append("Enter");
        } else if c == '\t' {
            s.append("Tab");
        } else {
            push_char(s, c);
        },
        Key::Alt(c) => if c == '\n' {
            s.append("Alt-Enter");
        } else if c == '\t' {
            s.append("Alt-Tab");
        } else {
            s.append("Alt-");
            push_char(s, c);
        },
        Key::Ctrl(c) => if c == '\n' {
            s.append("Ctrl-Enter");
        } else if c == '\t' {
            s.append("Ctrl-Tab");
        } else {
            s.append("Ctrl-");
            push_char(s, c);
        },
        Key::F(f) => {
            s.append("F");
            push_decimal(s, f as u64);
        },
        Key::Backspace => s.append("BS"),
        Key::Left => s.append("Left"),
        Key::Right => s.append("Right"),
        Key::Up => s.append("Up"),
        Key::Down => s.append("Down"),
        Key::Home => s.append("Home"),
        Key::End => s.append("End"),
        Key::PageUp => s.append("PageUp"),
        Key::PageDown => s.append("PageDown"),
        Key::BackTab => s.append("BackTab"),
        Key::Delete => s.append("Del"),
        Key::Insert => s.append("Insert"),
        Key::Esc => s.append("Esc"),
        Key::Null => {},
        Key::Other => {},
    }
    proof {
        assert(final(s)@ =~= old(s)@ + key_text(key));
    }
}

/// The name of `key` in the key guide.
pub fn change_key_to_str(key: Key) -> (s: String)
    requires
        nameable(key),
    ensures
        s@ == key_text(key),
{
    let mut s = String::new();
    push_key_name(&mut s, key);
    proof {
        assert(s@ =~= key_text(key));
    }
    s
}

/// In a yes/no question, `Y` confirms and any other key cancels.
pub fn confirmation_action(key: Key) -> (a: Action)
    ensures
        a == if key == Key::Char('Y') {
            Action::Confirm
        } else {
            Action::Cancel
        },
{
    if key == Key::Char('Y') {
        Action::Confirm
    } else {
        Action::Cancel
    }
}

/// The view command bound to `key`, if any.
pub open spec fn spec_view_action(b: KeyBinding, key: Key) -> Option<ViewAction> {
    if key == b.scroll_left {
        Some(ViewAction::ScrollLeft)
    } else if key == b.scroll_right {
        Some(ViewAction::ScrollRight)
    } else if key == b.scroll_up {
        Some(ViewAction::ScrollUp)
    } else if key == b.scroll_down {
        Some(ViewAction::ScrollDown)
    } else if key == b.scroll_reset {
        Some(ViewAction::ScrollReset)
    } else if key == b.zoom_in {
        Some(ViewAction::ZoomIn)
    } else if key == b.zoom_out {
        Some(ViewAction::ZoomOut)
    } else if key == b.frame_toggle {
        Some(ViewAction::ToggleFrame)
    } else {
        None
    }
}

pub fn view_action(binding: &KeyBinding, key: Key) -> (a: Option<ViewAction>)
    ensures
        a == spec_view_action(*binding, key),
{
    if key == binding.scroll_left {
        Some(ViewAction::ScrollLeft)
    } else if key == binding.scroll_right {
        Some(ViewAction::ScrollRight)
    } else if key == binding.scroll_up {
        Some(ViewAction::ScrollUp)
    } else if key == binding.scroll_down {
        Some(ViewAction::ScrollDown)
    } else if key == binding.scroll_reset {
        Some(ViewAction::ScrollReset)
    } else if key == binding.zoom_in {
        Some(ViewAction::ZoomIn)
    } else if key == binding.zoom_out {
        Some(ViewAction::ZoomOut)
    } else if key == binding.frame_toggle {
        Some(ViewAction::ToggleFrame)
    } else {
        None
    }
}

/// The game command bound to `key`, if any.
pub open spec fn spec_game_action(b: KeyBinding, key: Key) -> Option<Action> {
    if key == b.quit {
        Some(Action::RequestQuit)
    } else if key == b.init {
        Some(Action::RequestInit)
    } else if key == b.move_left {
        Some(Action::MoveLeft)
    } else if key == b.move_right {
        Some(Action::MoveRight)
    } else if key == b.move_up {
        Some(Action::MoveUp)
    } else if key == b.move_down {
        Some(Action::MoveDown)
    } else if key == b.into_history {
        Some(Action::EnterHistory)
    } else if key == b.select {
        Some(Action::Select)
    } else if key == b.prev_history {
        Some(Action::HistoryPrev)
    } else if key == b.next_history {
        Some(Action::HistoryNext)
    } else {
        None
    }
}

pub fn game_action(binding: &KeyBinding, key: Key) -> (a: Option<Action>)
    ensures
        a == spec_game_action(*binding, key),
{
    if key == binding.quit {
        Some(Action::RequestQuit)
    } else if key == binding.init {
        Some(Action::RequestInit)
    } else if key == binding.move_left {
        Some(Action::MoveLeft)
    } else if key == binding.move_right {
        Some(Action::MoveRight)
    } else if key == binding.move_up {
        Some(Action::MoveUp)
    } else if key == binding.move_down {
        Some(Action::MoveDown)
    } else if key == binding.into_history {
        Some(Action::EnterHistory)
    } else if key == binding.select {
        Some(Action::Select)
    } else if key == binding.prev_history {
        Some(Action::HistoryPrev)
    } else if key == binding.next_history {
        Some(Action::HistoryNext)
    } else {
        None
    }
}

/// The key guide shown during play.
pub open spec fn guidance_in_turn_text(b: KeyBinding) -> Seq<char> {
    " Quit ["@ + key_text(b.quit) + "], Initialize ["@ + key_text(b.init) + "], History ["@ + key_text(b.into_history) + "], Frame On/Off ["@ + key_text(b.frame_toggle) + "], Select ["@ + key_text(b.select) + "]\n Move ◀︎/▼/▲/▶︎ ["@ + key_text(b.move_left) + "/"@ + key_text(b.move_down) + "/"@ + key_text(b.move_up) + "/"@ + key_text(b.move_right) + "], Scroll ◀︎/▼/▲/▶︎/reset ["@ + key_text(b.scroll_left) + "/"@ + key_text(b.scroll_down) + "/"@ + key_text(b.scroll_up) + "/"@ + key_text(b.scroll_right) + "/"@ + key_text(b.scroll_reset) + "], Zoom In/Out ["@ + key_text(b.zoom_in) + "/"@ + key_text(b.zoom_out) + "]"@
}

/// The key guide shown while looking through the history.
pub open spec fn guidance_in_history_text(b: KeyBinding) -> Seq<char> {
    " Frame On/Off ["@ + key_text(b.frame_toggle) + "], Select ["@ + key_text(b.select) + "]\n Prev/Next ["@ + key_text(b.prev_history) + "/"@ + key_text(b.next_history) + "], Scroll ◀︎/▼/▲/▶︎/reset ["@ + key_text(b.scroll_left) + "/"@ + key_text(b.scroll_down) + "/"@ + key_text(b.scroll_up) + "/"@ + key_text(b.scroll_right) + "/"@ + key_text(b.scroll_reset) + "], Zoom In/Out ["@ + key_text(b.zoom_in) + "/"@ + key_text(b.zoom_out) + "]"@
}

pub fn make_guidance_in_turn(binding: &KeyBinding) -> (s: String)
    requires
        binding.nameable(),
    ensures
        s@ == guidance_in_turn_text(*binding),
{
    let mut s = String::new();
    s.append(" Quit [");
    push_key_name(&mut s, binding.quit);
    s.append("], Initialize [");
    push_key_name(&mut s, binding.init);
    s.append("], History [");
    push_key_name(&mut s, binding.into_history);
    s.append("], Frame On/Off [");
    push_key_name(&mut s, binding.frame_toggle);
    s.append("], Select [");
    push_key_name(&mut s, binding.select);
    s.append("]\n Move ◀︎/▼/▲/▶︎ [");
    push_key_name(&mut s, binding.move_left);
    s.append("/");
    push_key_name(&mut s, binding.move_down);
    s.append("/");
    push_key_name(&mut s, binding.move_up);
    s.append("/");
    push_key_name(&mut s, binding.move_right);
    s.append("], Scroll ◀︎/▼/▲/▶︎/reset [");
    push_key_name(&mut s, binding.scroll_left);
    s.append("/");
    push_key_name(&mut s, binding.scroll_down);
    s.append("/");
    push_key_name(&mut s, binding.scroll_up);
    s.append("/");
    push_key_name(&mut s, binding.scroll_right);
    s.append("/");
    push_key_name(&mut s, binding.scroll_reset);
    s.append("], Zoom In/Out [");
    push_key_name(&mut s, binding.zoom_in);
    s.append("/");
    push_key_name(&mut s, binding.zoom_out);
    s.append("]");
    proof {
        assert(s@ =~= guidance_in_turn_text(*binding));
    }
    s
}

pub fn make_guidance_in_history(binding: &KeyBinding) -> (s: String)
    requires
        binding.nameable(),
    ensures
        s@ == guidance_in_history_text(*binding),
{
    let mut s = String::new();
    s.append(" Frame On/Off [");
    push_key_name(&mut s, binding.frame_toggle);
    s.append("], Select [");
    push_key_name(&mut s, binding.select);
    s.append("]\n Prev/Next [");
    push_key_name(&mut s, binding.prev_history);
    s.append("/");
    push_key_name(&mut s, binding.next_history);
    s.append("], Scroll ◀︎/▼/▲/▶︎/reset [");
    push_key_name(&mut s, binding.scroll_left);
    s.append("/");
    push_key_name(&mut s, binding.scroll_down);
    s.append("/");
    push_key_name(&mut s, binding.scroll_up);
    s.append("/");
    push_key_name(&mut s, binding.scroll_right);
    s.append("/");
    push_key_name(&mut s, binding.scroll_reset);
    s.append("], Zoom In/Out [");
    push_key_name(&mut s, binding.zoom_in);
    s.append("/");
    push_key_name(&mut s, binding.zoom_out);
    s.append("]");
    proof {
        assert(s@ =~= guidance_in_history_text(*binding));
    }
    s
}

/// With no key bound twice, each bound key gives its own command, in play as a game
/// command or as a view command, and a key bound to nothing gives neither.
pub proof fn lemma_each_key_gives_its_command(b: KeyBinding, key: Key)
    requires
        b.distinct(),
    ensures
        spec_game_action(b, b.quit) == Some(Action::RequestQuit),
        spec_game_action(b, b.init) == Some(Action::RequestInit),
        spec_game_action(b, b.move_left) == Some(Action::MoveLeft),
        spec_game_action(b, b.move_right) == Some(Action::MoveRight),
        spec_game_action(b, b.move_up) == Some(Action::MoveUp),
        spec_game_action(b, b.move_down) == Some(Action::MoveDown),
        spec_game_action(b, b.into_history) == Some(Action::EnterHistory),
        spec_game_action(b, b.select) == Some(Action::Select),
        spec_game_action(b, b.prev_history) == Some(Action::HistoryPrev),
        spec_game_action(b, b.next_history) == Some(Action::HistoryNext),
        spec_view_action(b, b.scroll_left) == Some(ViewAction::ScrollLeft),
        spec_view_action(b, b.scroll_right) == Some(ViewAction::ScrollRight),
        spec_view_action(b, b.scroll_up) == Some(ViewAction::ScrollUp),
        spec_view_action(b, b.scroll_down) == Some(ViewAction::ScrollDown),
        spec_view_action(b, b.scroll_reset) == Some(ViewAction::ScrollReset),
        spec_view_action(b, b.zoom_in) == Some(ViewAction::ZoomIn),
        spec_view_action(b, b.zoom_out) == Some(ViewAction::ZoomOut),
        spec_view_action(b, b.frame_toggle) == Some(ViewAction::ToggleFrame),
        !b.keys().contains(key) ==> spec_game_action(b, key) is None && spec_view_action(b, key) is None,
{
    let k = b.keys();
    assert(k[0] == b.move_up && k[1] == b.move_down && k[2] == b.move_left && k[3] == b.move_right);
    assert(k[4] == b.scroll_up && k[5] == b.scroll_down && k[6] == b.scroll_left && k[7] == b.scroll_right);
    assert(k[8] == b.scroll_reset && k[9] == b.frame_toggle && k[10] == b.into_history);
    assert(k[11] == b.prev_history && k[12] == b.next_history && k[13] == b.zoom_in);
    assert(k[14] == b.zoom_out && k[15] == b.quit && k[16] == b.init && k[17] == b.select);
    if !k.contains(key) {
        assert forall|i: int| 0 <= i < 18 implies k[i] != key by {
            if k[i] == key {
                assert(k.contains(key));
            }
        }
    }
}

} // verus!
