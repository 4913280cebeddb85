use vstd::prelude::*;

verus! {

/// How a message should be shown, whatever the colors of the view.
#[derive(Clone, Copy, Debug, PartialEq, Eq, Structural)]
pub enum MessageKind {
    Normal,
    Error,
}

impl Default for MessageKind {
    fn default() -> (k: MessageKind)
        ensures
            k == MessageKind::Normal,
    {
        MessageKind::Normal
    }
}

/// A message of the game for its players.
#[derive(Debug)]
pub struct Message {
    pub text: String,
    pub kind: MessageKind,
}

impl Default for Message {
    fn default() -> (m: Message)
        ensures
            m.text@ == Seq::<char>::empty(),
            m.kind == MessageKind::Normal,
    {
        Message { text: String::new(), kind: MessageKind::Normal }
    }
}

impl Message {
    /// Empties the text and makes the message a normal one.
    pub fn clear(&mut self)
        ensures
            final(self).text@ == Seq::<char>::empty(),
            final(self).kind == MessageKind::Normal,
    {
        self.text = String::new();
        self.kind = MessageKind::Normal;
    }
}

} // verus!
