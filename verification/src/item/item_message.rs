//! Free-text message items and the line each one appends to the
//! receiver's messages file.
use vstd::prelude::*;
use vstd::string::*;

verus! {

/// The line a delivered message adds to the messages file: the text as
/// it is when it already ends in a newline, the text plus one newline
/// otherwise.
pub open spec fn message_line(m: Seq<char>) -> Seq<char> {
    if m.len() > 0 && m.last() == '\n' {
        m
    } else {
        m + seq!['\n']
    }
}

/// A free-text message item.
#[derive(Debug, Clone, PartialEq)]
pub struct ItemMessage {
    msg: String,
}

impl ItemMessage {
    /// The message text, as a spec value.
    pub closed spec fn spec_msg(&self) -> Seq<char> {
        self.msg@
    }

    /// Wrap a message text.
    pub fn new(msg: String) -> (r: ItemMessage)
        ensures
            r.spec_msg() == msg@,
    {
        ItemMessage { msg }
    }

    /// The message text.
    pub fn msg(&self) -> (r: &String)
        ensures
            r@ == self.spec_msg(),
    {
        &self.msg
    }

    /// The exact line this message appends to the messages file:
    /// newline-terminated, with no second newline added.
    pub fn line(&self) -> (r: String)
        ensures
            r@ == message_line(self.spec_msg()),
    {
        let n = self.msg.as_str().unicode_len();
        if n > 0 && self.msg.as_str().get_char(n - 1) == '\n' {
            self.msg.clone()
        } else {
            proof {
                reveal_strlit("\n");
            }
            self.msg.clone().concat("\n")
        }
    }
}

} // verus!
