//! The messages a panel processes, and the log entry each one leaves.

use vstd::prelude::*;
use vstd::string::*;
use crate::choice::{Choice, choice_name, default_choice};
use crate::text::{decimal, index_label, right_aligned};

verus! {

/// What the user asked for.
#[derive(Debug, Clone, Copy, PartialEq, Eq, Structural)]
pub enum Msg {
    /// Go back to the default choice.
    Reset,
    /// Select the given choice.
    Edit(Choice),
}

/// The textual form of a message: its tag, then its payload in parentheses.
pub open spec fn message_text(m: Msg) -> Seq<char> {
    match m {
        Msg::Reset => seq!['R', 'e', 's', 'e', 't'],
        Msg::Edit(c) => seq!['E', 'd', 'i', 't', '('] + choice_name(c) + seq![')'],
    }
}

/// The log entry of the message processed at position `index`: the index
/// right-aligned in four characters, a colon and a space, the message, a line break.
pub open spec fn entry_text(index: nat, m: Msg) -> Seq<char> {
    right_aligned(decimal(index), 4) + seq![':', ' '] + message_text(m) + seq!['\n']
}

/// The selection a message leaves, whatever the selection was before.
pub open spec fn selection_after(m: Msg) -> Choice {
    match m {
        Msg::Reset => default_choice(),
        Msg::Edit(c) => c,
    }
}

impl Msg {
    /// The textual form of this message.
    pub fn describe(&self) -> (r: String)
        ensures
            r@ == message_text(*self),
    {
        match self {
            Msg::Reset => {
                proof {
                    reveal_strlit("Reset");
                }
                "Reset".to_owned()
            },
            Msg::Edit(c) => {
                let mut r = "Edit(".to_owned();
                r.append(c.name());
                r.append(")");
                proof {
                    reveal_strlit("Edit(");
                    reveal_strlit(")");
                    assert(r@ =~= message_text(*self));
                }
                r
            },
        }
    }

    /// The log entry this message leaves when it is processed at position `index`.
    pub fn log_entry(&self, index: usize) -> (r: String)
        ensures
            r@ == entry_text(index as nat, *self),
    {
        let mut r = index_label(index);
        r.append(": ");
        let text = self.describe();
        r.append(text.as_str());
        r.append("\n");
        proof {
            reveal_strlit(": ");
            reveal_strlit("\n");
            assert(r@ =~= entry_text(index as nat, *self));
        }
        r
    }
}

} // verus!
