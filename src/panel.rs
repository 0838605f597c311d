//! The panel's state, how a message changes it, and what the panel shows.

use vstd::prelude::*;
use vstd::string::*;
use crate::choice::{Choice, all_choices, choice_name, default_choice};
use crate::message::{Msg, entry_text, selection_after};

verus! {

/// The log after one more message: its entry, numbered by its position, at the end.
pub open spec fn next_log(log: Seq<Seq<char>>, m: Msg) -> Seq<Seq<char>> {
    log.push(entry_text(log.len(), m))
}

/// The log a panel holds after processing `msgs` in order, from a fresh start.
pub open spec fn history_after(msgs: Seq<Msg>) -> Seq<Seq<char>>
    decreases msgs.len(),
{
    if msgs.len() == 0 {
        seq![]
    } else {
        next_log(history_after(msgs.drop_last()), msgs.last())
    }
}

/// The log entries of `h` joined most recent first.
pub open spec fn newest_first(h: Seq<Seq<char>>) -> Seq<char>
    decreases h.len(),
{
    if h.len() == 0 {
        seq![]
    } else {
        newest_first(h.drop_first()) + h[0]
    }
}

/// The header above the log.
pub open spec fn log_header() -> Seq<char> {
    seq!['M', 'e', 's', 's', 'a', 'g', 'e', 's', ':', '\n']
}

/// The status line for a selection.
pub open spec fn status_text(c: Choice) -> Seq<char> {
    seq!['S', 'e', 'l', 'e', 'c', 't', 'e', 'd', ':', ' '] + choice_name(c)
}

/// The characters of each string in `v`.
pub open spec fn texts(v: Seq<String>) -> Seq<Seq<char>> {
    v.map_values(|s: String| s@)
}

/// The selector panel: the current choice and the log of every message processed.
pub struct App {
    selected: Choice,
    history: Vec<String>,
}

/// One entry of the selector.
pub struct OptionView {
    /// The text shown.
    pub label: String,
    /// The value the entry reports when it is picked.
    pub value: String,
    /// Whether the entry is the current choice.
    pub selected: bool,
}

/// Everything the panel shows for one state.
pub struct PanelView {
    /// "Selected: " and the current choice.
    pub status: String,
    /// One entry per choice, in declared order.
    pub options: Vec<OptionView>,
    /// The log header, then every log entry, most recent first.
    pub log: String,
}

impl App {
    /// The current choice.
    pub closed spec fn selection(&self) -> Choice {
        self.selected
    }

    /// The log, oldest entry first.
    pub closed spec fn log(&self) -> Seq<Seq<char>> {
        texts(self.history@)
    }

    /// A fresh panel: the default choice and an empty log.
    pub fn create() -> (r: App)
        ensures
            r.selection() == default_choice(),
            r.log() == Seq::<Seq<char>>::empty(),
    {
        let r = App { selected: Choice::Foo, history: Vec::new() };
        proof {
            assert(r.log() =~= Seq::<Seq<char>>::empty());
        }
        r
    }

    /// Processes one message: records it at the end of the log and sets the
    /// choice it asks for. The panel is always to be drawn again afterwards.
    pub fn update(&mut self, msg: Msg) -> (r: bool)
        ensures
            r,
            final(self).selection() == selection_after(msg),
            final(self).log() == next_log(old(self).log(), msg),
    {
        let entry = msg.log_entry(self.history.len());
        self.history.push(entry);
        match msg {
            Msg::Edit(choice) => self.selected = choice,
            Msg::Reset => self.selected = Choice::Foo,
        }
        proof {
            assert(self.log() =~= old(self).log().push(entry_text(old(self).log().len(), msg)));
        }
        true
    }

    /// The current choice.
    pub fn selected(&self) -> (r: Choice)
        ensures
            r == self.selection(),
    {
        self.selected
    }

    /// The log, oldest entry first.
    pub fn history(&self) -> (r: &Vec<String>)
        ensures
            texts(r@) == self.log(),
    {
        &self.history
    }

    /// The log header, then every log entry, most recent first.
    pub fn log_text(&self) -> (r: String)
        ensures
            r@ == log_header() + newest_first(self.log()),
    {
        let mut r = "Messages:\n".to_owned();
        proof {
            reveal_strlit("Messages:\n");
            assert(r@ =~= log_header() + newest_first(self.log().subrange(self.log().len() as int, self.log().len() as int)));
        }
        let n = self.history.len();
        let mut i: usize = n;
        while i > 0
            invariant
                n == self.history@.len(),
                i <= n,
                r@ == log_header() + newest_first(self.log().subrange(i as int, n as int)),
            decreases i,
        {
            let ghost before = r@;
            r.append(self.history[i - 1].as_str());
            proof {
                let h = self.log();
                assert(h.subrange(i - 1, n as int).drop_first() =~= h.subrange(i as int, n as int));
                assert(h[i - 1] == self.history@[i - 1]@);
                assert(r@ =~= log_header() + newest_first(h.subrange(i - 1, n as int)));
            }
            i -= 1;
        }
        proof {
            assert(self.log().subrange(0, n as int) =~= self.log());
        }
        r
    }

    /// What the panel shows: the status line, one selector entry per choice
    /// with the current one marked, and the log most recent first.
    pub fn view(&self) -> (r: PanelView)
        ensures
            r.status@ == status_text(self.selection()),
            r.options@.len() == all_choices().len(),
            forall|i: int|
                0 <= i < all_choices().len() ==> {
                    &&& (#[trigger] r.options@[i]).label@ == choice_name(all_choices()[i])
                    &&& r.options@[i].value@ == choice_name(all_choices()[i])
                    &&& r.options@[i].selected == (all_choices()[i] == self.selection())
                },
            r.log@ == log_header() + newest_first(self.log()),
    {
        let mut status = "Selected: ".to_owned();
        status.append(self.selected.name());
        proof {
            reveal_strlit("Selected: ");
            assert(status@ =~= status_text(self.selection()));
        }
        let all = Choice::all();
        let mut options: Vec<OptionView> = Vec::new();
        let mut i: usize = 0;
        while i < all.len()
            invariant
                all@ == all_choices(),
                i <= all@.len(),
                options@.len() == i,
                forall|j: int|
                    0 <= j < i ==> {
                        &&& (#[trigger] options@[j]).label@ == choice_name(all_choices()[j])
                        &&& options@[j].value@ == choice_name(all_choices()[j])
                        &&& options@[j].selected == (all_choices()[j] == self.selection())
                    },
            decreases all@.len() - i,
        {
            let c = all[i];
            options.push(
                OptionView {
                    label: c.to_display_string(),
                    value: c.to_display_string(),
                    selected: c == self.selected,
                },
            );
            i += 1;
        }
        PanelView { status, options, log: self.log_text() }
    }
}

/// After any sequence of messages from a fresh start, the log holds one entry
/// per message, and entry `i` is the one that message `i` leaves at position `i`.
pub proof fn lemma_history_tracks_messages(msgs: Seq<Msg>)
    ensures
        history_after(msgs).len() == msgs.len(),
        forall|i: int|
            0 <= i < msgs.len() ==> #[trigger] history_after(msgs)[i] == entry_text(
                i as nat,
                msgs[i],
            ),
    decreases msgs.len(),
{
    if msgs.len() > 0 {
        let prefix = msgs.drop_last();
        lemma_history_tracks_messages(prefix);
        assert forall|i: int| 0 <= i < msgs.len() implies #[trigger] history_after(msgs)[i]
            == entry_text(i as nat, msgs[i]) by {
            if i < prefix.len() {
                assert(prefix[i] == msgs[i]);
            }
        }
    }
}

/// A reset on a panel whose choice is already the default keeps that choice
/// and still adds its entry to the end of the log.
pub proof fn lemma_reset_at_default(panel: App)
    requires
        panel.selection() == default_choice(),
    ensures
        selection_after(Msg::Reset) == panel.selection(),
        next_log(panel.log(), Msg::Reset).len() == panel.log().len() + 1,
        next_log(panel.log(), Msg::Reset).last() == entry_text(panel.log().len(), Msg::Reset),
{
}

/// The shown log starts with the entry appended last, followed by the
/// earlier entries as they were shown before.
pub proof fn lemma_latest_entry_first(h: Seq<Seq<char>>, e: Seq<char>)
    ensures
        newest_first(h.push(e)) == e + newest_first(h),
    decreases h.len(),
{
    if h.len() == 0 {
        assert(h.push(e).drop_first() =~= h);
        assert(newest_first(h.push(e)) =~= e + newest_first(h));
    } else {
        let rest = h.drop_first();
        lemma_latest_entry_first(rest, e);
        assert(h.push(e).drop_first() =~= rest.push(e));
        assert(newest_first(h.push(e)) =~= e + newest_first(h));
    }
}

} // verus!
