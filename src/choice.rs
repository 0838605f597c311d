//! The closed set of choices and their canonical strings.

use vstd::prelude::*;
use crate::text::same_text;

verus! {

/// One of the three values the selector offers.
#[derive(Debug, Clone, Copy, PartialEq, Eq, Structural)]
pub enum Choice {
    Foo,
    Bar,
    Baz,
}

/// The choice a fresh panel starts with, and the one a reset returns to.
pub open spec fn default_choice() -> Choice {
    Choice::Foo
}

/// The choices in their declared order.
pub open spec fn all_choices() -> Seq<Choice> {
    seq![Choice::Foo, Choice::Bar, Choice::Baz]
}

/// The canonical string of a choice: its label, and the value a selection reports.
pub open spec fn choice_name(c: Choice) -> Seq<char> {
    match c {
        Choice::Foo => seq!['F', 'o', 'o'],
        Choice::Bar => seq!['B', 'a', 'r'],
        Choice::Baz => seq!['B', 'a', 'z'],
    }
}

/// The choice whose canonical string is exactly `s`, if there is one.
pub open spec fn choice_named(s: Seq<char>) -> Option<Choice> {
    if s == choice_name(Choice::Foo) {
        Some(Choice::Foo)
    } else if s == choice_name(Choice::Bar) {
        Some(Choice::Bar)
    } else if s == choice_name(Choice::Baz) {
        Some(Choice::Baz)
    } else {
        None
    }
}

/// A string that names no choice.
#[derive(Debug, Clone, PartialEq, Eq)]
pub struct ParseError {
    /// The string that was offered.
    pub value: String,
}

impl ParseError {
    /// A sentence that names the rejected string.
    pub fn message(&self) -> (r: String)
        ensures
            r@ == seq!['i', 'n', 'v', 'a', 'l', 'i', 'd', ' ', 'c', 'h', 'o', 'i', 'c', 'e', ':', ' ', '`']
                + self.value@ + seq!['`'],
    {
        let mut r = "invalid choice: `".to_owned();
        r.append(self.value.as_str());
        r.append("`");
        proof {
            reveal_strlit("invalid choice: `");
            reveal_strlit("`");
            assert(r@ =~= seq!['i', 'n', 'v', 'a', 'l', 'i', 'd', ' ', 'c', 'h', 'o', 'i', 'c', 'e', ':', ' ', '`']
                + self.value@ + seq!['`']);
        }
        r
    }
}

impl Choice {
    /// Every choice, in declared order: Foo, Bar, Baz.
    pub fn all() -> (r: Vec<Choice>)
        ensures
            r@ == all_choices(),
    {
        let mut r: Vec<Choice> = Vec::new();
        r.push(Choice::Foo);
        r.push(Choice::Bar);
        r.push(Choice::Baz);
        proof {
            assert(r@ =~= all_choices());
        }
        r
    }

    /// The canonical string of this choice.
    pub fn name(&self) -> (r: &'static str)
        ensures
            r@ == choice_name(*self),
    {
        match self {
            Choice::Foo => {
                proof {
                    reveal_strlit("Foo");
                }
                "Foo"
            },
            Choice::Bar => {
                proof {
                    reveal_strlit("Bar");
                }
                "Bar"
            },
            Choice::Baz => {
                proof {
                    reveal_strlit("Baz");
                }
                "Baz"
            },
        }
    }

    /// The canonical string of this choice, owned.
    pub fn to_display_string(&self) -> (r: String)
        ensures
            r@ == choice_name(*self),
    {
        self.name().to_owned()
    }

    /// The choice whose canonical string is exactly `s`; any other string,
    /// whatever its case or spacing, is refused with that string.
    pub fn parse(s: &str) -> (r: Result<Choice, ParseError>)
        ensures
            match r {
                Ok(c) => choice_named(s@) == Some(c),
                Err(e) => choice_named(s@) is None && e.value@ == s@,
            },
    {
        let all = Choice::all();
        let mut i: usize = 0;
        while i < all.len()
            invariant
                all@ == all_choices(),
                i <= 3,
                forall|j: int| 0 <= j < i ==> choice_name(#[trigger] all_choices()[j]) != s@,
            decreases 3 - i,
        {
            let c = all[i];
            if same_text(c.name(), s) {
                return Ok(c);
            }
            i += 1;
        }
        proof {
            assert(choice_name(all_choices()[0]) != s@);
            assert(choice_name(all_choices()[1]) != s@);
            assert(choice_name(all_choices()[2]) != s@);
        }
        Err(ParseError { value: s.to_owned() })
    }
}

impl Default for Choice {
    fn default() -> (r: Choice)
        ensures
            r == default_choice(),
    {
        Choice::Foo
    }
}

impl std::str::FromStr for Choice {
    type Err = ParseError;

    fn from_str(s: &str) -> Result<Choice, ParseError> {
        Choice::parse(s)
    }
}

/// Parsing the canonical string of any choice gives that choice back.
pub proof fn lemma_parse_round_trip(c: Choice)
    ensures
        choice_named(choice_name(c)) == Some(c),
{
    assert(choice_name(Choice::Foo)[0] != choice_name(Choice::Bar)[0]);
    assert(choice_name(Choice::Foo)[0] != choice_name(Choice::Baz)[0]);
    assert(choice_name(Choice::Bar)[2] != choice_name(Choice::Baz)[2]);
}

/// Parsing fails exactly on the strings that are none of the canonical strings.
pub proof fn lemma_parse_rejects_others(s: Seq<char>)
    ensures
        choice_named(s) is None <==> forall|c: Choice| choice_name(c) != s,
{
    if choice_named(s) is None {
        assert forall|c: Choice| choice_name(c) != s by {
            match c {
                Choice::Foo => {},
                Choice::Bar => {},
                Choice::Baz => {},
            }
        }
    } else {
        let c = choice_named(s).unwrap();
        assert(choice_name(c) == s);
    }
}

} // verus!
