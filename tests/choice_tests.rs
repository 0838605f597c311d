use std::str::FromStr;

use choice_panel::choice::{Choice, ParseError};

#[test]
fn all_lists_choices_in_declared_order() {
    assert_eq!(Choice::all(), vec![Choice::Foo, Choice::Bar, Choice::Baz]);
    assert_eq!(Choice::all(), Choice::all());
}

#[test]
fn display_strings_are_the_variant_names() {
    assert_eq!(Choice::Foo.to_display_string(), "Foo");
    assert_eq!(Choice::Bar.to_display_string(), "Bar");
    assert_eq!(Choice::Baz.name(), "Baz");
}

#[test]
fn parse_round_trips_every_choice() {
    for c in Choice::all() {
        assert_eq!(Choice::parse(&c.to_display_string()), Ok(c));
    }
}

#[test]
fn parse_baz_and_reject_qux() {
    assert_eq!(Choice::parse("Baz"), Ok(Choice::Baz));
    assert_eq!(
        Choice::parse("qux"),
        Err(ParseError { value: "qux".to_string() })
    );
}

#[test]
fn parse_rejects_near_misses() {
    for s in ["Qux", "", "foo", "FOO", " Foo", "Foo ", "Fo", "Fooo", "Ba"] {
        assert_eq!(Choice::parse(s), Err(ParseError { value: s.to_string() }));
    }
}

#[test]
fn parse_error_message_names_the_value() {
    let e = Choice::parse("qux").unwrap_err();
    assert_eq!(e.message(), "invalid choice: `qux`");
}

#[test]
fn from_str_agrees_with_parse() {
    assert_eq!(Choice::from_str("Bar"), Ok(Choice::Bar));
    assert_eq!("Baz".parse::<Choice>(), Ok(Choice::Baz));
    assert!("bar".parse::<Choice>().is_err());
}

#[test]
fn default_choice_is_foo() {
    assert_eq!(Choice::default(), Choice::Foo);
}
