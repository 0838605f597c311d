use choice_panel::choice::Choice;
use choice_panel::message::Msg;
use choice_panel::panel::App;
use choice_panel::text::{index_label, same_text};

#[test]
fn create_edit_reset_scenario() {
    let mut app = App::create();
    assert_eq!(app.selected(), Choice::Foo);
    assert!(app.history().is_empty());

    assert!(app.update(Msg::Edit(Choice::Bar)));
    assert_eq!(app.selected(), Choice::Bar);
    assert_eq!(app.history(), &vec!["   0: Edit(Bar)\n".to_string()]);
    assert_eq!(app.history()[0].trim_start(), "0: Edit(Bar)\n");

    assert!(app.update(Msg::Reset));
    assert_eq!(app.selected(), Choice::Foo);
    assert_eq!(
        app.history(),
        &vec!["   0: Edit(Bar)\n".to_string(), "   1: Reset\n".to_string()]
    );

    let log = app.view().log;
    let newest = log.find("1: Reset").unwrap();
    let oldest = log.find("0: Edit(Bar)").unwrap();
    assert!(newest < oldest);
    assert_eq!(log, "Messages:\n   1: Reset\n   0: Edit(Bar)\n");
}

#[test]
fn history_length_counts_messages_in_order() {
    let msgs = [
        Msg::Edit(Choice::Baz),
        Msg::Reset,
        Msg::Edit(Choice::Foo),
        Msg::Edit(Choice::Bar),
        Msg::Reset,
    ];
    let mut app = App::create();
    for (n, m) in msgs.iter().enumerate() {
        app.update(*m);
        assert_eq!(app.history().len(), n + 1);
    }
    for (i, m) in msgs.iter().enumerate() {
        assert_eq!(app.history()[i], m.log_entry(i));
        assert!(app.history()[i].starts_with(&format!("{:>4}: ", i)));
    }
    assert_eq!(app.history()[1], "   1: Reset\n");
    assert_eq!(app.history()[2], "   2: Edit(Foo)\n");
}

#[test]
fn reset_at_default_keeps_choice_and_logs() {
    let mut app = App::create();
    app.update(Msg::Reset);
    assert_eq!(app.selected(), Choice::Foo);
    assert_eq!(app.history(), &vec!["   0: Reset\n".to_string()]);
    app.update(Msg::Reset);
    assert_eq!(app.selected(), Choice::Foo);
    assert_eq!(app.history().len(), 2);
}

#[test]
fn edit_sets_exact_choice() {
    let mut app = App::create();
    app.update(Msg::Edit(Choice::Baz));
    assert_eq!(app.selected(), Choice::Baz);
    app.update(Msg::Edit(Choice::Baz));
    assert_eq!(app.selected(), Choice::Baz);
    assert_eq!(app.history()[1], "   1: Edit(Baz)\n");
}

#[test]
fn log_shows_latest_entry_first() {
    let mut app = App::create();
    assert_eq!(app.log_text(), "Messages:\n");
    app.update(Msg::Edit(Choice::Baz));
    app.update(Msg::Edit(Choice::Bar));
    app.update(Msg::Reset);
    assert_eq!(
        app.log_text(),
        "Messages:\n   2: Reset\n   1: Edit(Bar)\n   0: Edit(Baz)\n"
    );
}

#[test]
fn view_lists_options_and_status() {
    let mut app = App::create();
    app.update(Msg::Edit(Choice::Bar));
    let view = app.view();
    assert_eq!(view.status, "Selected: Bar");
    let labels: Vec<&str> = view.options.iter().map(|o| o.label.as_str()).collect();
    assert_eq!(labels, vec!["Foo", "Bar", "Baz"]);
    let values: Vec<&str> = view.options.iter().map(|o| o.value.as_str()).collect();
    assert_eq!(values, vec!["Foo", "Bar", "Baz"]);
    let marks: Vec<bool> = view.options.iter().map(|o| o.selected).collect();
    assert_eq!(marks, vec![false, true, false]);
    for o in &view.options {
        assert_eq!(Choice::parse(&o.value).map(|c| c.name()), Ok(o.label.as_str()));
    }
}

#[test]
fn fresh_view_marks_default() {
    let view = App::create().view();
    assert_eq!(view.status, "Selected: Foo");
    assert!(view.options[0].selected);
    assert_eq!(view.log, "Messages:\n");
}

#[test]
fn message_descriptions() {
    assert_eq!(Msg::Reset.describe(), "Reset");
    assert_eq!(Msg::Edit(Choice::Foo).describe(), "Edit(Foo)");
    assert_eq!(Msg::Edit(Choice::Baz).log_entry(7), "   7: Edit(Baz)\n");
}

#[test]
fn index_label_pads_to_four() {
    assert_eq!(index_label(0), "   0");
    assert_eq!(index_label(42), "  42");
    assert_eq!(index_label(999), " 999");
    assert_eq!(index_label(1000), "1000");
    assert_eq!(index_label(123456), "123456");
    assert_eq!(index_label(usize::MAX), usize::MAX.to_string());
    for n in [1usize, 9, 10, 11, 99, 100, 101, 9999, 10000] {
        assert_eq!(index_label(n), format!("{:>4}", n));
    }
}

#[test]
fn same_text_compares_characters() {
    assert!(same_text("Foo", "Foo"));
    assert!(same_text("", ""));
    assert!(!same_text("Foo", "foo"));
    assert!(!same_text("Foo", "Fo"));
    assert!(same_text("é", "é"));
}

