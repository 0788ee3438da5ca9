use mcnotify::notifier::message_format::{Error as FormatError, Message, MessageFormat};
use mcnotify::notifier::message_formatter::{Error as FormatterError, MessageFormatter};

fn setup_message_format() -> MessageFormat {
    MessageFormat {
        recover_msg: "recovered".to_owned(),
        down_msg: "down".to_owned(),
        join_fmt: "{players}".to_owned(),
        leave_fmt: "{players}".to_owned(),
        players_fmt: "{players} {count}".to_owned(),
        time_fmt: "[]".to_owned(),
    }
}

fn setup_formatter() -> MessageFormatter {
    MessageFormatter {
        recover_msg: "recovered".to_owned(),
        down_msg: "down".to_owned(),
        join_fmt: "{players}".to_owned(),
        leave_fmt: "{players}".to_owned(),
        players_fmt: "{players} {count}".to_owned(),
        time_fmt: "[]".to_owned(),
    }
}

#[test]
fn message_format_player_change() {
    let format = setup_message_format();

    let recover = Message::PlayerChange {
        online_count: 3,
        current_players: &vec!["A".to_owned(), "B".to_owned(), "C".to_owned()],
        joined_players: &vec!["A".to_owned(), "B".to_owned()],
        left_players: &vec!["D".to_owned()],
    };

    assert_eq!(format.format(&recover).unwrap().as_str(), "[]\nA, B\nD\nA, B, C 3");
}

#[test]
fn message_format_recover() {
    let format = setup_message_format();

    let message = Message::Recover {
        online_count: 3,
        current_players: &vec!["A".to_owned(), "B".to_owned(), "C".to_owned()],
    };

    assert_eq!(format.format(&message).unwrap().as_str(), "[]\nrecovered\nA, B, C 3");
}

#[test]
fn message_format_down() {
    let format = setup_message_format();

    let message = Message::Down;
    assert_eq!(format.format(&message).unwrap().as_str(), "[]\ndown");
}

#[test]
fn message_formatter_player_change() {
    let formatter = setup_formatter();

    let recover = Message::PlayerChange {
        online_count: 3,
        current_players: &vec!["A".to_owned(), "B".to_owned(), "C".to_owned()],
        joined_players: &vec!["A".to_owned(), "B".to_owned()],
        left_players: &vec!["D".to_owned()],
    };

    assert_eq!(formatter.format(&recover).unwrap().as_str(), "[]\nA, B\nD\nA, B, C 3");
}

#[test]
fn message_formatter_recover() {
    let formatter = setup_formatter();

    let message = Message::Recover {
        online_count: 3,
        current_players: &vec!["A".to_owned(), "B".to_owned(), "C".to_owned()],
    };

    assert_eq!(formatter.format(&message).unwrap().as_str(), "[]\nrecovered\nA, B, C 3");
}

#[test]
fn message_formatter_down() {
    let formatter = setup_formatter();

    let message = Message::Down;
    assert_eq!(formatter.format(&message).unwrap().as_str(), "[]\ndown");
}

#[test]
fn message_lists_keep_given_order() {
    let format = setup_message_format();
    let message = Message::PlayerChange {
        online_count: 2,
        current_players: &vec!["z".to_owned(), "a".to_owned()],
        joined_players: &vec![],
        left_players: &vec!["q".to_owned()],
    };
    assert_eq!(format.format_at(&message, "t").unwrap(), "t\nq\nz, a 2");
}

#[test]
fn formatter_reports_template_errors() {
    let mut formatter = setup_formatter();
    formatter.players_fmt = "{players".to_owned();
    formatter.time_fmt = String::new();
    let message = Message::Recover { online_count: 1, current_players: &vec!["A".to_owned()] };
    assert!(matches!(formatter.format(&message), Err(FormatterError::MessageFormatError(_))));
    assert!(matches!(formatter.format_at(&message, "ignored"), Err(FormatterError::MessageFormatError(_))));
}

#[test]
fn format_reports_template_errors() {
    let mut format = setup_message_format();
    format.leave_fmt = "{who}".to_owned();
    let message = Message::PlayerChange {
        online_count: 0,
        current_players: &vec![],
        joined_players: &vec![],
        left_players: &vec!["A".to_owned()],
    };
    assert!(matches!(format.format_at(&message, "t"), Err(FormatError::FormatError(_))));
}
