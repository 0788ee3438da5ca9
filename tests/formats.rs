use mcnotify::models::{Player, Players};
use mcnotify::status_checker::{FormatError, Status, StatusDifference, StatusFormats};

fn setup_format() -> StatusFormats {
    StatusFormats {
        recover_msg: "recovered".to_owned(),
        down_msg: "down".to_owned(),
        join_fmt: "{players}".to_owned(),
        leave_fmt: "{players}".to_owned(),
        players_fmt: "{players} {count}".to_owned(),
        time_fmt: "[]".to_owned(),
    }
}

#[test]
fn status_format_player_change() {
    let format = setup_format();

    let recover = StatusDifference::PlayerChange {
        online_count: 3,
        current_players: Players::from(vec![
            Player::new("idA", "A"),
            Player::new("idB", "B"),
            Player::new("idC", "C"),
        ]),
        joined_players: Players::from(vec![Player::new("idA", "A"), Player::new("idB", "B")]),
        left_players: Players::from(vec![Player::new("idD", "D")]),
    };

    assert_eq!(&format.format(&recover).unwrap().unwrap(), "[]\nA, B\nD\nA, B, C 3");
}

#[test]
fn status_format_recover() {
    let format = setup_format();

    let message = StatusDifference::Recover {
        online_count: 3,
        current_players: Players::from(vec![
            Player::new("idA", "A"),
            Player::new("idB", "B"),
            Player::new("idC", "C"),
        ]),
    };

    assert_eq!(&format.format(&message).unwrap().unwrap(), "[]\nrecovered\nA, B, C 3");
}

#[test]
fn status_format_down() {
    let format = setup_format();

    let message = StatusDifference::Down { reason: String::from("hoge") };
    assert_eq!(&format.format(&message).unwrap().unwrap(), "[]\ndown");
}

#[test]
fn no_change_is_not_rendered() {
    let format = setup_format();
    let message = StatusDifference::NoChange { latest_status: Status::Unavailable { reason: "x".to_owned() } };
    assert_eq!(format.format(&message), Ok(None));
}

#[test]
fn format_at_uses_given_time_and_skips_empty_lists() {
    let mut format = setup_format();
    format.join_fmt = "joined: {players}".to_owned();
    format.leave_fmt = "left: {players}".to_owned();
    let change = StatusDifference::PlayerChange {
        online_count: 12,
        current_players: Players::from(vec![Player::new("idA", "A")]),
        joined_players: Players::from(vec![Player::new("idA", "A")]),
        left_players: Players::from(vec![]),
    };
    assert_eq!(format.format_at(&change, "12:00").unwrap().unwrap(), "12:00\njoined: A\nA 12");
    format.time_fmt = String::new();
    assert_eq!(format.format(&change).unwrap().unwrap(), "joined: A\nA 12");
}

#[test]
fn bad_template_is_a_format_error() {
    let mut format = setup_format();
    format.players_fmt = "{unknown}".to_owned();
    let message = StatusDifference::Recover { online_count: 1, current_players: Players::from(vec![]) };
    match format.format(&message) {
        Err(FormatError::FormatError(text)) => assert!(text.contains("unknown")),
        other => panic!("expected a format error, got {:?}", other),
    }
}

#[test]
fn time_line_shows_the_current_year() {
    let mut format = setup_format();
    format.time_fmt = "%Y".to_owned();
    let message = StatusDifference::Down { reason: String::from("x") };
    let text = format.format(&message).unwrap().unwrap();
    let (year, rest) = text.split_once('\n').unwrap();
    assert_eq!(year.len(), 4);
    assert!(year.chars().all(|c| c.is_ascii_digit()));
    assert_eq!(rest, "down");
}

#[test]
fn invalid_time_template_is_a_format_error() {
    let mut format = setup_format();
    format.time_fmt = "%Q".to_owned();
    let message = StatusDifference::Down { reason: String::from("x") };
    assert_eq!(
        format.format(&message),
        Err(FormatError::FormatError("invalid time format".to_owned()))
    );
}
