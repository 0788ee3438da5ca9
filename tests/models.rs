use mcnotify::minecraft::json_data;
use mcnotify::models::{Player, Players};

#[test]
fn test_players_format() {
    let players = Players::from(vec![
        Player::new("idA", "A"),
        Player::new("idB", "B"),
        Player::new("idC", "C"),
    ]);
    assert_eq!(players.to_string(), "A, B, C");
}

#[test]
fn test_players_sub() {
    let players_lhs = Players::from(vec![
        Player::new("idA", "A"),
        Player::new("idB", "B"),
        Player::new("idC", "C"),
    ]);
    let players_rhs = Players::from(vec![Player::new("idC", "C")]);

    let actual = &players_lhs - &players_rhs;
    let expected = Players::from(vec![Player::new("idA", "A"), Player::new("idB", "B")]);

    assert_eq!(actual, expected);
}

#[test]
fn players_text_is_sorted_by_name() {
    let players = Players::from(vec![
        Player::new("3", "carol"),
        Player::new("1", "Bob"),
        Player::new("2", "alice"),
    ]);
    assert_eq!(players.to_string(), "Bob, alice, carol");
    assert_eq!(Players::from(vec![]).to_string(), "");
    assert_eq!(Players::from(vec![Player::new("x", "solo")]).to_string(), "solo");
}

#[test]
fn first_player_of_an_identity_is_kept() {
    let players = Players::from(vec![Player::new("id", "first"), Player::new("id", "second")]);
    assert_eq!(players.to_string(), "first");
}

#[test]
fn difference_goes_by_identity_only() {
    let before = Players::from(vec![Player::new("idA", "Alice"), Player::new("idB", "B")]);
    let after = Players::from(vec![Player::new("idA", "Alice (renamed)"), Player::new("idC", "C")]);
    let joined = after.difference(&before);
    let left = &before - &after;
    assert_eq!(joined.to_string(), "C");
    assert_eq!(left.to_string(), "B");
    assert!(after.difference(&after).is_empty());
    assert!(!joined.is_empty());
}

#[test]
fn players_equality_ignores_order_but_not_names() {
    let a = Players::from(vec![Player::new("1", "x"), Player::new("2", "y")]);
    let b = Players::from(vec![Player::new("2", "y"), Player::new("1", "x")]);
    let c = Players::from(vec![Player::new("2", "y"), Player::new("1", "z")]);
    let d = Players::from(vec![Player::new("1", "x")]);
    assert_eq!(a, b);
    assert_ne!(a, c);
    assert_ne!(a, d);
    assert_ne!(d, a);
    assert_eq!(a.copy(), a);
}

#[test]
fn player_equality_is_by_identity() {
    assert_eq!(Player::new("id", "one"), Player::new("id", "two"));
    assert_ne!(Player::new("id1", "same"), Player::new("id2", "same"));
    let p = Player::new("idZ", "Zed");
    assert_eq!(p.id(), "idZ");
    assert_eq!(p.name(), "Zed");
}

#[test]
fn players_from_status_sample() {
    let sample = vec![
        json_data::Player { name: "B".to_owned(), id: "idB".to_owned() },
        json_data::Player { name: "A".to_owned(), id: "idA".to_owned() },
    ];
    let players = Players::from_sample(&sample);
    assert_eq!(players, Players::from(vec![Player::new("idA", "A"), Player::new("idB", "B")]));
    assert_eq!(Player::from_sample(sample[0].clone()), Player::new("idB", "B"));
}
