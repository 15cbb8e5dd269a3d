use buechsentelefon::commands::{
    add_or_update_user, try_update_password, update_password, update_room_password,
};
use buechsentelefon::config::UserRole;
use buechsentelefon::error::ConfigError;
use buechsentelefon::password::verify_hash;

const BASE: &str = "[server]\nhost = \"0.0.0.0\"\n\n[[rooms]]\nname = \"A\"\n\n[[rooms]]\nname = \"B\"\n\n[security]\nserver_password_hash = \"\"\nsession_secret = \"s\"\n";

fn table(text: &str) -> toml::Table {
    text.parse().unwrap()
}

fn users(text: &str) -> Vec<toml::Table> {
    table(text)["users"]
        .as_array()
        .unwrap()
        .iter()
        .map(|u| u.as_table().unwrap().clone())
        .collect()
}

#[test]
fn add_user_creates_the_users_array() {
    let out = add_or_update_user(BASE, "alice", "pw", &UserRole::Admin).unwrap();
    let us = users(&out);
    assert_eq!(us.len(), 1);
    assert_eq!(us[0]["username"].as_str(), Some("alice"));
    assert_eq!(us[0]["role"].as_str(), Some("admin"));
    assert!(verify_hash(us[0]["password_hash"].as_str().unwrap(), "pw"));
    // comments and other sections survive
    assert!(out.contains("name = \"B\""));
}

#[test]
fn add_user_appends_and_updates() {
    let one = add_or_update_user(BASE, "alice", "pw", &UserRole::Admin).unwrap();
    let two = add_or_update_user(&one, "bob", "bobpw", &UserRole::Guest).unwrap();
    let three = add_or_update_user(&two, "alice", "new", &UserRole::Standard).unwrap();
    let us = users(&three);
    assert_eq!(us.len(), 2);
    assert_eq!(us[0]["username"].as_str(), Some("alice"));
    assert_eq!(us[0]["role"].as_str(), Some("standard"));
    assert!(verify_hash(us[0]["password_hash"].as_str().unwrap(), "new"));
    assert!(!verify_hash(us[0]["password_hash"].as_str().unwrap(), "pw"));
    assert_eq!(us[1]["username"].as_str(), Some("bob"));
    assert_eq!(us[1]["role"].as_str(), Some("guest"));
}

#[test]
fn add_user_rejects_users_that_are_not_an_array_of_tables() {
    let r = add_or_update_user("users = \"nobody\"\n", "alice", "pw", &UserRole::Admin);
    match r {
        Err(e) => {
            assert!(matches!(e, ConfigError::UsersNotArrayOfTables));
            assert_eq!(e.message(), "'users' must be an array of tables ([[users]])");
        }
        Ok(_) => panic!("expected an error"),
    }
}

#[test]
fn invalid_toml_is_reported() {
    assert!(matches!(
        update_room_password("[[rooms", "A", "pw"),
        Err(ConfigError::InvalidToml(_))
    ));
    assert!(matches!(
        add_or_update_user("= x", "a", "b", &UserRole::Guest),
        Err(ConfigError::InvalidToml(_))
    ));
    assert!(matches!(
        update_password("[oops", "pw"),
        Err(ConfigError::InvalidToml(_))
    ));
}

#[test]
fn room_password_errors_name_the_room() {
    match update_room_password(BASE, "Zimmer", "pw") {
        Err(e) => {
            assert!(matches!(e, ConfigError::RoomNotFound(ref n) if n == "Zimmer"));
            assert_eq!(e.message(), "Room 'Zimmer' not found in config");
        }
        Ok(_) => panic!("expected an error"),
    }
    match update_room_password("[server]\nport = 1\n", "A", "pw") {
        Err(e) => assert!(matches!(e, ConfigError::RoomsNotArrayOfTables)),
        Ok(_) => panic!("expected an error"),
    }
}

#[test]
fn room_password_changes_only_the_first_matching_room() {
    let out = update_room_password(BASE, "B", "pw").unwrap();
    let rooms = table(&out)["rooms"].as_array().unwrap().clone();
    assert!(rooms[0].as_table().unwrap().get("password_hash").is_none());
    let h = rooms[1].as_table().unwrap()["password_hash"].as_str().unwrap().to_string();
    assert!(verify_hash(&h, "pw"));
}

#[test]
fn server_password_goes_into_security() {
    let out = update_password(BASE, "secret").unwrap();
    let t = table(&out);
    let h = t["security"]["server_password_hash"].as_str().unwrap();
    assert!(verify_hash(h, "secret"));
    assert_eq!(t["security"]["session_secret"].as_str(), Some("s"));
}

#[test]
fn server_password_creates_security_when_missing() {
    let out = update_password("[server]\nport = 1\n", "secret").unwrap();
    let t = table(&out);
    let h = t["security"]["server_password_hash"].as_str().unwrap();
    assert!(verify_hash(h, "secret"));
}

#[test]
fn server_password_refused_where_security_is_a_plain_value() {
    assert!(try_update_password("security = 3\n", "pw").is_none());
    assert!(matches!(
        try_update_password("[x", "pw"),
        Some(Err(ConfigError::InvalidToml(_)))
    ));
    assert!(matches!(try_update_password(BASE, "pw"), Some(Ok(_))));
}

#[test]
fn invalid_toml_reports_the_parser_message() {
    let expected = "[oops".parse::<toml_edit::DocumentMut>().unwrap_err().to_string();
    match update_password("[oops", "pw") {
        Err(e) => assert_eq!(e.message(), expected),
        Ok(_) => panic!("invalid TOML accepted"),
    }
}
