use buechsentelefon::config::{
    AppConfig, BrandingConfig, LegalConfig, RoomConfig, SecurityConfig, ServerConfig, TlsConfig,
    UserConfig, UserRole, WebRtcConfig,
};
use buechsentelefon::password::hash_password;
use buechsentelefon::rooms::{Member, RoomRegistry};
use buechsentelefon::session::{
    connection_role, frame_within_limit, ClientMessage, Delivery, JoinError, Notice, Session,
    SignalKind,
};

fn config_with_rooms(rooms: Vec<RoomConfig>) -> AppConfig {
    AppConfig {
        server: ServerConfig {
            host: "0.0.0.0".to_string(),
            port: 4433,
            domain: "localhost".to_string(),
            title: None,
        },
        security: SecurityConfig {
            server_password_hash: String::new(),
            session_secret: "s".to_string(),
        },
        tls: TlsConfig { cert_path: None, key_path: None },
        webrtc: WebRtcConfig { stun_servers: vec![] },
        rooms,
        users: vec![],
        branding: BrandingConfig::default(),
        legal: LegalConfig::default(),
    }
}

fn room(name: &str, password: Option<&str>) -> RoomConfig {
    RoomConfig {
        name: name.to_string(),
        banner_path: None,
        password_hash: password.map(|p| hash_password(p).unwrap()),
    }
}

fn join(room: &str, name: &str, password: Option<&str>) -> ClientMessage {
    ClientMessage::Join {
        room: room.to_string(),
        name: name.to_string(),
        password: password.map(|p| p.to_string()),
    }
}

fn members(reg: &RoomRegistry, room: &str) -> Vec<(u128, String)> {
    reg.rooms()
        .iter()
        .find(|r| r.name == room)
        .map(|r| r.members.iter().map(|m| (m.id, m.name.clone())).collect())
        .unwrap_or_default()
}

fn failed(ds: &[Delivery]) -> Option<JoinError> {
    ds.iter().find_map(|d| match &d.notice {
        Notice::Failed(e) => Some(*e),
        _ => None,
    })
}

#[test]
fn join_trims_the_name_and_announces() {
    let config = config_with_rooms(vec![room("Bunker", None)]);
    let mut reg = RoomRegistry::new();
    let mut s = Session::new(7, UserRole::Standard);
    let ds = s.handle(&mut reg, &config, &join("Bunker", "  Ann \t", None));
    assert_eq!(s.room.as_deref(), Some("Bunker"));
    assert_eq!(members(&reg, "Bunker"), vec![(7, "Ann".to_string())]);
    assert_eq!(ds.len(), 2);
    assert!(matches!(ds[0].notice, Notice::StateUpdate));
    assert!(matches!(&ds[1].notice, Notice::YouJoined(r) if r == "Bunker"));
    assert_eq!(ds[1].to, 7);
}

#[test]
fn peers_are_told_who_joined() {
    let config = config_with_rooms(vec![room("Bunker", None)]);
    let mut reg = RoomRegistry::new();
    let mut a = Session::new(1, UserRole::Standard);
    let mut b = Session::new(2, UserRole::Standard);
    a.handle(&mut reg, &config, &join("Bunker", "A", None));
    let ds = b.handle(&mut reg, &config, &join("Bunker", "B", None));
    assert!(ds
        .iter()
        .any(|d| d.to == 1 && matches!(d.notice, Notice::PeerJoined(2))));
    assert!(ds
        .iter()
        .any(|d| d.to == 2 && matches!(&d.notice, Notice::YouJoined(r) if r == "Bunker")));
    assert_eq!(ds.iter().filter(|d| matches!(d.notice, Notice::StateUpdate)).count(), 2);
}

#[test]
fn invalid_names_are_refused() {
    let config = config_with_rooms(vec![room("Bunker", None)]);
    let mut reg = RoomRegistry::new();
    let mut s = Session::new(1, UserRole::Standard);
    for bad in ["   ", "", "abcdefghijklmnopqrstu"] {
        let ds = s.handle(&mut reg, &config, &join("Bunker", bad, None));
        assert_eq!(failed(&ds), Some(JoinError::InvalidUsername));
        assert_eq!(ds.len(), 1);
    }
    // 10 two-byte characters are 20 bytes: accepted; 11 are not
    let ok = s.handle(&mut reg, &config, &join("Bunker", "ääääääääää", None));
    assert_eq!(failed(&ok), None);
    let ds = s.handle(&mut reg, &config, &join("Bunker", "äääääääääää", None));
    assert_eq!(failed(&ds), Some(JoinError::InvalidUsername));
    assert_eq!(
        JoinError::InvalidUsername.message(),
        "Invalid username (1-20 characters)"
    );
}

#[test]
fn unknown_rooms_are_refused_but_the_lobby_is_open() {
    let config = config_with_rooms(vec![room("Bunker", None)]);
    let mut reg = RoomRegistry::new();
    let mut s = Session::new(1, UserRole::Standard);
    let ds = s.handle(&mut reg, &config, &join("Nowhere", "A", None));
    assert_eq!(failed(&ds), Some(JoinError::RoomDoesNotExist));
    assert!(s.room.is_none());
    let ds = s.handle(&mut reg, &config, &join("Lobby", "A", None));
    assert_eq!(failed(&ds), None);
    assert_eq!(s.room.as_deref(), Some("Lobby"));
}

#[test]
fn room_passwords_are_checked() {
    let config = config_with_rooms(vec![room("Vault", Some("sesame"))]);
    let mut reg = RoomRegistry::new();
    let mut s = Session::new(1, UserRole::Standard);
    let ds = s.handle(&mut reg, &config, &join("Vault", "A", None));
    assert_eq!(failed(&ds), Some(JoinError::WrongRoomPassword));
    let ds = s.handle(&mut reg, &config, &join("Vault", "A", Some("nope")));
    assert_eq!(failed(&ds), Some(JoinError::WrongRoomPassword));
    assert!(reg.rooms().is_empty());
    let ds = s.handle(&mut reg, &config, &join("Vault", "A", Some("sesame")));
    assert_eq!(failed(&ds), None);
    assert_eq!(members(&reg, "Vault"), vec![(1, "A".to_string())]);
}

#[test]
fn a_room_holds_at_most_ten() {
    let config = config_with_rooms(vec![room("Bunker", None), room("Other", None)]);
    let mut reg = RoomRegistry::new();
    for id in 0..10u128 {
        let mut s = Session::new(id, UserRole::Standard);
        s.handle(&mut reg, &config, &join("Bunker", "P", None));
    }
    assert_eq!(members(&reg, "Bunker").len(), 10);
    let mut late = Session::new(99, UserRole::Standard);
    late.handle(&mut reg, &config, &join("Other", "L", None));
    let ds = late.handle(&mut reg, &config, &join("Bunker", "L", None));
    assert_eq!(failed(&ds), Some(JoinError::RoomFull));
    assert_eq!(JoinError::RoomFull.message(), "Room is full (Max 10 users)");
    // the refused joiner has left its old room; its room stays as it was
    assert!(members(&reg, "Other").is_empty());
    assert_eq!(late.room.as_deref(), Some("Other"));
    assert_eq!(members(&reg, "Bunker").len(), 10);
    assert!(reg.rooms().iter().all(|r| !r.members.is_empty() && r.members.len() <= 10));
}

#[test]
fn switching_rooms_leaves_the_old_one() {
    let config = config_with_rooms(vec![room("A", None), room("B", None)]);
    let mut reg = RoomRegistry::new();
    let mut s = Session::new(5, UserRole::Standard);
    s.handle(&mut reg, &config, &join("A", "x", None));
    s.handle(&mut reg, &config, &join("B", "x", None));
    assert!(members(&reg, "A").is_empty());
    assert_eq!(reg.rooms().len(), 1);
    assert_eq!(members(&reg, "B"), vec![(5, "x".to_string())]);
}

#[test]
fn leaving_closes_empty_rooms() {
    let config = config_with_rooms(vec![room("A", None)]);
    let mut reg = RoomRegistry::new();
    let mut a = Session::new(1, UserRole::Standard);
    let mut b = Session::new(2, UserRole::Standard);
    a.handle(&mut reg, &config, &join("A", "a", None));
    b.handle(&mut reg, &config, &join("A", "b", None));
    let ds = a.handle(&mut reg, &config, &ClientMessage::Leave);
    assert!(a.room.is_none());
    assert_eq!(members(&reg, "A"), vec![(2, "b".to_string())]);
    assert_eq!(ds.len(), 1);
    assert_eq!(ds[0].to, 2);
    let ds = b.leave(&mut reg);
    assert!(reg.rooms().is_empty());
    assert!(ds.is_empty());
    // leaving again does nothing
    assert!(b.handle(&mut reg, &config, &ClientMessage::Leave).is_empty());
}

#[test]
fn signals_are_relayed_within_the_room_only() {
    let config = config_with_rooms(vec![room("A", None), room("B", None)]);
    let mut reg = RoomRegistry::new();
    let mut a = Session::new(1, UserRole::Standard);
    let mut b = Session::new(2, UserRole::Standard);
    let mut c = Session::new(3, UserRole::Standard);
    a.handle(&mut reg, &config, &join("A", "a", None));
    b.handle(&mut reg, &config, &join("A", "b", None));
    c.handle(&mut reg, &config, &join("B", "c", None));
    let ds = a.handle(&mut reg, &config, &ClientMessage::Offer { target: 2 });
    assert_eq!(ds.len(), 1);
    assert_eq!(ds[0].to, 2);
    assert!(matches!(ds[0].notice, Notice::Signal(SignalKind::Offer, 1)));
    let ds = b.handle(&mut reg, &config, &ClientMessage::Answer { target: 1 });
    assert!(matches!(ds[0].notice, Notice::Signal(SignalKind::Answer, 2)));
    let ds = a.handle(&mut reg, &config, &ClientMessage::IceCandidate { target: 3 });
    assert!(ds.is_empty());
    let mut d = Session::new(4, UserRole::Standard);
    assert!(d
        .handle(&mut reg, &config, &ClientMessage::IceCandidate { target: 1 })
        .is_empty());
}

#[test]
fn connecting_announces_the_state_to_everyone() {
    let config = config_with_rooms(vec![room("A", None), room("B", None)]);
    let mut reg = RoomRegistry::new();
    let mut a = Session::new(1, UserRole::Standard);
    let mut c = Session::new(3, UserRole::Standard);
    a.handle(&mut reg, &config, &join("A", "a", None));
    c.handle(&mut reg, &config, &join("B", "c", None));
    let ds = Session::on_connect(&reg);
    let mut to: Vec<u128> = ds.iter().map(|d| d.to).collect();
    to.sort();
    assert_eq!(to, vec![1, 3]);
    assert!(ds.iter().all(|d| matches!(d.notice, Notice::StateUpdate)));
}

#[test]
fn registry_operations() {
    let mut reg = RoomRegistry::new();
    assert!(reg.enter("R", Member { id: 1, name: "a".to_string() }));
    assert!(reg.contains_member("R", 1));
    assert!(!reg.contains_member("R", 2));
    assert!(!reg.contains_member("S", 1));
    reg.leave("S", 1);
    assert!(reg.contains_member("R", 1));
    reg.leave("R", 1);
    assert!(reg.rooms().is_empty());
}

#[test]
fn oversized_frames_are_ignored() {
    assert!(frame_within_limit(&"x".repeat(16384)));
    assert!(!frame_within_limit(&"x".repeat(16385)));
    assert!(!frame_within_limit(&"ä".repeat(8193)));
}

#[test]
fn guests_can_only_join_the_lobby() {
    let config = config_with_rooms(vec![room("Bunker", None)]);
    let mut reg = RoomRegistry::new();
    let mut g = Session::new(1, UserRole::Guest);
    let ds = g.handle(&mut reg, &config, &join("Bunker", "Gus", None));
    assert_eq!(failed(&ds), Some(JoinError::LobbyOnly));
    assert_eq!(JoinError::LobbyOnly.message(), "Guests can only join the Lobby");
    assert_eq!(g.room, None);
    assert!(members(&reg, "Bunker").is_empty());
    g.handle(&mut reg, &config, &join("Lobby", "Gus", None));
    assert_eq!(g.room.as_deref(), Some("Lobby"));
    assert_eq!(members(&reg, "Lobby"), vec![(1, "Gus".to_string())]);
    // a standard user may join the room the guest may not
    let mut s = Session::new(2, UserRole::Standard);
    s.handle(&mut reg, &config, &join("Bunker", "Sam", None));
    assert_eq!(s.room.as_deref(), Some("Bunker"));
    // a bad name is reported before the role
    let mut h = Session::new(3, UserRole::Guest);
    let ds = h.handle(&mut reg, &config, &join("Bunker", "   ", None));
    assert_eq!(failed(&ds), Some(JoinError::InvalidUsername));
}

#[test]
fn connection_role_comes_from_the_session() {
    let mut config = config_with_rooms(vec![]);
    assert_eq!(connection_role(&config, &Some("guest".to_string())), UserRole::Guest);
    assert_eq!(connection_role(&config, &Some("admin".to_string())), UserRole::Admin);
    assert_eq!(connection_role(&config, &None), UserRole::Standard);
    assert_eq!(connection_role(&config, &Some("authenticated".to_string())), UserRole::Standard);
    config.users.push(UserConfig {
        username: "ann".to_string(),
        password_hash: String::new(),
        role: UserRole::Standard,
    });
    assert_eq!(connection_role(&config, &None), UserRole::Guest);
    assert_eq!(connection_role(&config, &Some("standard".to_string())), UserRole::Standard);
    assert_eq!(UserRole::from_name("guest"), Some(UserRole::Guest));
    assert_eq!(UserRole::from_name("Guest"), None);
}

#[test]
fn each_listed_participant_gets_one_state_update() {
    let config = config_with_rooms(vec![room("Bunker", None), room("Vault", None)]);
    let mut reg = RoomRegistry::new();
    let mut a = Session::new(1, UserRole::Standard);
    let mut b = Session::new(2, UserRole::Standard);
    a.handle(&mut reg, &config, &join("Bunker", "Ann", None));
    b.handle(&mut reg, &config, &join("Vault", "Bob", None));
    let ds = Session::on_connect(&reg);
    for id in [1u128, 2] {
        let mine: Vec<&Delivery> = ds.iter().filter(|d| d.to == id).collect();
        assert_eq!(mine.len(), 1);
        assert!(matches!(mine[0].notice, Notice::StateUpdate));
    }
    assert!(ds.iter().all(|d| d.to == 1 || d.to == 2));
    // after leaving, the participant is listed nowhere and told nothing
    let ds = a.leave(&mut reg);
    assert!(members(&reg, "Bunker").is_empty());
    assert!(ds.iter().all(|d| d.to == 2));
}
