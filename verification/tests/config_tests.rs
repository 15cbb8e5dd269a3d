use buechsentelefon::commands::{update_password, update_room_password};
use buechsentelefon::config::{
    AppConfig, BrandingConfig, LegalConfig, RoomConfig, SecurityConfig, ServerConfig, TlsConfig,
    UserConfig, UserRole, WebRtcConfig,
};
use buechsentelefon::defaults::new_default_config;
use buechsentelefon::password::{hash_password, verify_hash};

fn opt_str(t: Option<&toml::Value>) -> Option<String> {
    t.and_then(|v| v.as_str()).map(|s| s.to_string())
}

fn string_at(t: &toml::Table, key: &str) -> String {
    t.get(key).and_then(|v| v.as_str()).expect("missing string").to_string()
}

fn role_of(s: &str) -> UserRole {
    match s {
        "admin" => UserRole::Admin,
        "guest" => UserRole::Guest,
        _ => UserRole::Standard,
    }
}

/// Reads a configuration file the way the server loads it.
fn parse_config(text: &str) -> AppConfig {
    let doc: toml::Table = text.parse().expect("valid TOML");
    let server = doc["server"].as_table().expect("server table");
    let security = doc["security"].as_table().expect("security table");
    let tls = doc["tls"].as_table().expect("tls table");
    let webrtc = doc["webrtc"].as_table().expect("webrtc table");
    let empty = toml::Table::new();
    let branding = doc.get("branding").and_then(|v| v.as_table()).unwrap_or(&empty);
    let legal = doc.get("legal").and_then(|v| v.as_table()).unwrap_or(&empty);
    let rooms = doc["rooms"]
        .as_array()
        .expect("rooms array")
        .iter()
        .map(|r| {
            let r = r.as_table().expect("room table");
            RoomConfig {
                name: string_at(r, "name"),
                banner_path: opt_str(r.get("banner_path")),
                password_hash: opt_str(r.get("password_hash")),
            }
        })
        .collect();
    let users = doc
        .get("users")
        .and_then(|v| v.as_array())
        .map(|a| {
            a.iter()
                .map(|u| {
                    let u = u.as_table().expect("user table");
                    UserConfig {
                        username: string_at(u, "username"),
                        password_hash: string_at(u, "password_hash"),
                        role: role_of(&string_at(u, "role")),
                    }
                })
                .collect()
        })
        .unwrap_or_default();
    AppConfig {
        server: ServerConfig {
            host: string_at(server, "host"),
            port: server["port"].as_integer().expect("port") as u16,
            domain: string_at(server, "domain"),
            title: opt_str(server.get("title")),
        },
        security: SecurityConfig {
            server_password_hash: string_at(security, "server_password_hash"),
            session_secret: string_at(security, "session_secret"),
        },
        tls: TlsConfig {
            cert_path: opt_str(tls.get("cert_path")),
            key_path: opt_str(tls.get("key_path")),
        },
        webrtc: WebRtcConfig {
            stun_servers: webrtc["stun_servers"]
                .as_array()
                .expect("stun servers")
                .iter()
                .map(|s| s.as_str().expect("stun server").to_string())
                .collect(),
        },
        rooms,
        users,
        branding: BrandingConfig {
            favicon_path: opt_str(branding.get("favicon_path")),
            logo_path: opt_str(branding.get("logo_path")),
            header_banner_path: opt_str(branding.get("header_banner_path")),
            background_image_path: opt_str(branding.get("background_image_path")),
            custom_css_path: opt_str(branding.get("custom_css_path")),
        },
        legal: LegalConfig {
            imprint_path: opt_str(legal.get("imprint_path")),
            privacy_policy_path: opt_str(legal.get("privacy_policy_path")),
        },
    }
}

fn default_text() -> String {
    new_default_config().content
}

fn default_config() -> AppConfig {
    parse_config(&default_text())
}

#[test]
fn test_create_and_load_default_config() {
    let config = default_config();

    assert_eq!(config.server.host, "0.0.0.0");
    assert_eq!(config.server.port, 4433);
    assert_eq!(config.server.domain, "localhost");
    assert_eq!(config.rooms.len(), 4);
    assert_eq!(config.rooms[0].name, "Kaffeeküche");
    assert_eq!(config.rooms[1].name, "Bunker");
    assert!(config.legal.imprint_path.is_none());
    assert!(config.legal.privacy_policy_path.is_none());
}

#[test]
fn test_password_hash_and_verify() {
    let hash = hash_password("test123").unwrap();
    assert!(hash.starts_with("$argon2id$"));
    assert!(verify_hash(&hash, "test123"));
    assert!(!verify_hash(&hash, "wrong"));
    assert!(!verify_hash(&hash, ""));
}

#[test]
fn test_verify_empty_hash_returns_false() {
    assert!(!verify_hash("", "any"));
}

#[test]
fn test_verify_invalid_hash_returns_false() {
    assert!(!verify_hash("not-a-real-hash", "any"));
}

#[test]
fn test_config_verify_password() {
    let config = default_config();

    assert!(!config.verify_password("wrong"));
}

#[test]
fn test_find_room() {
    let config = default_config();

    assert!(config.find_room("Kaffeeküche").is_some());
    assert!(config.find_room("Bunker").is_some());
    assert!(config.find_room("NonExistent").is_none());
    assert!(config.find_room("").is_none());
}

#[test]
fn test_find_room_returns_correct_data() {
    let config = default_config();

    let room = config.find_room("Bunker").unwrap();
    assert_eq!(room.name, "Bunker");
    assert!(room.banner_path.is_none());
    assert!(room.password_hash.is_none());
}

#[test]
fn test_update_server_password() {
    let content = default_text();

    let updated = update_password(&content, "newpass").unwrap();

    let config = parse_config(&updated);
    assert!(config.verify_password("newpass"));
    assert!(!config.verify_password("oldpass"));
}

#[test]
fn test_set_room_password() {
    let content = default_text();

    let updated = update_room_password(&content, "Bunker", "roomsecret").unwrap();

    let config = parse_config(&updated);
    let room = config.find_room("Bunker").unwrap();
    assert!(room.password_hash.is_some());
    assert!(verify_hash(room.password_hash.as_ref().unwrap(), "roomsecret"));
    assert!(!verify_hash(room.password_hash.as_ref().unwrap(), "wrong"));
}

#[test]
fn test_remove_room_password() {
    let content = default_text();

    let with_pw = update_room_password(&content, "Bunker", "secret").unwrap();
    let config = parse_config(&with_pw);
    assert!(config.find_room("Bunker").unwrap().password_hash.is_some());

    let without_pw = update_room_password(&with_pw, "Bunker", "").unwrap();
    let config = parse_config(&without_pw);
    assert!(config.find_room("Bunker").unwrap().password_hash.is_none());
}

#[test]
fn test_room_password_nonexistent_room_fails() {
    let content = default_text();

    let result = update_room_password(&content, "NonExistent", "pw");
    assert!(result.is_err());
}

#[test]
fn test_default_branding_is_empty() {
    let config = default_config();

    assert!(config.branding.favicon_path.is_none());
    assert!(config.branding.logo_path.is_none());
    assert!(config.branding.header_banner_path.is_none());
    assert!(config.branding.background_image_path.is_none());
    assert!(config.branding.custom_css_path.is_none());
}

#[test]
fn test_rooms_have_no_passwords_by_default() {
    let config = default_config();

    for room in &config.rooms {
        assert!(
            room.password_hash.is_none(),
            "Room {} should have no password",
            room.name
        );
    }
}

#[test]
fn test_multiple_room_passwords_independent() {
    let content = default_text();

    let step1 = update_room_password(&content, "Bunker", "pw1").unwrap();
    let step2 = update_room_password(&step1, "Kaffeeküche", "pw2").unwrap();

    let config = parse_config(&step2);
    let bunker = config.find_room("Bunker").unwrap();
    let kaffee = config.find_room("Kaffeeküche").unwrap();

    assert!(verify_hash(bunker.password_hash.as_ref().unwrap(), "pw1"));
    assert!(!verify_hash(bunker.password_hash.as_ref().unwrap(), "pw2"));
    assert!(verify_hash(kaffee.password_hash.as_ref().unwrap(), "pw2"));
    assert!(!verify_hash(kaffee.password_hash.as_ref().unwrap(), "pw1"));
}

#[test]
fn default_config_initial_password_verifies() {
    let generated = new_default_config();
    assert_eq!(generated.initial_password.len(), 12);
    assert!(generated.initial_password.chars().all(|c| c.is_ascii_alphanumeric()));
    let config = parse_config(&generated.content);
    assert!(config.verify_password(&generated.initial_password));
    assert_eq!(config.security.session_secret.len(), 64);
    assert!(config.security.session_secret.chars().all(|c| c.is_ascii_alphanumeric()));
    assert_eq!(config.webrtc.stun_servers.len(), 2);
    assert_eq!(config.server.title.as_deref(), Some("Buechsentelefon"));
    assert!(!config.has_users());
    assert_eq!(config.rooms[2].name, "Meeting Room");
    assert_eq!(config.rooms[3].name, "Gamer Ecke");
}

#[test]
fn default_config_text_places_hash_and_secret() {
    let text = buechsentelefon::defaults::default_config_text("HASH", "SECRET");
    assert!(text.starts_with("# buechsentelefon Configuration\n"));
    assert!(text.contains("server_password_hash = \"HASH\"\nsession_secret = \"SECRET\"\n"));
    assert!(text.ends_with("\"stun:stun1.l.google.com:19302\"\n]\n"));
}

#[test]
fn role_names_match_the_file_format() {
    assert_eq!(UserRole::Admin.to_string(), "admin");
    assert_eq!(UserRole::Standard.to_string(), "standard");
    assert_eq!(UserRole::Guest.to_string(), "guest");
}

fn sample_config() -> AppConfig {
    let mut config = default_config();
    config.users = vec![
        UserConfig {
            username: "alice".to_string(),
            password_hash: hash_password("alicepw").unwrap(),
            role: UserRole::Admin,
        },
        UserConfig {
            username: "bob".to_string(),
            password_hash: String::new(),
            role: UserRole::Guest,
        },
    ];
    config
}

#[test]
fn users_are_found_and_authenticated() {
    let config = sample_config();
    assert!(config.has_users());
    assert_eq!(config.find_user("bob").unwrap().role, UserRole::Guest);
    assert!(config.find_user("carol").is_none());
    assert_eq!(
        config.authenticate_user("alice", "alicepw").unwrap().username,
        "alice"
    );
    assert!(config.authenticate_user("alice", "wrong").is_none());
    assert!(config.authenticate_user("bob", "").is_none());
    assert!(config.authenticate_user("carol", "alicepw").is_none());
}

#[test]
fn find_room_returns_the_first_of_equal_names() {
    let mut config = default_config();
    config.rooms.push(RoomConfig {
        name: "Bunker".to_string(),
        banner_path: Some("second.png".to_string()),
        password_hash: None,
    });
    assert!(config.find_room("Bunker").unwrap().banner_path.is_none());
}
