//! The server configuration as it is loaded from `config.toml`, and the
//! look-ups the server makes in it.

use crate::password::{hash_matches, verify_hash};
use crate::text::text_eq;
use vstd::prelude::*;

verus! {

/// The role of a named user account.
#[derive(Debug, Clone, Copy, PartialEq, Eq, Structural)]
pub enum UserRole {
    Admin,
    Standard,
    Guest,
}

/// The role whose name this is, if any.
pub open spec fn role_named(name: Seq<char>) -> Option<UserRole> {
    if name == "admin"@ {
        Some(UserRole::Admin)
    } else if name == "standard"@ {
        Some(UserRole::Standard)
    } else if name == "guest"@ {
        Some(UserRole::Guest)
    } else {
        None
    }
}

/// Every role is found again by its name.
pub proof fn lemma_role_named_by_name(role: UserRole)
    ensures
        role_named(role.name_spec()) == Some(role),
{
    reveal_strlit("admin");
    reveal_strlit("standard");
    reveal_strlit("guest");
    assert("admin"@[0] != "guest"@[0]);
    assert("admin"@.len() != "standard"@.len());
    assert("standard"@.len() != "guest"@.len());
}

impl UserRole {
    /// The lower-case name that the configuration file and the command line use.
    pub open spec fn name_spec(self) -> Seq<char> {
        match self {
            UserRole::Admin => "admin"@,
            UserRole::Standard => "standard"@,
            UserRole::Guest => "guest"@,
        }
    }

    /// The role with this lower-case name.
    pub fn from_name(name: &str) -> (r: Option<UserRole>)
        ensures
            r == role_named(name@),
    {
        if text_eq(name, "admin") {
            Some(UserRole::Admin)
        } else if text_eq(name, "standard") {
            Some(UserRole::Standard)
        } else if text_eq(name, "guest") {
            Some(UserRole::Guest)
        } else {
            None
        }
    }

    /// The lower-case name of the role: `admin`, `standard` or `guest`.
    pub fn to_string(&self) -> (r: String)
        ensures
            r@ == self.name_spec(),
    {
        match self {
            UserRole::Admin => String::from_str("admin"),
            UserRole::Standard => String::from_str("standard"),
            UserRole::Guest => String::from_str("guest"),
        }
    }
}

#[derive(Debug, Clone)]
pub struct UserConfig {
    pub username: String,
    pub password_hash: String,
    pub role: UserRole,
}

#[derive(Debug, Clone)]
pub struct ServerConfig {
    pub host: String,
    pub port: u16,
    pub domain: String,
    pub title: Option<String>,
}

#[derive(Debug, Clone)]
pub struct SecurityConfig {
    pub server_password_hash: String,
    pub session_secret: String,
}

#[derive(Debug, Clone)]
pub struct TlsConfig {
    pub cert_path: Option<String>,
    pub key_path: Option<String>,
}

#[derive(Debug, Clone)]
pub struct WebRtcConfig {
    pub stun_servers: Vec<String>,
}

#[derive(Debug, Clone)]
pub struct RoomConfig {
    pub name: String,
    pub banner_path: Option<String>,
    pub password_hash: Option<String>,
}

#[derive(Debug, Clone)]
pub struct BrandingConfig {
    pub favicon_path: Option<String>,
    pub logo_path: Option<String>,
    pub header_banner_path: Option<String>,
    pub background_image_path: Option<String>,
    pub custom_css_path: Option<String>,
}

impl Default for BrandingConfig {
    fn default() -> (r: Self)
        ensures
            r.favicon_path is None,
            r.logo_path is None,
            r.header_banner_path is None,
            r.background_image_path is None,
            r.custom_css_path is None,
    {
        BrandingConfig {
            favicon_path: None,
            logo_path: None,
            header_banner_path: None,
            background_image_path: None,
            custom_css_path: None,
        }
    }
}

#[derive(Debug, Clone)]
pub struct LegalConfig {
    pub imprint_path: Option<String>,
    pub privacy_policy_path: Option<String>,
}

impl Default for LegalConfig {
    fn default() -> (r: Self)
        ensures
            r.imprint_path is None,
            r.privacy_policy_path is None,
    {
        LegalConfig { imprint_path: None, privacy_policy_path: None }
    }
}

#[derive(Debug, Clone)]
pub struct AppConfig {
    pub server: ServerConfig,
    pub security: SecurityConfig,
    pub tls: TlsConfig,
    pub webrtc: WebRtcConfig,
    pub rooms: Vec<RoomConfig>,
    pub users: Vec<UserConfig>,
    pub branding: BrandingConfig,
    pub legal: LegalConfig,
}

/// `i` is the first position in `names` that holds `name`.
pub open spec fn is_first_match(names: Seq<Seq<char>>, name: Seq<char>, i: int) -> bool {
    &&& 0 <= i < names.len()
    &&& names[i] == name
    &&& forall|j: int| 0 <= j < i ==> names[j] != name
}

pub open spec fn room_names(rooms: Seq<RoomConfig>) -> Seq<Seq<char>> {
    rooms.map_values(|r: RoomConfig| r.name@)
}

pub open spec fn user_names(users: Seq<UserConfig>) -> Seq<Seq<char>> {
    users.map_values(|u: UserConfig| u.username@)
}

/// The first room called `name`, if any.
pub open spec fn lookup_room(rooms: Seq<RoomConfig>, name: Seq<char>) -> Option<RoomConfig> {
    if room_names(rooms).contains(name) {
        let i = choose|i: int| is_first_match(room_names(rooms), name, i);
        Some(rooms[i])
    } else {
        None
    }
}

/// The first user called `name`, if any.
pub open spec fn lookup_user(users: Seq<UserConfig>, name: Seq<char>) -> Option<UserConfig> {
    if user_names(users).contains(name) {
        let i = choose|i: int| is_first_match(user_names(users), name, i);
        Some(users[i])
    } else {
        None
    }
}

/// A first match is unique.
pub proof fn lemma_first_match_unique(names: Seq<Seq<char>>, name: Seq<char>, i: int, j: int)
    requires
        is_first_match(names, name, i),
        is_first_match(names, name, j),
    ensures
        i == j,
{
}

/// Where a name occurs, it has a first match.
pub proof fn lemma_first_match_exists(names: Seq<Seq<char>>, name: Seq<char>)
    requires
        names.contains(name),
    ensures
        exists|i: int| is_first_match(names, name, i),
    decreases names.len(),
{
    if names[0] == name {
        assert(is_first_match(names, name, 0));
    } else {
        let rest = names.drop_first();
        assert(rest.contains(name)) by {
            let k = choose|k: int| 0 <= k < names.len() && names[k] == name;
            assert(rest[k - 1] == name);
        }
        lemma_first_match_exists(rest, name);
        let i = choose|i: int| is_first_match(rest, name, i);
        assert(is_first_match(names, name, i + 1)) by {
            assert forall|j: int| 0 <= j < i + 1 implies names[j] != name by {
                if j > 0 {
                    assert(names[j] == rest[j - 1]);
                }
            }
        }
    }
}


/// The room found for a name carries that name, and no earlier room does.
pub proof fn lemma_lookup_room(rooms: Seq<RoomConfig>, name: Seq<char>)
    ensures
        match lookup_room(rooms, name) {
            Some(r) => r.name@ == name && exists|i: int|
                is_first_match(room_names(rooms), name, i) && rooms[i] == r,
            None => forall|i: int| 0 <= i < rooms.len() ==> rooms[i].name@ != name,
        },
{
    if room_names(rooms).contains(name) {
        lemma_first_match_exists(room_names(rooms), name);
        let i = choose|i: int| is_first_match(room_names(rooms), name, i);
        assert(room_names(rooms)[i] == rooms[i].name@);
    } else {
        assert forall|i: int| 0 <= i < rooms.len() implies rooms[i].name@ != name by {
            assert(room_names(rooms)[i] == rooms[i].name@);
        }
    }
}

/// The user found for a name carries that name, and no earlier user does.
pub proof fn lemma_lookup_user(users: Seq<UserConfig>, name: Seq<char>)
    ensures
        match lookup_user(users, name) {
            Some(u) => u.username@ == name && exists|i: int|
                is_first_match(user_names(users), name, i) && users[i] == u,
            None => forall|i: int| 0 <= i < users.len() ==> users[i].username@ != name,
        },
{
    if user_names(users).contains(name) {
        lemma_first_match_exists(user_names(users), name);
        let i = choose|i: int| is_first_match(user_names(users), name, i);
        assert(user_names(users)[i] == users[i].username@);
    } else {
        assert forall|i: int| 0 <= i < users.len() implies users[i].username@ != name by {
            assert(user_names(users)[i] == users[i].username@);
        }
    }
}

/// The position of the first room called `name`, found by a scan.
pub fn position_of_room(rooms: &Vec<RoomConfig>, name: &str) -> (r: Option<usize>)
    ensures
        match r {
            Some(i) => is_first_match(room_names(rooms@), name@, i as int),
            None => !room_names(rooms@).contains(name@),
        },
{
    let mut i: usize = 0;
    while i < rooms.len()
        invariant
            i <= rooms.len(),
            forall|j: int| 0 <= j < i ==> room_names(rooms@)[j] != name@,
        decreases rooms.len() - i,
    {
        if text_eq(rooms[i].name.as_str(), name) {
            return Some(i);
        }
        i = i + 1;
    }
    None
}

/// The position of the first user called `name`, found by a scan.
pub fn position_of_user(users: &Vec<UserConfig>, name: &str) -> (r: Option<usize>)
    ensures
        match r {
            Some(i) => is_first_match(user_names(users@), name@, i as int),
            None => !user_names(users@).contains(name@),
        },
{
    let mut i: usize = 0;
    while i < users.len()
        invariant
            i <= users.len(),
            forall|j: int| 0 <= j < i ==> user_names(users@)[j] != name@,
        decreases users.len() - i,
    {
        if text_eq(users[i].username.as_str(), name) {
            return Some(i);
        }
        i = i + 1;
    }
    None
}

impl AppConfig {
    /// Checks a password against the server password hash.
    pub fn verify_password(&self, plain: &str) -> (r: bool)
        ensures
            r == hash_matches(self.security.server_password_hash@, plain@),
    {
        verify_hash(self.security.server_password_hash.as_str(), plain)
    }

    /// The first configured room with the given name.
    pub fn find_room(&self, name: &str) -> (r: Option<&RoomConfig>)
        ensures
            match lookup_room(self.rooms@, name@) {
                Some(room) => r == Some(&room),
                None => r is None,
            },
    {
        match position_of_room(&self.rooms, name) {
            Some(i) => {
                proof {
                    lemma_first_match_exists(room_names(self.rooms@), name@);
                    let k = choose|k: int| is_first_match(room_names(self.rooms@), name@, k);
                    lemma_first_match_unique(room_names(self.rooms@), name@, i as int, k);
                }
                Some(&self.rooms[i])
            },
            None => None,
        }
    }

    /// Whether named user accounts are configured; without them the server
    /// password is used for authentication.
    pub fn has_users(&self) -> (r: bool)
        ensures
            r == (self.users@.len() > 0),
    {
        self.users.len() > 0
    }

    /// The first configured user with the given name.
    pub fn find_user(&self, username: &str) -> (r: Option<&UserConfig>)
        ensures
            match lookup_user(self.users@, username@) {
                Some(u) => r == Some(&u),
                None => r is None,
            },
    {
        match position_of_user(&self.users, username) {
            Some(i) => {
                proof {
                    lemma_first_match_exists(user_names(self.users@), username@);
                    let k = choose|k: int| is_first_match(user_names(self.users@), username@, k);
                    lemma_first_match_unique(user_names(self.users@), username@, i as int, k);
                }
                Some(&self.users[i])
            },
            None => None,
        }
    }

    /// The user with this name, provided the password verifies against the
    /// user's hash.
    pub fn authenticate_user(&self, username: &str, password: &str) -> (r: Option<&UserConfig>)
        ensures
            match lookup_user(self.users@, username@) {
                Some(u) => if hash_matches(u.password_hash@, password@) {
                    r == Some(&u)
                } else {
                    r is None
                },
                None => r is None,
            },
    {
        let user = match self.find_user(username) {
            Some(u) => u,
            None => return None,
        };
        if verify_hash(user.password_hash.as_str(), password) {
            Some(user)
        } else {
            None
        }
    }
}

} // verus!
