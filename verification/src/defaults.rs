//! The configuration file written on first start, with its random secrets.

use crate::password::{hash_password, is_hash_of, lemma_short_password_hashable};
use crate::text::string_from_chars;
use rand::distributions::Alphanumeric;
use rand::{thread_rng, Rng};
use vstd::prelude::*;
use vstd::string::StringExecFns;

verus! {

/// The default configuration up to the server password hash.
pub const CONFIG_HEAD: &'static str = r#"# buechsentelefon Configuration
# =============================

[server]
# The IP address to bind to. "0.0.0.0" allows access from the network.
host = "0.0.0.0"
port = 4433
domain = "localhost"

# Displayed in the header and login screen
title = "Buechsentelefon"

# Rooms: Each [[rooms]] entry defines a voice channel.
# Optional: banner_path (image), password_hash (set via CLI)
[[rooms]]
name = "Kaffeeküche"

[[rooms]]
name = "Bunker"

[[rooms]]
name = "Meeting Room"

[[rooms]]
name = "Gamer Ecke"

# Users: Named accounts with roles (admin, standard, guest).
# When users are configured, login requires username + password.
# Add users via CLI: buechsentelefon add-user <USERNAME> <PASSWORD> [--role <ROLE>]
# Roles:
#   admin    - Full access + server administration
#   standard - Can join all rooms (default)
#   guest    - Can only join the Lobby

# [[users]]
# username = "admin"
# password_hash = ""  # Set via: buechsentelefon add-user admin --role admin
# role = "admin"

[branding]
# favicon_path = "./favicon.ico"
# logo_path = "./logo.png"
# header_banner_path = "./header-banner.png"
# background_image_path = "./bg.jpg"
# custom_css_path = "./custom.css"

[legal]
# Path to an HTML or text file for the imprint page (required in DE/EU).
# imprint_path = "./impressum.html"
# Path to an HTML or text file for the privacy policy page.
# privacy_policy_path = "./datenschutz.html"

[security]
# The Argon2 hash of the server password (used when no [[users]] are configured).
server_password_hash = ""#;

/// The default configuration between the password hash and the session secret.
pub const CONFIG_MID: &'static str = r#""
session_secret = ""#;

/// The default configuration after the session secret.
pub const CONFIG_TAIL: &'static str = r#""

[tls]
# HTTPS Configuration. Leave commented for auto-generated self-signed certs.
# cert_path = "/path/to/fullchain.pem"
# key_path = "/path/to/privkey.pem"

[webrtc]
stun_servers = [
    "stun:stun.l.google.com:19302",
    "stun:stun1.l.google.com:19302"
]
"#;

/// Length of the generated session secret.
pub const SECRET_LEN: usize = 64;

/// Length of the generated initial password.
pub const INITIAL_PASSWORD_LEN: usize = 12;

/// The default configuration file for a server password hash and a session
/// secret: four rooms, no users, empty branding and legal sections.
pub open spec fn default_config_spec(password_hash: Seq<char>, session_secret: Seq<char>) -> Seq<
    char,
> {
    CONFIG_HEAD@ + password_hash + CONFIG_MID@ + session_secret + CONFIG_TAIL@
}

/// `A`-`Z`, `a`-`z` and `0`-`9`.
pub open spec fn is_ascii_alphanumeric(c: char) -> bool {
    ('A' <= c && c <= 'Z') || ('a' <= c && c <= 'z') || ('0' <= c && c <= '9')
}

pub open spec fn alphanumeric_of_len(s: Seq<char>, n: nat) -> bool {
    s.len() == n && forall|i: int| 0 <= i < s.len() ==> is_ascii_alphanumeric(#[trigger] s[i])
}

/// Samples `rand::distributions::Alphanumeric` with the thread-local
/// generator. Claimed: the character is an ASCII letter or digit, which is
/// the distribution's documented range (`A-Z, a-z, 0-9`).
#[verifier::external_body]
fn random_alphanumeric_char() -> (c: char)
    ensures
        is_ascii_alphanumeric(c),
{
    char::from(thread_rng().sample(Alphanumeric))
}

/// A random string of `len` ASCII letters and digits.
pub fn random_alphanumeric(len: usize) -> (r: String)
    ensures
        alphanumeric_of_len(r@, len as nat),
{
    let mut chars: Vec<char> = Vec::new();
    let mut i: usize = 0;
    while i < len
        invariant
            i <= len,
            alphanumeric_of_len(chars@, i as nat),
        decreases len - i,
    {
        let c = random_alphanumeric_char();
        chars.push(c);
        i = i + 1;
    }
    string_from_chars(&chars)
}

/// A random session secret of 64 letters and digits.
pub fn generate_secret() -> (r: String)
    ensures
        alphanumeric_of_len(r@, SECRET_LEN as nat),
{
    random_alphanumeric(SECRET_LEN)
}

/// A random initial password of 12 letters and digits.
pub fn generate_random_password() -> (r: String)
    ensures
        alphanumeric_of_len(r@, INITIAL_PASSWORD_LEN as nat),
{
    random_alphanumeric(INITIAL_PASSWORD_LEN)
}

/// The default configuration file for a server password hash and a session
/// secret.
pub fn default_config_text(password_hash: &str, session_secret: &str) -> (r: String)
    ensures
        r@ == default_config_spec(password_hash@, session_secret@),
{
    let mut s = String::from_str(CONFIG_HEAD);
    s.append(password_hash);
    s.append(CONFIG_MID);
    s.append(session_secret);
    s.append(CONFIG_TAIL);
    s
}

/// A freshly generated default configuration and the initial password whose
/// hash it holds.
#[derive(Debug)]
pub struct DefaultConfig {
    pub content: String,
    pub initial_password: String,
}

/// Generates the default configuration: a random session secret, a random
/// initial password and its hash (a 12-character password always hashes).
pub fn new_default_config() -> (r: DefaultConfig)
    ensures
        alphanumeric_of_len(r.initial_password@, INITIAL_PASSWORD_LEN as nat),
        exists|hash: Seq<char>, secret: Seq<char>|
            {
                &&& is_hash_of(hash, r.initial_password@)
                &&& alphanumeric_of_len(secret, SECRET_LEN as nat)
                &&& r.content@ == default_config_spec(hash, secret)
            },
{
    let session_secret = generate_secret();
    let initial_password = generate_random_password();
    proof {
        lemma_short_password_hashable(initial_password@);
    }
    let password_hash = hash_password(initial_password.as_str()).unwrap();
    let content = default_config_text(password_hash.as_str(), session_secret.as_str());
    DefaultConfig { content, initial_password }
}

} // verus!
