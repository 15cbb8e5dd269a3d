//! What the HTTP endpoints answer: the public configuration, the room list,
//! login and session checks, asset paths and content types, and the fixed
//! security headers.

use crate::config::{lookup_room, lookup_user, AppConfig, RoomConfig, UserRole};
use crate::session::opt_view;
use crate::limiter::{admits, after_attempt, RateLimiter};
use crate::text::{strip_leading, strip_leading_spec};
use crate::password::hash_matches;
use vstd::prelude::*;
use vstd::string::StringExecFns;

verus! {

/// The title shown when the configuration sets none.
pub const DEFAULT_TITLE: &'static str = "Buechsentelefon";

/// Which optional branding files are configured.
#[derive(Debug, Clone, Copy, PartialEq, Eq, Structural)]
pub struct BrandingInfo {
    pub has_favicon: bool,
    pub has_logo: bool,
    pub has_header_banner: bool,
    pub has_background: bool,
    pub has_custom_css: bool,
}

/// Which legal pages are configured.
#[derive(Debug, Clone, Copy, PartialEq, Eq, Structural)]
pub struct LegalInfo {
    pub has_imprint: bool,
    pub has_privacy_policy: bool,
}

/// What `/api/config` tells every visitor.
#[derive(Debug)]
pub struct PublicConfig {
    pub title: String,
    pub stun_servers: Vec<String>,
    pub branding: BrandingInfo,
    pub legal: LegalInfo,
}

/// What `/api/rooms` tells about one room.
#[derive(Debug)]
pub struct RoomInfo {
    pub name: String,
    pub has_banner: bool,
    pub is_locked: bool,
}

/// A JSON reply `{success, message}` and its HTTP status.
#[derive(Debug)]
pub struct ApiReply {
    pub status: u16,
    pub success: bool,
    pub message: String,
}

pub open spec fn strings_view(v: Seq<String>) -> Seq<Seq<char>> {
    v.map_values(|s: String| s@)
}

fn copy_strings(v: &Vec<String>) -> (r: Vec<String>)
    ensures
        strings_view(r@) == strings_view(v@),
{
    let mut out: Vec<String> = Vec::new();
    let mut i: usize = 0;
    while i < v.len()
        invariant
            i <= v.len(),
            out@.len() == i,
            strings_view(out@) == strings_view(v@).take(i as int),
        decreases v.len() - i,
    {
        let c = v[i].clone();
        assert(c@ == v@[i as int]@);
        out.push(c);
        assert(out@[i as int]@ == strings_view(v@)[i as int]);
        assert(strings_view(out@) =~= strings_view(v@).take(i + 1));
        i = i + 1;
    }
    assert(strings_view(v@).take(v.len() as int) =~= strings_view(v@));
    out
}

/// The configured title, or `DEFAULT_TITLE`.
pub open spec fn title_spec(c: AppConfig) -> Seq<char> {
    match c.server.title {
        Some(t) => t@,
        None => DEFAULT_TITLE@,
    }
}

/// The public part of the configuration: title, STUN servers, and which
/// branding files and legal pages exist.
pub fn public_config(config: &AppConfig) -> (r: PublicConfig)
    ensures
        r.title@ == title_spec(*config),
        strings_view(r.stun_servers@) == strings_view(config.webrtc.stun_servers@),
        r.branding == (BrandingInfo {
            has_favicon: config.branding.favicon_path is Some,
            has_logo: config.branding.logo_path is Some,
            has_header_banner: config.branding.header_banner_path is Some,
            has_background: config.branding.background_image_path is Some,
            has_custom_css: config.branding.custom_css_path is Some,
        }),
        r.legal == (LegalInfo {
            has_imprint: config.legal.imprint_path is Some,
            has_privacy_policy: config.legal.privacy_policy_path is Some,
        }),
{
    let title = match &config.server.title {
        Some(t) => t.clone(),
        None => String::from_str(DEFAULT_TITLE),
    };
    PublicConfig {
        title,
        stun_servers: copy_strings(&config.webrtc.stun_servers),
        branding: BrandingInfo {
            has_favicon: config.branding.favicon_path.is_some(),
            has_logo: config.branding.logo_path.is_some(),
            has_header_banner: config.branding.header_banner_path.is_some(),
            has_background: config.branding.background_image_path.is_some(),
            has_custom_css: config.branding.custom_css_path.is_some(),
        },
        legal: LegalInfo {
            has_imprint: config.legal.imprint_path.is_some(),
            has_privacy_policy: config.legal.privacy_policy_path.is_some(),
        },
    }
}

pub open spec fn room_info_spec(r: RoomConfig) -> (Seq<char>, bool, bool) {
    (r.name@, r.banner_path is Some, r.password_hash is Some)
}

pub open spec fn room_infos_view(v: Seq<RoomInfo>) -> Seq<(Seq<char>, bool, bool)> {
    v.map_values(|i: RoomInfo| (i.name@, i.has_banner, i.is_locked))
}

/// Every configured room, in order: its name, whether it has a banner and
/// whether it is password protected.
pub fn room_listing(config: &AppConfig) -> (r: Vec<RoomInfo>)
    ensures
        room_infos_view(r@) == config.rooms@.map_values(|c: RoomConfig| room_info_spec(c)),
        r@.len() == config.rooms@.len(),
        forall|i: int|
            #![trigger r@[i]]
            0 <= i < r@.len() ==> {
                &&& r@[i].name@ == config.rooms@[i].name@
                &&& r@[i].has_banner == (config.rooms@[i].banner_path is Some)
                &&& r@[i].is_locked == (config.rooms@[i].password_hash is Some)
            },
{
    let ghost want = config.rooms@.map_values(|c: RoomConfig| room_info_spec(c));
    let mut out: Vec<RoomInfo> = Vec::new();
    let mut i: usize = 0;
    while i < config.rooms.len()
        invariant
            i <= config.rooms.len(),
            want == config.rooms@.map_values(|c: RoomConfig| room_info_spec(c)),
            out@.len() == i,
            room_infos_view(out@) == want.take(i as int),
        decreases config.rooms.len() - i,
    {
        let room = &config.rooms[i];
        let name = room.name.clone();
        assert(name@ == room.name@);
        let info = RoomInfo {
            name,
            has_banner: room.banner_path.is_some(),
            is_locked: room.password_hash.is_some(),
        };
        assert((info.name@, info.has_banner, info.is_locked) == want[i as int]);
        out.push(info);
        assert(room_infos_view(out@) =~= want.take(i + 1));
        i = i + 1;
    }
    assert(want.take(config.rooms.len() as int) =~= want);
    assert forall|i: int| #![trigger out@[i]] 0 <= i < out@.len() implies {
        &&& out@[i].name@ == config.rooms@[i].name@
        &&& out@[i].has_banner == (config.rooms@[i].banner_path is Some)
        &&& out@[i].is_locked == (config.rooms@[i].password_hash is Some)
    } by {
        assert(room_infos_view(out@)[i] == want[i]);
    }
    out
}

/// What the room list says of each room: its name, whether it has a banner,
/// and that it is locked exactly when it has a password hash, whatever its
/// banner.
pub proof fn lemma_listing_flags(rooms: Seq<RoomConfig>, i: int)
    requires
        0 <= i < rooms.len(),
    ensures
        rooms.map_values(|c: RoomConfig| room_info_spec(c))[i] == (
            rooms[i].name@,
            rooms[i].banner_path is Some,
            rooms[i].password_hash is Some,
        ),
{
}

/// The banner file of the first room with this name, if it has one.
pub fn room_banner(config: &AppConfig, room_name: &str) -> (r: Option<String>)
    ensures
        match lookup_room(config.rooms@, room_name@) {
            Some(room) => match room.banner_path {
                Some(p) => r matches Some(s) && s@ == p@,
                None => r is None,
            },
            None => r is None,
        },
{
    match config.find_room(room_name) {
        Some(room) => match &room.banner_path {
            Some(p) => Some(p.clone()),
            None => None,
        },
        None => None,
    }
}

pub open spec fn reply_spec(r: ApiReply, status: u16, success: bool, message: Seq<char>) -> bool {
    r.status == status && r.success == success && r.message@ == message
}

fn reply(status: u16, success: bool, message: &str) -> (r: ApiReply)
    ensures
        reply_spec(r, status, success, message@),
{
    ApiReply { status, success, message: String::from_str(message) }
}

/// The outcome of a login request: the reply and, for a successful login, the
/// role the session gets (its name is what the session cookie holds).
#[derive(Debug)]
pub struct LoginOutcome {
    pub reply: ApiReply,
    pub role: Option<UserRole>,
}

/// Whom a login admits, and with which role. Where user accounts are
/// configured, login takes a username and password: the first account with
/// that name whose password verifies, with its role (the server password
/// alone admits nobody). Without accounts, the server password admits, with
/// the standard role (every room may be joined).
pub open spec fn login_grant(
    config: AppConfig,
    username: Option<Seq<char>>,
    password: Seq<char>,
) -> Option<UserRole> {
    if config.users@.len() > 0 {
        match username {
            Some(n) => match lookup_user(config.users@, n) {
                Some(u) => if hash_matches(u.password_hash@, password) {
                    Some(u.role)
                } else {
                    None
                },
                None => None,
            },
            None => None,
        }
    } else if hash_matches(config.security.server_password_hash@, password) {
        Some(UserRole::Standard)
    } else {
        None
    }
}

/// Where accounts are configured, only they decide a login: a request
/// without a username is refused, and the server password plays no part
/// (two configurations with the same accounts grant the same).
pub proof fn lemma_accounts_decide_login(
    config: AppConfig,
    other: AppConfig,
    username: Option<Seq<char>>,
    password: Seq<char>,
)
    requires
        config.users@.len() > 0,
        other.users@ == config.users@,
    ensures
        login_grant(config, None, password) is None,
        login_grant(config, username, password) == login_grant(other, username, password),
        login_grant(config, username, password) matches Some(role) ==> (username matches Some(
            n,
        ) && lookup_user(config.users@, n) matches Some(u) && u.role == role && hash_matches(
            u.password_hash@,
            password,
        )),
{
}

/// The answer to an admitted login: 200 and the granted role, or 401.
pub open spec fn login_answer(
    o: LoginOutcome,
    config: AppConfig,
    username: Option<Seq<char>>,
    password: Seq<char>,
) -> bool {
    match login_grant(config, username, password) {
        Some(role) => reply_spec(o.reply, 200, true, "Login successful"@) && o.role == Some(role),
        None => {
            &&& o.role is None
            &&& if config.users@.len() > 0 {
                reply_spec(o.reply, 401, false, "Invalid username or password"@)
            } else {
                reply_spec(o.reply, 401, false, "Invalid password"@)
            }
        },
    }
}

/// The answer to a rate-limited login.
pub open spec fn login_refused(o: LoginOutcome) -> bool {
    reply_spec(o.reply, 429, false, "Too many login attempts. Please try again later."@)
        && o.role is None
}

/// How a login request is answered. The attempt is recorded with the rate
/// limiter first; a rate-limited request is refused with 429 before the
/// password is looked at. Otherwise `login_grant` decides: 200 (and the
/// caller sets the session cookie to the granted role) or 401.
pub fn login_reply_at(
    limiter: &mut RateLimiter,
    now: u128,
    config: &AppConfig,
    username: &Option<String>,
    password: &str,
) -> (r: LoginOutcome)
    ensures
        final(limiter)@ == after_attempt(old(limiter)@, now),
        !admits(old(limiter)@, now) ==> login_refused(r),
        admits(old(limiter)@, now) ==> login_answer(r, *config, opt_view(*username), password@),
{
    if !limiter.check_and_record_at(now) {
        return refused_login();
    }
    login_verdict(config, username, password)
}

fn refused_login() -> (r: LoginOutcome)
    ensures
        login_refused(r),
{
    LoginOutcome {
        reply: reply(429, false, "Too many login attempts. Please try again later."),
        role: None,
    }
}

/// The part of the login answer after the rate limiter admitted the attempt.
pub fn login_verdict(config: &AppConfig, username: &Option<String>, password: &str) -> (r:
    LoginOutcome)
    ensures
        login_answer(r, *config, opt_view(*username), password@),
{
    if config.has_users() {
        let user = match username {
            Some(n) => config.authenticate_user(n.as_str(), password),
            None => None,
        };
        match user {
            Some(u) => LoginOutcome { reply: reply(200, true, "Login successful"), role: Some(u.role) },
            None => LoginOutcome {
                reply: reply(401, false, "Invalid username or password"),
                role: None,
            },
        }
    } else if config.verify_password(password) {
        LoginOutcome { reply: reply(200, true, "Login successful"), role: Some(UserRole::Standard) }
    } else {
        LoginOutcome { reply: reply(401, false, "Invalid password"), role: None }
    }
}

/// How a login request is answered now (see `login_reply_at`); whatever the
/// clock read, it is the answer at that reading.
pub fn login_reply(
    limiter: &mut RateLimiter,
    config: &AppConfig,
    username: &Option<String>,
    password: &str,
) -> (r: LoginOutcome)
    ensures
        exists|now: u128|
            {
                &&& final(limiter)@ == after_attempt(old(limiter)@, now)
                &&& !admits(old(limiter)@, now) ==> login_refused(r)
                &&& admits(old(limiter)@, now) ==> login_answer(
                    r,
                    *config,
                    opt_view(*username),
                    password@,
                )
            },
{
    if !limiter.check_and_record() {
        return refused_login();
    }
    login_verdict(config, username, password)
}

/// The answer to `/api/check-auth`: 200 with a session cookie, 401 without.
pub fn auth_check_reply(has_session: bool) -> (r: ApiReply)
    ensures
        has_session ==> reply_spec(r, 200, true, "Authorized"@),
        !has_session ==> reply_spec(r, 401, false, "Unauthorized"@),
{
    if has_session {
        reply(200, true, "Authorized")
    } else {
        reply(401, false, "Unauthorized")
    }
}

/// The answer to `/api/logout`, after the session cookie is removed.
pub fn logout_reply() -> (r: ApiReply)
    ensures
        reply_spec(r, 200, true, "Logged out"@),
{
    reply(200, true, "Logged out")
}

/// The headers added to every response.
pub open spec fn security_headers_spec() -> Seq<(Seq<char>, Seq<char>)> {
    seq![
        ("Content-Security-Policy"@, CONTENT_SECURITY_POLICY@),
        ("X-Frame-Options"@, "DENY"@),
        ("X-Content-Type-Options"@, "nosniff"@),
        ("Referrer-Policy"@, "no-referrer"@),
        ("Permissions-Policy"@, "microphone=(self)"@),
    ]
}

pub const CONTENT_SECURITY_POLICY: &'static str = "default-src 'self'; script-src 'self' 'unsafe-eval'; style-src 'self' 'unsafe-inline'; img-src 'self' data: blob:; connect-src 'self' wss:; media-src 'self' blob:; font-src 'self'";

pub open spec fn pairs_view(v: Seq<(String, String)>) -> Seq<(Seq<char>, Seq<char>)> {
    v.map_values(|p: (String, String)| (p.0@, p.1@))
}

/// The security headers added to every response: content security policy,
/// no framing, no MIME sniffing, no referrer, microphone only for this site.
pub fn security_headers() -> (r: Vec<(String, String)>)
    ensures
        pairs_view(r@) == security_headers_spec(),
{
    let mut v: Vec<(String, String)> = Vec::new();
    v.push((String::from_str("Content-Security-Policy"), String::from_str(CONTENT_SECURITY_POLICY)));
    v.push((String::from_str("X-Frame-Options"), String::from_str("DENY")));
    v.push((String::from_str("X-Content-Type-Options"), String::from_str("nosniff")));
    v.push((String::from_str("Referrer-Policy"), String::from_str("no-referrer")));
    v.push((String::from_str("Permissions-Policy"), String::from_str("microphone=(self)")));
    assert(pairs_view(v@) =~= security_headers_spec());
    v
}

/// The embedded asset a request path names: the path without its leading
/// slashes.
pub fn asset_path(file: &str) -> (r: String)
    ensures
        r@ == strip_leading_spec(file@, '/'),
{
    strip_leading(file, '/')
}

/// The MIME type `mime_guess` derives from a path's extension, falling back
/// to `application/octet-stream`.
pub uninterp spec fn mime_for_path(path: Seq<char>) -> Seq<char>;

/// Calls `mime_guess::from_path(path).first_or_octet_stream()` and renders the
/// MIME type. Claimed: the result is `mime_for_path` of the path.
#[verifier::external_body]
fn guess_mime(path: &str) -> (r: String)
    ensures
        r@ == mime_for_path(path@),
{
    mime_guess::from_path(path).first_or_octet_stream().to_string()
}

/// The `Content-Type` a file is served with.
pub fn content_type(path: &str) -> (r: String)
    ensures
        r@ == mime_for_path(path@),
{
    guess_mime(path)
}

} // verus!
