//! Argon2 password hashes in the PHC string format: hashing and verification.

use argon2::password_hash::rand_core::OsRng;
use argon2::password_hash::{PasswordHash, PasswordHasher, PasswordVerifier, SaltString};
use argon2::Argon2;
use crate::error::ConfigError;
use vstd::prelude::*;
use vstd::utf8::encode_utf8;

verus! {

/// Whether `PasswordHash::new` accepts the string as a PHC string.
pub uninterp spec fn phc_parses(hash: Seq<char>) -> bool;

/// Whether Argon2 (default instance; the hash's own parameters and salt)
/// verifies the UTF-8 bytes of `password` against the PHC string `hash`.
pub uninterp spec fn argon2_accepts(hash: Seq<char>, password: Seq<char>) -> bool;

/// What `verify_hash` decides: the stored hash is not empty, parses as a PHC
/// string and Argon2 verifies the password against it.
pub open spec fn hash_matches(hash: Seq<char>, plain: Seq<char>) -> bool {
    hash.len() > 0 && phc_parses(hash) && argon2_accepts(hash, plain)
}

/// The text every Argon2id PHC string begins with.
pub open spec fn argon2id_tag() -> Seq<char> {
    seq!['$', 'a', 'r', 'g', 'o', 'n', '2', 'i', 'd', '$']
}

/// What every hash that `hash_password` returns satisfies: an Argon2id PHC
/// string against which the password verifies.
pub open spec fn is_hash_of(hash: Seq<char>, password: Seq<char>) -> bool {
    &&& hash_matches(hash, password)
    &&& hash.len() >= argon2id_tag().len()
    &&& hash.take(argon2id_tag().len() as int) == argon2id_tag()
}

/// Whether Argon2 takes the password: its UTF-8 encoding has at most
/// `0xFFFF_FFFF` bytes (longer ones are refused as too long).
pub open spec fn hashable(password: Seq<char>) -> bool {
    encode_utf8(password).len() <= 0xFFFF_FFFF
}

/// A character of the standard Base64 alphabet.
pub open spec fn is_b64_char(c: char) -> bool {
    ('A' <= c && c <= 'Z') || ('a' <= c && c <= 'z') || ('0' <= c && c <= '9') || c == '+'
        || c == '/'
}

/// The unpadded standard Base64 text of 16 bytes: 22 characters of the
/// alphabet, the last of which carries two bits and four zero bits.
pub open spec fn is_b64_of_16_bytes(s: Seq<char>) -> bool {
    &&& s.len() == 22
    &&& forall|i: int| 0 <= i < 22 ==> is_b64_char(#[trigger] s[i])
    &&& (s[21] == 'A' || s[21] == 'Q' || s[21] == 'g' || s[21] == 'w')
}

/// The PHC string that Argon2id with the default parameters makes of a
/// password and a salt given as Base64 text.
pub uninterp spec fn argon2_phc(password: Seq<char>, salt: Seq<char>) -> Seq<char>;

/// A character takes one to four bytes in UTF-8.
pub proof fn lemma_utf8_len_bounds(s: Seq<char>)
    ensures
        s.len() <= encode_utf8(s).len() <= 4 * s.len(),
    decreases s.len(),
{
    if s.len() > 0 {
        lemma_utf8_len_bounds(s.drop_first());
    }
}

/// A password of at most `0x3FFF_FFFF` characters is short enough to hash.
pub proof fn lemma_short_password_hashable(s: Seq<char>)
    requires
        s.len() <= 0x3FFF_FFFF,
    ensures
        hashable(s),
{
    lemma_utf8_len_bounds(s);
}

/// Calls `PasswordHash::new`. Claimed: the result is `Ok` exactly when
/// `phc_parses` holds; a string that does not begin with `$` never parses
/// (the source refuses the empty string first thing, then any text before
/// the first `$`).
#[verifier::external_body]
fn phc_string_parses(hash: &str) -> (r: bool)
    ensures
        r == phc_parses(hash@),
        (hash@.len() == 0 || hash@[0] != '$') ==> !r,
{
    PasswordHash::new(hash).is_ok()
}

/// Calls `PasswordVerifier::verify_password` of `Argon2::default()` on the
/// parsed PHC string. Claimed: the result is `Ok` exactly when
/// `argon2_accepts` holds. The string is parsed again here, which the
/// `requires` guarantees succeeds.
#[verifier::external_body]
fn argon2_verify(hash: &str, plain: &str) -> (r: bool)
    requires
        phc_parses(hash@),
    ensures
        r == argon2_accepts(hash@, plain@),
{
    match PasswordHash::new(hash) {
        Ok(parsed) => Argon2::default().verify_password(plain.as_bytes(), &parsed).is_ok(),
        Err(_) => false,
    }
}

/// Calls `SaltString::generate` with the operating system's random source and
/// gives the salt's text. Claimed: the text is the unpadded standard Base64
/// encoding of 16 bytes (`generate` fills 16 random bytes and encodes them).
/// Which bytes is not claimed: they are random.
#[verifier::external_body]
fn fresh_salt() -> (r: String)
    ensures
        is_b64_of_16_bytes(r@),
{
    SaltString::generate(&mut OsRng).as_str().to_string()
}

/// Calls `PasswordHasher::hash_password` of `Argon2::default()` with the salt
/// given as Base64 text (through `SaltString::from_b64`) and renders the hash
/// as a PHC string. Claimed: a returned string is an Argon2id PHC string
/// (`$argon2id$` first: the default algorithm is Argon2id), it parses, and
/// the password verifies against it, as the crate documents (its usage
/// example hashes, parses the string back and asserts that verification
/// succeeds); it is `argon2_phc` of the password and the salt (Argon2 with
/// no secret key is a function of them; the string carries the salt and the
/// parameters). With the Base64 text of 16 bytes as salt, hashing fails exactly
/// when the password is longer than `MAX_PWD_LEN` (`0xFFFF_FFFF`) bytes: the
/// salt decodes to 16 bytes (at least `MIN_SALT_LEN`), and the default
/// parameters and output length are valid.
#[verifier::external_body]
fn argon2_hash(password: &str, salt: &str) -> (r: Option<String>)
    ensures
        r matches Some(h) ==> is_hash_of(h@, password@) && h@ == argon2_phc(password@, salt@),
        is_b64_of_16_bytes(salt@) ==> (r is Some <==> hashable(password@)),
{
    match SaltString::from_b64(salt) {
        Ok(s) => Argon2::default().hash_password(password.as_bytes(), &s).ok().map(|h| h.to_string()),
        Err(_) => None,
    }
}

/// Checks a plain password against a stored PHC hash; an empty or malformed
/// hash never matches.
pub fn verify_hash(hash: &str, plain: &str) -> (r: bool)
    ensures
        r == hash_matches(hash@, plain@),
        (hash@.len() == 0 || hash@[0] != '$') ==> !r,
{
    if hash.is_empty() {
        return false;
    }
    if !phc_string_parses(hash) {
        return false;
    }
    argon2_verify(hash, plain)
}

/// Hashes a password with Argon2id and a fresh random salt into a PHC string;
/// only a password longer than Argon2 takes (over `0xFFFF_FFFF` bytes) is
/// refused.
pub fn hash_password(password: &str) -> (r: Result<String, ConfigError>)
    ensures
        match r {
            Ok(h) => {
                &&& is_hash_of(h@, password@)
                &&& exists|salt: Seq<char>|
                    is_b64_of_16_bytes(salt) && h@ == argon2_phc(password@, salt)
            },
            Err(e) => e is PasswordHashing,
        },
        r is Ok <==> hashable(password@),
{
    let salt = fresh_salt();
    match argon2_hash(password, salt.as_str()) {
        Some(h) => {
            assert(is_b64_of_16_bytes(salt@) && h@ == argon2_phc(password@, salt@));
            Ok(h)
        },
        None => Err(ConfigError::PasswordHashing),
    }
}

/// An empty stored hash matches no password.
pub proof fn lemma_empty_hash_never_matches(plain: Seq<char>)
    ensures
        !hash_matches(Seq::empty(), plain),
{
}

/// A hash made by `hash_password` verifies the password it was made from.
pub proof fn lemma_hash_then_verify(hash: Seq<char>, password: Seq<char>)
    requires
        is_hash_of(hash, password),
    ensures
        hash_matches(hash, password),
{
}

} // verus!
