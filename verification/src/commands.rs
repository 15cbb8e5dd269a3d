//! The configuration commands: setting the server password, adding or
//! updating a user account, and setting or removing a room password. Each
//! takes the configuration file's text and gives back the new text.

use crate::config::UserRole;
use crate::error::ConfigError;
use crate::password::{hash_password, hashable, is_hash_of};
use crate::text::text_eq;
use crate::toml_doc::{
    document_aot_len, document_aot_push3, document_aot_set, document_aot_set2, document_aot_str,
    document_aot_unset, document_insert_aot3, document_kind, document_parse_error, document_table_set,
    toml_aot_len, toml_aot_push3, toml_aot_set, toml_aot_set2, toml_aot_str, toml_aot_unset,
    toml_error, toml_insert_aot3, toml_kind, toml_parses, toml_table_set, TomlKind,
};
use vstd::prelude::*;

verus! {

/// Whether `doc[table][...] = ...` can be performed on the parsed document:
/// the table is missing, a table or an inline table.
pub open spec fn assignable(text: Seq<char>, table: Seq<char>) -> bool {
    let k = toml_kind(text, table);
    k == TomlKind::Absent || k == TomlKind::Table || k == TomlKind::InlineTable
}

/// Table `i` is the first table of the array at `key` whose `field` is the
/// string `name`.
pub open spec fn is_first_entry(
    text: Seq<char>,
    key: Seq<char>,
    field: Seq<char>,
    name: Seq<char>,
    i: nat,
) -> bool {
    &&& i < toml_aot_len(text, key)
    &&& toml_aot_str(text, key, i, field) == Some(name)
    &&& forall|j: nat| j < i ==> toml_aot_str(text, key, j, field) != Some(name)
}

/// Some table of the array at `key` has `field` equal to the string `name`.
pub open spec fn has_entry(text: Seq<char>, key: Seq<char>, field: Seq<char>, name: Seq<char>) -> bool {
    exists|i: nat| i < toml_aot_len(text, key) && toml_aot_str(text, key, i, field) == Some(name)
}

/// The first table of the array at `key` whose `field` is the string `name`.
fn find_entry(text: &str, key: &str, field: &str, name: &str) -> (r: Option<usize>)
    requires
        toml_parses(text@),
        toml_kind(text@, key@) == TomlKind::ArrayOfTables,
    ensures
        match r {
            Some(i) => is_first_entry(text@, key@, field@, name@, i as nat),
            None => !has_entry(text@, key@, field@, name@),
        },
{
    let n = document_aot_len(text, key);
    let mut i: usize = 0;
    while i < n
        invariant
            toml_parses(text@),
            toml_kind(text@, key@) == TomlKind::ArrayOfTables,
            n == toml_aot_len(text@, key@),
            i <= n,
            forall|j: nat| j < i ==> toml_aot_str(text@, key@, j, field@) != Some(name@),
        decreases n - i,
    {
        match document_aot_str(text, key, i, field) {
            Some(s) => {
                if text_eq(s.as_str(), name) {
                    return Some(i);
                }
            },
            None => {},
        }
        i = i + 1;
    }
    None
}

/// Sets the server password: its hash goes to
/// `security.server_password_hash`. Documents in which `security` holds a
/// plain value or an array of tables are left out (the edit panics on them).
pub fn update_password(content: &str, new_password: &str) -> (r: Result<String, ConfigError>)
    requires
        toml_parses(content@) ==> assignable(content@, "security"@),
    ensures
        !toml_parses(content@) ==> (r matches Err(ConfigError::InvalidToml(m)) && m@ == toml_error(
            content@,
        )),
        toml_parses(content@) ==> match r {
            Ok(t) => exists|h: Seq<char>|
                is_hash_of(h, new_password@) && t@ == toml_table_set(
                    content@,
                    "security"@,
                    "server_password_hash"@,
                    h,
                ),
            Err(e) => e is PasswordHashing,
        },
        toml_parses(content@) ==> (r is Ok <==> hashable(new_password@)),
{
    match document_parse_error(content) {
        Some(e) => return Err(ConfigError::InvalidToml(e)),
        None => {},
    }
    let hash = match hash_password(new_password) {
        Ok(h) => h,
        Err(e) => return Err(e),
    };
    Ok(document_table_set(content, "security", "server_password_hash", hash.as_str()))
}

/// `update_password` on any document: `None` exactly where it would be
/// refused, that is where `security` cannot be assigned into and hashing
/// succeeded.
pub fn try_update_password(content: &str, new_password: &str) -> (r: Option<
    Result<String, ConfigError>,
>)
    ensures
        !toml_parses(content@) ==> (r matches Some(Err(ConfigError::InvalidToml(m))) && m@ == toml_error(
            content@,
        )),
        toml_parses(content@) && !hashable(new_password@) ==> r matches Some(
            Err(ConfigError::PasswordHashing),
        ),
        toml_parses(content@) && hashable(new_password@) && !assignable(content@, "security"@)
            ==> r is None,
        toml_parses(content@) && hashable(new_password@) && assignable(content@, "security"@)
            ==> match r {
            Some(Ok(t)) => exists|h: Seq<char>|
                is_hash_of(h, new_password@) && t@ == toml_table_set(
                    content@,
                    "security"@,
                    "server_password_hash"@,
                    h,
                ),
            _ => false,
        },
{
    match document_parse_error(content) {
        Some(e) => return Some(Err(ConfigError::InvalidToml(e))),
        None => {},
    }
    let kind = document_kind(content, "security");
    if kind == TomlKind::Absent || kind == TomlKind::Table || kind == TomlKind::InlineTable {
        Some(update_password(content, new_password))
    } else {
        match hash_password(new_password) {
            Ok(_) => None,
            Err(e) => Some(Err(e)),
        }
    }
}

/// The three fields of a user table.
pub open spec fn user_fields() -> (Seq<char>, Seq<char>, Seq<char>) {
    ("username"@, "password_hash"@, "role"@)
}

/// Adds a user account, or updates the password hash and role of the first
/// account with that name, in the `[[users]]` array (made when missing).
pub fn add_or_update_user(
    content: &str,
    username: &str,
    password: &str,
    role: &UserRole,
) -> (r: Result<String, ConfigError>)
    ensures
        !toml_parses(content@) ==> (r matches Err(ConfigError::InvalidToml(m)) && m@ == toml_error(
            content@,
        )),
        toml_parses(content@) ==> match r {
            Ok(t) => exists|h: Seq<char>|
                {
                    &&& is_hash_of(h, password@)
                    &&& t@ == match toml_kind(content@, "users"@) {
                        TomlKind::Absent => toml_insert_aot3(
                            content@,
                            "users"@,
                            user_fields(),
                            (username@, h, role.name_spec()),
                        ),
                        _ => if has_entry(content@, "users"@, "username"@, username@) {
                            let i = choose|i: nat|
                                is_first_entry(content@, "users"@, "username"@, username@, i);
                            toml_aot_set2(
                                content@,
                                "users"@,
                                i,
                                "password_hash"@,
                                h,
                                "role"@,
                                role.name_spec(),
                            )
                        } else {
                            toml_aot_push3(
                                content@,
                                "users"@,
                                user_fields(),
                                (username@, h, role.name_spec()),
                            )
                        },
                    }
                    &&& (toml_kind(content@, "users"@) == TomlKind::Absent || toml_kind(
                        content@,
                        "users"@,
                    ) == TomlKind::ArrayOfTables)
                },
            Err(e) => (e is PasswordHashing && !hashable(password@)) || (e is UsersNotArrayOfTables
                && hashable(password@) && toml_kind(content@, "users"@) != TomlKind::Absent
                && toml_kind(content@, "users"@) != TomlKind::ArrayOfTables),
        },
        toml_parses(content@) ==> (r is Ok <==> (hashable(password@) && (toml_kind(
            content@,
            "users"@,
        ) == TomlKind::Absent || toml_kind(content@, "users"@) == TomlKind::ArrayOfTables))),
{
    match document_parse_error(content) {
        Some(e) => return Err(ConfigError::InvalidToml(e)),
        None => {},
    }
    let hash = match hash_password(password) {
        Ok(h) => h,
        Err(e) => return Err(e),
    };
    let role_str = role.to_string();
    let kind = document_kind(content, "users");
    if kind == TomlKind::Absent {
        return Ok(
            document_insert_aot3(
                content,
                "users",
                ("username", "password_hash", "role"),
                (username, hash.as_str(), role_str.as_str()),
            ),
        );
    }
    if kind != TomlKind::ArrayOfTables {
        return Err(ConfigError::UsersNotArrayOfTables);
    }
    match find_entry(content, "users", "username", username) {
        Some(i) => {
            proof {
                let k = choose|k: nat|
                    is_first_entry(content@, "users"@, "username"@, username@, k);
                if k < i {
                } else if i < k {
                }
                assert(k == i as nat);
            }
            Ok(
                document_aot_set2(
                    content,
                    "users",
                    i,
                    "password_hash",
                    hash.as_str(),
                    "role",
                    role_str.as_str(),
                ),
            )
        },
        None => Ok(
            document_aot_push3(
                content,
                "users",
                ("username", "password_hash", "role"),
                (username, hash.as_str(), role_str.as_str()),
            ),
        ),
    }
}

/// Sets the password of the first room with this name, or removes it when the
/// new password is empty.
pub fn update_room_password(content: &str, room_name: &str, new_password: &str) -> (r:
    Result<String, ConfigError>)
    ensures
        !toml_parses(content@) ==> (r matches Err(ConfigError::InvalidToml(m)) && m@ == toml_error(
            content@,
        )),
        toml_parses(content@) && toml_kind(content@, "rooms"@) != TomlKind::ArrayOfTables ==> r
            matches Err(ConfigError::RoomsNotArrayOfTables),
        toml_parses(content@) && toml_kind(content@, "rooms"@) == TomlKind::ArrayOfTables
            && !has_entry(content@, "rooms"@, "name"@, room_name@) ==> (r matches Err(
            ConfigError::RoomNotFound(n),
        ) && n@ == room_name@),
        toml_parses(content@) && toml_kind(content@, "rooms"@) == TomlKind::ArrayOfTables
            && has_entry(content@, "rooms"@, "name"@, room_name@) ==> ({
            let i = choose|i: nat| is_first_entry(content@, "rooms"@, "name"@, room_name@, i);
            if new_password@.len() == 0 {
                r matches Ok(t) && t@ == toml_aot_unset(content@, "rooms"@, i, "password_hash"@)
            } else {
                &&& (r is Ok <==> hashable(new_password@))
                &&& match r {
                    Ok(t) => exists|h: Seq<char>|
                        is_hash_of(h, new_password@) && t@ == toml_aot_set(
                            content@,
                            "rooms"@,
                            i,
                            "password_hash"@,
                            h,
                        ),
                    Err(e) => e is PasswordHashing && !hashable(new_password@),
                }
            }
        }),
{
    match document_parse_error(content) {
        Some(e) => return Err(ConfigError::InvalidToml(e)),
        None => {},
    }
    if document_kind(content, "rooms") != TomlKind::ArrayOfTables {
        return Err(ConfigError::RoomsNotArrayOfTables);
    }
    let i = match find_entry(content, "rooms", "name", room_name) {
        Some(i) => i,
        None => return Err(ConfigError::RoomNotFound(room_name.to_owned())),
    };
    proof {
        let k = choose|k: nat| is_first_entry(content@, "rooms"@, "name"@, room_name@, k);
        if k < i {
        } else if i < k {
        }
        assert(k == i as nat);
    }
    if new_password.is_empty() {
        Ok(document_aot_unset(content, "rooms", i, "password_hash"))
    } else {
        let hash = match hash_password(new_password) {
            Ok(h) => h,
            Err(e) => return Err(e),
        };
        Ok(document_aot_set(content, "rooms", i, "password_hash", hash.as_str()))
    }
}

} // verus!
