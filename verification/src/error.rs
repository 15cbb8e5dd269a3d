//! Errors of the configuration commands.

use vstd::prelude::*;
use vstd::string::StringExecFns;

verus! {

#[derive(Debug)]
pub enum ConfigError {
    /// The configuration file is not valid TOML; the parser's message.
    InvalidToml(String),
    /// The password hasher refused the password: it is longer than Argon2
    /// takes.
    PasswordHashing,
    /// `users` is present but not an array of tables.
    UsersNotArrayOfTables,
    /// `rooms` is missing or not an array of tables.
    RoomsNotArrayOfTables,
    /// No room of this name is configured.
    RoomNotFound(String),
}

impl ConfigError {
    pub open spec fn message_spec(&self) -> Seq<char> {
        match self {
            ConfigError::InvalidToml(m) => m@,
            ConfigError::PasswordHashing => "Password hashing failed: invalid password"@,
            ConfigError::UsersNotArrayOfTables => "'users' must be an array of tables ([[users]])"@,
            ConfigError::RoomsNotArrayOfTables => "'rooms' must be an array of tables ([[rooms]])"@,
            ConfigError::RoomNotFound(name) => "Room '"@ + name@ + "' not found in config"@,
        }
    }

    /// The text reported to the user.
    pub fn message(&self) -> (r: String)
        ensures
            r@ == self.message_spec(),
    {
        match self {
            ConfigError::InvalidToml(m) => m.clone(),
            ConfigError::PasswordHashing => String::from_str(
                "Password hashing failed: invalid password",
            ),
            ConfigError::UsersNotArrayOfTables => String::from_str(
                "'users' must be an array of tables ([[users]])",
            ),
            ConfigError::RoomsNotArrayOfTables => String::from_str(
                "'rooms' must be an array of tables ([[rooms]])",
            ),
            ConfigError::RoomNotFound(name) => {
                let mut s = String::from_str("Room '");
                s.append(name.as_str());
                s.append("' not found in config");
                s
            },
        }
    }
}

} // verus!
