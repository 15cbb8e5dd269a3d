//! The command line: an optional subcommand and an optional configuration
//! path.

use crate::config::UserRole;
use vstd::prelude::*;

verus! {

/// The role given to `add-user` (standard by default).
#[derive(Debug, Clone, Copy, PartialEq, Eq, Structural)]
pub enum RoleArg {
    Admin,
    Standard,
    Guest,
}

impl RoleArg {
    /// The account role this argument stands for.
    pub fn to_role(&self) -> (r: UserRole)
        ensures
            *self == RoleArg::Admin ==> r == UserRole::Admin,
            *self == RoleArg::Standard ==> r == UserRole::Standard,
            *self == RoleArg::Guest ==> r == UserRole::Guest,
    {
        match self {
            RoleArg::Admin => UserRole::Admin,
            RoleArg::Standard => UserRole::Standard,
            RoleArg::Guest => UserRole::Guest,
        }
    }
}

#[derive(Debug)]
pub enum Commands {
    /// Output the current configuration location and values.
    Config,
    /// Update a password in the configuration file; with a room, that room's
    /// password ("" removes it).
    SetPassword { password: String, room: Option<String> },
    /// Add a named user account, or update an existing one.
    AddUser { username: String, password: String, role: RoleArg },
}

#[derive(Debug)]
pub struct Args {
    pub command: Option<Commands>,
    /// Path to the configuration file; the OS configuration directory when
    /// not given.
    pub config: Option<String>,
}

} // verus!
