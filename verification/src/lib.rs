//! Room, account and configuration logic of a small WebRTC audio chat server.
//!
//! The network, file and process plumbing lives in the binary; this library
//! holds the decisions it makes, each with a contract checked by Verus.

pub mod args;
pub mod commands;
pub mod config;
pub mod defaults;
pub mod error;
pub mod limiter;
pub mod password;
pub mod rooms;
pub mod server;
pub mod session;
pub mod text;
pub mod toml_doc;
pub mod web;
