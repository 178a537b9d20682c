use vstd::prelude::*;

pub mod http_server;
pub mod scope;
pub mod text;
pub mod flake;
pub mod scaffold;
pub mod paths;
pub mod hashing;
pub mod error;
pub mod filesystem;
pub mod strings;
pub mod plugin;
pub mod origins;
pub mod launch;
pub mod config;
pub mod update;
pub mod auth;
pub mod runtime;
pub mod mdns;
pub mod ffi;
pub mod pilot;
pub mod laws;
pub mod value_laws;
