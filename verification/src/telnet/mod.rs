//! The telnet search server: byte protocol, pictures as text, sessions and
//! passwords.

pub mod protocol;
pub mod render;
pub mod auth;
pub mod session;
pub mod server;
