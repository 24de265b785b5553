//! Verified core of the StarRustDesk remote desktop client.
pub mod keyboard;
pub mod text;
pub mod version;
pub mod number;
pub mod endpoint;
pub mod punch;
pub mod rendezvous;
pub mod connect;
pub mod assoc;
pub mod route;
pub mod crypto;
pub mod handshake;
pub mod session;
pub mod cursor;
pub mod media;
pub mod files;
pub mod online;
pub mod receive;
