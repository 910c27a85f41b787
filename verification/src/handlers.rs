//! What the request handlers decide, apart from the transport.

pub mod auth;
pub mod export;
pub mod files;
pub mod folders;
pub mod frontend;
pub mod health;
pub mod import;
pub mod upload;
