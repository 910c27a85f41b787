//! The core of a self-hosted file-hosting service.
//!
//! Three parts carry the service's rules:
//!
//! - the metadata store ([`services::folder_manager`]), which keeps folders
//!   in a forest and files in folders, and whose operations keep both tables
//!   sound ([`services::folder_laws`]);
//! - the token service ([`handlers::auth`]), which issues, validates and
//!   revokes signed session tokens;
//! - the admission limiter ([`middleware::rate_limit`]), which classes routes
//!   and gives each client of a class its own allowance.
//!
//! Around them stand the decisions of the request handlers and the helpers
//! they share. Nothing here reads or writes files or sockets: the program
//! that serves requests hands in plain values and acts on what comes back.

pub mod config;
pub mod error;
pub mod handlers;
pub mod middleware;
pub mod models;
pub mod services;
pub mod utils;
