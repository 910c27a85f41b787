//! Small helpers shared by the services.

pub mod clock;
pub mod ident;
pub mod mime_type;
pub mod path;
pub mod text;
pub mod validation;
