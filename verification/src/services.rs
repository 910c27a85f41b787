//! The services behind the request handlers.

pub mod file_upload;
pub mod file_utils;
pub mod folder_laws;
pub mod folder_manager;
pub mod folder_proofs;
pub mod folder_tree;
pub mod image_processor;
