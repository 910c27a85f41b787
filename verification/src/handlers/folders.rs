//! Listing, creating, deleting and moving folders.

use crate::utils::text::concat3;
use vstd::prelude::*;

verus! {

/// The query of a folder listing.
#[derive(Debug)]
pub struct FolderQuery {
    /// Folder to list; the root where absent.
    pub folder_id: Option<String>,
}

/// The message that answers a deleted folder.
pub fn deleted_message(folder_id: &str) -> (out: String)
    ensures
        out@ == "Folder '"@ + folder_id@ + "' deleted successfully"@,
{
    concat3("Folder '", folder_id, "' deleted successfully")
}

/// The message that answers a moved folder.
pub fn moved_message(folder_id: &str) -> (out: String)
    ensures
        out@ == "Folder '"@ + folder_id@ + "' moved successfully"@,
{
    concat3("Folder '", folder_id, "' moved successfully")
}

} // verus!
