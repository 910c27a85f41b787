//! The values that cross the service boundary.

use crate::services::folder_tree::FolderSummary;
use crate::utils::clock::Timestamp;
use crate::utils::text::opt_view;
use vstd::prelude::*;

verus! {

/// What an upload answers with.
#[derive(Debug)]
pub struct UploadResponse {
    pub success: bool,
    pub filename: String,
    pub urls: FileUrls,
    pub metadata: FileMetadata,
}

/// Where a stored file and its derived images can be fetched.
#[derive(Debug, Clone)]
pub struct FileUrls {
    pub original: String,
    pub qoi: Option<String>,
    pub thumbnail: Option<String>,
}

/// What is known of a file right after its upload.
#[derive(Debug)]
pub struct FileMetadata {
    pub size: u64,
    pub mime_type: String,
    pub uploaded_at: Timestamp,
    pub width: Option<u32>,
    pub height: Option<u32>,
}

/// One file of a listing.
#[derive(Debug, Clone)]
pub struct FileInfo {
    pub filename: String,
    pub size: u64,
    pub mime_type: String,
    pub uploaded_at: Timestamp,
    pub is_image: bool,
    pub urls: FileUrls,
    pub dimensions: Option<(u32, u32)>,
    pub folder_id: Option<String>,
}

/// One file of a listing, as plain values.
pub struct FileEntry {
    pub filename: Seq<char>,
    pub size: u64,
    pub mime_type: Seq<char>,
    pub uploaded_at: Timestamp,
    pub is_image: bool,
    pub original_url: Seq<char>,
    pub qoi_url: Option<Seq<char>>,
    pub thumbnail_url: Option<Seq<char>>,
    pub dimensions: Option<(u32, u32)>,
    pub folder_id: Option<Seq<char>>,
}

impl View for FileInfo {
    type V = FileEntry;

    open spec fn view(&self) -> FileEntry {
        FileEntry {
            filename: self.filename@,
            size: self.size,
            mime_type: self.mime_type@,
            uploaded_at: self.uploaded_at,
            is_image: self.is_image,
            original_url: self.urls.original@,
            qoi_url: opt_view(self.urls.qoi),
            thumbnail_url: opt_view(self.urls.thumbnail),
            dimensions: self.dimensions,
            folder_id: opt_view(self.folder_id),
        }
    }
}

/// One page of a folder's files, with the folder's surroundings.
#[derive(Debug)]
pub struct FileListResponse {
    pub files: Vec<FileInfo>,
    pub folders: Vec<FolderInfo>,
    pub current_folder: Option<FolderInfo>,
    pub breadcrumbs: Vec<FolderInfo>,
    pub total: usize,
    pub page: usize,
    pub per_page: usize,
    pub total_pages: usize,
}

/// The body of a failed request.
#[derive(Debug)]
pub struct ErrorResponse {
    pub error: String,
    pub message: String,
}

/// The body of a health probe.
#[derive(Debug)]
pub struct HealthResponse {
    pub status: String,
    pub version: String,
    pub uptime: u64,
    pub upload_dir: String,
    pub auth_mode: String,
}

/// Credentials presented at login.
#[derive(Debug)]
pub struct LoginRequest {
    pub username: String,
    pub password: String,
}

/// A freshly issued pair of tokens.
#[derive(Debug)]
pub struct LoginResponse {
    pub access_token: String,
    pub refresh_token: String,
    pub token_type: String,
    pub expires_in: i64,
}

/// The refresh token presented for rotation.
#[derive(Debug)]
pub struct RefreshRequest {
    pub refresh_token: String,
}

/// Whether a presented token is valid, and for whom.
#[derive(Debug)]
pub struct TokenVerifyResponse {
    pub valid: bool,
    pub username: Option<String>,
    pub expires_at: Option<i64>,
}

/// The body of a logout.
#[derive(Debug)]
pub struct LogoutResponse {
    pub message: String,
}

/// A folder with the counts and size of what lies directly in it.
#[derive(Debug, Clone)]
pub struct FolderInfo {
    pub id: String,
    pub name: String,
    pub parent_id: Option<String>,
    pub created_at: Timestamp,
    pub file_count: usize,
    pub folder_count: usize,
    pub size: u64,
}

impl View for FolderInfo {
    type V = FolderSummary;

    open spec fn view(&self) -> FolderSummary {
        FolderSummary {
            id: self.id@,
            name: self.name@,
            parent_id: opt_view(self.parent_id),
            created_at: self.created_at,
            file_count: self.file_count as nat,
            folder_count: self.folder_count as nat,
            size: self.size,
        }
    }
}

/// A request to create a folder.
#[derive(Debug)]
pub struct CreateFolderRequest {
    pub name: String,
    pub parent_id: Option<String>,
}

/// A request to move a folder.
#[derive(Debug)]
pub struct MoveFolderRequest {
    pub parent_id: Option<String>,
}

/// A folder's subfolders, its own summary and the path that leads to it.
#[derive(Debug)]
pub struct FolderListResponse {
    pub folders: Vec<FolderInfo>,
    pub current_folder: Option<FolderInfo>,
    pub breadcrumbs: Vec<FolderInfo>,
}

} // verus!
