//! Taking in one file.

use crate::config::AppConfig;
use crate::models::{FileMetadata, FileUrls, UploadResponse};
use crate::services::image_processor::ImageProcessor;
use crate::utils::clock::Timestamp;
use crate::utils::mime_type::lower_extension_of;
use crate::utils::text::{concat, concat3, opt_view, owned, piece_texts, pieces_of, split};
use crate::utils::validation::is_image_extension;
use vstd::prelude::*;

verus! {

/// The form of an upload: the file and the folder it goes to.
#[derive(Debug)]
pub struct FileUploadRequest {
    pub file: Vec<u8>,
    pub folder_id: Option<String>,
}

/// The last piece but one of `name` cut at its dots, or `file` where there
/// is no dot.
pub open spec fn dotted_stem(name: Seq<char>) -> Seq<char> {
    let pieces = pieces_of(name, '.');
    if pieces.len() >= 2 {
        pieces[pieces.len() - 2]
    } else {
        "file"@
    }
}

/// The last piece but one of `name` cut at its dots.
pub fn stem_before_last_dot(name: &str) -> (out: String)
    ensures
        out@ == dotted_stem(name@),
{
    let pieces = split(name, '.');
    if pieces.len() >= 2 {
        assert(piece_texts(pieces@)[pieces.len() - 2] == pieces@[pieces.len() - 2]@);
        pieces[pieces.len() - 2].clone()
    } else {
        owned("file")
    }
}

/// The base URL of an upload's answer: the configured one, or localhost.
pub open spec fn answer_base(config: AppConfig) -> Seq<char> {
    match config.server.base_url {
        Some(base) => base@,
        None => "http://localhost:8080"@,
    }
}

/// What an upload answers with: the stored name, the URLs of the file and,
/// for an image, of what is derived from it, and the size and time.
pub fn upload_response(
    config: &AppConfig,
    unique_filename: &str,
    uploaded_at: Timestamp,
    file_size: u64,
) -> (reply: UploadResponse)
    ensures
        reply.success,
        reply.filename@ == unique_filename@,
        reply.urls.original@ == answer_base(*config) + "/uploads/"@ + unique_filename@,
        opt_view(reply.urls.qoi) == if config.image.qoi_enabled && is_image_extension(
            lower_extension_of(unique_filename@),
        ) {
            Some(answer_base(*config) + "/uploads/"@ + (dotted_stem(unique_filename@) + ".qoi"@))
        } else {
            None
        },
        opt_view(reply.urls.thumbnail) == if is_image_extension(
            lower_extension_of(unique_filename@),
        ) {
            Some(
                answer_base(*config) + "/uploads/"@ + (dotted_stem(unique_filename@)
                    + "_thumb.webp"@),
            )
        } else {
            None
        },
        reply.metadata.size == file_size,
        reply.metadata.mime_type@ == "application/octet-stream"@,
        reply.metadata.uploaded_at == uploaded_at,
        reply.metadata.width is None,
        reply.metadata.height is None,
{
    let base = match &config.server.base_url {
        Some(base) => base.clone(),
        None => owned("http://localhost:8080"),
    };
    let stem = stem_before_last_dot(unique_filename);
    let image = ImageProcessor::is_image_file(unique_filename);
    let qoi = if config.image.qoi_enabled && image {
        let name = concat(stem.as_str(), ".qoi");
        Some(concat3(base.as_str(), "/uploads/", name.as_str()))
    } else {
        None
    };
    let thumbnail = if image {
        let name = concat(stem.as_str(), "_thumb.webp");
        Some(concat3(base.as_str(), "/uploads/", name.as_str()))
    } else {
        None
    };
    UploadResponse {
        success: true,
        filename: owned(unique_filename),
        urls: FileUrls {
            original: concat3(base.as_str(), "/uploads/", unique_filename),
            qoi,
            thumbnail,
        },
        metadata: FileMetadata {
            size: file_size,
            mime_type: owned("application/octet-stream"),
            uploaded_at,
            width: None,
            height: None,
        },
    }
}

} // verus!
