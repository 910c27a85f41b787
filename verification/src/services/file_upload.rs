//! The steps of taking an upload in, around the writing of its bytes.

use crate::config::AppConfig;
use crate::error::AppError;
use crate::services::file_utils::{
    FileManager, joined_path, qoi_name, stem_or_file, thumbnail_name, unique_name_of,
};
use crate::services::folder_manager::FolderManager;
use crate::services::folder_tree::{
    dangling, file_pos, FileRecord, has_file, kept_sound, StoreState, upsert,
};
use crate::services::image_processor::ImageProcessor;
use crate::utils::mime_type::lower_extension_of;
use crate::utils::text::opt_view;
use crate::utils::validation::{
    detected_type, is_image_extension, magic_of, sanitize_filename, validate_file_size,
    validate_file_type,
};
use vstd::prelude::*;

verus! {

/// Where an upload is to be written.
#[derive(Debug)]
pub struct PreparedUpload {
    /// The name under which the file is stored.
    pub unique_filename: String,
    /// The path to write it to.
    pub file_path: String,
}

/// What is to be derived from a stored upload.
#[derive(Debug)]
pub struct StoredUpload {
    /// The name under which the file is stored.
    pub unique_filename: String,
    /// The size of the file.
    pub size: u64,
    /// Whether the file is an image by its name.
    pub is_image: bool,
    /// Where its QOI copy goes, if one is to be made.
    pub qoi_path: Option<String>,
    /// Where its thumbnail goes, if one is to be made.
    pub thumbnail_path: Option<String>,
}

/// Decides under which name and path an upload of `size` bytes named
/// `original_filename` is stored.
///
/// Fails with `FileTooLarge` exactly if the size is over the limit.
pub fn prepare_upload(
    size: usize,
    original_filename: &str,
    config: &AppConfig,
    file_manager: &FileManager,
) -> (res: Result<PreparedUpload, AppError>)
    ensures
        res is Ok <==> size <= config.server.max_file_size,
        match res {
            Ok(prepared) => {
                &&& prepared.file_path@ == joined_path(
                    file_manager.upload_dir(),
                    prepared.unique_filename@,
                )
                &&& exists|clean: Seq<char>, timestamp: i64, tag: Seq<char>|
                    tag.len() <= 8 && prepared.unique_filename@ == #[trigger] unique_name_of(
                        clean,
                        timestamp,
                        tag,
                    )
            },
            Err(e) => e == AppError::FileTooLarge(size),
        },
{
    match validate_file_size(size, config.server.max_file_size) {
        Ok(()) => {},
        Err(e) => {
            return Err(e);
        },
    }
    let sanitized = sanitize_filename(original_filename);
    let unique_filename = file_manager.generate_unique_filename(sanitized.as_str());
    let file_path = file_manager.get_file_path(unique_filename.as_str());
    Ok(PreparedUpload { unique_filename, file_path })
}

/// Records the written upload `data` in the store, under `folder_id`, and
/// says what is to be derived from it: for an image, a thumbnail, and a QOI
/// copy where that is switched on.
///
/// Fails with `InvalidFileType` if the bytes are those of no known type
/// although the name is that of an image, else with `NotFound` if the
/// folder does not exist. The store changes only on success.
pub fn process_uploaded_file(
    data: &[u8],
    prepared: PreparedUpload,
    folder_id: Option<String>,
    config: &AppConfig,
    file_manager: &FileManager,
    folder_manager: &mut FolderManager,
) -> (res: Result<StoredUpload, AppError>)
    ensures
        match res {
            Ok(stored) => {
                &&& stored.unique_filename@ == prepared.unique_filename@
                &&& stored.size == data@.len()
                &&& stored.is_image == is_image_extension(
                    lower_extension_of(prepared.unique_filename@),
                )
                &&& opt_view(stored.qoi_path) == if stored.is_image && config.image.qoi_enabled {
                    Some(
                        joined_path(
                            file_manager.upload_dir(),
                            stem_or_file(prepared.unique_filename@) + ".qoi"@,
                        ),
                    )
                } else {
                    None
                }
                &&& opt_view(stored.thumbnail_path) == if stored.is_image {
                    Some(
                        joined_path(
                            file_manager.upload_dir(),
                            stem_or_file(prepared.unique_filename@) + "_thumb.webp"@,
                        ),
                    )
                } else {
                    None
                }
                &&& has_file(final(folder_manager)@.files, prepared.unique_filename@)
                &&& !dangling(old(folder_manager)@.folders, opt_view(folder_id))
                &&& final(folder_manager)@ == (StoreState {
                    folders: old(folder_manager)@.folders,
                    files: upsert(
                        old(folder_manager)@.files,
                        FileRecord {
                            filename: prepared.unique_filename@,
                            folder_id: opt_view(folder_id),
                            uploaded_at: final(folder_manager)@.files[file_pos(
                                final(folder_manager)@.files,
                                prepared.unique_filename@,
                            )].uploaded_at,
                            size: data@.len() as u64,
                        },
                    ),
                })
            },
            Err(e) => {
                &&& final(folder_manager)@ == old(folder_manager)@
                &&& e is InvalidFileType <==> detected_type(magic_of(data@)) is None
                    && is_image_extension(lower_extension_of(prepared.unique_filename@))
                &&& e is InvalidFileType || e is NotFound
                &&& e is NotFound ==> dangling(old(folder_manager)@.folders, opt_view(folder_id))
            },
        },
        kept_sound(old(folder_manager)@, final(folder_manager)@),
{
    let unique_filename = prepared.unique_filename;
    match validate_file_type(data, unique_filename.as_str()) {
        Ok(_) => {},
        Err(e) => {
            return Err(e);
        },
    }
    let size = data.len() as u64;
    match folder_manager.assign_file_to_folder(unique_filename.as_str(), folder_id, size) {
        Ok(()) => {},
        Err(e) => {
            return Err(e);
        },
    }
    let is_image = ImageProcessor::is_image_file(unique_filename.as_str());
    let qoi_path = if is_image && config.image.qoi_enabled {
        let name = qoi_name(unique_filename.as_str());
        Some(file_manager.get_file_path(name.as_str()))
    } else {
        None
    };
    let thumbnail_path = if is_image {
        let name = thumbnail_name(unique_filename.as_str());
        Some(file_manager.get_file_path(name.as_str()))
    } else {
        None
    };
    Ok(StoredUpload { unique_filename, size, is_image, qoi_path, thumbnail_path })
}

} // verus!
