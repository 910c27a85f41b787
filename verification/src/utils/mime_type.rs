//! MIME types by file extension.

use crate::utils::path::{extension, extension_of};
use crate::utils::text::{owned, starts_with, str_eq};
use vstd::prelude::*;

verus! {

/// `text` in lower case, as `str::to_lowercase` gives it.
pub uninterp spec fn lowercased(text: Seq<char>) -> Seq<char>;

/// The lower-case form of `text`, by `str::to_lowercase`. The result is a
/// function of the text alone.
#[verifier::external_body]
pub(crate) fn to_lower(text: &str) -> (out: String)
    ensures
        out@ == lowercased(text@),
{
    text.to_lowercase()
}

/// The extension of `filename`, in lower case.
pub open spec fn lower_extension_of(filename: Seq<char>) -> Option<Seq<char>> {
    match extension_of(filename) {
        Some(e) => Some(lowercased(e)),
        None => None,
    }
}

/// The extension of `filename`, in lower case.
pub fn lower_extension(filename: &str) -> (ext: Option<String>)
    ensures
        match ext {
            Some(e) => Some(e@),
            None => None,
        } == lower_extension_of(filename@),
{
    match extension(filename) {
        Some(e) => Some(to_lower(e.as_str())),
        None => None,
    }
}

/// The MIME type that goes with the lower-case extension `ext`.
pub open spec fn mime_of(ext: Option<Seq<char>>) -> Seq<char> {
    match ext {
        Some(e) => if e == "jpg"@ || e == "jpeg"@ {
            "image/jpeg"@
        } else if e == "png"@ {
            "image/png"@
        } else if e == "gif"@ {
            "image/gif"@
        } else if e == "webp"@ {
            "image/webp"@
        } else if e == "bmp"@ {
            "image/bmp"@
        } else if e == "tiff"@ || e == "tif"@ {
            "image/tiff"@
        } else if e == "svg"@ {
            "image/svg+xml"@
        } else if e == "ico"@ {
            "image/x-icon"@
        } else if e == "pdf"@ {
            "application/pdf"@
        } else if e == "doc"@ {
            "application/msword"@
        } else if e == "docx"@ {
            "application/vnd.openxmlformats-officedocument.wordprocessingml.document"@
        } else if e == "xls"@ {
            "application/vnd.ms-excel"@
        } else if e == "xlsx"@ {
            "application/vnd.openxmlformats-officedocument.spreadsheetml.sheet"@
        } else if e == "ppt"@ {
            "application/vnd.ms-powerpoint"@
        } else if e == "pptx"@ {
            "application/vnd.openxmlformats-officedocument.presentationml.presentation"@
        } else if e == "txt"@ {
            "text/plain"@
        } else if e == "csv"@ {
            "text/csv"@
        } else if e == "html"@ || e == "htm"@ {
            "text/html"@
        } else if e == "css"@ {
            "text/css"@
        } else if e == "js"@ {
            "application/javascript"@
        } else if e == "json"@ {
            "application/json"@
        } else if e == "xml"@ {
            "application/xml"@
        } else if e == "zip"@ {
            "application/zip"@
        } else if e == "rar"@ {
            "application/vnd.rar"@
        } else if e == "7z"@ {
            "application/x-7z-compressed"@
        } else if e == "tar"@ {
            "application/x-tar"@
        } else if e == "gz"@ {
            "application/gzip"@
        } else if e == "mp3"@ {
            "audio/mpeg"@
        } else if e == "wav"@ {
            "audio/wav"@
        } else if e == "ogg"@ {
            "audio/ogg"@
        } else if e == "m4a"@ {
            "audio/mp4"@
        } else if e == "flac"@ {
            "audio/flac"@
        } else if e == "mp4"@ {
            "video/mp4"@
        } else if e == "avi"@ {
            "video/x-msvideo"@
        } else if e == "mov"@ {
            "video/quicktime"@
        } else if e == "wmv"@ {
            "video/x-ms-wmv"@
        } else if e == "flv"@ {
            "video/x-flv"@
        } else if e == "webm"@ {
            "video/webm"@
        } else if e == "mkv"@ {
            "video/x-matroska"@
        } else {
            "application/octet-stream"@
        },
        None => "application/octet-stream"@,
    }
}

/// The MIME type that goes with the lower-case extension `ext`.
pub fn mime_for_extension(ext: Option<&str>) -> (mime: String)
    ensures
        mime@ == mime_of(
            match ext {
                Some(e) => Some(e@),
                None => None,
            },
        ),
{
    let e = match ext {
        Some(e) => e,
        None => {
            return owned("application/octet-stream");
        },
    };
    let mime = if str_eq(e, "jpg") || str_eq(e, "jpeg") {
        "image/jpeg"
    } else if str_eq(e, "png") {
        "image/png"
    } else if str_eq(e, "gif") {
        "image/gif"
    } else if str_eq(e, "webp") {
        "image/webp"
    } else if str_eq(e, "bmp") {
        "image/bmp"
    } else if str_eq(e, "tiff") || str_eq(e, "tif") {
        "image/tiff"
    } else if str_eq(e, "svg") {
        "image/svg+xml"
    } else if str_eq(e, "ico") {
        "image/x-icon"
    } else if str_eq(e, "pdf") {
        "application/pdf"
    } else if str_eq(e, "doc") {
        "application/msword"
    } else if str_eq(e, "docx") {
        "application/vnd.openxmlformats-officedocument.wordprocessingml.document"
    } else if str_eq(e, "xls") {
        "application/vnd.ms-excel"
    } else if str_eq(e, "xlsx") {
        "application/vnd.openxmlformats-officedocument.spreadsheetml.sheet"
    } else if str_eq(e, "ppt") {
        "application/vnd.ms-powerpoint"
    } else if str_eq(e, "pptx") {
        "application/vnd.openxmlformats-officedocument.presentationml.presentation"
    } else if str_eq(e, "txt") {
        "text/plain"
    } else if str_eq(e, "csv") {
        "text/csv"
    } else if str_eq(e, "html") || str_eq(e, "htm") {
        "text/html"
    } else if str_eq(e, "css") {
        "text/css"
    } else if str_eq(e, "js") {
        "application/javascript"
    } else if str_eq(e, "json") {
        "application/json"
    } else if str_eq(e, "xml") {
        "application/xml"
    } else if str_eq(e, "zip") {
        "application/zip"
    } else if str_eq(e, "rar") {
        "application/vnd.rar"
    } else if str_eq(e, "7z") {
        "application/x-7z-compressed"
    } else if str_eq(e, "tar") {
        "application/x-tar"
    } else if str_eq(e, "gz") {
        "application/gzip"
    } else if str_eq(e, "mp3") {
        "audio/mpeg"
    } else if str_eq(e, "wav") {
        "audio/wav"
    } else if str_eq(e, "ogg") {
        "audio/ogg"
    } else if str_eq(e, "m4a") {
        "audio/mp4"
    } else if str_eq(e, "flac") {
        "audio/flac"
    } else if str_eq(e, "mp4") {
        "video/mp4"
    } else if str_eq(e, "avi") {
        "video/x-msvideo"
    } else if str_eq(e, "mov") {
        "video/quicktime"
    } else if str_eq(e, "wmv") {
        "video/x-ms-wmv"
    } else if str_eq(e, "flv") {
        "video/x-flv"
    } else if str_eq(e, "webm") {
        "video/webm"
    } else if str_eq(e, "mkv") {
        "video/x-matroska"
    } else {
        "application/octet-stream"
    };
    owned(mime)
}

/// The MIME type of the file `filename`, by its extension.
pub fn get_mime_type(filename: &str) -> (mime: String)
    ensures
        mime@ == mime_of(lower_extension_of(filename@)),
{
    match lower_extension(filename) {
        Some(e) => mime_for_extension(Some(e.as_str())),
        None => mime_for_extension(None),
    }
}

/// Whether `mime_type` is the type of an image.
pub fn is_image_mime_type(mime_type: &str) -> (yes: bool)
    ensures
        yes == "image/"@.is_prefix_of(mime_type@),
{
    starts_with(mime_type, "image/")
}

/// The extension that goes with the MIME type `mime`, where one is known.
pub open spec fn extension_for(mime: Seq<char>) -> Option<Seq<char>> {
    if mime == "image/jpeg"@ {
        Some("jpg"@)
    } else if mime == "image/png"@ {
        Some("png"@)
    } else if mime == "image/gif"@ {
        Some("gif"@)
    } else if mime == "image/webp"@ {
        Some("webp"@)
    } else if mime == "image/bmp"@ {
        Some("bmp"@)
    } else if mime == "image/tiff"@ {
        Some("tiff"@)
    } else if mime == "text/plain"@ {
        Some("txt"@)
    } else if mime == "application/pdf"@ {
        Some("pdf"@)
    } else if mime == "application/zip"@ {
        Some("zip"@)
    } else if mime == "audio/mpeg"@ {
        Some("mp3"@)
    } else if mime == "video/mp4"@ {
        Some("mp4"@)
    } else {
        None
    }
}

/// The extension that goes with the MIME type `mime_type`, where one is
/// known.
pub fn get_extension_from_mime(mime_type: &str) -> (ext: Option<&'static str>)
    ensures
        match ext {
            Some(e) => Some(e@),
            None => None,
        } == extension_for(mime_type@),
{
    if str_eq(mime_type, "image/jpeg") {
        Some("jpg")
    } else if str_eq(mime_type, "image/png") {
        Some("png")
    } else if str_eq(mime_type, "image/gif") {
        Some("gif")
    } else if str_eq(mime_type, "image/webp") {
        Some("webp")
    } else if str_eq(mime_type, "image/bmp") {
        Some("bmp")
    } else if str_eq(mime_type, "image/tiff") {
        Some("tiff")
    } else if str_eq(mime_type, "text/plain") {
        Some("txt")
    } else if str_eq(mime_type, "application/pdf") {
        Some("pdf")
    } else if str_eq(mime_type, "application/zip") {
        Some("zip")
    } else if str_eq(mime_type, "audio/mpeg") {
        Some("mp3")
    } else if str_eq(mime_type, "video/mp4") {
        Some("mp4")
    } else {
        None
    }
}

} // verus!
