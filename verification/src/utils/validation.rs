//! Checks on what is uploaded: size, content type, file name.

use crate::error::AppError;
use crate::utils::ident::random_id;
use crate::utils::mime_type::{
    lower_extension, lower_extension_of, lowercased, mime_for_extension, mime_of, to_lower,
};
use crate::utils::path::{file_stem, file_stem_of};
use crate::utils::text::{chars_of, concat, concat3, is_space, owned, slice_of, str_eq, string_of};
use vstd::prelude::*;

verus! {

/// The number of leading bytes that tell a file type.
pub const MAX_MAGIC_BYTES: usize = 12;

/// The bytes `a`, `b`, `c`, `d` stand in `data` from position `at` on.
pub open spec fn four_at(data: Seq<u8>, at: int, a: u8, b: u8, c: u8, d: u8) -> bool {
    at + 4 <= data.len() && data[at] == a && data[at + 1] == b && data[at + 2] == c && data[at
        + 3] == d
}

/// The type that the leading bytes `data` tell, where they tell one. At
/// least four bytes are needed; WebP is told by exactly twelve.
pub open spec fn detected_type(data: Seq<u8>) -> Option<Seq<char>> {
    if data.len() < 4 {
        None
    } else if data[0] == 0xFF && data[1] == 0xD8 && data[2] == 0xFF {
        Some("image/jpeg"@)
    } else if four_at(data, 0, 0x89, 0x50, 0x4E, 0x47) && four_at(data, 4, 0x0D, 0x0A, 0x1A, 0x0A) {
        Some("image/png"@)
    } else if four_at(data, 0, 0x47, 0x49, 0x46, 0x38) && data.len() >= 6 && (data[4] == 0x37
        || data[4] == 0x39) && data[5] == 0x61 {
        Some("image/gif"@)
    } else if data.len() == 12 && four_at(data, 0, 0x52, 0x49, 0x46, 0x46) && four_at(
        data,
        8,
        0x57,
        0x45,
        0x42,
        0x50,
    ) {
        Some("image/webp"@)
    } else if data[0] == 0x42 && data[1] == 0x4D {
        Some("image/bmp"@)
    } else if four_at(data, 0, 0x49, 0x49, 0x2A, 0x00) || four_at(data, 0, 0x4D, 0x4D, 0x00, 0x2A) {
        Some("image/tiff"@)
    } else if four_at(data, 0, 0x25, 0x50, 0x44, 0x46) {
        Some("application/pdf"@)
    } else if four_at(data, 0, 0x50, 0x4B, 0x03, 0x04) || four_at(data, 0, 0x50, 0x4B, 0x05, 0x06)
        || four_at(data, 0, 0x50, 0x4B, 0x07, 0x08) {
        Some("application/zip"@)
    } else if four_at(data, 0, 0x52, 0x61, 0x72, 0x21) && data.len() >= 7 && data[4] == 0x1A
        && data[5] == 0x07 && data[6] == 0x00 {
        Some("application/vnd.rar"@)
    } else if four_at(data, 0, 0x37, 0x7A, 0xBC, 0xAF) && data.len() >= 6 && data[4] == 0x27
        && data[5] == 0x1C {
        Some("application/x-7z-compressed"@)
    } else if (data[0] == 0xFF && (data[1] == 0xFB || data[1] == 0xF3 || data[1] == 0xF2)) || (
    data[0] == 0x49 && data[1] == 0x44 && data[2] == 0x33) {
        Some("audio/mpeg"@)
    } else if four_at(data, 4, 0x66, 0x74, 0x79, 0x70) {
        if four_at(data, 8, 0x6D, 0x70, 0x34, 0x31) || four_at(data, 8, 0x6D, 0x70, 0x34, 0x32)
            || four_at(data, 8, 0x69, 0x73, 0x6F, 0x6D) || four_at(
            data,
            8,
            0x69,
            0x73,
            0x6F,
            0x32,
        ) {
            Some("video/mp4"@)
        } else {
            None
        }
    } else {
        None
    }
}

/// Whether the bytes `a`, `b`, `c`, `d` stand in `data` from `at` on.
fn four(data: &[u8], at: usize, a: u8, b: u8, c: u8, d: u8) -> (found: bool)
    requires
        at <= 8,
    ensures
        found == four_at(data@, at as int, a, b, c, d),
{
    data.len() >= 4 && at <= data.len() - 4 && data[at] == a && data[at + 1] == b && data[at + 2]
        == c && data[at + 3] == d
}

/// The type that the leading bytes `data` tell, where they tell one.
pub fn detect_file_type(data: &[u8]) -> (mime: Option<String>)
    ensures
        match mime {
            Some(m) => Some(m@),
            None => None,
        } == detected_type(data@),
{
    if data.len() < 4 {
        return None;
    }
    let mime = if data[0] == 0xFF && data[1] == 0xD8 && data[2] == 0xFF {
        "image/jpeg"
    } else if four(data, 0, 0x89, 0x50, 0x4E, 0x47) && four(data, 4, 0x0D, 0x0A, 0x1A, 0x0A) {
        "image/png"
    } else if four(data, 0, 0x47, 0x49, 0x46, 0x38) && data.len() >= 6 && (data[4] == 0x37
        || data[4] == 0x39) && data[5] == 0x61 {
        "image/gif"
    } else if data.len() == 12 && four(data, 0, 0x52, 0x49, 0x46, 0x46) && four(
        data,
        8,
        0x57,
        0x45,
        0x42,
        0x50,
    ) {
        "image/webp"
    } else if data[0] == 0x42 && data[1] == 0x4D {
        "image/bmp"
    } else if four(data, 0, 0x49, 0x49, 0x2A, 0x00) || four(data, 0, 0x4D, 0x4D, 0x00, 0x2A) {
        "image/tiff"
    } else if four(data, 0, 0x25, 0x50, 0x44, 0x46) {
        "application/pdf"
    } else if four(data, 0, 0x50, 0x4B, 0x03, 0x04) || four(data, 0, 0x50, 0x4B, 0x05, 0x06)
        || four(data, 0, 0x50, 0x4B, 0x07, 0x08) {
        "application/zip"
    } else if four(data, 0, 0x52, 0x61, 0x72, 0x21) && data.len() >= 7 && data[4] == 0x1A
        && data[5] == 0x07 && data[6] == 0x00 {
        "application/vnd.rar"
    } else if four(data, 0, 0x37, 0x7A, 0xBC, 0xAF) && data.len() >= 6 && data[4] == 0x27
        && data[5] == 0x1C {
        "application/x-7z-compressed"
    } else if (data[0] == 0xFF && (data[1] == 0xFB || data[1] == 0xF3 || data[1] == 0xF2)) || (
    data[0] == 0x49 && data[1] == 0x44 && data[2] == 0x33) {
        "audio/mpeg"
    } else if four(data, 4, 0x66, 0x74, 0x79, 0x70) {
        if four(data, 8, 0x6D, 0x70, 0x34, 0x31) || four(data, 8, 0x6D, 0x70, 0x34, 0x32) || four(
            data,
            8,
            0x69,
            0x73,
            0x6F,
            0x6D,
        ) || four(data, 8, 0x69, 0x73, 0x6F, 0x32) {
            "video/mp4"
        } else {
            return None;
        }
    } else {
        return None;
    };
    Some(owned(mime))
}

/// The lower-case extension `ext` is one of an image format.
pub open spec fn is_image_extension(ext: Option<Seq<char>>) -> bool {
    match ext {
        Some(e) => e == "jpg"@ || e == "jpeg"@ || e == "png"@ || e == "gif"@ || e == "bmp"@ || e
            == "tiff"@ || e == "tif"@ || e == "webp"@,
        None => false,
    }
}

/// Whether the lower-case extension `ext` is one of an image format.
pub fn image_extension(ext: Option<&str>) -> (yes: bool)
    ensures
        yes == is_image_extension(
            match ext {
                Some(e) => Some(e@),
                None => None,
            },
        ),
{
    match ext {
        Some(e) => str_eq(e, "jpg") || str_eq(e, "jpeg") || str_eq(e, "png") || str_eq(e, "gif")
            || str_eq(e, "bmp") || str_eq(e, "tiff") || str_eq(e, "tif") || str_eq(e, "webp"),
        None => false,
    }
}

/// The first `MAX_MAGIC_BYTES` bytes of `data`.
pub open spec fn magic_of(data: Seq<u8>) -> Seq<u8> {
    if data.len() <= MAX_MAGIC_BYTES {
        data
    } else {
        data.take(MAX_MAGIC_BYTES as int)
    }
}

/// The type of an upload, or `None` where it is refused: the type that its
/// leading bytes tell, else the type that goes with its lower-case
/// extension `ext`, unless that is the extension of an image.
pub open spec fn settled_type(detected: Option<Seq<char>>, ext: Option<Seq<char>>) -> Option<
    Seq<char>,
> {
    match detected {
        Some(m) => Some(m),
        None => if is_image_extension(ext) {
            None
        } else {
            Some(mime_of(ext))
        },
    }
}

/// The type of an upload whose leading bytes tell the type `detected` and
/// whose name has the lower-case extension `ext`.
///
/// Fails with `InvalidFileType` exactly if the bytes tell no type although
/// the extension is that of an image: a file that claims to be an image
/// must look like one.
pub fn settle_file_type(detected: Option<String>, ext: Option<&str>) -> (res: Result<
    String,
    AppError,
>)
    ensures
        match res {
            Ok(mime) => Some(mime@),
            Err(_) => None,
        } == settled_type(
            match detected {
                Some(m) => Some(m@),
                None => None,
            },
            match ext {
                Some(e) => Some(e@),
                None => None,
            },
        ),
        res matches Err(e) ==> e is InvalidFileType,
{
    if let Some(mime) = detected {
        return Ok(mime);
    }
    if image_extension(ext) {
        return Err(
            AppError::InvalidFileType(owned("File claims to be an image but has invalid format")),
        );
    }
    Ok(mime_for_extension(ext))
}

/// The type of the upload `data` named `filename`: what its leading bytes
/// tell, else what its extension says.
///
/// Fails with `InvalidFileType` exactly if the bytes tell no type although
/// the extension is that of an image.
pub fn validate_file_type(data: &[u8], filename: &str) -> (res: Result<String, AppError>)
    ensures
        match res {
            Ok(mime) => Some(mime@),
            Err(_) => None,
        } == settled_type(detected_type(magic_of(data@)), lower_extension_of(filename@)),
        match res {
            Ok(mime) => mime@ == match detected_type(magic_of(data@)) {
                Some(m) => m,
                None => mime_of(lower_extension_of(filename@)),
            },
            Err(e) => e is InvalidFileType,
        },
        res is Err <==> detected_type(magic_of(data@)) is None && is_image_extension(
            lower_extension_of(filename@),
        ),
{
    let magic = if data.len() <= MAX_MAGIC_BYTES {
        data
    } else {
        vstd::slice::slice_subrange(data, 0, MAX_MAGIC_BYTES)
    };
    assert(magic@ =~= magic_of(data@));
    let detected = detect_file_type(magic);
    let ext = lower_extension(filename);
    match &ext {
        Some(e) => settle_file_type(detected, Some(e.as_str())),
        None => settle_file_type(detected, None),
    }
}

/// Checks an upload of `size` bytes against the limit `max_size`.
///
/// Fails with `FileTooLarge`, carrying the size, exactly if the size is
/// over the limit.
pub fn validate_file_size(size: usize, max_size: usize) -> (res: Result<(), AppError>)
    ensures
        res is Ok <==> size <= max_size,
        res matches Err(e) ==> e == AppError::FileTooLarge(size),
{
    if size > max_size {
        return Err(AppError::FileTooLarge(size));
    }
    Ok(())
}

/// The characters that no file name may hold.
pub open spec fn is_forbidden(c: char) -> bool {
    c == '/' || c == '\\' || c == ':' || c == '*' || c == '?' || c == '"' || c == '<' || c == '>'
        || c == '|'
}

/// The ASCII punctuation characters.
pub open spec fn is_ascii_punct(c: char) -> bool {
    let v = c as int;
    (33 <= v <= 47) || (58 <= v <= 64) || (91 <= v <= 96) || (123 <= v <= 126)
}

/// What stands for `c` in a file name: an underscore for white space and
/// for punctuation other than `-`, `_` and `.`, else `c` itself.
pub open spec fn replaced(c: char) -> char {
    if is_space(c) || (is_ascii_punct(c) && c != '-' && c != '_' && c != '.') {
        '_'
    } else {
        c
    }
}

/// `s` without its forbidden characters, and with each other character
/// replaced.
pub open spec fn scrubbed(s: Seq<char>) -> Seq<char>
    decreases s.len(),
{
    if s.len() == 0 {
        s
    } else if is_forbidden(s.last()) {
        scrubbed(s.drop_last())
    } else {
        scrubbed(s.drop_last()).push(replaced(s.last()))
    }
}

/// `s` with every run of underscores shortened to one.
pub open spec fn squeezed(s: Seq<char>) -> Seq<char>
    decreases s.len(),
{
    if s.len() == 0 {
        s
    } else {
        let front = squeezed(s.drop_last());
        if s.last() == '_' && front.len() > 0 && front.last() == '_' {
            front
        } else {
            front.push(s.last())
        }
    }
}

/// `s` without the underscores at its front.
pub open spec fn without_leading(s: Seq<char>) -> Seq<char>
    decreases s.len(),
{
    if s.len() > 0 && s[0] == '_' {
        without_leading(s.drop_first())
    } else {
        s
    }
}

/// `s` without the underscores at its end.
pub open spec fn without_trailing(s: Seq<char>) -> Seq<char>
    decreases s.len(),
{
    if s.len() > 0 && s.last() == '_' {
        without_trailing(s.drop_last())
    } else {
        s
    }
}

/// The clean form of the lower-case stem `lower`: scrubbed, squeezed, and
/// without underscores at its ends.
pub open spec fn cleaned(lower: Seq<char>) -> Seq<char> {
    without_trailing(without_leading(squeezed(scrubbed(lower))))
}

/// The safe name for the upload named `filename`: its stem in lower case,
/// cleaned, or `file_` and `fallback` where nothing is left or a hidden
/// name would result; then, where there is one, a dot and the extension in
/// lower case.
pub open spec fn sanitized_name(filename: Seq<char>, fallback: Seq<char>) -> Seq<char> {
    let stem = match file_stem_of(filename) {
        Some(s) => s,
        None => filename,
    };
    let name = cleaned(lowercased(stem));
    let kept = if name.len() == 0 || name[0] == '.' {
        "file_"@ + fallback
    } else {
        name
    };
    match lower_extension_of(filename) {
        Some(ext) => if ext.len() == 0 {
            kept
        } else {
            kept + "."@ + ext
        },
        None => kept,
    }
}

/// Whether no file name may hold `c`.
fn forbidden(c: char) -> (yes: bool)
    ensures
        yes == is_forbidden(c),
{
    c == '/' || c == '\\' || c == ':' || c == '*' || c == '?' || c == '"' || c == '<' || c == '>'
        || c == '|'
}

/// What stands for `c` in a file name.
fn replacement(c: char) -> (out: char)
    ensures
        out == replaced(c),
{
    let v = c as u32;
    let space = (0x09 <= v && v <= 0x0D) || v == 0x20 || v == 0x85 || v == 0xA0 || v == 0x1680 || (
    0x2000 <= v && v <= 0x200A) || v == 0x2028 || v == 0x2029 || v == 0x202F || v == 0x205F || v
        == 0x3000;
    let punct = (33 <= v && v <= 47) || (58 <= v && v <= 64) || (91 <= v && v <= 96) || (123 <= v
        && v <= 126);
    if space || (punct && c != '-' && c != '_' && c != '.') {
        '_'
    } else {
        c
    }
}

/// The clean form of the lower-case stem `lower`.
pub fn clean(lower: &str) -> (out: String)
    ensures
        out@ == cleaned(lower@),
{
    let chars = chars_of(lower);
    let mut kept: Vec<char> = Vec::new();
    let mut i: usize = 0;
    assert(chars@.take(0) =~= Seq::<char>::empty());
    while i < chars.len()
        invariant
            i <= chars.len(),
            kept@ == squeezed(scrubbed(chars@.take(i as int))),
        decreases chars.len() - i,
    {
        let c = chars[i];
        assert(chars@.take(i + 1).drop_last() == chars@.take(i as int));
        assert(chars@.take(i + 1).last() == c);
        if !forbidden(c) {
            let r = replacement(c);
            let ghost scrub = scrubbed(chars@.take(i as int));
            assert(scrub.push(r).drop_last() == scrub);
            if !(r == '_' && kept.len() > 0 && kept[kept.len() - 1] == '_') {
                kept.push(r);
            }
        }
        i += 1;
    }
    assert(chars@.take(chars.len() as int) == chars@);
    let ghost whole = kept@;
    let mut from: usize = 0;
    assert(whole.skip(0) =~= whole);
    while from < kept.len() && kept[from] == '_'
        invariant
            from <= kept.len(),
            kept@ == whole,
            without_leading(whole) == without_leading(whole.skip(from as int)),
        decreases kept.len() - from,
    {
        assert(whole.skip(from as int).drop_first() =~= whole.skip(from + 1));
        from += 1;
    }
    let mut to: usize = kept.len();
    let ghost tail = whole.skip(from as int);
    assert(tail == without_leading(whole));
    assert(tail.take(tail.len() as int) =~= tail);
    while to > from && kept[to - 1] == '_'
        invariant
            from <= to <= kept.len(),
            kept@ == whole,
            tail == whole.skip(from as int),
            without_trailing(tail) == without_trailing(tail.take(to - from)),
        decreases to,
    {
        assert(tail.take(to - from).drop_last() =~= tail.take(to - from - 1));
        to -= 1;
    }
    let out = slice_of(&kept, from, to);
    assert(out@ =~= tail.take(to - from));
    string_of(&out)
}

/// The safe name for the upload named `filename`, with `fallback` for the
/// case that nothing of the name is left.
pub fn sanitize_filename_with(filename: &str, fallback: &str) -> (out: String)
    ensures
        out@ == sanitized_name(filename@, fallback@),
{
    let extension = lower_extension(filename);
    let stem = match file_stem(filename) {
        Some(s) => s,
        None => owned(filename),
    };
    let lower = to_lower(stem.as_str());
    let name = clean(lower.as_str());
    let hidden = {
        let chars = chars_of(name.as_str());
        chars.len() == 0 || chars[0] == '.'
    };
    let kept = if hidden {
        concat("file_", fallback)
    } else {
        name
    };
    match extension {
        Some(ext) => {
            if chars_of(ext.as_str()).len() == 0 {
                kept
            } else {
                concat3(kept.as_str(), ".", ext.as_str())
            }
        },
        None => kept,
    }
}

/// The first eight characters of `id`, or all of it where it is shorter.
pub fn short_tag(id: &str) -> (tag: String)
    ensures
        tag@ == if id@.len() <= 8 {
            id@
        } else {
            id@.take(8)
        },
{
    let chars = chars_of(id);
    if chars.len() <= 8 {
        return owned(id);
    }
    let head = slice_of(&chars, 0, 8);
    string_of(&head)
}

/// The safe name for the upload named `filename`. Where nothing of the name
/// is left, the name is `file_` and eight random characters.
pub fn sanitize_filename(filename: &str) -> (out: String)
    ensures
        exists|fallback: Seq<char>|
            fallback.len() <= 8 && out@ == #[trigger] sanitized_name(filename@, fallback),
{
    let id = random_id();
    let tag = short_tag(id.as_str());
    sanitize_filename_with(filename, tag.as_str())
}

} // verus!
