//! Which files of the web front end are served as they are, and as what.

use crate::utils::text::{ends_with, lemma_pieces_nonempty, piece_texts, pieces_of, split, str_eq};
use vstd::prelude::*;

verus! {

/// `path` names a file of the front end that is served as it is.
pub open spec fn is_plain_file(path: Seq<char>) -> bool {
    ||| ".ico"@.is_suffix_of(path)
    ||| ".txt"@.is_suffix_of(path)
    ||| ".json"@.is_suffix_of(path)
    ||| ".svg"@.is_suffix_of(path)
    ||| ".png"@.is_suffix_of(path)
    ||| ".webmanifest"@.is_suffix_of(path)
}

/// Whether `path` names a file of the front end that is served as it is.
pub fn plain_file(path: &str) -> (yes: bool)
    ensures
        yes == is_plain_file(path@),
{
    ends_with(path, ".ico") || ends_with(path, ".txt") || ends_with(path, ".json") || ends_with(
        path,
        ".svg",
    ) || ends_with(path, ".png") || ends_with(path, ".webmanifest")
}

/// The content type of the front-end file `path`, by what follows its last
/// dot.
pub open spec fn content_type_of(path: Seq<char>) -> Seq<char> {
    let last = pieces_of(path, '.').last();
    if last == "ico"@ {
        "image/x-icon"@
    } else if last == "svg"@ {
        "image/svg+xml"@
    } else if last == "png"@ {
        "image/png"@
    } else if last == "json"@ || last == "webmanifest"@ {
        "application/json"@
    } else if last == "txt"@ {
        "text/plain"@
    } else {
        "application/octet-stream"@
    }
}

/// The content type of the front-end file `path`.
pub fn content_type(path: &str) -> (out: &'static str)
    ensures
        out@ == content_type_of(path@),
{
    let pieces = split(path, '.');
    proof {
        lemma_pieces_nonempty(path@, '.');
    }
    let last = pieces[pieces.len() - 1].as_str();
    assert(piece_texts(pieces@)[pieces.len() - 1] == pieces@[pieces.len() - 1]@);
    if str_eq(last, "ico") {
        "image/x-icon"
    } else if str_eq(last, "svg") {
        "image/svg+xml"
    } else if str_eq(last, "png") {
        "image/png"
    } else if str_eq(last, "json") || str_eq(last, "webmanifest") {
        "application/json"
    } else if str_eq(last, "txt") {
        "text/plain"
    } else {
        "application/octet-stream"
    }
}

} // verus!
