//! File names, stems and extensions of paths.
//!
//! Paths are read with `/` as the separator: repeated and trailing
//! separators and `.` components do not count, and a path that ends in `..`
//! names no file.
//!
//! On text this is how `std::path::Path` reads a path where `/` is the only
//! separator, as on Unix: `file_name`, `extension` and `file_stem` there
//! give what the functions here give. The difference is on Windows, where
//! std also takes `\` for a separator and sets a drive or UNC prefix apart:
//! here `\` and `:` are characters like any other on every platform, so
//! that a stored name has one stem and one extension wherever it is read.

use crate::utils::text::{chars_of, slice_of, string_of};
use vstd::prelude::*;

verus! {

/// `path` without the separators and `.` components at its end.
pub open spec fn without_tail(path: Seq<char>) -> Seq<char>
    decreases path.len(),
{
    if path.len() > 1 && path.last() == '/' {
        without_tail(path.drop_last())
    } else if path.len() >= 2 && path.last() == '.' && path[path.len() - 2] == '/' {
        without_tail(path.drop_last())
    } else {
        path
    }
}

/// Where the last component of `path` begins: behind its last separator.
pub open spec fn last_start(path: Seq<char>) -> int
    decreases path.len(),
{
    if path.len() == 0 {
        0
    } else if path.last() == '/' {
        path.len() as int
    } else {
        last_start(path.drop_last())
    }
}

/// The file name of `path`: its last component, unless that is empty, `.`
/// or `..`.
pub open spec fn file_name_of(path: Seq<char>) -> Option<Seq<char>> {
    let kept = without_tail(path);
    let name = kept.skip(last_start(kept));
    if name.len() == 0 || name == seq!['.'] || name == seq!['.', '.'] {
        None
    } else {
        Some(name)
    }
}

/// Where the last `.` of `name` stands, or `-1` where it holds none.
pub open spec fn last_dot(name: Seq<char>) -> int
    decreases name.len(),
{
    if name.len() == 0 {
        -1
    } else if name.last() == '.' {
        name.len() - 1
    } else {
        last_dot(name.drop_last())
    }
}

/// The extension of `path`: what follows the last `.` of its file name,
/// unless the file name holds none or only begins with one.
pub open spec fn extension_of(path: Seq<char>) -> Option<Seq<char>> {
    match file_name_of(path) {
        Some(name) => if last_dot(name) <= 0 {
            None
        } else {
            Some(name.skip(last_dot(name) + 1))
        },
        None => None,
    }
}

/// The stem of `path`: its file name up to the last `.`, or all of it where
/// it holds no `.` or only begins with one.
pub open spec fn file_stem_of(path: Seq<char>) -> Option<Seq<char>> {
    match file_name_of(path) {
        Some(name) => if last_dot(name) <= 0 {
            Some(name)
        } else {
            Some(name.take(last_dot(name)))
        },
        None => None,
    }
}

/// The length of `path` without its tail.
fn kept_len(path: &Vec<char>) -> (len: usize)
    ensures
        len <= path.len(),
        path@.take(len as int) == without_tail(path@),
{
    let mut len: usize = path.len();
    assert(path@.take(len as int) =~= path@);
    loop
        invariant
            len <= path.len(),
            without_tail(path@.take(len as int)) == without_tail(path@),
        decreases len,
    {
        let ghost kept = path@.take(len as int);
        if len > 1 && path[len - 1] == '/' {
            assert(kept.drop_last() == path@.take(len - 1));
            len -= 1;
        } else if len >= 2 && path[len - 1] == '.' && path[len - 2] == '/' {
            assert(kept.drop_last() == path@.take(len - 1));
            len -= 1;
        } else {
            return len;
        }
    }
}

/// Where the last component of `path[..len]` begins.
fn component_start(path: &Vec<char>, len: usize) -> (start: usize)
    requires
        len <= path.len(),
    ensures
        start <= len,
        start == last_start(path@.take(len as int)),
{
    let mut start: usize = len;
    while start > 0 && path[start - 1] != '/'
        invariant
            start <= len <= path.len(),
            last_start(path@.take(start as int)) == last_start(path@.take(len as int)),
        decreases start,
    {
        assert(path@.take(start as int).drop_last() == path@.take(start - 1));
        start -= 1;
    }
    start
}

/// Where the last `.` of `name` stands.
fn dot_position(name: &Vec<char>) -> (at: Option<usize>)
    ensures
        match at {
            Some(i) => i < name.len() && i == last_dot(name@),
            None => last_dot(name@) == -1,
        },
{
    let mut end: usize = name.len();
    assert(name@.take(end as int) =~= name@);
    while end > 0 && name[end - 1] != '.'
        invariant
            end <= name.len(),
            last_dot(name@.take(end as int)) == last_dot(name@),
        decreases end,
    {
        assert(name@.take(end as int).drop_last() == name@.take(end - 1));
        end -= 1;
    }
    if end == 0 {
        None
    } else {
        Some(end - 1)
    }
}

/// The file name of `path`, as characters.
fn name_chars(path: &str) -> (name: Option<Vec<char>>)
    ensures
        match name {
            Some(n) => Some(n@),
            None => None,
        } == file_name_of(path@),
{
    let chars = chars_of(path);
    let len = kept_len(&chars);
    let start = component_start(&chars, len);
    let name = slice_of(&chars, start, len);
    assert(name@ == without_tail(path@).skip(last_start(without_tail(path@))));
    if name.len() == 0 {
        return None;
    }
    if name.len() == 1 && name[0] == '.' {
        assert(name@ =~= seq!['.']);
        return None;
    }
    if name.len() == 2 && name[0] == '.' && name[1] == '.' {
        assert(name@ =~= seq!['.', '.']);
        return None;
    }
    Some(name)
}

/// The file name of `path`.
pub fn file_name(path: &str) -> (name: Option<String>)
    ensures
        match name {
            Some(n) => Some(n@),
            None => None,
        } == file_name_of(path@),
{
    match name_chars(path) {
        Some(n) => Some(string_of(&n)),
        None => None,
    }
}

/// The extension of `path`.
pub fn extension(path: &str) -> (ext: Option<String>)
    ensures
        match ext {
            Some(e) => Some(e@),
            None => None,
        } == extension_of(path@),
{
    let name = match name_chars(path) {
        Some(n) => n,
        None => {
            return None;
        },
    };
    match dot_position(&name) {
        Some(i) => {
            if i == 0 {
                None
            } else {
                let ext = slice_of(&name, i + 1, name.len());
                Some(string_of(&ext))
            }
        },
        None => None,
    }
}

/// The stem of `path`.
pub fn file_stem(path: &str) -> (stem: Option<String>)
    ensures
        match stem {
            Some(s) => Some(s@),
            None => None,
        } == file_stem_of(path@),
{
    let name = match name_chars(path) {
        Some(n) => n,
        None => {
            return None;
        },
    };
    match dot_position(&name) {
        Some(i) => {
            if i == 0 {
                Some(string_of(&name))
            } else {
                let stem = slice_of(&name, 0, i);
                Some(string_of(&stem))
            }
        },
        None => Some(string_of(&name)),
    }
}

} // verus!
