//! Names, paths and URLs of stored files, and the paging of listings.

use crate::models::FileUrls;
use crate::utils::clock::now;
use crate::utils::ident::random_id;
use crate::utils::path::{extension, extension_of, file_stem, file_stem_of};
use crate::utils::text::{
    chars_of, concat, concat3, contains, ends_with, occurs_in, opt_view, owned, signed_decimal,
    signed_decimal_digits, starts_with, str_eq,
};
use crate::utils::validation::short_tag;
use vstd::prelude::*;

verus! {

/// The path `name` seen from the directory `dir`: `name` itself where it
/// begins at the root or `dir` is empty, else `dir`, a separator where
/// `dir` does not end in one, and `name`.
pub open spec fn joined_path(dir: Seq<char>, name: Seq<char>) -> Seq<char> {
    if (name.len() > 0 && name[0] == '/') || dir.len() == 0 {
        name
    } else if dir.last() == '/' {
        dir + name
    } else {
        dir + seq!['/'] + name
    }
}

/// The path `name` seen from the directory `dir`.
pub fn join_path(dir: &str, name: &str) -> (out: String)
    ensures
        out@ == joined_path(dir@, name@),
{
    let d = chars_of(dir);
    let n = chars_of(name);
    if (n.len() > 0 && n[0] == '/') || d.len() == 0 {
        owned(name)
    } else if d[d.len() - 1] == '/' {
        concat(dir, name)
    } else {
        proof {
            reveal_strlit("/");
            assert("/"@ =~= seq!['/']);
        }
        concat3(dir, "/", name)
    }
}

/// The stem of `filename`, or `file` where it has none.
pub open spec fn stem_or_file(filename: Seq<char>) -> Seq<char> {
    match file_stem_of(filename) {
        Some(s) => s,
        None => "file"@,
    }
}

/// The stem of `filename`, or `file` where it has none.
pub fn stem_of(filename: &str) -> (out: String)
    ensures
        out@ == stem_or_file(filename@),
{
    match file_stem(filename) {
        Some(s) => s,
        None => owned("file"),
    }
}

/// The name under which the QOI copy of the image `filename` is stored.
pub fn qoi_name(filename: &str) -> (out: String)
    ensures
        out@ == stem_or_file(filename@) + ".qoi"@,
{
    let stem = stem_of(filename);
    concat(stem.as_str(), ".qoi")
}

/// The name under which the thumbnail of the image `filename` is stored.
pub fn thumbnail_name(filename: &str) -> (out: String)
    ensures
        out@ == stem_or_file(filename@) + "_thumb.webp"@,
{
    let stem = stem_of(filename);
    concat(stem.as_str(), "_thumb.webp")
}

/// `filename` names a derived file, a thumbnail or a QOI copy, which no
/// listing shows.
pub open spec fn is_derived(filename: Seq<char>) -> bool {
    occurs_in("_thumb."@, filename) || ".qoi"@.is_suffix_of(filename)
}

/// Whether `filename` names a derived file.
pub fn derived_file(filename: &str) -> (yes: bool)
    ensures
        yes == is_derived(filename@),
{
    contains(filename, "_thumb.") || ends_with(filename, ".qoi")
}

/// The file `filename` answers to the name `stem`: it is no derived file,
/// and `stem` is its stem or a prefix of it.
pub open spec fn answers_to(filename: Seq<char>, stem: Seq<char>) -> bool {
    !is_derived(filename) && (file_stem_of(filename).unwrap_or(Seq::empty()) == stem
        || stem.is_prefix_of(filename))
}

/// Whether the file `filename` answers to the name `stem`.
pub fn matches_stem(filename: &str, stem: &str) -> (yes: bool)
    ensures
        yes == answers_to(filename@, stem@),
{
    if derived_file(filename) {
        return false;
    }
    let own = match file_stem(filename) {
        Some(s) => s,
        None => owned(""),
    };
    proof {
        reveal_strlit("");
        assert(""@ =~= Seq::<char>::empty());
    }
    str_eq(own.as_str(), stem) || starts_with(filename, stem)
}

/// The texts that a vector of strings stands for.
pub open spec fn name_texts(v: Seq<String>) -> Seq<Seq<char>> {
    v.map_values(|s: String| s@)
}

/// The first of `filenames` that answers to the name `stem`.
pub fn find_by_stem(filenames: &Vec<String>, stem: &str) -> (found: Option<String>)
    ensures
        match found {
            Some(name) => exists|i: int|
                {
                    &&& 0 <= i < filenames.len()
                    &&& #[trigger] name_texts(filenames@)[i] == name@
                    &&& answers_to(name@, stem@)
                    &&& forall|j: int|
                        0 <= j < i ==> !answers_to(#[trigger] name_texts(filenames@)[j], stem@)
                },
            None => forall|j: int|
                0 <= j < filenames.len() ==> !answers_to(
                    #[trigger] name_texts(filenames@)[j],
                    stem@,
                ),
        },
{
    let mut i: usize = 0;
    while i < filenames.len()
        invariant
            i <= filenames.len(),
            forall|j: int| 0 <= j < i ==> !answers_to(#[trigger] name_texts(filenames@)[j], stem@),
        decreases filenames.len() - i,
    {
        if matches_stem(filenames[i].as_str(), stem) {
            let name = filenames[i].clone();
            assert(name_texts(filenames@)[i as int] == name@);
            return Some(name);
        }
        i += 1;
    }
    None
}

/// The largest number of files on one page.
pub const MAX_PER_PAGE: usize = 100;

/// The number of files on one page where the request names none.
pub const DEFAULT_PER_PAGE: usize = 20;

/// The number of files on one page: what the request asks for, twenty where
/// it asks for nothing, and never more than a hundred.
pub open spec fn page_size_of(per_page: Option<usize>) -> usize {
    match per_page {
        Some(n) => if n <= MAX_PER_PAGE {
            n
        } else {
            MAX_PER_PAGE
        },
        None => DEFAULT_PER_PAGE,
    }
}

/// The number of files on one page.
pub fn page_size(per_page: Option<usize>) -> (size: usize)
    ensures
        size == page_size_of(per_page),
{
    match per_page {
        Some(n) => if n <= MAX_PER_PAGE {
            n
        } else {
            MAX_PER_PAGE
        },
        None => DEFAULT_PER_PAGE,
    }
}

/// The number of pages that `total` files fill at `per_page` files a page:
/// `total / per_page`, rounded up; none where a page holds nothing.
pub open spec fn pages_for(total: nat, per_page: nat) -> nat {
    if per_page == 0 {
        0
    } else {
        ((total + per_page - 1) / per_page as int) as nat
    }
}

/// The number of pages that `total` files fill at `per_page` files a page.
pub fn total_pages(total: usize, per_page: usize) -> (pages: usize)
    ensures
        pages == pages_for(total as nat, per_page as nat),
{
    if per_page == 0 {
        return 0;
    }
    let full = total / per_page;
    let rest = total % per_page;
    proof {
        lemma_round_up(total as int, per_page as int);
    }
    if rest == 0 {
        full
    } else {
        full + 1
    }
}

/// Rounding a quotient up adds one exactly where the division leaves a
/// remainder.
proof fn lemma_round_up(total: int, per_page: int)
    requires
        total >= 0,
        per_page > 0,
    ensures
        (total + per_page - 1) / per_page == if total % per_page == 0 {
            total / per_page
        } else {
            total / per_page + 1
        },
        total / per_page <= total,
        total % per_page != 0 ==> total / per_page < total,
{
    let q = total / per_page;
    let r = total % per_page;
    assert(total == q * per_page + r && 0 <= r < per_page) by (nonlinear_arith)
        requires
            q == total / per_page,
            r == total % per_page,
            per_page > 0,
    ;
    assert(q >= 0 && q <= total) by (nonlinear_arith)
        requires
            total == q * per_page + r,
            0 <= r < per_page,
            per_page >= 1,
            total >= 0,
    ;
    if r != 0 {
        assert(q < total) by (nonlinear_arith)
            requires
                total == q * per_page + r,
                0 < r,
                per_page >= 1,
                q >= 0,
        ;
    }
    if r == 0 {
        assert((q * per_page + per_page - 1) / per_page == q) by (nonlinear_arith)
            requires
                per_page > 0,
        ;
    } else {
        assert((q * per_page + r + per_page - 1) / per_page == q + 1) by (nonlinear_arith)
            requires
                per_page > 0,
                0 < r < per_page,
        ;
    }
}

/// The positions of the page `page` among `total` entries, `per_page` to a
/// page: from the first of them up to but not including the second. A page
/// beyond the end is empty.
pub open spec fn page_range(total: nat, page: nat, per_page: nat) -> (nat, nat) {
    if page * per_page >= total {
        (total, total)
    } else if page * per_page + per_page >= total {
        (page * per_page, total)
    } else {
        (page * per_page, page * per_page + per_page)
    }
}

/// The positions of the page `page` among `total` entries.
pub fn page_bounds(total: usize, page: usize, per_page: usize) -> (range: (usize, usize))
    ensures
        (range.0 as nat, range.1 as nat) == page_range(total as nat, page as nat, per_page as nat),
        range.0 <= range.1 <= total,
{
    let start = match page.checked_mul(per_page) {
        Some(s) => s,
        None => {
            return (total, total);
        },
    };
    if start >= total {
        return (total, total);
    }
    let end = match start.checked_add(per_page) {
        Some(e) => if e >= total {
            total
        } else {
            e
        },
        None => total,
    };
    (start, end)
}

/// Where stored files live, and under which base URL they are served.
pub struct FileManager {
    upload_dir: String,
    static_base_url: String,
}

impl FileManager {
    /// The upload directory.
    pub closed spec fn upload_dir(&self) -> Seq<char> {
        self.upload_dir@
    }

    /// The base URL under which stored files are served.
    pub closed spec fn base_url(&self) -> Seq<char> {
        self.static_base_url@
    }

    /// A manager for the directory `upload_dir`, served under
    /// `static_base_url`.
    pub fn new(upload_dir: &str, static_base_url: String) -> (out: Self)
        ensures
            out.upload_dir() == upload_dir@,
            out.base_url() == static_base_url@,
    {
        FileManager { upload_dir: owned(upload_dir), static_base_url }
    }

    /// The path of the stored file `filename`.
    pub fn get_file_path(&self, filename: &str) -> (path: String)
        ensures
            path@ == joined_path(self.upload_dir(), filename@),
    {
        join_path(self.upload_dir.as_str(), filename)
    }

    /// The URLs of the stored file `filename`; for an image, also those of
    /// its QOI copy and its thumbnail.
    pub fn generate_urls(&self, filename: &str, is_image: bool) -> (urls: FileUrls)
        ensures
            urls.original@ == self.base_url() + "/uploads"@ + "/"@ + filename@,
            opt_view(urls.qoi) == if is_image {
                Some(
                    self.base_url() + "/uploads"@ + "/"@ + (stem_or_file(filename@) + ".qoi"@),
                )
            } else {
                None
            },
            opt_view(urls.thumbnail) == if is_image {
                Some(
                    self.base_url() + "/uploads"@ + "/"@ + (stem_or_file(filename@)
                        + "_thumb.webp"@),
                )
            } else {
                None
            },
    {
        let base_url = concat(self.static_base_url.as_str(), "/uploads");
        let original = concat3(base_url.as_str(), "/", filename);
        if !is_image {
            return FileUrls { original, qoi: None, thumbnail: None };
        }
        let qoi_filename = qoi_name(filename);
        let thumb_filename = thumbnail_name(filename);
        FileUrls {
            original,
            qoi: Some(concat3(base_url.as_str(), "/", qoi_filename.as_str())),
            thumbnail: Some(concat3(base_url.as_str(), "/", thumb_filename.as_str())),
        }
    }

    /// The URLs under which a listing shows the stored file `filename`:
    /// its own, and for an image that of its QOI copy where `has_qoi` says
    /// that the copy is there, and that of its thumbnail where
    /// `has_thumbnail` says so.
    pub fn listed_urls(
        &self,
        filename: &str,
        is_image: bool,
        has_qoi: bool,
        has_thumbnail: bool,
    ) -> (urls: FileUrls)
        ensures
            urls.original@ == self.base_url() + "/uploads"@ + "/"@ + filename@,
            opt_view(urls.qoi) == if is_image && has_qoi {
                Some(
                    self.base_url() + "/uploads"@ + "/"@ + (stem_or_file(filename@) + ".qoi"@),
                )
            } else {
                None
            },
            opt_view(urls.thumbnail) == if is_image && has_thumbnail {
                Some(
                    self.base_url() + "/uploads"@ + "/"@ + (stem_or_file(filename@)
                        + "_thumb.webp"@),
                )
            } else {
                None
            },
    {
        let all = self.generate_urls(filename, is_image);
        FileUrls {
            original: all.original,
            qoi: if has_qoi {
                all.qoi
            } else {
                None
            },
            thumbnail: if has_thumbnail {
                all.thumbnail
            } else {
                None
            },
        }
    }
}

/// Cleans `name` with `sanitize_filename::sanitize` under its default
/// options, which differ between platforms; nothing is claimed of the
/// result.
#[verifier::external_body]
fn sanitize(name: &str) -> String {
    sanitize_filename::sanitize(name)
}

/// The unique name made of the clean name `clean`, the time `timestamp` and
/// the tag `tag`: stem, time and tag joined by underscores, then `_bin`
/// where the clean name has no extension, else `_.` and the extension.
pub open spec fn unique_name_of(clean: Seq<char>, timestamp: i64, tag: Seq<char>) -> Seq<char> {
    let head = stem_or_file(clean) + "_"@ + signed_decimal_digits(timestamp as int) + "_"@ + tag;
    match extension_of(clean) {
        Some(ext) => if ext.len() == 0 {
            head + "_bin"@
        } else {
            head + "_."@ + ext
        },
        None => head + "_bin"@,
    }
}

/// The unique name made of the clean name `clean`, the time `timestamp` and
/// the tag `tag`.
pub fn unique_name(clean: &str, timestamp: i64, tag: &str) -> (out: String)
    ensures
        out@ == unique_name_of(clean@, timestamp, tag@),
{
    let stem = stem_of(clean);
    let time = signed_decimal(timestamp);
    let front = concat3(stem.as_str(), "_", time.as_str());
    let head = concat3(front.as_str(), "_", tag);
    match extension(clean) {
        Some(ext) => {
            if chars_of(ext.as_str()).len() == 0 {
                concat(head.as_str(), "_bin")
            } else {
                concat3(head.as_str(), "_.", ext.as_str())
            }
        },
        None => concat(head.as_str(), "_bin"),
    }
}

impl FileManager {
    /// A name for the upload named `original_filename` that no earlier
    /// upload has: its clean stem, the current time and eight random
    /// characters, and its extension.
    pub fn generate_unique_filename(&self, original_filename: &str) -> (out: String)
        ensures
            exists|clean: Seq<char>, timestamp: i64, tag: Seq<char>|
                tag.len() <= 8 && out@ == #[trigger] unique_name_of(clean, timestamp, tag),
    {
        let clean = sanitize(original_filename);
        let at = now();
        let id = random_id();
        let tag = short_tag(id.as_str());
        unique_name(clean.as_str(), at.secs, tag.as_str())
    }
}

} // verus!
