//! Listing, moving and exporting files.

use crate::error::AppError;
use crate::models::{FileEntry, FileInfo, FileListResponse};
use crate::services::file_utils::{
    derived_file, is_derived, page_bounds, page_range, page_size, page_size_of, pages_for,
    total_pages,
};
use crate::services::folder_manager::{file_rows, FolderManager, opt_summary, summaries, texts};
use crate::services::folder_tree::{
    breadcrumbs_of, child_summaries, dangling, file_pos, filenames_in, FileRecord, has_file, pos_of,
    sorted_by_name, StoreState, summary_of,
};
use crate::utils::clock::Timestamp;
use crate::utils::text::{concat3, opt_clone, opt_view, str_eq};
use vstd::prelude::*;

verus! {

/// The query of a file listing.
#[derive(Debug)]
pub struct ListQuery {
    /// Page number (0-based).
    pub page: Option<usize>,
    /// Number of items per page (max 100).
    pub per_page: Option<usize>,
    /// Folder to list; the root where absent.
    pub folder_id: Option<String>,
}

/// A request to move a file.
#[derive(Debug)]
pub struct MoveFileRequest {
    /// Target folder; the root where absent.
    pub folder_id: Option<String>,
}

/// The query of an export.
#[derive(Debug, Clone)]
pub struct ExportQuery {
    /// Folder to export files from; all files where absent.
    pub folder_id: Option<String>,
}

/// The file `record` lies at the root: it has no folder, or one called
/// `root`.
pub open spec fn at_root(record: FileRecord) -> bool {
    record.folder_id is None || record.folder_id == Some("root"@)
}

/// The names of the files among `rows` that lie at the root, in order.
pub open spec fn root_names(rows: Seq<FileRecord>) -> Seq<Seq<char>>
    decreases rows.len(),
{
    if rows.len() == 0 {
        Seq::empty()
    } else if at_root(rows.last()) {
        root_names(rows.drop_last()).push(rows.last().filename)
    } else {
        root_names(rows.drop_last())
    }
}

/// The names of the files that a listing of `folder` shows: those of the
/// folder, or those at the root.
pub open spec fn listed_names(s: StoreState, folder: Option<Seq<char>>) -> Seq<Seq<char>> {
    match folder {
        Some(f) => filenames_in(s.files, Some(f)),
        None => root_names(s.files),
    }
}

/// The names of the files that a listing of `folder_id` shows.
pub fn files_to_list(store: &FolderManager, folder_id: Option<String>) -> (names: Vec<String>)
    ensures
        texts(names@) == listed_names(store@, opt_view(folder_id)),
{
    if folder_id.is_some() {
        return store.get_files_in_folder(folder_id);
    }
    let table = store.load_file_metadata();
    let mut names: Vec<String> = Vec::new();
    let mut i: usize = 0;
    assert(file_rows(table@).take(0) =~= Seq::<FileRecord>::empty());
    assert(texts(names@) =~= Seq::<Seq<char>>::empty());
    while i < table.len()
        invariant
            i <= table.len(),
            texts(names@) == root_names(file_rows(table@).take(i as int)),
        decreases table.len() - i,
    {
        let ghost before = file_rows(table@).take(i as int);
        let ghost after = file_rows(table@).take(i + 1);
        assert(after.drop_last() == before);
        assert(after.last() == table@[i as int]@);
        let root = match &table[i].folder_id {
            Some(f) => str_eq(f.as_str(), "root"),
            None => true,
        };
        if root {
            let ghost listed = texts(names@);
            let name = table[i].filename.clone();
            names.push(name);
            assert(texts(names@) =~= listed.push(name@));
        }
        i += 1;
    }
    assert(file_rows(table@).take(table.len() as int) == file_rows(table@));
    names
}

/// Whether a stored file named `filename` is shown by a listing that shows
/// the names `filter`: it is no derived file and is one of them.
pub fn is_listed(filename: &str, filter: &Vec<String>) -> (yes: bool)
    ensures
        yes == (!is_derived(filename@) && texts(filter@).contains(filename@)),
{
    if derived_file(filename) {
        return false;
    }
    let mut i: usize = 0;
    while i < filter.len()
        invariant
            i <= filter.len(),
            !is_derived(filename@),
            forall|j: int| 0 <= j < i ==> texts(filter@)[j] != filename@,
        decreases filter.len() - i,
    {
        if str_eq(filter[i].as_str(), filename) {
            assert(texts(filter@)[i as int] == filename@);
            return true;
        }
        i += 1;
    }
    false
}

/// The time `a` is not before the time `b`.
pub open spec fn not_before(a: Timestamp, b: Timestamp) -> bool {
    a.secs > b.secs || (a.secs == b.secs && a.nanos >= b.nanos)
}

/// No entry is followed by one that was uploaded after it.
pub open spec fn newest_first(list: Seq<FileEntry>) -> bool {
    forall|i: int, j: int|
        0 <= i < j < list.len() ==> not_before(
            (#[trigger] list[i]).uploaded_at,
            (#[trigger] list[j]).uploaded_at,
        )
}

/// The entries that a vector of file infos stands for.
pub open spec fn entries_of(v: Seq<FileInfo>) -> Seq<FileEntry> {
    v.map_values(|f: FileInfo| f@)
}

/// Whether the time `a` is after the time `b`.
fn later(a: &Timestamp, b: &Timestamp) -> (yes: bool)
    ensures
        yes == !not_before(*b, *a),
{
    a.secs > b.secs || (a.secs == b.secs && a.nanos > b.nanos)
}

/// The entries, newest first. Entries of one time keep their order.
pub fn sort_newest_first(entries: Vec<FileInfo>) -> (out: Vec<FileInfo>)
    ensures
        newest_first(entries_of(out@)),
        entries_of(out@).to_multiset() == entries_of(entries@).to_multiset(),
{
    let mut rest = entries;
    let ghost all = entries_of(rest@);
    let mut out: Vec<FileInfo> = Vec::new();
    proof {
        assert(entries_of(out@) =~= Seq::<FileEntry>::empty());
        Seq::<FileEntry>::empty().to_multiset_ensures();
        assert(entries_of(out@).to_multiset() =~= vstd::multiset::Multiset::empty());
        assert(entries_of(out@).to_multiset().add(all.to_multiset()) =~= all.to_multiset());
    }
    // Entries are taken from the end, so each is put in front of those of its own time.
    while rest.len() > 0
        invariant
            newest_first(entries_of(out@)),
            entries_of(out@).to_multiset().add(entries_of(rest@).to_multiset())
                == all.to_multiset(),
        decreases rest.len(),
    {
        let ghost before_rest = entries_of(rest@);
        let ghost list = entries_of(out@);
        let entry = rest.pop().unwrap();
        assert(entries_of(rest@) =~= before_rest.drop_last());
        assert(before_rest =~= entries_of(rest@).push(entry@));
        let mut pos: usize = 0;
        while pos < out.len() && later(&out[pos].uploaded_at, &entry.uploaded_at)
            invariant
                pos <= out.len(),
                list == entries_of(out@),
                forall|a: int|
                    0 <= a < pos ==> !not_before(
                        entry@.uploaded_at,
                        (#[trigger] list[a]).uploaded_at,
                    ),
            decreases out.len() - pos,
        {
            pos += 1;
        }
        proof {
            assert(entries_of(out@.insert(pos as int, entry)) =~= list.insert(pos as int, entry@));
            let grown = list.insert(pos as int, entry@);
            assert forall|i: int, j: int| 0 <= i < j < grown.len() implies not_before(
                (#[trigger] grown[i]).uploaded_at,
                (#[trigger] grown[j]).uploaded_at,
            ) by {
                if i == pos {
                    let b = j - 1;
                    assert(grown[j] == list[b]);
                    if pos < b {
                        assert(not_before(list[pos as int].uploaded_at, list[b].uploaded_at));
                    }
                } else if j == pos {
                    assert(grown[i] == list[i]);
                } else {
                    let a = if i < pos { i } else { i - 1 };
                    let b = if j < pos { j } else { j - 1 };
                    assert(grown[i] == list[a]);
                    assert(grown[j] == list[b]);
                }
            }
            grown.to_multiset_ensures();
            assert(grown.remove(pos as int) =~= list);
            assert(grown.to_multiset() =~= list.to_multiset().insert(entry@));
            entries_of(rest@).to_multiset_ensures();
        }
        out.insert(pos, entry);
    }
    proof {
        assert(entries_of(rest@) =~= Seq::<FileEntry>::empty());
        Seq::<FileEntry>::empty().to_multiset_ensures();
        assert(entries_of(rest@).to_multiset() =~= vstd::multiset::Multiset::empty());
        assert(entries_of(out@).to_multiset().add(entries_of(rest@).to_multiset()) =~= entries_of(
            out@,
        ).to_multiset());
    }
    out
}

/// The folder that the store has for the file `filename`.
pub open spec fn folder_of(s: StoreState, filename: Seq<char>) -> Option<Seq<char>> {
    if has_file(s.files, filename) {
        s.files[file_pos(s.files, filename)].folder_id
    } else {
        None
    }
}

/// The entry `entry` with the folder that the store has for it.
pub open spec fn placed(s: StoreState, entry: FileEntry) -> FileEntry {
    FileEntry { folder_id: folder_of(s, entry.filename), ..entry }
}

/// Puts a listing together: the folder's surroundings from the store, and
/// of the stored files `entries` the page that `query` asks for, newest
/// first, each with the folder that the store has for it.
///
/// Fails with `NotFound` if the folder does not exist.
pub fn list_files(store: &FolderManager, query: &ListQuery, entries: Vec<FileInfo>) -> (res: Result<
    FileListResponse,
    AppError,
>)
    ensures
        match res {
            Ok(listing) => {
                &&& !dangling(store@.folders, opt_view(query.folder_id))
                &&& listing.page == query.page.unwrap_or(0)
                &&& listing.per_page == page_size_of(query.per_page)
                &&& listing.total == entries@.len()
                &&& listing.total_pages == pages_for(listing.total as nat, listing.per_page as nat)
                &&& exists|sorted: Seq<FileEntry>|
                    {
                        &&& newest_first(sorted)
                        &&& #[trigger] sorted.to_multiset() == entries_of(entries@).to_multiset()
                        &&& sorted.len() == entries@.len()
                        &&& entries_of(listing.files@) == sorted.subrange(
                            page_range(
                                listing.total as nat,
                                listing.page as nat,
                                listing.per_page as nat,
                            ).0 as int,
                            page_range(
                                listing.total as nat,
                                listing.page as nat,
                                listing.per_page as nat,
                            ).1 as int,
                        ).map_values(|e: FileEntry| placed(store@, e))
                    }
                &&& sorted_by_name(summaries(listing.folders@))
                &&& summaries(listing.folders@).to_multiset() == child_summaries(
                    store@,
                    store@.folders,
                    opt_view(query.folder_id),
                ).to_multiset()
                &&& opt_summary(listing.current_folder) == match opt_view(query.folder_id) {
                    Some(f) => Some(summary_of(store@, store@.folders[pos_of(store@.folders, f)])),
                    None => None,
                }
                &&& summaries(listing.breadcrumbs@) == breadcrumbs_of(
                    store@,
                    opt_view(query.folder_id),
                )
            },
            Err(e) => dangling(store@.folders, opt_view(query.folder_id)) && e is NotFound,
        },
{
    let page = match query.page {
        Some(p) => p,
        None => 0,
    };
    let per_page = page_size(query.per_page);
    let folder = opt_clone(&query.folder_id);
    let shown = match store.list_folder_contents(folder) {
        Ok(shown) => shown,
        Err(e) => {
            return Err(e);
        },
    };
    let total = entries.len();
    let ghost given = entries_of(entries@);
    let mut sorted = sort_newest_first(entries);
    let ghost order = entries_of(sorted@);
    proof {
        order.to_multiset_ensures();
        given.to_multiset_ensures();
    }
    let (start, end) = page_bounds(total, page, per_page);
    let mut files: Vec<FileInfo> = Vec::new();
    let mut taken: Vec<FileInfo> = Vec::new();
    // Take the entries of the page off the end of the sorted list, then put them back in order.
    sorted.truncate(end);
    assert(entries_of(sorted@) =~= order.subrange(0, end as int));
    while sorted.len() > start
        invariant
            start <= end <= order.len(),
            sorted@.len() <= end,
            sorted@.len() >= start,
            entries_of(sorted@) == order.subrange(0, sorted@.len() as int),
            taken@.len() == end - sorted@.len(),
            forall|k: int|
                0 <= k < taken@.len() ==> (#[trigger] taken@[k])@ == placed(
                    store@,
                    order[end - 1 - k],
                ),
        decreases sorted.len(),
    {
        let ghost before = entries_of(sorted@);
        let mut file = sorted.pop().unwrap();
        assert(entries_of(sorted@) =~= before.drop_last());
        assert(file@ == before[before.len() - 1]);
        assert(file@ == order[sorted@.len() as int]);
        file.folder_id = store.get_file_folder(file.filename.as_str());
        taken.push(file);
    }
    while taken.len() > 0
        invariant
            start <= end <= order.len(),
            files@.len() + taken@.len() == end - start,
            forall|k: int|
                0 <= k < taken@.len() ==> (#[trigger] taken@[k])@ == placed(
                    store@,
                    order[end - 1 - k],
                ),
            forall|k: int|
                0 <= k < files@.len() ==> (#[trigger] files@[k])@ == placed(
                    store@,
                    order[start + k],
                ),
        decreases taken.len(),
    {
        let ghost left = taken@.len();
        let file = taken.pop().unwrap();
        assert(file@ == placed(store@, order[end - left]));
        files.push(file);
    }
    assert(entries_of(files@) =~= order.subrange(start as int, end as int).map_values(
        |e: FileEntry| placed(store@, e),
    ));
    Ok(
        FileListResponse {
            files,
            folders: shown.folders,
            current_folder: shown.current_folder,
            breadcrumbs: shown.breadcrumbs,
            total,
            page,
            per_page,
            total_pages: total_pages(total, per_page),
        },
    )
}

/// The message that answers a deleted file.
pub fn deleted_message(filename: &str) -> (out: String)
    ensures
        out@ == "File '"@ + filename@ + "' and related files deleted successfully"@,
{
    concat3("File '", filename, "' and related files deleted successfully")
}

/// The message that answers a moved file.
pub fn moved_message(filename: &str) -> (out: String)
    ensures
        out@ == "File '"@ + filename@ + "' moved successfully"@,
{
    concat3("File '", filename, "' moved successfully")
}

} // verus!
