//! What an export holds: which files go into the archive, under which
//! paths, and which folders go in empty.

use crate::error::AppError;
use crate::services::folder_manager::{
    file_rows, FileMetadata, folder_rows, FolderManager, summaries,
};
use crate::services::folder_tree::{
    crumb_trail, dangling, filenames_in, FileRecord, FolderNode, FolderSummary, has_file_in, pos_of,
    StoreState,
};
use crate::utils::text::{concat, concat3, opt_str_eq, opt_view, owned, str_eq};
use vstd::prelude::*;

verus! {

/// One file of an export: its stored name and its path in the archive.
#[derive(Debug)]
pub struct ExportEntry {
    pub filename: String,
    pub path: String,
}

/// What an export holds.
#[derive(Debug)]
pub struct ExportPlan {
    /// The name of the archive.
    pub zip_filename: String,
    /// The folders that go in empty, each path ending in a separator.
    pub directories: Vec<String>,
    /// The files that go in.
    pub files: Vec<ExportEntry>,
}

/// The names of the folders `crumbs`, without those named `root`.
pub open spec fn path_names(crumbs: Seq<FolderSummary>) -> Seq<Seq<char>>
    decreases crumbs.len(),
{
    if crumbs.len() == 0 {
        Seq::empty()
    } else if crumbs.last().name == "root"@ {
        path_names(crumbs.drop_last())
    } else {
        path_names(crumbs.drop_last()).push(crumbs.last().name)
    }
}

/// The texts `parts` joined by separators.
pub open spec fn joined(parts: Seq<Seq<char>>) -> Seq<char>
    decreases parts.len(),
{
    if parts.len() == 0 {
        Seq::empty()
    } else if parts.len() == 1 {
        parts[0]
    } else {
        joined(parts.drop_last()) + "/"@ + parts.last()
    }
}

/// The names of the folders on the way from the root down to `folder`.
pub open spec fn folder_path(s: StoreState, folder: Option<Seq<char>>) -> Seq<Seq<char>> {
    match folder {
        Some(f) => path_names(crumb_trail(s, f, s.folders.len())),
        None => Seq::empty(),
    }
}

/// The path of the file `record` in the archive: the names of its folders
/// from the root down, then its own name.
pub open spec fn archive_path(s: StoreState, record: FileRecord) -> Seq<char> {
    joined(folder_path(s, record.folder_id).push(record.filename))
}

/// The file `record` is part of an export of `folder`: of everything where
/// no folder is given.
pub open spec fn exported(record: FileRecord, folder: Option<Seq<char>>) -> bool {
    folder is None || record.folder_id == folder
}

/// The entries `(filename, path)` of the files among `rows` that are part
/// of an export of `folder`, in order.
pub open spec fn export_entries(
    s: StoreState,
    rows: Seq<FileRecord>,
    folder: Option<Seq<char>>,
) -> Seq<(Seq<char>, Seq<char>)>
    decreases rows.len(),
{
    if rows.len() == 0 {
        Seq::empty()
    } else {
        let rest = export_entries(s, rows.drop_last(), folder);
        if exported(rows.last(), folder) {
            rest.push((rows.last().filename, archive_path(s, rows.last())))
        } else {
            rest
        }
    }
}

/// The folder `node` goes into an export of `folder` as an empty
/// directory: it is not named `root`, no exported file lies directly in
/// it, and its path is not empty.
pub open spec fn goes_in_empty(s: StoreState, node: FolderNode, folder: Option<Seq<char>>) -> bool {
    &&& node.name != "root"@
    &&& !(has_file_in(s.files, node.id) && (folder is None || folder == Some(node.id)))
    &&& folder_path(s, Some(node.id)).len() > 0
}

/// The directory paths of the folders among `rows` that go into an export
/// of `folder` empty, in order.
pub open spec fn export_directories(
    s: StoreState,
    rows: Seq<FolderNode>,
    folder: Option<Seq<char>>,
) -> Seq<Seq<char>>
    decreases rows.len(),
{
    if rows.len() == 0 {
        Seq::empty()
    } else {
        let rest = export_directories(s, rows.drop_last(), folder);
        if goes_in_empty(s, rows.last(), folder) {
            rest.push(joined(folder_path(s, Some(rows.last().id))) + "/"@)
        } else {
            rest
        }
    }
}

/// The entries that a vector of export entries stands for.
pub open spec fn entry_pairs(v: Seq<ExportEntry>) -> Seq<(Seq<char>, Seq<char>)> {
    v.map_values(|e: ExportEntry| (e.filename@, e.path@))
}

/// The texts that a vector of strings stands for.
pub open spec fn path_texts(v: Seq<String>) -> Seq<Seq<char>> {
    v.map_values(|s: String| s@)
}

/// The texts `parts` joined by separators.
pub fn join_parts(parts: &Vec<String>) -> (out: String)
    ensures
        out@ == joined(path_texts(parts@)),
{
    let mut out = String::new();
    let mut i: usize = 0;
    assert(path_texts(parts@).take(0) =~= Seq::<Seq<char>>::empty());
    while i < parts.len()
        invariant
            i <= parts.len(),
            out@ == joined(path_texts(parts@).take(i as int)),
        decreases parts.len() - i,
    {
        let ghost before = path_texts(parts@).take(i as int);
        let ghost after = path_texts(parts@).take(i + 1);
        assert(after.drop_last() == before);
        assert(after.last() == parts@[i as int]@);
        if i == 0 {
            out = parts[i].clone();
        } else {
            out = concat3(out.as_str(), "/", parts[i].as_str());
        }
        i += 1;
    }
    assert(path_texts(parts@).take(parts.len() as int) == path_texts(parts@));
    out
}

/// The names of the folders on the way from the root down to `folder_id`,
/// without those named `root`.
pub fn folder_names(store: &FolderManager, folder_id: &str) -> (names: Vec<String>)
    ensures
        path_texts(names@) == folder_path(store@, Some(folder_id@)),
{
    let crumbs = store.trail(folder_id);
    let mut names: Vec<String> = Vec::new();
    let mut i: usize = 0;
    assert(summaries(crumbs@).take(0) =~= Seq::<FolderSummary>::empty());
    assert(path_texts(names@) =~= Seq::<Seq<char>>::empty());
    while i < crumbs.len()
        invariant
            i <= crumbs.len(),
            path_texts(names@) == path_names(summaries(crumbs@).take(i as int)),
        decreases crumbs.len() - i,
    {
        let ghost before = summaries(crumbs@).take(i as int);
        let ghost after = summaries(crumbs@).take(i + 1);
        assert(after.drop_last() == before);
        assert(after.last() == crumbs@[i as int]@);
        if !str_eq(crumbs[i].name.as_str(), "root") {
            let ghost listed = path_texts(names@);
            let name = crumbs[i].name.clone();
            names.push(name);
            assert(path_texts(names@) =~= listed.push(name@));
        }
        i += 1;
    }
    assert(summaries(crumbs@).take(crumbs.len() as int) == summaries(crumbs@));
    names
}

/// The path of the file `file` in the archive.
pub fn build_relative_path(store: &FolderManager, file: &FileMetadata) -> (path: String)
    ensures
        path@ == archive_path(store@, file@),
{
    let mut parts = match &file.folder_id {
        Some(f) => folder_names(store, f.as_str()),
        None => Vec::new(),
    };
    let ghost above = path_texts(parts@);
    assert(file.folder_id is None ==> above =~= Seq::<Seq<char>>::empty());
    let name = file.filename.clone();
    parts.push(name);
    assert(path_texts(parts@) =~= above.push(name@));
    join_parts(&parts)
}

/// The name of the archive of an export of the folder named `folder_name`,
/// or of everything.
pub fn archive_name(folder_name: Option<&str>) -> (name: String)
    ensures
        name@ == match folder_name {
            Some(n) => n@ + "_export.zip"@,
            None => "export.zip"@,
        },
{
    match folder_name {
        Some(n) => concat(n, "_export.zip"),
        None => owned("export.zip"),
    }
}

/// What an export of the folder `folder_id`, or of everything, holds.
///
/// Fails with `BadRequest` if no file is part of it, else with `NotFound`
/// if the folder does not exist.
pub fn export_files(store: &FolderManager, folder_id: Option<String>) -> (res: Result<
    ExportPlan,
    AppError,
>)
    ensures
        match res {
            Ok(plan) => {
                &&& entry_pairs(plan.files@) == export_entries(
                    store@,
                    store@.files,
                    opt_view(folder_id),
                )
                &&& plan.files@.len() > 0
                &&& path_texts(plan.directories@) == export_directories(
                    store@,
                    store@.folders,
                    opt_view(folder_id),
                )
                &&& !dangling(store@.folders, opt_view(folder_id))
                &&& plan.zip_filename@ == match opt_view(folder_id) {
                    Some(f) => store@.folders[pos_of(store@.folders, f)].name + "_export.zip"@,
                    None => "export.zip"@,
                }
            },
            Err(e) => {
                &&& e is BadRequest <==> export_entries(
                    store@,
                    store@.files,
                    opt_view(folder_id),
                ).len() == 0
                &&& e is BadRequest || e is NotFound
                &&& e is NotFound ==> dangling(store@.folders, opt_view(folder_id))
            },
        },
{
    let file_table = store.load_file_metadata();
    let folder_table = store.load_folder_metadata();
    let mut files: Vec<ExportEntry> = Vec::new();
    let mut i: usize = 0;
    assert(file_rows(file_table@).take(0) =~= Seq::<FileRecord>::empty());
    assert(entry_pairs(files@) =~= Seq::<(Seq<char>, Seq<char>)>::empty());
    while i < file_table.len()
        invariant
            i <= file_table.len(),
            file_rows(file_table@) == store@.files,
            entry_pairs(files@) == export_entries(
                store@,
                file_rows(file_table@).take(i as int),
                opt_view(folder_id),
            ),
        decreases file_table.len() - i,
    {
        let ghost before = file_rows(file_table@).take(i as int);
        let ghost after = file_rows(file_table@).take(i + 1);
        assert(after.drop_last() == before);
        assert(after.last() == file_table@[i as int]@);
        let row = &file_table[i];
        let part = match &folder_id {
            Some(_) => opt_str_eq(&row.folder_id, &folder_id),
            None => true,
        };
        if part {
            let ghost listed = entry_pairs(files@);
            let entry = ExportEntry {
                filename: row.filename.clone(),
                path: build_relative_path(store, row),
            };
            files.push(entry);
            assert(entry_pairs(files@) =~= listed.push((entry.filename@, entry.path@)));
        }
        i += 1;
    }
    assert(file_rows(file_table@).take(file_table.len() as int) == file_rows(file_table@));
    if files.len() == 0 {
        return Err(AppError::BadRequest(owned("No files to export")));
    }
    let mut directories: Vec<String> = Vec::new();
    let mut k: usize = 0;
    assert(folder_rows(folder_table@).take(0) =~= Seq::<FolderNode>::empty());
    assert(path_texts(directories@) =~= Seq::<Seq<char>>::empty());
    while k < folder_table.len()
        invariant
            k <= folder_table.len(),
            folder_rows(folder_table@) == store@.folders,
            path_texts(directories@) == export_directories(
                store@,
                folder_rows(folder_table@).take(k as int),
                opt_view(folder_id),
            ),
        decreases folder_table.len() - k,
    {
        let ghost before = folder_rows(folder_table@).take(k as int);
        let ghost after = folder_rows(folder_table@).take(k + 1);
        assert(after.drop_last() == before);
        assert(after.last() == folder_table@[k as int]@);
        let row = &folder_table[k];
        if !str_eq(row.name.as_str(), "root") {
            let scope = match &folder_id {
                Some(f) => str_eq(f.as_str(), row.id.as_str()),
                None => true,
            };
            let holds = scope && has_files(store, row.id.as_str());
            if !holds {
                let names = folder_names(store, row.id.as_str());
                if names.len() > 0 {
                    let ghost listed = path_texts(directories@);
                    let path = join_parts(&names);
                    let directory = concat(path.as_str(), "/");
                    directories.push(directory);
                    assert(path_texts(directories@) =~= listed.push(directory@));
                }
            }
        }
        k += 1;
    }
    assert(folder_rows(folder_table@).take(folder_table.len() as int) == folder_rows(
        folder_table@,
    ));
    let zip_filename = match &folder_id {
        Some(f) => match store.get_folder_info(f.as_str()) {
            Ok(info) => archive_name(Some(info.name.as_str())),
            Err(e) => {
                return Err(e);
            },
        },
        None => archive_name(None),
    };
    Ok(ExportPlan { zip_filename, directories, files })
}

/// Whether a file lies directly in the folder `folder_id`.
fn has_files(store: &FolderManager, folder_id: &str) -> (yes: bool)
    ensures
        yes == has_file_in(store@.files, folder_id@),
{
    let names = store.get_files_in_folder(Some(owned(folder_id)));
    proof {
        lemma_names_in(store@.files, folder_id@);
    }
    names.len() > 0
}

/// Files are listed for a folder exactly if some file lies in it.
proof fn lemma_names_in(files: Seq<FileRecord>, id: Seq<char>)
    ensures
        filenames_in(files, Some(id)).len() > 0 <==> has_file_in(
            files,
            id,
        ),
    decreases files.len(),
{
    if files.len() > 0 {
        let front = files.drop_last();
        lemma_names_in(front, id);
        if has_file_in(front, id) {
            let j = choose|j: int|
                0 <= j < front.len() && (#[trigger] front[j]).folder_id == Some(id);
            assert(files[j].folder_id == Some(id));
        }
        if has_file_in(files, id) {
            let j = choose|j: int|
                0 <= j < files.len() && (#[trigger] files[j]).folder_id == Some(id);
            if j < front.len() {
                assert(front[j].folder_id == Some(id));
            }
        }
        if files.last().folder_id == Some(id) {
            assert(files[files.len() - 1].folder_id == Some(id));
        }
    }
}

} // verus!
