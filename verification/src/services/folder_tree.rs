//! The mathematical model of the metadata store: a table of folders linked
//! by parent references and a table of files that name their folder.

use crate::utils::clock::Timestamp;
use crate::utils::text::lex_less;
use vstd::prelude::*;

verus! {

/// One row of the folder table.
pub struct FolderNode {
    pub id: Seq<char>,
    pub name: Seq<char>,
    pub parent_id: Option<Seq<char>>,
    pub created_at: Timestamp,
}

/// One row of the file table.
pub struct FileRecord {
    pub filename: Seq<char>,
    pub folder_id: Option<Seq<char>>,
    pub uploaded_at: Timestamp,
    pub size: u64,
}

/// What a listing shows of a folder: the row itself and, of what lies
/// directly in it, the number of files, the number of folders and the
/// files' total size.
pub struct FolderSummary {
    pub id: Seq<char>,
    pub name: Seq<char>,
    pub parent_id: Option<Seq<char>>,
    pub created_at: Timestamp,
    pub file_count: nat,
    pub folder_count: nat,
    pub size: u64,
}

/// Both tables, each in insertion order.
pub struct StoreState {
    pub folders: Seq<FolderNode>,
    pub files: Seq<FileRecord>,
}

/// Some row of `folders` has the id `id`.
pub open spec fn has_folder(folders: Seq<FolderNode>, id: Seq<char>) -> bool {
    exists|i: int| 0 <= i < folders.len() && (#[trigger] folders[i]).id == id
}

/// The position of a row with the id `id`, if there is one.
pub open spec fn pos_of(folders: Seq<FolderNode>, id: Seq<char>) -> int {
    choose|i: int| 0 <= i < folders.len() && (#[trigger] folders[i]).id == id
}

/// No two rows share an id.
pub open spec fn distinct_ids(folders: Seq<FolderNode>) -> bool {
    forall|i: int, j: int|
        0 <= i < j < folders.len() ==> (#[trigger] folders[i]).id != (#[trigger] folders[j]).id
}

/// Some row of `files` has the name `filename`.
pub open spec fn has_file(files: Seq<FileRecord>, filename: Seq<char>) -> bool {
    exists|i: int| 0 <= i < files.len() && (#[trigger] files[i]).filename == filename
}

/// The position of a row with the name `filename`, if there is one.
pub open spec fn file_pos(files: Seq<FileRecord>, filename: Seq<char>) -> int {
    choose|i: int| 0 <= i < files.len() && (#[trigger] files[i]).filename == filename
}

/// No two rows share a filename.
pub open spec fn distinct_names(files: Seq<FileRecord>) -> bool {
    forall|i: int, j: int|
        0 <= i < j < files.len() ==> (#[trigger] files[i]).filename != (
        #[trigger] files[j]).filename
}

/// The parent reference of the folder `id`; `None` for a root folder and
/// for an id that is not in the table.
pub open spec fn parent_of(folders: Seq<FolderNode>, id: Seq<char>) -> Option<Seq<char>> {
    if has_folder(folders, id) {
        folders[pos_of(folders, id)].parent_id
    } else {
        None
    }
}

/// The id reached from `id` by following `k` parent references, if the
/// chain is that long.
pub open spec fn nth_ancestor(folders: Seq<FolderNode>, id: Seq<char>, k: nat) -> Option<
    Seq<char>,
>
    decreases k,
{
    if k == 0 {
        Some(id)
    } else {
        match nth_ancestor(folders, id, (k - 1) as nat) {
            Some(a) => parent_of(folders, a),
            None => None,
        }
    }
}

/// `id` is `root` or lies below it: following parent references from `id`
/// reaches `root`.
pub open spec fn in_subtree(folders: Seq<FolderNode>, root: Seq<char>, id: Seq<char>) -> bool {
    exists|k: nat| #[trigger] nth_ancestor(folders, id, k) == Some(root)
}

/// No folder is its own ancestor.
pub open spec fn acyclic(folders: Seq<FolderNode>) -> bool {
    forall|id: Seq<char>, k: nat|
        has_folder(folders, id) && k >= 1 ==> #[trigger] nth_ancestor(folders, id, k) != Some(id)
}

/// Every parent reference names a folder of the table.
pub open spec fn parents_exist(folders: Seq<FolderNode>) -> bool {
    forall|i: int|
        0 <= i < folders.len() && (#[trigger] folders[i]).parent_id is Some ==> has_folder(
            folders,
            folders[i].parent_id->0,
        )
}

/// Some row other than the one with id `except` has the name `name` under
/// the parent `parent`.
pub open spec fn name_taken(
    folders: Seq<FolderNode>,
    name: Seq<char>,
    parent: Option<Seq<char>>,
    except: Option<Seq<char>>,
) -> bool {
    exists|i: int|
        0 <= i < folders.len() && (#[trigger] folders[i]).name == name && folders[i].parent_id
            == parent && Some(folders[i].id) != except
}

/// No two folders under one parent share a name.
pub open spec fn siblings_unique(folders: Seq<FolderNode>) -> bool {
    forall|i: int, j: int|
        0 <= i < j < folders.len() ==> !((#[trigger] folders[i]).name == (
        #[trigger] folders[j]).name && folders[i].parent_id == folders[j].parent_id)
}

/// Every folder reference of a file names a folder of the table.
pub open spec fn files_resolve(s: StoreState) -> bool {
    forall|j: int|
        0 <= j < s.files.len() && (#[trigger] s.files[j]).folder_id is Some ==> has_folder(
            s.folders,
            s.files[j].folder_id->0,
        )
}

/// Some folder has `id` as its parent.
pub open spec fn has_subfolder(folders: Seq<FolderNode>, id: Seq<char>) -> bool {
    exists|i: int| 0 <= i < folders.len() && (#[trigger] folders[i]).parent_id == Some(id)
}

/// Some file lies in the folder `id`.
pub open spec fn has_file_in(files: Seq<FileRecord>, id: Seq<char>) -> bool {
    exists|j: int| 0 <= j < files.len() && (#[trigger] files[j]).folder_id == Some(id)
}

impl StoreState {
    /// The tables are keyed: ids and filenames each occur once.
    pub open spec fn keyed(self) -> bool {
        distinct_ids(self.folders) && distinct_names(self.files)
    }

    /// The folders form a forest: every parent reference names a folder of
    /// the table, and no folder is its own ancestor.
    pub open spec fn forest(self) -> bool {
        &&& distinct_ids(self.folders)
        &&& parents_exist(self.folders)
        &&& acyclic(self.folders)
    }

    /// The folders form a forest with unique sibling names, and every file
    /// lies at the root or in a folder of the table.
    pub open spec fn consistent(self) -> bool {
        &&& self.keyed()
        &&& self.forest()
        &&& siblings_unique(self.folders)
        &&& files_resolve(self)
    }
}

/// Whatever held of the store `before` still holds of the store `after`:
/// that its tables are keyed, that no folder is its own ancestor, that its
/// folders form a forest, that sibling names are unique, and that every
/// file's folder exists.
pub open spec fn kept_sound(before: StoreState, after: StoreState) -> bool {
    &&& before.keyed() ==> after.keyed()
    &&& acyclic(before.folders) ==> acyclic(after.folders)
    &&& before.forest() ==> after.forest()
    &&& siblings_unique(before.folders) ==> siblings_unique(after.folders)
    &&& files_resolve(before) ==> files_resolve(after)
}

/// The table `folders` with the parent reference of row `i` replaced.
pub open spec fn with_parent(folders: Seq<FolderNode>, i: int, parent: Option<Seq<char>>) -> Seq<
    FolderNode,
> {
    folders.update(i, FolderNode { parent_id: parent, ..folders[i] })
}

/// How many files lie directly in the folder `id`.
pub open spec fn files_in_count(files: Seq<FileRecord>, id: Seq<char>) -> nat
    decreases files.len(),
{
    if files.len() == 0 {
        0
    } else {
        files_in_count(files.drop_last(), id) + if files.last().folder_id == Some(id) {
            1nat
        } else {
            0nat
        }
    }
}

/// The sizes of the files that lie directly in the folder `id`, added up.
pub open spec fn files_in_size(files: Seq<FileRecord>, id: Seq<char>) -> nat
    decreases files.len(),
{
    if files.len() == 0 {
        0
    } else {
        files_in_size(files.drop_last(), id) + if files.last().folder_id == Some(id) {
            files.last().size as nat
        } else {
            0nat
        }
    }
}

/// How many folders have `id` as their parent.
pub open spec fn subfolder_count(folders: Seq<FolderNode>, id: Seq<char>) -> nat
    decreases folders.len(),
{
    if folders.len() == 0 {
        0
    } else {
        subfolder_count(folders.drop_last(), id) + if folders.last().parent_id == Some(id) {
            1nat
        } else {
            0nat
        }
    }
}

/// `n`, or the largest `u64` where `n` is beyond it.
pub open spec fn capped(n: nat) -> u64 {
    if n <= u64::MAX {
        n as u64
    } else {
        u64::MAX
    }
}

/// The summary of the row `node` in the store `s`. Only what lies directly
/// in the folder counts; the size stops at the largest `u64`.
pub open spec fn summary_of(s: StoreState, node: FolderNode) -> FolderSummary {
    FolderSummary {
        id: node.id,
        name: node.name,
        parent_id: node.parent_id,
        created_at: node.created_at,
        file_count: files_in_count(s.files, node.id),
        folder_count: subfolder_count(s.folders, node.id),
        size: capped(files_in_size(s.files, node.id)),
    }
}

/// A reference that names a folder which is not in the table.
pub open spec fn dangling(folders: Seq<FolderNode>, folder: Option<Seq<char>>) -> bool {
    folder matches Some(f) && !has_folder(folders, f)
}

/// The file table with the row `record` put in place of the row of the
/// same filename, or added at the end where there is none.
pub open spec fn upsert(files: Seq<FileRecord>, record: FileRecord) -> Seq<FileRecord> {
    if has_file(files, record.filename) {
        files.update(file_pos(files, record.filename), record)
    } else {
        files.push(record)
    }
}

/// The file table without the row of `filename`.
pub open spec fn without_file(files: Seq<FileRecord>, filename: Seq<char>) -> Seq<FileRecord> {
    if has_file(files, filename) {
        files.remove(file_pos(files, filename))
    } else {
        files
    }
}

/// The names of the files that lie in `folder`, in table order; with no
/// folder given, the names of the files that lie in none.
pub open spec fn filenames_in(files: Seq<FileRecord>, folder: Option<Seq<char>>) -> Seq<Seq<char>>
    decreases files.len(),
{
    if files.len() == 0 {
        Seq::empty()
    } else {
        let rest = filenames_in(files.drop_last(), folder);
        if files.last().folder_id == folder {
            rest.push(files.last().filename)
        } else {
            rest
        }
    }
}

/// How a move of the folder `id` under `parent` ends.
pub enum MoveOutcome {
    /// The folder, or the new parent, is not in the table.
    NotFound,
    /// The new parent is the folder itself or lies below it.
    InvalidOperation,
    /// Another folder of the same name lies under the new parent.
    Conflict,
    /// The folder has the new parent.
    Moved,
}

/// How a move of the folder `id` under `parent` ends, on the table
/// `folders`.
pub open spec fn move_outcome(
    folders: Seq<FolderNode>,
    id: Seq<char>,
    parent: Option<Seq<char>>,
) -> MoveOutcome {
    if !has_folder(folders, id) || dangling(folders, parent) {
        MoveOutcome::NotFound
    } else if parent is Some && in_subtree(folders, id, parent->0) {
        MoveOutcome::InvalidOperation
    } else if name_taken(folders, folders[pos_of(folders, id)].name, parent, Some(id)) {
        MoveOutcome::Conflict
    } else {
        MoveOutcome::Moved
    }
}

/// The summaries of those of `rows` whose parent is `parent`, in order;
/// counts and sizes are taken in the store `s`.
pub open spec fn child_summaries(
    s: StoreState,
    rows: Seq<FolderNode>,
    parent: Option<Seq<char>>,
) -> Seq<FolderSummary>
    decreases rows.len(),
{
    if rows.len() == 0 {
        Seq::empty()
    } else {
        let rest = child_summaries(s, rows.drop_last(), parent);
        if rows.last().parent_id == parent {
            rest.push(summary_of(s, rows.last()))
        } else {
            rest
        }
    }
}

/// No summary is followed by one whose name sorts before its own.
pub open spec fn sorted_by_name(list: Seq<FolderSummary>) -> bool {
    forall|i: int, j: int|
        0 <= i < j < list.len() ==> !lex_less((#[trigger] list[j]).name, (#[trigger] list[i]).name)
}

/// The path from the root down to the folder `id`, as summaries: `id` last,
/// its parent before it, and so on, over at most `fuel` folders and as far
/// up as the parent references name folders of the table.
pub open spec fn crumb_trail(s: StoreState, id: Seq<char>, fuel: nat) -> Seq<FolderSummary>
    decreases fuel,
{
    if fuel == 0 || !has_folder(s.folders, id) {
        Seq::empty()
    } else {
        let node = s.folders[pos_of(s.folders, id)];
        let above = match node.parent_id {
            Some(p) => crumb_trail(s, p, (fuel - 1) as nat),
            None => Seq::empty(),
        };
        above.push(summary_of(s, node))
    }
}

/// The breadcrumbs of a listing of `folder`: nothing at the root, else the
/// path down to the folder, over at most as many folders as the table has.
pub open spec fn breadcrumbs_of(s: StoreState, folder: Option<Seq<char>>) -> Seq<FolderSummary> {
    match folder {
        Some(f) => crumb_trail(s, f, s.folders.len()),
        None => Seq::empty(),
    }
}

/// How the creation of a folder `name` under `parent` ends, apart from the
/// choice of its id.
pub enum CreateOutcome {
    /// The parent is not in the table.
    NotFound,
    /// The parent already has a folder of that name.
    Conflict,
    /// The folder can be created.
    Accepted,
}

/// How the creation of a folder `name` under `parent` ends on the table
/// `folders`.
pub open spec fn create_outcome(
    folders: Seq<FolderNode>,
    name: Seq<char>,
    parent: Option<Seq<char>>,
) -> CreateOutcome {
    if dangling(folders, parent) {
        CreateOutcome::NotFound
    } else if name_taken(folders, name, parent, None) {
        CreateOutcome::Conflict
    } else {
        CreateOutcome::Accepted
    }
}

/// The id `id` is in use in the table `folders`: a folder has it, or a
/// folder names it as its parent.
pub open spec fn id_in_use(folders: Seq<FolderNode>, id: Seq<char>) -> bool {
    has_folder(folders, id) || has_subfolder(folders, id)
}

/// The creation of a folder `name` under `parent` with the id `id` fails
/// on the table `folders`: it is not accepted, or the id is in use.
pub open spec fn create_fails(
    folders: Seq<FolderNode>,
    id: Seq<char>,
    name: Seq<char>,
    parent: Option<Seq<char>>,
) -> bool {
    !(create_outcome(folders, name, parent) is Accepted) || id_in_use(folders, id)
}

/// How the deletion of the folder `id` ends.
pub enum DeleteOutcome {
    /// The folder is not in the table.
    NotFound,
    /// A file lies in the folder, or a folder has it as its parent.
    Conflict,
    /// The folder is removed.
    Deleted,
}

/// How the deletion of the folder `id` ends in the store `s`.
pub open spec fn delete_outcome(s: StoreState, id: Seq<char>) -> DeleteOutcome {
    if !has_folder(s.folders, id) {
        DeleteOutcome::NotFound
    } else if has_file_in(s.files, id) || has_subfolder(s.folders, id) {
        DeleteOutcome::Conflict
    } else {
        DeleteOutcome::Deleted
    }
}

} // verus!
