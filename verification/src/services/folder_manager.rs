//! The metadata store: folders in a forest, files assigned to folders.
//!
//! The store keeps both tables in memory. Every operation either fails and
//! leaves them as they were, or changes them as its contract says; writing
//! them to disk is the caller's business.
//!
//! Both tables are vectors in insertion order, not maps keyed by text. Most
//! operations walk every row (the names of siblings, the children of a
//! folder, the files in it), and `vstd::hash_map::StringHashMap`, the one
//! map with text keys that vstd gives a model, offers no way to walk it. A
//! vector also gives every listing an order that a contract can state. What
//! a map has by construction, that no id and no filename occurs twice, is
//! the store's invariant.

use crate::error::AppError;
use crate::models::{FolderInfo, FolderListResponse};
use crate::services::folder_laws::{
    lemma_cycle_is_short, lemma_move_keeps_acyclic, lemma_move_keeps_forest,
    lemma_push_keeps_acyclic, lemma_push_keeps_forest, lemma_remove_keeps_acyclic,
    lemma_remove_keeps_forest, lemma_walk_decides,
};
use crate::services::folder_proofs::{
    lemma_ancestor_none, lemma_file_pos, lemma_files_in_count, lemma_insert_multiset,
    lemma_insert_sorted, lemma_move_files, lemma_move_siblings, lemma_pos_of, lemma_push_files,
    lemma_push_lookup, lemma_push_siblings, lemma_remove_files, lemma_remove_lookup,
    lemma_remove_siblings, lemma_subfolder_count, lemma_upsert_files, lemma_upsert_holds,
    lemma_upsert_keyed, lemma_with_parent, lemma_without_files, lemma_without_gone,
    lemma_without_keyed,
};
use crate::services::folder_tree::{
    acyclic, breadcrumbs_of, capped, child_summaries, create_fails, create_outcome, CreateOutcome, crumb_trail,
    dangling, delete_outcome, DeleteOutcome, distinct_ids, file_pos, filenames_in, FileRecord,
    files_in_count, files_in_size, files_resolve, FolderNode, FolderSummary, has_file, has_file_in,
    has_folder, has_subfolder, in_subtree, kept_sound, move_outcome, MoveOutcome, name_taken,
    nth_ancestor, parent_of, parents_exist, pos_of, siblings_unique, sorted_by_name, StoreState,
    subfolder_count, summary_of, upsert, with_parent, without_file,
};
use crate::utils::clock::{now, Timestamp};
use crate::utils::ident::random_id;
use crate::utils::text::{
    concat3, lex_less, opt_clone, opt_str_eq, opt_view, owned, str_eq, str_less,
};
use vstd::prelude::*;

verus! {

/// A folder as it is stored.
#[derive(Debug, Clone)]
pub struct FolderMetadata {
    pub id: String,
    pub name: String,
    pub parent_id: Option<String>,
    pub created_at: Timestamp,
}

/// A file's assignment as it is stored.
#[derive(Debug, Clone)]
pub struct FileMetadata {
    pub filename: String,
    pub folder_id: Option<String>,
    pub uploaded_at: Timestamp,
    pub size: u64,
}

impl View for FolderMetadata {
    type V = FolderNode;

    open spec fn view(&self) -> FolderNode {
        FolderNode {
            id: self.id@,
            name: self.name@,
            parent_id: opt_view(self.parent_id),
            created_at: self.created_at,
        }
    }
}

impl View for FileMetadata {
    type V = FileRecord;

    open spec fn view(&self) -> FileRecord {
        FileRecord {
            filename: self.filename@,
            folder_id: opt_view(self.folder_id),
            uploaded_at: self.uploaded_at,
            size: self.size,
        }
    }
}

impl FolderMetadata {
    /// A copy of this row.
    pub fn duplicate(&self) -> (out: Self)
        ensures
            out@ == self@,
    {
        FolderMetadata {
            id: self.id.clone(),
            name: self.name.clone(),
            parent_id: opt_clone(&self.parent_id),
            created_at: self.created_at,
        }
    }
}

impl FileMetadata {
    /// A copy of this row.
    pub fn duplicate(&self) -> (out: Self)
        ensures
            out@ == self@,
    {
        FileMetadata {
            filename: self.filename.clone(),
            folder_id: opt_clone(&self.folder_id),
            uploaded_at: self.uploaded_at,
            size: self.size,
        }
    }
}

/// The rows that a vector of folders stands for.
pub open spec fn folder_rows(v: Seq<FolderMetadata>) -> Seq<FolderNode> {
    v.map_values(|f: FolderMetadata| f@)
}

/// The rows that a vector of files stands for.
pub open spec fn file_rows(v: Seq<FileMetadata>) -> Seq<FileRecord> {
    v.map_values(|f: FileMetadata| f@)
}

/// The position of the folder `id`.
fn find_folder(folders: &Vec<FolderMetadata>, id: &str) -> (found: Option<usize>)
    ensures
        match found {
            Some(i) => i < folders.len() && folder_rows(folders@)[i as int].id == id@,
            None => !has_folder(folder_rows(folders@), id@),
        },
{
    let mut i: usize = 0;
    while i < folders.len()
        invariant
            i <= folders.len(),
            forall|j: int| 0 <= j < i ==> (#[trigger] folder_rows(folders@)[j]).id != id@,
        decreases folders.len() - i,
    {
        if str_eq(folders[i].id.as_str(), id) {
            return Some(i);
        }
        i += 1;
    }
    None
}

/// The position of the file `filename`.
fn find_file(files: &Vec<FileMetadata>, filename: &str) -> (found: Option<usize>)
    ensures
        match found {
            Some(i) => i < files.len() && file_rows(files@)[i as int].filename == filename@,
            None => !has_file(file_rows(files@), filename@),
        },
{
    let mut i: usize = 0;
    while i < files.len()
        invariant
            i <= files.len(),
            forall|j: int| 0 <= j < i ==> (#[trigger] file_rows(files@)[j]).filename != filename@,
        decreases files.len() - i,
    {
        if str_eq(files[i].filename.as_str(), filename) {
            return Some(i);
        }
        i += 1;
    }
    None
}

/// Whether a folder other than `except` has the name `name` under `parent`.
fn sibling_named(
    folders: &Vec<FolderMetadata>,
    name: &str,
    parent: &Option<String>,
    except: Option<&str>,
) -> (taken: bool)
    ensures
        taken == name_taken(
            folder_rows(folders@),
            name@,
            opt_view(*parent),
            match except {
                Some(e) => Some(e@),
                None => None,
            },
        ),
{
    let ghost skip: Option<Seq<char>> = match except {
        Some(e) => Some(e@),
        None => None,
    };
    let mut i: usize = 0;
    while i < folders.len()
        invariant
            i <= folders.len(),
            skip == match except {
                Some(e) => Some(e@),
                None => None,
            },
            forall|j: int|
                0 <= j < i ==> !((#[trigger] folder_rows(folders@)[j]).name == name@ && folder_rows(
                    folders@,
                )[j].parent_id == opt_view(*parent) && Some(folder_rows(folders@)[j].id) != skip),
        decreases folders.len() - i,
    {
        let row = &folders[i];
        let other = match except {
            Some(e) => !str_eq(row.id.as_str(), e),
            None => true,
        };
        if other && str_eq(row.name.as_str(), name) && opt_str_eq(&row.parent_id, parent) {
            assert(folder_rows(folders@)[i as int].name == name@);
            return true;
        }
        i += 1;
    }
    false
}

/// How many files lie directly in `id`, and their total size.
fn file_stats(files: &Vec<FileMetadata>, id: &str) -> (stats: (usize, u64))
    ensures
        stats.0 == files_in_count(file_rows(files@), id@),
        stats.1 == capped(files_in_size(file_rows(files@), id@)),
{
    let mut count: usize = 0;
    let mut size: u64 = 0;
    let mut i: usize = 0;
    while i < files.len()
        invariant
            i <= files.len(),
            count == files_in_count(file_rows(files@).take(i as int), id@),
            count <= i,
            size == capped(files_in_size(file_rows(files@).take(i as int), id@)),
        decreases files.len() - i,
    {
        let ghost before = file_rows(files@).take(i as int);
        let ghost after = file_rows(files@).take(i + 1);
        assert(after.drop_last() == before);
        assert(after.last() == files@[i as int]@);
        let inside = match &files[i].folder_id {
            Some(f) => str_eq(f.as_str(), id),
            None => false,
        };
        if inside {
            count += 1;
            size = size.saturating_add(files[i].size);
        }
        i += 1;
    }
    assert(file_rows(files@).take(files.len() as int) == file_rows(files@));
    (count, size)
}

/// How many folders have `id` as their parent.
fn subfolder_stats(folders: &Vec<FolderMetadata>, id: &str) -> (count: usize)
    ensures
        count == subfolder_count(folder_rows(folders@), id@),
{
    let mut count: usize = 0;
    let mut i: usize = 0;
    while i < folders.len()
        invariant
            i <= folders.len(),
            count == subfolder_count(folder_rows(folders@).take(i as int), id@),
            count <= i,
        decreases folders.len() - i,
    {
        let ghost before = folder_rows(folders@).take(i as int);
        let ghost after = folder_rows(folders@).take(i + 1);
        assert(after.drop_last() == before);
        assert(after.last() == folders@[i as int]@);
        let inside = match &folders[i].parent_id {
            Some(p) => str_eq(p.as_str(), id),
            None => false,
        };
        if inside {
            count += 1;
        }
        i += 1;
    }
    assert(folder_rows(folders@).take(folders.len() as int) == folder_rows(folders@));
    count
}

/// The metadata store.
pub struct FolderManager {
    upload_dir: String,
    folders: Vec<FolderMetadata>,
    files: Vec<FileMetadata>,
}

impl View for FolderManager {
    type V = StoreState;

    closed spec fn view(&self) -> StoreState {
        StoreState { folders: folder_rows(self.folders@), files: file_rows(self.files@) }
    }
}

impl FolderManager {
    /// In every store, ids and filenames each occur once.
    #[verifier::type_invariant]
    spec fn tables_keyed(&self) -> bool {
        self@.keyed()
    }

    /// An empty store for the upload directory `upload_dir`.
    pub fn new(upload_dir: &str) -> (out: Self)
        ensures
            out@.folders.len() == 0,
            out@.files.len() == 0,
            out@.consistent(),
            out.upload_dir_text() == upload_dir@,
    {
        let out = FolderManager {
            upload_dir: owned(upload_dir),
            folders: Vec::new(),
            files: Vec::new(),
        };
        assert forall|id: Seq<char>, k: nat|
            has_folder(out@.folders, id) && k >= 1 implies #[trigger] nth_ancestor(
            out@.folders,
            id,
            k,
        ) != Some(id) by {}
        out
    }

    /// The upload directory this store was made for.
    pub closed spec fn upload_dir_text(&self) -> Seq<char> {
        self.upload_dir@
    }

    /// The upload directory this store was made for.
    pub fn upload_dir(&self) -> (out: &str)
        ensures
            out@ == self.upload_dir_text(),
    {
        self.upload_dir.as_str()
    }

    /// The summary of the folder at position `i`.
    fn summary_at(&self, i: usize) -> (info: FolderInfo)
        requires
            i < self@.folders.len(),
        ensures
            info@ == summary_of(self@, self@.folders[i as int]),
    {
        let row = &self.folders[i];
        let (file_count, size) = file_stats(&self.files, row.id.as_str());
        let folder_count = subfolder_stats(&self.folders, row.id.as_str());
        FolderInfo {
            id: row.id.clone(),
            name: row.name.clone(),
            parent_id: opt_clone(&row.parent_id),
            created_at: row.created_at,
            file_count,
            folder_count,
            size,
        }
    }

    /// The summary of the folder `folder_id`; `NotFound` if there is none.
    pub fn get_folder_info(&self, folder_id: &str) -> (res: Result<FolderInfo, AppError>)
        ensures
            match res {
                Ok(info) => has_folder(self@.folders, folder_id@) && info@ == summary_of(
                    self@,
                    self@.folders[pos_of(self@.folders, folder_id@)],
                ),
                Err(e) => !has_folder(self@.folders, folder_id@) && e is NotFound,
            },
    {
        proof {
            use_type_invariant(self);
        }
        match find_folder(&self.folders, folder_id) {
            Some(i) => {
                proof {
                    lemma_pos_of(self@.folders, i as int);
                }
                Ok(self.summary_at(i))
            },
            None => Err(
                AppError::NotFound(concat3("Folder with id '", folder_id, "' not found")),
            ),
        }
    }

    /// A store over the given tables; `Internal` where an id or a filename
    /// occurs twice.
    pub fn from_tables(
        upload_dir: &str,
        folders: Vec<FolderMetadata>,
        files: Vec<FileMetadata>,
    ) -> (res: Result<Self, AppError>)
        ensures
            match res {
                Ok(store) => {
                    &&& store@ == StoreState {
                        folders: folder_rows(folders@),
                        files: file_rows(files@),
                    }
                    &&& store@.keyed()
                    &&& store.upload_dir_text() == upload_dir@
                },
                Err(e) => e is Internal && !(StoreState {
                    folders: folder_rows(folders@),
                    files: file_rows(files@),
                }).keyed(),
            },
    {
        let mut i: usize = 0;
        while i < folders.len()
            invariant
                i <= folders.len(),
                forall|a: int, b: int|
                    0 <= a < b < i ==> (#[trigger] folder_rows(folders@)[a]).id != (
                    #[trigger] folder_rows(folders@)[b]).id,
            decreases folders.len() - i,
        {
            let mut j: usize = 0;
            while j < i
                invariant
                    j <= i < folders.len(),
                    forall|a: int|
                        0 <= a < j ==> (#[trigger] folder_rows(folders@)[a]).id != folder_rows(
                            folders@,
                        )[i as int].id,
                decreases i - j,
            {
                if str_eq(folders[j].id.as_str(), folders[i].id.as_str()) {
                    assert(folder_rows(folders@)[j as int].id == folder_rows(
                        folders@,
                    )[i as int].id);
                    return Err(AppError::Internal(owned("Folder table holds an id twice")));
                }
                j += 1;
            }
            i += 1;
        }
        let mut i: usize = 0;
        while i < files.len()
            invariant
                i <= files.len(),
                forall|a: int, b: int|
                    0 <= a < b < i ==> (#[trigger] file_rows(files@)[a]).filename != (
                    #[trigger] file_rows(files@)[b]).filename,
            decreases files.len() - i,
        {
            let mut j: usize = 0;
            while j < i
                invariant
                    j <= i < files.len(),
                    forall|a: int|
                        0 <= a < j ==> (#[trigger] file_rows(files@)[a]).filename != file_rows(
                            files@,
                        )[i as int].filename,
                decreases i - j,
            {
                if str_eq(files[j].filename.as_str(), files[i].filename.as_str()) {
                    assert(file_rows(files@)[j as int].filename == file_rows(
                        files@,
                    )[i as int].filename);
                    return Err(AppError::Internal(owned("File table holds a filename twice")));
                }
                j += 1;
            }
            i += 1;
        }
        Ok(FolderManager { upload_dir: owned(upload_dir), folders, files })
    }

    /// A copy of the folder table.
    pub fn load_folder_metadata(&self) -> (out: Vec<FolderMetadata>)
        ensures
            folder_rows(out@) == self@.folders,
    {
        let mut out: Vec<FolderMetadata> = Vec::new();
        let mut i: usize = 0;
        while i < self.folders.len()
            invariant
                i <= self.folders.len(),
                folder_rows(out@) == folder_rows(self.folders@).take(i as int),
            decreases self.folders.len() - i,
        {
            let ghost before = folder_rows(out@);
            let row = self.folders[i].duplicate();
            out.push(row);
            assert(folder_rows(out@) =~= before.push(row@));
            assert(folder_rows(self.folders@).take(i + 1) =~= folder_rows(self.folders@).take(
                i as int,
            ).push(self.folders@[i as int]@));
            i += 1;
        }
        assert(folder_rows(self.folders@).take(self.folders.len() as int) == folder_rows(
            self.folders@,
        ));
        out
    }

    /// A copy of the file table.
    pub fn load_file_metadata(&self) -> (out: Vec<FileMetadata>)
        ensures
            file_rows(out@) == self@.files,
    {
        let mut out: Vec<FileMetadata> = Vec::new();
        let mut i: usize = 0;
        while i < self.files.len()
            invariant
                i <= self.files.len(),
                file_rows(out@) == file_rows(self.files@).take(i as int),
            decreases self.files.len() - i,
        {
            let ghost before = file_rows(out@);
            let row = self.files[i].duplicate();
            out.push(row);
            assert(file_rows(out@) =~= before.push(row@));
            assert(file_rows(self.files@).take(i + 1) =~= file_rows(self.files@).take(
                i as int,
            ).push(self.files@[i as int]@));
            i += 1;
        }
        assert(file_rows(self.files@).take(self.files.len() as int) == file_rows(self.files@));
        out
    }

    /// Creates the folder `name` under `parent_id` with the given id and
    /// creation time.
    ///
    /// Fails with `NotFound` if the parent does not exist, else with
    /// `Conflict` if the parent already has a folder of that name, else with
    /// `Internal` if the id is already in use: a folder has it, or a folder
    /// names it as its parent.
    pub fn create_folder_as(
        &mut self,
        id: String,
        created_at: Timestamp,
        name: &str,
        parent_id: Option<String>,
    ) -> (res: Result<FolderInfo, AppError>)
        ensures
            match res {
                Ok(info) => {
                    &&& !dangling(old(self)@.folders, opt_view(parent_id))
                    &&& !name_taken(old(self)@.folders, name@, opt_view(parent_id), None)
                    &&& !has_folder(old(self)@.folders, id@)
                    &&& !has_subfolder(old(self)@.folders, id@)
                    &&& opt_view(parent_id) != Some(id@)
                    &&& final(self)@ == StoreState {
                        folders: old(self)@.folders.push(
                            FolderNode {
                                id: id@,
                                name: name@,
                                parent_id: opt_view(parent_id),
                                created_at,
                            },
                        ),
                        files: old(self)@.files,
                    }
                    &&& info@ == FolderSummary {
                        id: id@,
                        name: name@,
                        parent_id: opt_view(parent_id),
                        created_at,
                        file_count: 0,
                        folder_count: 0,
                        size: 0,
                    }
                },
                Err(e) => {
                    &&& final(self)@ == old(self)@
                    &&& e is NotFound <==> dangling(old(self)@.folders, opt_view(parent_id))
                    &&& e is Conflict <==> !dangling(old(self)@.folders, opt_view(parent_id))
                        && name_taken(old(self)@.folders, name@, opt_view(parent_id), None)
                    &&& e is NotFound || e is Conflict || e is Internal
                },
            },
            res is Err <==> create_fails(old(self)@.folders, id@, name@, opt_view(parent_id)),
            final(self).upload_dir_text() == old(self).upload_dir_text(),
            kept_sound(old(self)@, final(self)@),
    {
        proof {
            use_type_invariant(&*self);
        }
        if let Some(p) = &parent_id {
            if find_folder(&self.folders, p.as_str()).is_none() {
                return Err(
                    AppError::NotFound(
                        concat3("Parent folder with id '", p.as_str(), "' not found"),
                    ),
                );
            }
        }
        if sibling_named(&self.folders, name, &parent_id, None) {
            return Err(
                AppError::Conflict(concat3("Folder '", name, "' already exists in this location")),
            );
        }
        if find_folder(&self.folders, id.as_str()).is_some() {
            return Err(AppError::Internal(owned("Folder id is already in use")));
        }
        proof {
            lemma_subfolder_count(self@.folders, id@);
        }
        if subfolder_stats(&self.folders, id.as_str()) > 0 {
            return Err(AppError::Internal(owned("Folder id is already in use")));
        }
        let info = FolderInfo {
            id: id.clone(),
            name: owned(name),
            parent_id: opt_clone(&parent_id),
            created_at,
            file_count: 0,
            folder_count: 0,
            size: 0,
        };
        let row = FolderMetadata { id, name: owned(name), parent_id, created_at };
        proof {
            let before = folder_rows(self.folders@);
            assert(folder_rows(self.folders@.push(row)) =~= before.push(row@));
            lemma_push_lookup(before, row@);
            if acyclic(before) {
                lemma_push_keeps_acyclic(before, row@);
            }
            if old(self)@.forest() {
                lemma_push_keeps_forest(before, row@);
            }
            if siblings_unique(before) {
                lemma_push_siblings(before, row@);
            }
            if files_resolve(old(self)@) {
                lemma_push_files(old(self)@, row@);
            }
        }
        let mut folders: Vec<FolderMetadata> = Vec::new();
        core::mem::swap(&mut self.folders, &mut folders);
        folders.push(row);
        self.folders = folders;
        Ok(info)
    }

    /// Creates the folder `name` under `parent_id`, with a fresh random id
    /// and the current time.
    ///
    /// Fails with `NotFound` if the parent does not exist, else with
    /// `Conflict` if the parent already has a folder of that name. `Internal`
    /// is left for the case that the random id is already in use, which
    /// takes a folder that has it or names it as its parent: in an empty
    /// store a folder is created.
    pub fn create_folder(&mut self, name: &str, parent_id: Option<String>) -> (res: Result<
        FolderInfo,
        AppError,
    >)
        ensures
            match res {
                Ok(info) => {
                    &&& !dangling(old(self)@.folders, opt_view(parent_id))
                    &&& !name_taken(old(self)@.folders, name@, opt_view(parent_id), None)
                    &&& !has_folder(old(self)@.folders, info@.id)
                    &&& !has_subfolder(old(self)@.folders, info@.id)
                    &&& opt_view(parent_id) != Some(info@.id)
                    &&& final(self)@ == StoreState {
                        folders: old(self)@.folders.push(
                            FolderNode {
                                id: info@.id,
                                name: name@,
                                parent_id: opt_view(parent_id),
                                created_at: info@.created_at,
                            },
                        ),
                        files: old(self)@.files,
                    }
                    &&& info@ == FolderSummary {
                        id: info@.id,
                        name: name@,
                        parent_id: opt_view(parent_id),
                        created_at: info@.created_at,
                        file_count: 0,
                        folder_count: 0,
                        size: 0,
                    }
                },
                Err(e) => {
                    &&& final(self)@ == old(self)@
                    &&& e is NotFound <==> dangling(old(self)@.folders, opt_view(parent_id))
                    &&& e is Conflict <==> !dangling(old(self)@.folders, opt_view(parent_id))
                        && name_taken(old(self)@.folders, name@, opt_view(parent_id), None)
                    &&& e is NotFound || e is Conflict || e is Internal
                },
            },
            match create_outcome(old(self)@.folders, name@, opt_view(parent_id)) {
                CreateOutcome::NotFound => res matches Err(e) && e is NotFound,
                CreateOutcome::Conflict => res matches Err(e) && e is Conflict,
                CreateOutcome::Accepted => res matches Err(e) ==> e is Internal,
            },
            exists|id: Seq<char>|
                res is Err <==> #[trigger] create_fails(
                    old(self)@.folders,
                    id,
                    name@,
                    opt_view(parent_id),
                ),
            res matches Err(e) ==> (e is Internal ==> old(self)@.folders.len() > 0),
            final(self).upload_dir_text() == old(self).upload_dir_text(),
            kept_sound(old(self)@, final(self)@),
    {
        let id = random_id();
        let created_at = now();
        let ghost drawn = id@;
        let res = self.create_folder_as(id, created_at, name, parent_id);
        assert(res is Err <==> create_fails(
            old(self)@.folders,
            drawn,
            name@,
            opt_view(parent_id),
        ));
        res
    }

    /// Deletes the folder `folder_id`, which must be empty.
    ///
    /// Fails with `NotFound` if there is no such folder, else with
    /// `Conflict` if a file lies in it or a folder has it as its parent.
    pub fn delete_folder(&mut self, folder_id: &str) -> (res: Result<(), AppError>)
        ensures
            match res {
                Ok(()) => {
                    &&& has_folder(old(self)@.folders, folder_id@)
                    &&& !has_file_in(old(self)@.files, folder_id@)
                    &&& !has_subfolder(old(self)@.folders, folder_id@)
                    &&& final(self)@ == StoreState {
                        folders: old(self)@.folders.remove(pos_of(old(self)@.folders, folder_id@)),
                        files: old(self)@.files,
                    }
                    &&& !has_folder(final(self)@.folders, folder_id@)
                },
                Err(e) => {
                    &&& final(self)@ == old(self)@
                    &&& e is NotFound <==> !has_folder(old(self)@.folders, folder_id@)
                    &&& e is Conflict <==> has_folder(old(self)@.folders, folder_id@) && (
                    has_file_in(old(self)@.files, folder_id@) || has_subfolder(
                        old(self)@.folders,
                        folder_id@,
                    ))
                    &&& e is NotFound || e is Conflict
                },
            },
            delete_outcome(old(self)@, folder_id@) == match res {
                Ok(()) => DeleteOutcome::Deleted,
                Err(AppError::NotFound(_)) => DeleteOutcome::NotFound,
                Err(_) => DeleteOutcome::Conflict,
            },
            final(self).upload_dir_text() == old(self).upload_dir_text(),
            kept_sound(old(self)@, final(self)@),
    {
        proof {
            use_type_invariant(&*self);
        }
        let i = match find_folder(&self.folders, folder_id) {
            Some(i) => i,
            None => {
                return Err(
                    AppError::NotFound(concat3("Folder with id '", folder_id, "' not found")),
                );
            },
        };
        proof {
            lemma_pos_of(self@.folders, i as int);
            lemma_files_in_count(self@.files, folder_id@);
            lemma_subfolder_count(self@.folders, folder_id@);
        }
        let (file_count, _) = file_stats(&self.files, folder_id);
        if file_count > 0 {
            return Err(AppError::Conflict(owned("Cannot delete folder: folder contains files")));
        }
        let folder_count = subfolder_stats(&self.folders, folder_id);
        if folder_count > 0 {
            return Err(
                AppError::Conflict(owned("Cannot delete folder: folder contains subfolders")),
            );
        }
        proof {
            let before = folder_rows(self.folders@);
            assert(folder_rows(self.folders@.remove(i as int)) =~= before.remove(i as int));
            lemma_remove_lookup(before, i as int);
            if acyclic(before) {
                lemma_remove_keeps_acyclic(before, i as int);
            }
            if old(self)@.forest() {
                lemma_remove_keeps_forest(before, i as int);
            }
            if siblings_unique(before) {
                lemma_remove_siblings(before, i as int);
            }
            if files_resolve(old(self)@) {
                lemma_remove_files(old(self)@, i as int);
            }
        }
        let mut folders: Vec<FolderMetadata> = Vec::new();
        core::mem::swap(&mut self.folders, &mut folders);
        folders.remove(i);
        self.folders = folders;
        Ok(())
    }

    /// Assigns the file `filename` to `folder_id`, recording `size` and the
    /// assignment time `uploaded_at`. A file that is already known is moved.
    ///
    /// Fails with `NotFound` if the folder does not exist.
    pub fn assign_file_to_folder_at(
        &mut self,
        filename: &str,
        folder_id: Option<String>,
        size: u64,
        uploaded_at: Timestamp,
    ) -> (res: Result<(), AppError>)
        ensures
            match res {
                Ok(()) => {
                    &&& !dangling(old(self)@.folders, opt_view(folder_id))
                    &&& final(self)@ == StoreState {
                        folders: old(self)@.folders,
                        files: upsert(
                            old(self)@.files,
                            FileRecord {
                                filename: filename@,
                                folder_id: opt_view(folder_id),
                                uploaded_at,
                                size,
                            },
                        ),
                    }
                },
                Err(e) => {
                    &&& final(self)@ == old(self)@
                    &&& dangling(old(self)@.folders, opt_view(folder_id))
                    &&& e is NotFound
                },
            },
            final(self).upload_dir_text() == old(self).upload_dir_text(),
            kept_sound(old(self)@, final(self)@),
    {
        proof {
            use_type_invariant(&*self);
        }
        if let Some(f) = &folder_id {
            if find_folder(&self.folders, f.as_str()).is_none() {
                return Err(
                    AppError::NotFound(concat3("Folder with id '", f.as_str(), "' not found")),
                );
            }
        }
        let row = FileMetadata { filename: owned(filename), folder_id, uploaded_at, size };
        let found = find_file(&self.files, filename);
        proof {
            let before = file_rows(self.files@);
            lemma_upsert_keyed(before, row@);
            match found {
                Some(i) => {
                    lemma_file_pos(before, i as int);
                    assert(file_rows(self.files@.update(i as int, row)) =~= before.update(
                        i as int,
                        row@,
                    ));
                },
                None => {
                    assert(file_rows(self.files@.push(row)) =~= before.push(row@));
                },
            }
            if files_resolve(old(self)@) {
                lemma_upsert_files(old(self)@, row@);
            }
        }
        let mut files: Vec<FileMetadata> = Vec::new();
        core::mem::swap(&mut self.files, &mut files);
        match found {
            Some(i) => {
                files.set(i, row);
            },
            None => {
                files.push(row);
            },
        }
        self.files = files;
        Ok(())
    }

    /// Assigns the file `filename` to `folder_id`, recording `size` and the
    /// current time. A file that is already known is moved, and its time
    /// refreshed.
    ///
    /// Fails with `NotFound` if the folder does not exist.
    pub fn assign_file_to_folder(
        &mut self,
        filename: &str,
        folder_id: Option<String>,
        size: u64,
    ) -> (res: Result<(), AppError>)
        ensures
            match res {
                Ok(()) => {
                    &&& !dangling(old(self)@.folders, opt_view(folder_id))
                    &&& has_file(final(self)@.files, filename@)
                    &&& final(self)@ == StoreState {
                        folders: old(self)@.folders,
                        files: upsert(
                            old(self)@.files,
                            FileRecord {
                                filename: filename@,
                                folder_id: opt_view(folder_id),
                                uploaded_at: final(self)@.files[file_pos(
                                    final(self)@.files,
                                    filename@,
                                )].uploaded_at,
                                size,
                            },
                        ),
                    }
                },
                Err(e) => {
                    &&& final(self)@ == old(self)@
                    &&& dangling(old(self)@.folders, opt_view(folder_id))
                    &&& e is NotFound
                },
            },
            final(self).upload_dir_text() == old(self).upload_dir_text(),
            kept_sound(old(self)@, final(self)@),
    {
        let uploaded_at = now();
        let ghost before = self@.files;
        proof {
            use_type_invariant(&*self);
        }
        let res = self.assign_file_to_folder_at(filename, folder_id, size, uploaded_at);
        proof {
            if res is Ok {
                use_type_invariant(&*self);
                let record = FileRecord {
                    filename: filename@,
                    folder_id: opt_view(folder_id),
                    uploaded_at,
                    size,
                };
                lemma_upsert_holds(before, record);
            }
        }
        res
    }

    /// Forgets the file `filename`. A file that is not known is no error.
    pub fn remove_file_metadata(&mut self, filename: &str)
        ensures
            final(self)@ == (StoreState {
                folders: old(self)@.folders,
                files: without_file(old(self)@.files, filename@),
            }),
            !has_file(final(self)@.files, filename@),
            final(self).upload_dir_text() == old(self).upload_dir_text(),
            kept_sound(old(self)@, final(self)@),
    {
        proof {
            use_type_invariant(&*self);
        }
        let found = find_file(&self.files, filename);
        proof {
            let before = file_rows(self.files@);
            lemma_without_keyed(before, filename@);
            lemma_without_gone(before, filename@);
            if files_resolve(old(self)@) {
                lemma_without_files(old(self)@, filename@);
            }
        }
        match found {
            Some(i) => {
                proof {
                    let before = file_rows(self.files@);
                    lemma_file_pos(before, i as int);
                    assert(file_rows(self.files@.remove(i as int)) =~= before.remove(i as int));
                }
                let mut files: Vec<FileMetadata> = Vec::new();
                core::mem::swap(&mut self.files, &mut files);
                files.remove(i);
                self.files = files;
            },
            None => {},
        }
    }

    /// The folder that the file `filename` is assigned to; `None` for a file
    /// at the root and for a file that is not known.
    pub fn get_file_folder(&self, filename: &str) -> (folder: Option<String>)
        ensures
            opt_view(folder) == if has_file(self@.files, filename@) {
                self@.files[file_pos(self@.files, filename@)].folder_id
            } else {
                None
            },
    {
        proof {
            use_type_invariant(self);
        }
        match find_file(&self.files, filename) {
            Some(i) => {
                proof {
                    lemma_file_pos(self@.files, i as int);
                }
                opt_clone(&self.files[i].folder_id)
            },
            None => None,
        }
    }

    /// The names of the files assigned to `folder_id`, in table order; with
    /// no folder given, the names of the files that are assigned to none.
    pub fn get_files_in_folder(&self, folder_id: Option<String>) -> (names: Vec<String>)
        ensures
            texts(names@) == filenames_in(self@.files, opt_view(folder_id)),
    {
        let mut names: Vec<String> = Vec::new();
        let mut i: usize = 0;
        while i < self.files.len()
            invariant
                i <= self.files.len(),
                texts(names@) == filenames_in(
                    file_rows(self.files@).take(i as int),
                    opt_view(folder_id),
                ),
            decreases self.files.len() - i,
        {
            let ghost before = file_rows(self.files@).take(i as int);
            let ghost after = file_rows(self.files@).take(i + 1);
            assert(after.drop_last() == before);
            assert(after.last() == self.files@[i as int]@);
            let row = &self.files[i];
            if opt_str_eq(&row.folder_id, &folder_id) {
                let ghost listed = texts(names@);
                let name = row.filename.clone();
                names.push(name);
                assert(texts(names@) =~= listed.push(name@));
            }
            i += 1;
        }
        assert(file_rows(self.files@).take(self.files.len() as int) == file_rows(self.files@));
        names
    }

    /// Moves the folder `folder_id` under `new_parent_id`, or to the root.
    ///
    /// Fails with `NotFound` if the folder or the new parent does not exist,
    /// else with `InvalidOperation` if the new parent is the folder itself or
    /// lies below it, else with `Conflict` if another folder of the same
    /// name is already there. The walk up from the new parent makes at most
    /// as many steps as there are folders.
    pub fn move_folder(&mut self, folder_id: &str, new_parent_id: Option<String>) -> (res: Result<
        (),
        AppError,
    >)
        ensures
            match res {
                Ok(()) => {
                    &&& has_folder(old(self)@.folders, folder_id@)
                    &&& final(self)@ == StoreState {
                        folders: with_parent(
                            old(self)@.folders,
                            pos_of(old(self)@.folders, folder_id@),
                            opt_view(new_parent_id),
                        ),
                        files: old(self)@.files,
                    }
                    &&& parent_of(final(self)@.folders, folder_id@) == opt_view(new_parent_id)
                },
                Err(e) => {
                    &&& final(self)@ == old(self)@
                    &&& e is NotFound || e is InvalidOperation || e is Conflict
                },
            },
            move_outcome(old(self)@.folders, folder_id@, opt_view(new_parent_id)) == match res {
                Ok(()) => MoveOutcome::Moved,
                Err(AppError::NotFound(_)) => MoveOutcome::NotFound,
                Err(AppError::InvalidOperation(_)) => MoveOutcome::InvalidOperation,
                Err(_) => MoveOutcome::Conflict,
            },
            final(self).upload_dir_text() == old(self).upload_dir_text(),
            kept_sound(old(self)@, final(self)@),
    {
        proof {
            use_type_invariant(&*self);
        }
        let ghost rows = self@.folders;
        let i = match find_folder(&self.folders, folder_id) {
            Some(i) => i,
            None => {
                return Err(
                    AppError::NotFound(concat3("Folder with id '", folder_id, "' not found")),
                );
            },
        };
        proof {
            lemma_pos_of(rows, i as int);
        }
        if let Some(p) = &new_parent_id {
            if find_folder(&self.folders, p.as_str()).is_none() {
                return Err(
                    AppError::NotFound(
                        concat3("Target parent folder with id '", p.as_str(), "' not found"),
                    ),
                );
            }
            let limit = self.folders.len();
            let mut current: Option<String> = Some(p.clone());
            let mut steps: usize = 0;
            while steps < limit && current.is_some()
                invariant
                    *self == *old(self),
                    rows == folder_rows(self.folders@),
                    i < rows.len(),
                    rows[i as int].id == folder_id@,
                    has_folder(rows, folder_id@),
                    has_folder(rows, p@),
                    new_parent_id == Some(*p),
                    distinct_ids(rows),
                    limit == rows.len(),
                    steps <= limit,
                    opt_view(current) == nth_ancestor(rows, p@, steps as nat),
                    forall|j: nat|
                        j < steps ==> #[trigger] nth_ancestor(rows, p@, j) != Some(folder_id@),
                decreases limit - steps,
            {
                let at = match &current {
                    Some(c) => c.clone(),
                    None => owned(""),
                };
                if str_eq(at.as_str(), folder_id) {
                    proof {
                        assert(nth_ancestor(rows, p@, steps as nat) == Some(folder_id@));
                        assert(in_subtree(rows, folder_id@, p@));
                    }
                    return Err(
                        AppError::InvalidOperation(
                            owned("Cannot move folder into one of its descendants"),
                        ),
                    );
                }
                current =
                match find_folder(&self.folders, at.as_str()) {
                    Some(a) => {
                        proof {
                            lemma_pos_of(rows, a as int);
                        }
                        opt_clone(&self.folders[a].parent_id)
                    },
                    None => None,
                };
                steps += 1;
            }
            proof {
                lemma_walk_decides(rows, folder_id@, p@, steps as nat);
            }
        }
        if sibling_named(
            &self.folders,
            self.folders[i].name.as_str(),
            &new_parent_id,
            Some(folder_id),
        ) {
            return Err(
                AppError::Conflict(
                    concat3(
                        "Folder '",
                        self.folders[i].name.as_str(),
                        "' already exists in target location",
                    ),
                ),
            );
        }
        let mut row = self.folders[i].duplicate();
        row.parent_id = opt_clone(&new_parent_id);
        proof {
            let parent = opt_view(new_parent_id);
            assert(row@ == FolderNode { parent_id: parent, ..rows[i as int] });
            assert(folder_rows(self.folders@.update(i as int, row)) =~= with_parent(
                rows,
                i as int,
                parent,
            ));
            lemma_with_parent(rows, i as int, parent, folder_id@);
            if acyclic(rows) {
                lemma_move_keeps_acyclic(rows, i as int, parent);
            }
            if old(self)@.forest() {
                lemma_move_keeps_forest(rows, i as int, parent);
            }
            if siblings_unique(rows) {
                lemma_move_siblings(rows, i as int, parent);
            }
            if files_resolve(old(self)@) {
                lemma_move_files(old(self)@, i as int, parent);
            }
        }
        let mut folders: Vec<FolderMetadata> = Vec::new();
        core::mem::swap(&mut self.folders, &mut folders);
        folders.set(i, row);
        self.folders = folders;
        Ok(())
    }
}

/// The texts that a vector of strings stands for.
pub open spec fn texts(v: Seq<String>) -> Seq<Seq<char>> {
    v.map_values(|s: String| s@)
}

/// The summaries that a vector of folder infos stands for.
pub open spec fn summaries(v: Seq<FolderInfo>) -> Seq<FolderSummary> {
    v.map_values(|f: FolderInfo| f@)
}

/// The summary that an optional folder info stands for.
pub open spec fn opt_summary(o: Option<FolderInfo>) -> Option<FolderSummary> {
    match o {
        Some(info) => Some(info@),
        None => None,
    }
}

impl FolderManager {
    /// The summaries of the folders directly under `parent`, sorted by name.
    fn sorted_children(&self, parent: &Option<String>) -> (out: Vec<FolderInfo>)
        ensures
            sorted_by_name(summaries(out@)),
            summaries(out@).to_multiset() == child_summaries(
                self@,
                self@.folders,
                opt_view(*parent),
            ).to_multiset(),
    {
        let mut out: Vec<FolderInfo> = Vec::new();
        let mut i: usize = 0;
        assert(summaries(out@) =~= child_summaries(
            self@,
            self@.folders.take(0),
            opt_view(*parent),
        ));
        while i < self.folders.len()
            invariant
                i <= self.folders.len(),
                sorted_by_name(summaries(out@)),
                summaries(out@).to_multiset() == child_summaries(
                    self@,
                    self@.folders.take(i as int),
                    opt_view(*parent),
                ).to_multiset(),
            decreases self.folders.len() - i,
        {
            let ghost before = self@.folders.take(i as int);
            let ghost after = self@.folders.take(i + 1);
            assert(after.drop_last() == before);
            assert(after.last() == self@.folders[i as int]);
            if opt_str_eq(&self.folders[i].parent_id, parent) {
                let info = self.summary_at(i);
                let mut pos: usize = 0;
                while pos < out.len() && !str_less(info.name.as_str(), out[pos].name.as_str())
                    invariant
                        pos <= out.len(),
                        forall|a: int|
                            0 <= a < pos ==> !lex_less(
                                info@.name,
                                (#[trigger] summaries(out@)[a]).name,
                            ),
                    decreases out.len() - pos,
                {
                    pos += 1;
                }
                proof {
                    let list = summaries(out@);
                    assert(summaries(out@.insert(pos as int, info)) =~= list.insert(
                        pos as int,
                        info@,
                    ));
                    lemma_insert_sorted(list, pos as int, info@);
                    lemma_insert_multiset(list, pos as int, info@);
                    child_summaries(self@, before, opt_view(*parent)).to_multiset_ensures();
                }
                out.insert(pos, info);
            }
            i += 1;
        }
        assert(self@.folders.take(self.folders.len() as int) == self@.folders);
        out
    }

    /// The path from the root down to `folder_id`: the folder itself last,
    /// its parent before it, and so on, as far up as the parent references
    /// name folders of the table and over at most as many folders as the
    /// table has.
    pub fn trail(&self, folder_id: &str) -> (out: Vec<FolderInfo>)
        ensures
            summaries(out@) == crumb_trail(self@, folder_id@, self@.folders.len()),
    {
        proof {
            use_type_invariant(self);
        }
        let limit = self.folders.len();
        let mut out: Vec<FolderInfo> = Vec::new();
        let mut current: Option<String> = Some(owned(folder_id));
        let mut steps: usize = 0;
        while steps < limit && current.is_some()
            invariant
                distinct_ids(self@.folders),
                limit == self@.folders.len(),
                steps <= limit,
                crumb_trail(self@, folder_id@, limit as nat) == (match opt_view(current) {
                    Some(c) => crumb_trail(self@, c, (limit - steps) as nat),
                    None => Seq::empty(),
                }) + summaries(out@),
            decreases limit - steps,
        {
            let at = match &current {
                Some(c) => c.clone(),
                None => owned(""),
            };
            let ghost listed = summaries(out@);
            match find_folder(&self.folders, at.as_str()) {
                Some(a) => {
                    proof {
                        lemma_pos_of(self@.folders, a as int);
                    }
                    let info = self.summary_at(a);
                    let next = opt_clone(&self.folders[a].parent_id);
                    out.insert(0, info);
                    proof {
                        let above = match opt_view(next) {
                            Some(p) => crumb_trail(self@, p, (limit - steps - 1) as nat),
                            None => Seq::empty(),
                        };
                        assert(summaries(out@) =~= seq![info@] + listed);
                        assert(above.push(info@) + listed =~= above + summaries(out@));
                    }
                    current = next;
                },
                None => {
                    current = None;
                },
            }
            steps += 1;
        }
        proof {
            assert(Seq::<FolderSummary>::empty() + summaries(out@) =~= summaries(out@));
        }
        out
    }

    /// Lists the folder `folder_id`, or the root: the folders directly in
    /// it, sorted by name; the folder's own summary; and the path from the
    /// root down to it.
    ///
    /// Fails with `NotFound` if the folder does not exist.
    pub fn list_folder_contents(&self, folder_id: Option<String>) -> (res: Result<
        FolderListResponse,
        AppError,
    >)
        ensures
            match res {
                Ok(listing) => {
                    &&& !dangling(self@.folders, opt_view(folder_id))
                    &&& sorted_by_name(summaries(listing.folders@))
                    &&& summaries(listing.folders@).to_multiset() == child_summaries(
                        self@,
                        self@.folders,
                        opt_view(folder_id),
                    ).to_multiset()
                    &&& opt_summary(listing.current_folder) == match opt_view(folder_id) {
                        Some(f) => Some(
                            summary_of(self@, self@.folders[pos_of(self@.folders, f)]),
                        ),
                        None => None,
                    }
                    &&& summaries(listing.breadcrumbs@) == breadcrumbs_of(
                        self@,
                        opt_view(folder_id),
                    )
                },
                Err(e) => dangling(self@.folders, opt_view(folder_id)) && e is NotFound,
            },
    {
        proof {
            use_type_invariant(self);
        }
        let current_folder = match &folder_id {
            Some(f) => match find_folder(&self.folders, f.as_str()) {
                Some(i) => {
                    proof {
                        lemma_pos_of(self@.folders, i as int);
                    }
                    Some(self.summary_at(i))
                },
                None => {
                    return Err(
                        AppError::NotFound(concat3("Folder with id '", f.as_str(), "' not found")),
                    );
                },
            },
            None => None,
        };
        let folders = self.sorted_children(&folder_id);
        let breadcrumbs = match &folder_id {
            Some(f) => self.trail(f.as_str()),
            None => Vec::new(),
        };
        Ok(FolderListResponse { folders, current_folder, breadcrumbs })
    }
}

impl FolderManager {
    /// Whether every parent reference names a folder of the table.
    fn parents_resolve(&self) -> (ok: bool)
        ensures
            ok == parents_exist(self@.folders),
    {
        let mut i: usize = 0;
        while i < self.folders.len()
            invariant
                i <= self.folders.len(),
                forall|a: int|
                    0 <= a < i && (#[trigger] self@.folders[a]).parent_id is Some ==> has_folder(
                        self@.folders,
                        self@.folders[a].parent_id->0,
                    ),
            decreases self.folders.len() - i,
        {
            if let Some(p) = &self.folders[i].parent_id {
                if find_folder(&self.folders, p.as_str()).is_none() {
                    assert(self@.folders[i as int].parent_id == Some(p@));
                    return false;
                }
            }
            i += 1;
        }
        true
    }

    /// Whether the folder at position `i` is its own ancestor.
    fn is_own_ancestor(&self, i: usize) -> (yes: bool)
        requires
            i < self@.folders.len(),
        ensures
            yes == exists|k: nat|
                k >= 1 && #[trigger] nth_ancestor(self@.folders, self@.folders[i as int].id, k)
                    == Some(self@.folders[i as int].id),
    {
        proof {
            use_type_invariant(self);
        }
        let ghost rows = self@.folders;
        let ghost id = rows[i as int].id;
        proof {
            lemma_pos_of(rows, i as int);
            assert(nth_ancestor(rows, id, 0) == Some(id));
        }
        let limit = self.folders.len();
        let mut current: Option<String> = opt_clone(&self.folders[i].parent_id);
        let mut done: usize = 0;
        while done < limit && current.is_some()
            invariant
                rows == self@.folders,
                distinct_ids(rows),
                i < rows.len(),
                id == rows[i as int].id,
                has_folder(rows, id),
                limit == rows.len(),
                done <= limit,
                opt_view(current) == nth_ancestor(rows, id, (done + 1) as nat),
                forall|j: nat|
                    1 <= j <= done ==> #[trigger] nth_ancestor(rows, id, j) != Some(id),
            decreases limit - done,
        {
            let at = match &current {
                Some(c) => c.clone(),
                None => owned(""),
            };
            if str_eq(at.as_str(), self.folders[i].id.as_str()) {
                assert(nth_ancestor(rows, id, (done + 1) as nat) == Some(id));
                return true;
            }
            current =
            match find_folder(&self.folders, at.as_str()) {
                Some(a) => {
                    proof {
                        lemma_pos_of(rows, a as int);
                    }
                    opt_clone(&self.folders[a].parent_id)
                },
                None => None,
            };
            done += 1;
        }
        proof {
            assert forall|k: nat| k >= 1 implies #[trigger] nth_ancestor(rows, id, k) != Some(
                id,
            ) by {
                if nth_ancestor(rows, id, k) == Some(id) {
                    let j = lemma_cycle_is_short(rows, id, k);
                    if j > done {
                        lemma_ancestor_none(rows, id, (done + 1) as nat, j);
                    }
                }
            }
        }
        false
    }

    /// Whether no folder is its own ancestor.
    fn has_no_cycle(&self) -> (ok: bool)
        ensures
            ok == acyclic(self@.folders),
    {
        let mut i: usize = 0;
        while i < self.folders.len()
            invariant
                i <= self.folders.len(),
                forall|a: int, k: nat|
                    0 <= a < i && k >= 1 ==> #[trigger] nth_ancestor(
                        self@.folders,
                        self@.folders[a].id,
                        k,
                    ) != Some(self@.folders[a].id),
            decreases self.folders.len() - i,
        {
            if self.is_own_ancestor(i) {
                proof {
                    let id = self@.folders[i as int].id;
                    let k = choose|k: nat|
                        k >= 1 && #[trigger] nth_ancestor(self@.folders, id, k) == Some(id);
                    assert(has_folder(self@.folders, id));
                }
                return false;
            }
            i += 1;
        }
        proof {
            assert forall|id: Seq<char>, k: nat|
                has_folder(self@.folders, id) && k >= 1 implies #[trigger] nth_ancestor(
                self@.folders,
                id,
                k,
            ) != Some(id) by {
                let a = pos_of(self@.folders, id);
                assert(self@.folders[a].id == id);
            }
        }
        true
    }

    /// Whether no two folders under one parent share a name.
    fn siblings_differ(&self) -> (ok: bool)
        ensures
            ok == siblings_unique(self@.folders),
    {
        let mut j: usize = 0;
        while j < self.folders.len()
            invariant
                j <= self.folders.len(),
                forall|a: int, b: int|
                    0 <= a < b < j ==> !((#[trigger] self@.folders[a]).name == (
                    #[trigger] self@.folders[b]).name && self@.folders[a].parent_id
                        == self@.folders[b].parent_id),
            decreases self.folders.len() - j,
        {
            let mut i: usize = 0;
            while i < j
                invariant
                    i <= j < self.folders.len(),
                    forall|a: int|
                        0 <= a < i ==> !((#[trigger] self@.folders[a]).name
                            == self@.folders[j as int].name && self@.folders[a].parent_id
                            == self@.folders[j as int].parent_id),
                decreases j - i,
            {
                if str_eq(self.folders[i].name.as_str(), self.folders[j].name.as_str())
                    && opt_str_eq(&self.folders[i].parent_id, &self.folders[j].parent_id) {
                    assert(self@.folders[i as int].name == self@.folders[j as int].name);
                    return false;
                }
                i += 1;
            }
            j += 1;
        }
        true
    }

    /// Whether every file's folder is in the table.
    fn files_have_folders(&self) -> (ok: bool)
        ensures
            ok == files_resolve(self@),
    {
        let mut i: usize = 0;
        while i < self.files.len()
            invariant
                i <= self.files.len(),
                forall|a: int|
                    0 <= a < i && (#[trigger] self@.files[a]).folder_id is Some ==> has_folder(
                        self@.folders,
                        self@.files[a].folder_id->0,
                    ),
            decreases self.files.len() - i,
        {
            if let Some(f) = &self.files[i].folder_id {
                if find_folder(&self.folders, f.as_str()).is_none() {
                    assert(self@.files[i as int].folder_id == Some(f@));
                    return false;
                }
            }
            i += 1;
        }
        true
    }

    /// Whether the store is consistent: the folders form a forest with
    /// unique sibling names, and every file's folder exists. A store that
    /// was made empty and changed only by its own operations always is; one
    /// that was made from tables need not be.
    pub fn is_consistent(&self) -> (ok: bool)
        ensures
            ok == self@.consistent(),
    {
        proof {
            use_type_invariant(self);
        }
        self.parents_resolve() && self.has_no_cycle() && self.siblings_differ()
            && self.files_have_folders()
    }
}

} // verus!
