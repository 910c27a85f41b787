//! Rebuilding the store from an archive: which folders to create, in which
//! order, and which folder each file goes to.

use crate::error::AppError;
use crate::services::folder_manager::FolderManager;
use crate::services::folder_tree::{dangling, FolderNode, kept_sound};
use crate::utils::path::last_start;
use crate::utils::text::{chars_of, ends_with, opt_view, slice_of, str_eq, string_of};
use vstd::prelude::*;

verus! {

/// The form of an import: one archive.
#[derive(Debug)]
pub struct ImportRequest {
    /// ZIP file to import.
    pub file: String,
}

/// A folder of the archive and the id it was created under.
#[derive(Debug)]
pub struct ImportedFolder {
    /// The folder's path in the archive, without a separator at its end.
    pub path: String,
    /// The id of the folder in the store.
    pub id: String,
}

/// Whether an uploaded part named `filename` is the archive to import.
pub fn is_archive(filename: &str) -> (yes: bool)
    ensures
        yes == ".zip"@.is_suffix_of(filename@),
{
    ends_with(filename, ".zip")
}

/// How deep the path `path` lies: the number of its separators.
pub open spec fn depth_of(path: Seq<char>) -> nat
    decreases path.len(),
{
    if path.len() == 0 {
        0
    } else {
        depth_of(path.drop_last()) + if path.last() == '/' {
            1nat
        } else {
            0nat
        }
    }
}

/// What stands in `path` before its last separator; nothing where it has
/// none.
pub open spec fn parent_path_of(path: Seq<char>) -> Seq<char> {
    if last_start(path) == 0 {
        Seq::empty()
    } else {
        path.take(last_start(path) - 1)
    }
}

/// What stands in `path` behind its last separator.
pub open spec fn base_name_of(path: Seq<char>) -> Seq<char> {
    path.skip(last_start(path))
}

/// How deep the path `path` lies.
pub fn depth(path: &str) -> (d: usize)
    ensures
        d == depth_of(path@),
{
    let chars = chars_of(path);
    let mut d: usize = 0;
    let mut i: usize = 0;
    assert(chars@.take(0) =~= Seq::<char>::empty());
    while i < chars.len()
        invariant
            i <= chars.len(),
            d <= i,
            d == depth_of(chars@.take(i as int)),
        decreases chars.len() - i,
    {
        assert(chars@.take(i + 1).drop_last() == chars@.take(i as int));
        if chars[i] == '/' {
            d += 1;
        }
        i += 1;
    }
    assert(chars@.take(chars.len() as int) == chars@);
    d
}

/// Where the last component of `path` begins.
fn split_point(chars: &Vec<char>) -> (start: usize)
    ensures
        start <= chars.len(),
        start == last_start(chars@),
{
    let mut start: usize = chars.len();
    assert(chars@.take(start as int) =~= chars@);
    while start > 0 && chars[start - 1] != '/'
        invariant
            start <= chars.len(),
            last_start(chars@.take(start as int)) == last_start(chars@),
        decreases start,
    {
        assert(chars@.take(start as int).drop_last() == chars@.take(start - 1));
        start -= 1;
    }
    start
}

/// What stands in `path` before its last separator.
pub fn parent_path(path: &str) -> (out: String)
    ensures
        out@ == parent_path_of(path@),
{
    let chars = chars_of(path);
    let start = split_point(&chars);
    if start == 0 {
        let none = slice_of(&chars, 0, 0);
        assert(none@ =~= Seq::<char>::empty());
        return string_of(&none);
    }
    let head = slice_of(&chars, 0, start - 1);
    string_of(&head)
}

/// What stands in `path` behind its last separator.
pub fn base_name(path: &str) -> (out: String)
    ensures
        out@ == base_name_of(path@),
{
    let chars = chars_of(path);
    let start = split_point(&chars);
    let tail = slice_of(&chars, start, chars.len());
    string_of(&tail)
}

/// The texts that a vector of strings stands for.
pub open spec fn import_paths(v: Seq<String>) -> Seq<Seq<char>> {
    v.map_values(|s: String| s@)
}

/// No path is followed by one that lies less deep.
pub open spec fn parents_first(paths: Seq<Seq<char>>) -> bool {
    forall|i: int, j: int|
        0 <= i < j < paths.len() ==> depth_of(#[trigger] paths[i]) <= depth_of(
            #[trigger] paths[j],
        )
}

/// The paths, those that lie less deep first. Paths of one depth keep
/// their order.
pub fn sort_by_depth(paths: Vec<String>) -> (out: Vec<String>)
    ensures
        parents_first(import_paths(out@)),
        import_paths(out@).to_multiset() == import_paths(paths@).to_multiset(),
        out@.len() == paths@.len(),
{
    let mut rest = paths;
    let ghost all = import_paths(rest@);
    let mut out: Vec<String> = Vec::new();
    proof {
        assert(import_paths(out@) =~= Seq::<Seq<char>>::empty());
        Seq::<Seq<char>>::empty().to_multiset_ensures();
        assert(import_paths(out@).to_multiset() =~= vstd::multiset::Multiset::empty());
        assert(import_paths(out@).to_multiset().add(all.to_multiset()) =~= all.to_multiset());
    }
    while rest.len() > 0
        invariant
            parents_first(import_paths(out@)),
            import_paths(out@).to_multiset().add(import_paths(rest@).to_multiset())
                == all.to_multiset(),
            out@.len() + rest@.len() == all.len(),
        decreases rest.len(),
    {
        let ghost before_rest = import_paths(rest@);
        let ghost list = import_paths(out@);
        let path = rest.pop().unwrap();
        assert(import_paths(rest@) =~= before_rest.drop_last());
        assert(before_rest =~= import_paths(rest@).push(path@));
        let d = depth(path.as_str());
        let mut pos: usize = 0;
        while pos < out.len() && depth(out[pos].as_str()) < d
            invariant
                pos <= out.len(),
                list == import_paths(out@),
                d == depth_of(path@),
                forall|a: int| 0 <= a < pos ==> depth_of(#[trigger] list[a]) < d,
            decreases out.len() - pos,
        {
            assert(list[pos as int] == out@[pos as int]@);
            pos += 1;
        }
        proof {
            if pos < out.len() {
                assert(list[pos as int] == out@[pos as int]@);
            }
            assert(import_paths(out@.insert(pos as int, path)) =~= list.insert(pos as int, path@));
            let grown = list.insert(pos as int, path@);
            assert forall|i: int, j: int| 0 <= i < j < grown.len() implies depth_of(
                #[trigger] grown[i],
            ) <= depth_of(#[trigger] grown[j]) by {
                if i == pos {
                    let b = j - 1;
                    assert(grown[j] == list[b]);
                    if pos < b {
                        assert(depth_of(list[pos as int]) <= depth_of(list[b]));
                    }
                } else if j == pos {
                    assert(grown[i] == list[i]);
                } else {
                    let a = if i < pos { i } else { i - 1 };
                    let b = if j < pos { j } else { j - 1 };
                    assert(grown[i] == list[a]);
                    assert(grown[j] == list[b]);
                }
            }
            grown.to_multiset_ensures();
            assert(grown.remove(pos as int) =~= list);
            assert(grown.to_multiset() =~= list.to_multiset().insert(path@));
            import_paths(rest@).to_multiset_ensures();
        }
        out.insert(pos, path);
    }
    proof {
        assert(import_paths(rest@) =~= Seq::<Seq<char>>::empty());
        Seq::<Seq<char>>::empty().to_multiset_ensures();
        assert(import_paths(rest@).to_multiset() =~= vstd::multiset::Multiset::empty());
        assert(import_paths(out@).to_multiset().add(import_paths(rest@).to_multiset())
            =~= import_paths(out@).to_multiset());
    }
    out
}

/// The id under which the folder at `path` was created: that of the last
/// entry of `created` with this path; `None` for the empty path, which is
/// the root, and for a path that was not created.
pub open spec fn created_id(created: Seq<ImportedFolder>, path: Seq<char>) -> Option<Seq<char>>
    decreases created.len(),
{
    if path.len() == 0 || created.len() == 0 {
        None
    } else if created.last().path@ == path {
        Some(created.last().id@)
    } else {
        created_id(created.drop_last(), path)
    }
}

/// An id under which a folder was created is the id of an entry.
proof fn lemma_created_id(created: Seq<ImportedFolder>, path: Seq<char>)
    ensures
        created_id(created, path) matches Some(id) ==> exists|k: int|
            0 <= k < created.len() && (#[trigger] created[k]).id@ == id,
    decreases created.len(),
{
    if path.len() > 0 && created.len() > 0 {
        if created.last().path@ == path {
            assert(created[created.len() - 1].id@ == created.last().id@);
        } else {
            lemma_created_id(created.drop_last(), path);
            if created_id(created.drop_last(), path) is Some {
                let id = created_id(created.drop_last(), path)->Some_0;
                let k = choose|k: int|
                    0 <= k < created.drop_last().len() && (#[trigger] created.drop_last()[k]).id@
                        == id;
                assert(created[k].id@ == id);
            }
        }
    }
}

/// The id under which the folder at `path` was created.
pub fn folder_id_for(created: &Vec<ImportedFolder>, path: &str) -> (id: Option<String>)
    ensures
        opt_view(id) == created_id(created@, path@),
{
    if chars_of(path).len() == 0 {
        return None;
    }
    let mut i: usize = created.len();
    assert(created@.take(i as int) =~= created@);
    while i > 0
        invariant
            i <= created.len(),
            path@.len() > 0,
            created_id(created@, path@) == created_id(created@.take(i as int), path@),
        decreases i,
    {
        assert(created@.take(i as int).drop_last() == created@.take(i - 1));
        if str_eq(created[i - 1].path.as_str(), path) {
            return Some(created[i - 1].id.clone());
        }
        i -= 1;
    }
    None
}

/// The folder that the file at `file_path` of the archive goes to: the one
/// created for the path in which it lies.
pub fn folder_of_file(created: &Vec<ImportedFolder>, file_path: &str) -> (id: Option<String>)
    ensures
        opt_view(id) == created_id(created@, parent_path_of(file_path@)),
{
    let parent = parent_path(file_path);
    folder_id_for(created, parent.as_str())
}

/// The table `folders` has a row for the folder `id`, with the name `name`
/// and the parent `parent`.
pub open spec fn has_row(
    folders: Seq<FolderNode>,
    id: Seq<char>,
    name: Seq<char>,
    parent: Option<Seq<char>>,
) -> bool {
    exists|a: int|
        0 <= a < folders.len() && #[trigger] folders[a] == (FolderNode {
            id,
            name,
            parent_id: parent,
            created_at: folders[a].created_at,
        })
}

/// The folder that was created for a path is in the table, if every folder
/// that was created is.
proof fn lemma_parent_stands(
    folders: Seq<FolderNode>,
    created: Seq<ImportedFolder>,
    path: Seq<char>,
)
    requires
        forall|k: int|
            0 <= k < created.len() ==> has_row(
                folders,
                (#[trigger] created[k]).id@,
                base_name_of(created[k].path@),
                created_id(created.take(k), parent_path_of(created[k].path@)),
            ),
    ensures
        !dangling(folders, created_id(created, path)),
{
    lemma_created_id(created, path);
    if created_id(created, path) is Some {
        let id = created_id(created, path)->Some_0;
        let k = choose|k: int| 0 <= k < created.len() && (#[trigger] created[k]).id@ == id;
        assert(has_row(
            folders,
            created[k].id@,
            base_name_of(created[k].path@),
            created_id(created.take(k), parent_path_of(created[k].path@)),
        ));
        let a = choose|a: int|
            0 <= a < folders.len() && #[trigger] folders[a] == (FolderNode {
                id: created[k].id@,
                name: base_name_of(created[k].path@),
                parent_id: created_id(created.take(k), parent_path_of(created[k].path@)),
                created_at: folders[a].created_at,
            });
        assert(folders[a].id == id);
    }
}

/// Creates the folders of the archive, given by their paths: parents before
/// their children, each under the folder created for the path in which it
/// lies, or at the root.
///
/// Fails with the error of the first folder that cannot be created; the
/// folders created before it stay. That is `Conflict` where a folder of
/// that name is already there, or `Internal` where the id drawn for it is
/// already in use; a parent is never missing, since it was created before.
/// So nothing fails where there is nothing to create, nor where one folder
/// goes into an empty store.
pub fn import_folders(store: &mut FolderManager, folders: Vec<String>) -> (res: Result<
    Vec<ImportedFolder>,
    AppError,
>)
    ensures
        kept_sound(old(store)@, final(store)@),
        final(store)@.files == old(store)@.files,
        match res {
            Ok(created) => {
                &&& created@.len() == folders@.len()
                &&& parents_first(created@.map_values(|c: ImportedFolder| c.path@))
                &&& created@.map_values(|c: ImportedFolder| c.path@).to_multiset() == import_paths(
                    folders@,
                ).to_multiset()
                &&& forall|i: int|
                    0 <= i < created@.len() ==> has_row(
                        final(store)@.folders,
                        (#[trigger] created@[i]).id@,
                        base_name_of(created@[i].path@),
                        created_id(created@.take(i), parent_path_of(created@[i].path@)),
                    )
            },
            Err(e) => {
                &&& e is Conflict || e is Internal
                &&& folders@.len() > 0
                &&& final(store)@.folders.len() > 0
            },
        },
{
    let ordered = sort_by_depth(folders);
    proof {
        import_paths(ordered@).to_multiset_ensures();
        import_paths(folders@).to_multiset_ensures();
        assert(ordered@.len() == import_paths(ordered@).len());
        assert(folders@.len() == import_paths(folders@).len());
    }
    let mut created: Vec<ImportedFolder> = Vec::new();
    let mut i: usize = 0;
    assert(created@.map_values(|c: ImportedFolder| c.path@) =~= import_paths(ordered@).take(0));
    while i < ordered.len()
        invariant
            i <= ordered.len(),
            ordered@.len() == folders@.len(),
            created@.len() == i,
            kept_sound(old(store)@, store@),
            store@.files == old(store)@.files,
            created@.map_values(|c: ImportedFolder| c.path@) == import_paths(ordered@).take(
                i as int,
            ),
            forall|k: int|
                0 <= k < created@.len() ==> has_row(
                    store@.folders,
                    (#[trigger] created@[k]).id@,
                    base_name_of(created@[k].path@),
                    created_id(created@.take(k), parent_path_of(created@[k].path@)),
                ),
        decreases ordered.len() - i,
    {
        let path = ordered[i].as_str();
        let parent = parent_path(path);
        let parent_id = folder_id_for(&created, parent.as_str());
        let name = base_name(path);
        let ghost before = store@.folders;
        proof {
            lemma_parent_stands(before, created@, parent@);
        }
        let info = match store.create_folder(name.as_str(), parent_id) {
            Ok(info) => info,
            Err(e) => {
                return Err(e);
            },
        };
        let ghost so_far = created@;
        let ghost listed = created@.map_values(|c: ImportedFolder| c.path@);
        let entry = ImportedFolder { path: ordered[i].clone(), id: info.id };
        created.push(entry);
        proof {
            assert(created@.take(i as int) =~= so_far);
            assert forall|k: int| 0 <= k < created@.len() implies has_row(
                store@.folders,
                (#[trigger] created@[k]).id@,
                base_name_of(created@[k].path@),
                created_id(created@.take(k), parent_path_of(created@[k].path@)),
            ) by {
                if k < i {
                    assert(created@[k] == so_far[k]);
                    assert(created@.take(k) =~= so_far.take(k));
                    let a = choose|a: int|
                        0 <= a < before.len() && #[trigger] before[a] == (FolderNode {
                            id: so_far[k].id@,
                            name: base_name_of(so_far[k].path@),
                            parent_id: created_id(so_far.take(k), parent_path_of(so_far[k].path@)),
                            created_at: before[a].created_at,
                        });
                    assert(store@.folders[a] == before[a]);
                } else {
                    assert(store@.folders[before.len() as int].id == info@.id);
                }
            }
        }
        assert(created@.map_values(|c: ImportedFolder| c.path@) =~= listed.push(entry.path@));
        assert(import_paths(ordered@).take(i + 1) =~= import_paths(ordered@).take(i as int).push(
            ordered@[i as int]@,
        ));
        i += 1;
    }
    assert(import_paths(ordered@).take(ordered.len() as int) == import_paths(ordered@));
    Ok(created)
}

} // verus!
