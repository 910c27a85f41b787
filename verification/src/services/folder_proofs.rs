//! Lemmas about the model of the metadata store: what a lookup finds after
//! a table has changed, and how chains of parent references behave.

use crate::services::folder_tree::{
    dangling, distinct_ids, distinct_names, file_pos, FileRecord, files_in_count, files_resolve,
    FolderNode, FolderSummary, has_file, has_file_in, has_folder, has_subfolder, name_taken,
    nth_ancestor, parent_of, parents_exist, pos_of, siblings_unique, sorted_by_name, StoreState,
    subfolder_count, upsert, with_parent, without_file,
};
use crate::utils::text::{lemma_lex_less_asymmetric, lemma_lex_less_transitive, lex_less};
use vstd::prelude::*;

verus! {

/// With distinct ids, the row at position `i` is the one that `pos_of`
/// finds for its id.
pub proof fn lemma_pos_of(folders: Seq<FolderNode>, i: int)
    requires
        distinct_ids(folders),
        0 <= i < folders.len(),
    ensures
        has_folder(folders, folders[i].id),
        pos_of(folders, folders[i].id) == i,
        parent_of(folders, folders[i].id) == folders[i].parent_id,
{
    let id = folders[i].id;
    let p = pos_of(folders, id);
    assert(0 <= p < folders.len() && folders[p].id == id);
    if p < i {
        assert(folders[p].id != folders[i].id);
    } else if i < p {
        assert(folders[i].id != folders[p].id);
    }
}

/// Following `i` references and then `j` more is following `i + j`.
pub proof fn lemma_ancestor_add(folders: Seq<FolderNode>, id: Seq<char>, i: nat, j: nat)
    ensures
        nth_ancestor(folders, id, i + j) == match nth_ancestor(folders, id, i) {
            Some(a) => nth_ancestor(folders, a, j),
            None => None,
        },
    decreases j,
{
    if j > 0 {
        lemma_ancestor_add(folders, id, i, (j - 1) as nat);
        assert((i + j - 1) as nat == i + (j - 1) as nat);
    }
}

/// Once a chain has ended it stays ended.
pub proof fn lemma_ancestor_none(folders: Seq<FolderNode>, id: Seq<char>, i: nat, j: nat)
    requires
        nth_ancestor(folders, id, i) is None,
        i <= j,
    ensures
        nth_ancestor(folders, id, j) is None,
    decreases j,
{
    if i < j {
        lemma_ancestor_none(folders, id, i, (j - 1) as nat);
    }
}

/// Every id on a chain but the last is a folder of the table.
pub proof fn lemma_chain_in_table(folders: Seq<FolderNode>, id: Seq<char>, i: nat, j: nat)
    requires
        nth_ancestor(folders, id, j) is Some,
        i < j,
    ensures
        nth_ancestor(folders, id, i) is Some,
        has_folder(folders, nth_ancestor(folders, id, i)->0),
    decreases j,
{
    if i + 1 < j {
        lemma_chain_in_table(folders, id, i, (j - 1) as nat);
    } else {
        assert(i == j - 1);
    }
}

/// The first step at which the chain from `start` stands on `target`.
pub proof fn lemma_first_hit(
    folders: Seq<FolderNode>,
    start: Seq<char>,
    target: Seq<char>,
    k: nat,
) -> (m: nat)
    requires
        nth_ancestor(folders, start, k) == Some(target),
    ensures
        m <= k,
        nth_ancestor(folders, start, m) == Some(target),
        forall|j: nat| j < m ==> #[trigger] nth_ancestor(folders, start, j) != Some(target),
    decreases k,
{
    if exists|j: nat| j < k && #[trigger] nth_ancestor(folders, start, j) == Some(target) {
        let j = choose|j: nat| j < k && #[trigger] nth_ancestor(folders, start, j) == Some(target);
        lemma_first_hit(folders, start, target, j)
    } else {
        k
    }
}

/// Up to its first visit of `target`, a chain never stands on one id twice.
pub(crate) proof fn lemma_first_hit_distinct(
    folders: Seq<FolderNode>,
    start: Seq<char>,
    target: Seq<char>,
    m: nat,
    i: nat,
    j: nat,
)
    requires
        nth_ancestor(folders, start, m) == Some(target),
        forall|t: nat| t < m ==> #[trigger] nth_ancestor(folders, start, t) != Some(target),
        i < j <= m,
    ensures
        nth_ancestor(folders, start, i) != nth_ancestor(folders, start, j),
{
    if nth_ancestor(folders, start, i) == nth_ancestor(folders, start, j) {
        if j < m {
            lemma_chain_in_table(folders, start, j, m);
        }
        let rest = (m - j) as nat;
        lemma_ancestor_add(folders, start, j, rest);
        lemma_ancestor_add(folders, start, i, rest);
        assert(j + rest == m);
        assert(nth_ancestor(folders, start, i + rest) == Some(target));
        assert(i + rest < m);
    }
}

/// Replacing one parent reference changes that folder's parent and no
/// other, and leaves the ids as they were.
pub proof fn lemma_with_parent(
    folders: Seq<FolderNode>,
    i: int,
    parent: Option<Seq<char>>,
    id: Seq<char>,
)
    requires
        distinct_ids(folders),
        0 <= i < folders.len(),
    ensures
        distinct_ids(with_parent(folders, i, parent)),
        has_folder(with_parent(folders, i, parent), id) == has_folder(folders, id),
        parent_of(with_parent(folders, i, parent), id) == if id == folders[i].id {
            parent
        } else {
            parent_of(folders, id)
        },
{
    let moved = with_parent(folders, i, parent);
    assert forall|a: int|
        0 <= a < folders.len() implies (#[trigger] moved[a]).id == folders[a].id by {}
    if has_folder(folders, id) {
        let a = pos_of(folders, id);
        lemma_pos_of(folders, a);
        assert(moved[a].id == id);
        lemma_pos_of(moved, a);
    } else if has_folder(moved, id) {
        let a = pos_of(moved, id);
        assert(folders[a].id == id);
    }
}

/// While a chain in the changed table stays off the moved folder, it is the
/// chain of the table before the change.
pub(crate) proof fn lemma_chain_unchanged(
    folders: Seq<FolderNode>,
    i: int,
    parent: Option<Seq<char>>,
    x: Seq<char>,
    m: nat,
)
    requires
        distinct_ids(folders),
        0 <= i < folders.len(),
        forall|j: nat|
            j < m ==> #[trigger] nth_ancestor(with_parent(folders, i, parent), x, j) != Some(
                folders[i].id,
            ),
    ensures
        nth_ancestor(with_parent(folders, i, parent), x, m) == nth_ancestor(folders, x, m),
    decreases m,
{
    if m > 0 {
        let before = (m - 1) as nat;
        lemma_chain_unchanged(folders, i, parent, x, before);
        match nth_ancestor(with_parent(folders, i, parent), x, before) {
            Some(a) => {
                lemma_with_parent(folders, i, parent, a);
            },
            None => {},
        }
    }
}

/// A count of direct files is positive exactly when some file lies there.
pub proof fn lemma_files_in_count(files: Seq<FileRecord>, id: Seq<char>)
    ensures
        files_in_count(files, id) <= files.len(),
        files_in_count(files, id) > 0 <==> has_file_in(files, id),
    decreases files.len(),
{
    if files.len() > 0 {
        let front = files.drop_last();
        lemma_files_in_count(front, id);
        if has_file_in(front, id) {
            let j = choose|j: int|
                0 <= j < front.len() && (#[trigger] front[j]).folder_id == Some(id);
            assert(files[j].folder_id == Some(id));
        }
        if has_file_in(files, id) {
            let j = choose|j: int|
                0 <= j < files.len() && (#[trigger] files[j]).folder_id == Some(id);
            if j < front.len() {
                assert(front[j].folder_id == Some(id));
            }
        }
        if files.last().folder_id == Some(id) {
            assert(files[files.len() - 1].folder_id == Some(id));
        }
    }
}

/// A count of subfolders is positive exactly when some folder lies there.
pub proof fn lemma_subfolder_count(folders: Seq<FolderNode>, id: Seq<char>)
    ensures
        subfolder_count(folders, id) <= folders.len(),
        subfolder_count(folders, id) > 0 <==> has_subfolder(folders, id),
    decreases folders.len(),
{
    if folders.len() > 0 {
        let front = folders.drop_last();
        lemma_subfolder_count(front, id);
        if has_subfolder(front, id) {
            let j = choose|j: int|
                0 <= j < front.len() && (#[trigger] front[j]).parent_id == Some(id);
            assert(folders[j].parent_id == Some(id));
        }
        if has_subfolder(folders, id) {
            let j = choose|j: int|
                0 <= j < folders.len() && (#[trigger] folders[j]).parent_id == Some(id);
            if j < front.len() {
                assert(front[j].parent_id == Some(id));
            }
        }
        if folders.last().parent_id == Some(id) {
            assert(folders[folders.len() - 1].parent_id == Some(id));
        }
    }
}

/// What a lookup finds after a row with a new id was added.
pub proof fn lemma_push_lookup(folders: Seq<FolderNode>, node: FolderNode)
    requires
        distinct_ids(folders),
        !has_folder(folders, node.id),
    ensures
        distinct_ids(folders.push(node)),
        forall|y: Seq<char>| #[trigger]
            has_folder(folders.push(node), y) == (has_folder(folders, y) || y == node.id),
        forall|y: Seq<char>| #[trigger]
            parent_of(folders.push(node), y) == if y == node.id {
                node.parent_id
            } else {
                parent_of(folders, y)
            },
{
    let grown = folders.push(node);
    assert forall|i: int, j: int| 0 <= i < j < grown.len() implies (#[trigger] grown[i]).id != (
    #[trigger] grown[j]).id by {
        if j == folders.len() {
            assert(folders[i].id != node.id);
        }
    }
    assert forall|y: Seq<char>| #[trigger]
        has_folder(grown, y) == (has_folder(folders, y) || y == node.id) by {
        if has_folder(folders, y) {
            let a = pos_of(folders, y);
            assert(grown[a].id == y);
        }
        if y == node.id {
            assert(grown[folders.len() as int].id == y);
        }
        if has_folder(grown, y) {
            let a = pos_of(grown, y);
            if a < folders.len() {
                assert(folders[a].id == y);
            }
        }
    }
    assert forall|y: Seq<char>| #[trigger]
        parent_of(grown, y) == if y == node.id {
            node.parent_id
        } else {
            parent_of(folders, y)
        } by {
        if has_folder(grown, y) {
            let a = pos_of(grown, y);
            lemma_pos_of(grown, a);
            if a < folders.len() {
                assert(folders[a].id == y);
                lemma_pos_of(folders, a);
            }
        }
    }
}

/// Chains that start off a new row whose id no folder names as its parent
/// are untouched by that row, and never reach it.
pub(crate) proof fn lemma_push_chain_off(
    folders: Seq<FolderNode>,
    node: FolderNode,
    x: Seq<char>,
    k: nat,
)
    requires
        distinct_ids(folders),
        !has_folder(folders, node.id),
        !has_subfolder(folders, node.id),
        x != node.id,
    ensures
        nth_ancestor(folders.push(node), x, k) == nth_ancestor(folders, x, k),
        nth_ancestor(folders, x, k) != Some(node.id),
    decreases k,
{
    if k > 0 {
        lemma_push_chain_off(folders, node, x, (k - 1) as nat);
        lemma_push_lookup(folders, node);
        match nth_ancestor(folders, x, (k - 1) as nat) {
            Some(a) => {
                if has_folder(folders, a) {
                    let i = pos_of(folders, a);
                    assert(folders[i].parent_id != Some(node.id));
                }
            },
            None => {},
        }
    }
}

/// What a lookup finds after the row at position `i` was removed.
pub proof fn lemma_remove_lookup(folders: Seq<FolderNode>, i: int)
    requires
        distinct_ids(folders),
        0 <= i < folders.len(),
    ensures
        distinct_ids(folders.remove(i)),
        forall|y: Seq<char>| #[trigger]
            has_folder(folders.remove(i), y) == (has_folder(folders, y) && y != folders[i].id),
        forall|y: Seq<char>|
            y != folders[i].id ==> #[trigger] parent_of(folders.remove(i), y) == parent_of(
                folders,
                y,
            ),
{
    let rest = folders.remove(i);
    assert forall|a: int| 0 <= a < rest.len() implies #[trigger] rest[a] == folders[if a < i {
        a
    } else {
        a + 1
    }] by {}
    assert forall|a: int, b: int| 0 <= a < b < rest.len() implies (#[trigger] rest[a]).id != (
    #[trigger] rest[b]).id by {
        let a2 = if a < i { a } else { a + 1 };
        let b2 = if b < i { b } else { b + 1 };
        assert(folders[a2].id != folders[b2].id);
    }
    assert forall|y: Seq<char>| #[trigger]
        has_folder(rest, y) == (has_folder(folders, y) && y != folders[i].id) by {
        if has_folder(rest, y) {
            let a = pos_of(rest, y);
            let a2 = if a < i { a } else { a + 1 };
            assert(folders[a2].id == y);
            if a2 < i {
                assert(folders[a2].id != folders[i].id);
            } else {
                assert(folders[i].id != folders[a2].id);
            }
        }
        if has_folder(folders, y) && y != folders[i].id {
            let a = pos_of(folders, y);
            let a2 = if a < i { a } else { a - 1 };
            assert(rest[a2].id == y);
        }
    }
    assert forall|y: Seq<char>| y != folders[i].id implies #[trigger] parent_of(rest, y)
        == parent_of(folders, y) by {
        if has_folder(rest, y) {
            let a = pos_of(rest, y);
            lemma_pos_of(rest, a);
            let a2 = if a < i { a } else { a + 1 };
            assert(folders[a2].id == y);
            lemma_pos_of(folders, a2);
        }
    }
}

/// Chains that start at a remaining folder are untouched by the removal of
/// a folder without subfolders.
pub(crate) proof fn lemma_remove_chain(folders: Seq<FolderNode>, i: int, x: Seq<char>, k: nat)
    requires
        distinct_ids(folders),
        0 <= i < folders.len(),
        !has_subfolder(folders, folders[i].id),
        x != folders[i].id,
    ensures
        nth_ancestor(folders.remove(i), x, k) == nth_ancestor(folders, x, k),
        nth_ancestor(folders, x, k) != Some(folders[i].id),
    decreases k,
{
    if k > 0 {
        lemma_remove_chain(folders, i, x, (k - 1) as nat);
        lemma_remove_lookup(folders, i);
        match nth_ancestor(folders, x, (k - 1) as nat) {
            Some(a) => {
                if has_folder(folders, a) {
                    let p = pos_of(folders, a);
                    lemma_pos_of(folders, p);
                    assert(folders[p].parent_id != Some(folders[i].id));
                }
            },
            None => {},
        }
    }
}

/// With distinct filenames, the row at position `i` is the one that
/// `file_pos` finds for its name.
pub proof fn lemma_file_pos(files: Seq<FileRecord>, i: int)
    requires
        distinct_names(files),
        0 <= i < files.len(),
    ensures
        has_file(files, files[i].filename),
        file_pos(files, files[i].filename) == i,
{
    let name = files[i].filename;
    let p = file_pos(files, name);
    assert(0 <= p < files.len() && files[p].filename == name);
    if p < i {
        assert(files[p].filename != files[i].filename);
    } else if i < p {
        assert(files[i].filename != files[p].filename);
    }
}

/// Putting a row in keeps the filenames distinct.
pub proof fn lemma_upsert_keyed(files: Seq<FileRecord>, record: FileRecord)
    requires
        distinct_names(files),
    ensures
        distinct_names(upsert(files, record)),
{
    let out = upsert(files, record);
    if has_file(files, record.filename) {
        let p = file_pos(files, record.filename);
        assert forall|i: int, j: int| 0 <= i < j < out.len() implies (#[trigger] out[i]).filename
            != (#[trigger] out[j]).filename by {
            assert(files[i].filename != files[j].filename);
            assert(out[i].filename == files[i].filename);
            assert(out[j].filename == files[j].filename);
        }
    } else {
        assert forall|i: int, j: int| 0 <= i < j < out.len() implies (#[trigger] out[i]).filename
            != (#[trigger] out[j]).filename by {
            if j == files.len() {
                assert(files[i].filename != record.filename);
            } else {
                assert(files[i].filename != files[j].filename);
            }
        }
    }
}

/// Taking a row out keeps the filenames distinct.
pub proof fn lemma_without_keyed(files: Seq<FileRecord>, filename: Seq<char>)
    requires
        distinct_names(files),
    ensures
        distinct_names(without_file(files, filename)),
{
    let out = without_file(files, filename);
    if has_file(files, filename) {
        let p = file_pos(files, filename);
        assert forall|i: int, j: int| 0 <= i < j < out.len() implies (#[trigger] out[i]).filename
            != (#[trigger] out[j]).filename by {
            let i2 = if i < p { i } else { i + 1 };
            let j2 = if j < p { j } else { j + 1 };
            assert(files[i2].filename != files[j2].filename);
        }
    }
}

/// A new row whose name is free under its parent keeps sibling names
/// unique.
pub proof fn lemma_push_siblings(folders: Seq<FolderNode>, node: FolderNode)
    requires
        siblings_unique(folders),
        !name_taken(folders, node.name, node.parent_id, None),
    ensures
        siblings_unique(folders.push(node)),
{
    let grown = folders.push(node);
    assert forall|i: int, j: int| 0 <= i < j < grown.len() implies !((#[trigger] grown[i]).name == (
    #[trigger] grown[j]).name && grown[i].parent_id == grown[j].parent_id) by {
        if j == folders.len() {
            assert(!(folders[i].name == node.name && folders[i].parent_id == node.parent_id
                && Some(folders[i].id) != None::<Seq<char>>));
        } else {
            assert(!(folders[i].name == folders[j].name && folders[i].parent_id
                == folders[j].parent_id));
        }
    }
}

/// A new folder row leaves every file's folder in the table.
pub proof fn lemma_push_files(s: StoreState, node: FolderNode)
    requires
        files_resolve(s),
    ensures
        files_resolve(StoreState { folders: s.folders.push(node), files: s.files }),
{
    let grown = StoreState { folders: s.folders.push(node), files: s.files };
    assert forall|j: int|
        0 <= j < grown.files.len() && (#[trigger] grown.files[j]).folder_id is Some implies
        has_folder(
        grown.folders,
        grown.files[j].folder_id->0,
    ) by {
        let f = s.files[j].folder_id->0;
        assert(has_folder(s.folders, f));
        let a = pos_of(s.folders, f);
        assert(grown.folders[a].id == f);
    }
}

/// Removing a row keeps sibling names unique.
pub proof fn lemma_remove_siblings(folders: Seq<FolderNode>, i: int)
    requires
        siblings_unique(folders),
        0 <= i < folders.len(),
    ensures
        siblings_unique(folders.remove(i)),
{
    let rest = folders.remove(i);
    assert forall|a: int, b: int| 0 <= a < b < rest.len() implies !((#[trigger] rest[a]).name == (
    #[trigger] rest[b]).name && rest[a].parent_id == rest[b].parent_id) by {
        let a2 = if a < i { a } else { a + 1 };
        let b2 = if b < i { b } else { b + 1 };
        assert(!(folders[a2].name == folders[b2].name && folders[a2].parent_id
            == folders[b2].parent_id));
    }
}

/// Removing a folder in which no file lies leaves every file's folder in
/// the table.
pub proof fn lemma_remove_files(s: StoreState, i: int)
    requires
        distinct_ids(s.folders),
        files_resolve(s),
        0 <= i < s.folders.len(),
        !has_file_in(s.files, s.folders[i].id),
    ensures
        files_resolve(StoreState { folders: s.folders.remove(i), files: s.files }),
{
    let rest = StoreState { folders: s.folders.remove(i), files: s.files };
    lemma_remove_lookup(s.folders, i);
    assert forall|j: int|
        0 <= j < rest.files.len() && (#[trigger] rest.files[j]).folder_id is Some implies
        has_folder(
        rest.folders,
        rest.files[j].folder_id->0,
    ) by {
        let f = s.files[j].folder_id->0;
        assert(has_folder(s.folders, f));
        assert(s.files[j].folder_id != Some(s.folders[i].id));
    }
}

/// Putting in a row whose folder is in the table, or that lies at the
/// root, leaves every file's folder in the table.
pub proof fn lemma_upsert_files(s: StoreState, record: FileRecord)
    requires
        files_resolve(s),
        !dangling(s.folders, record.folder_id),
    ensures
        files_resolve(StoreState { folders: s.folders, files: upsert(s.files, record) }),
{
    let out = StoreState { folders: s.folders, files: upsert(s.files, record) };
    assert forall|j: int|
        0 <= j < out.files.len() && (#[trigger] out.files[j]).folder_id is Some implies has_folder(
        out.folders,
        out.files[j].folder_id->0,
    ) by {
        if out.files[j] != record {
            assert(out.files[j] == s.files[j]);
        }
    }
}

/// Taking a file row out leaves every file's folder in the table.
pub proof fn lemma_without_files(s: StoreState, filename: Seq<char>)
    requires
        files_resolve(s),
    ensures
        files_resolve(StoreState { folders: s.folders, files: without_file(s.files, filename) }),
{
    let out = StoreState { folders: s.folders, files: without_file(s.files, filename) };
    if has_file(s.files, filename) {
        let p = file_pos(s.files, filename);
        assert forall|j: int|
            0 <= j < out.files.len() && (#[trigger] out.files[j]).folder_id is Some implies
            has_folder(
            out.folders,
            out.files[j].folder_id->0,
        ) by {
            let j2 = if j < p { j } else { j + 1 };
            assert(out.files[j] == s.files[j2]);
        }
    }
}

/// Moving a folder to a place where its name is free keeps sibling names
/// unique.
pub proof fn lemma_move_siblings(folders: Seq<FolderNode>, i: int, parent: Option<Seq<char>>)
    requires
        distinct_ids(folders),
        siblings_unique(folders),
        0 <= i < folders.len(),
        !name_taken(folders, folders[i].name, parent, Some(folders[i].id)),
    ensures
        siblings_unique(with_parent(folders, i, parent)),
{
    let moved = with_parent(folders, i, parent);
    assert forall|a: int, b: int| 0 <= a < b < moved.len() implies !((#[trigger] moved[a]).name == (
    #[trigger] moved[b]).name && moved[a].parent_id == moved[b].parent_id) by {
        if a == i {
            assert(folders[a].id != folders[b].id);
            assert(!(folders[b].name == folders[i].name && folders[b].parent_id == parent && Some(
                folders[b].id,
            ) != Some(folders[i].id)));
        } else if b == i {
            assert(folders[a].id != folders[b].id);
            assert(!(folders[a].name == folders[i].name && folders[a].parent_id == parent && Some(
                folders[a].id,
            ) != Some(folders[i].id)));
        } else {
            assert(!(folders[a].name == folders[b].name && folders[a].parent_id
                == folders[b].parent_id));
        }
    }
}

/// Moving a folder leaves every file's folder in the table.
pub proof fn lemma_move_files(s: StoreState, i: int, parent: Option<Seq<char>>)
    requires
        distinct_ids(s.folders),
        files_resolve(s),
        0 <= i < s.folders.len(),
    ensures
        files_resolve(StoreState { folders: with_parent(s.folders, i, parent), files: s.files }),
{
    let out = StoreState { folders: with_parent(s.folders, i, parent), files: s.files };
    assert forall|j: int|
        0 <= j < out.files.len() && (#[trigger] out.files[j]).folder_id is Some implies has_folder(
        out.folders,
        out.files[j].folder_id->0,
    ) by {
        lemma_with_parent(s.folders, i, parent, s.files[j].folder_id->0);
    }
}

/// After a row was put in, it is the row that its filename finds.
pub proof fn lemma_upsert_holds(files: Seq<FileRecord>, record: FileRecord)
    requires
        distinct_names(files),
    ensures
        has_file(upsert(files, record), record.filename),
        upsert(files, record)[file_pos(upsert(files, record), record.filename)] == record,
{
    let out = upsert(files, record);
    lemma_upsert_keyed(files, record);
    if has_file(files, record.filename) {
        let p = file_pos(files, record.filename);
        assert(out[p] == record);
        lemma_file_pos(out, p);
    } else {
        let p = files.len() as int;
        assert(out[p] == record);
        lemma_file_pos(out, p);
    }
}

/// After a filename was taken out, no row has it.
pub proof fn lemma_without_gone(files: Seq<FileRecord>, filename: Seq<char>)
    requires
        distinct_names(files),
    ensures
        !has_file(without_file(files, filename), filename),
{
    let out = without_file(files, filename);
    if has_file(files, filename) && has_file(out, filename) {
        let p = file_pos(files, filename);
        let a = file_pos(out, filename);
        let a2 = if a < p { a } else { a + 1 };
        assert(out[a] == files[a2]);
        if a2 < p {
            assert(files[a2].filename != files[p].filename);
        } else {
            assert(files[p].filename != files[a2].filename);
        }
    }
}

/// What `list` holds after `x` was inserted at `pos` is what it held
/// before, and `x`.
pub proof fn lemma_insert_multiset(list: Seq<FolderSummary>, pos: int, x: FolderSummary)
    requires
        0 <= pos <= list.len(),
    ensures
        list.insert(pos, x).to_multiset() == list.to_multiset().insert(x),
{
    let grown = list.insert(pos, x);
    grown.to_multiset_ensures();
    assert(grown.remove(pos) =~= list);
    assert(grown[pos] == x);
    assert(grown.contains(x));
    assert(grown.to_multiset() =~= list.to_multiset().insert(x));
}

/// Inserting `x` behind everything that does not sort after it, and before
/// something that does, keeps a list sorted.
pub proof fn lemma_insert_sorted(list: Seq<FolderSummary>, pos: int, x: FolderSummary)
    requires
        sorted_by_name(list),
        0 <= pos <= list.len(),
        forall|a: int| 0 <= a < pos ==> !lex_less(x.name, (#[trigger] list[a]).name),
        pos < list.len() ==> lex_less(x.name, list[pos].name),
    ensures
        sorted_by_name(list.insert(pos, x)),
{
    let grown = list.insert(pos, x);
    assert forall|i: int, j: int| 0 <= i < j < grown.len() implies !lex_less(
        (#[trigger] grown[j]).name,
        (#[trigger] grown[i]).name,
    ) by {
        if j == pos {
            assert(grown[i] == list[i]);
        } else if i == pos {
            let b = j - 1;
            assert(grown[j] == list[b]);
            if lex_less(list[b].name, x.name) {
                lemma_lex_less_transitive(list[b].name, x.name, list[pos].name);
                if pos < b {
                    assert(!lex_less(list[b].name, list[pos].name));
                } else {
                    lemma_lex_less_asymmetric(list[pos].name, list[pos].name);
                }
            }
        } else {
            let a = if i < pos { i } else { i - 1 };
            let b = if j < pos { j } else { j - 1 };
            assert(grown[i] == list[a]);
            assert(grown[j] == list[b]);
        }
    }
}

} // verus!
