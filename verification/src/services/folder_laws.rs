//! What holds of the metadata store whatever is done with it: its folders
//! stay a forest, its files keep their folders, and a walk up the tree is
//! never longer than the table.

use crate::services::folder_proofs::{
    lemma_ancestor_add, lemma_ancestor_none, lemma_chain_in_table, lemma_chain_unchanged,
    lemma_file_pos, lemma_first_hit, lemma_first_hit_distinct, lemma_pos_of,
    lemma_push_chain_off, lemma_push_lookup, lemma_remove_chain, lemma_remove_lookup, lemma_upsert_holds,
    lemma_upsert_keyed, lemma_with_parent,
};
use crate::services::folder_tree::{
    acyclic, breadcrumbs_of, create_outcome, crumb_trail, dangling, delete_outcome, distinct_ids,
    file_pos, files_resolve, has_file, has_file_in, has_folder, has_subfolder, in_subtree,
    kept_sound, move_outcome, name_taken, nth_ancestor, parent_of, parents_exist, pos_of,
    summary_of, upsert, with_parent, without_file, FileRecord, FolderNode, StoreState,
};
use vstd::prelude::*;
use vstd::set_lib::{lemma_int_range, lemma_len_subset, set_int_range};

verus! {

/// Adding a folder under another folder, or at the root, makes no folder
/// its own ancestor, as long as its id is new: no folder has it, and no
/// folder names it as its parent.
pub proof fn lemma_push_keeps_acyclic(folders: Seq<FolderNode>, node: FolderNode)
    requires
        distinct_ids(folders),
        acyclic(folders),
        !has_folder(folders, node.id),
        !has_subfolder(folders, node.id),
        node.parent_id != Some(node.id),
    ensures
        acyclic(folders.push(node)),
{
    let grown = folders.push(node);
    lemma_push_lookup(folders, node);
    assert forall|x: Seq<char>, k: nat|
        has_folder(grown, x) && k >= 1 implies #[trigger] nth_ancestor(
        grown,
        x,
        k,
    ) != Some(x) by {
        if x == node.id {
            lemma_ancestor_add(grown, x, 1, (k - 1) as nat);
            assert(nth_ancestor(grown, x, 1) == parent_of(grown, x)) by {
                assert(nth_ancestor(grown, x, 0) == Some(x));
            }
            assert(1 + (k - 1) as nat == k);
            match node.parent_id {
                Some(p) => {
                    lemma_push_chain_off(folders, node, p, (k - 1) as nat);
                },
                None => {},
            }
        } else {
            lemma_push_chain_off(folders, node, x, k);
        }
    }
}

/// Adding a folder with a new id under an existing parent, or at the root,
/// leaves the table a forest.
pub proof fn lemma_push_keeps_forest(folders: Seq<FolderNode>, node: FolderNode)
    requires
        distinct_ids(folders),
        parents_exist(folders),
        acyclic(folders),
        !has_folder(folders, node.id),
        node.parent_id matches Some(p) ==> has_folder(folders, p),
    ensures
        distinct_ids(folders.push(node)),
        parents_exist(folders.push(node)),
        acyclic(folders.push(node)),
{
    let grown = folders.push(node);
    lemma_push_lookup(folders, node);
    assert forall|a: int|
        0 <= a < grown.len() && (#[trigger] grown[a]).parent_id is Some implies has_folder(
        grown,
        grown[a].parent_id->0,
    ) by {
        if a < folders.len() {
            assert(folders[a].parent_id is Some);
        }
    }
    assert(!has_subfolder(folders, node.id)) by {
        if has_subfolder(folders, node.id) {
            let a = choose|a: int|
                0 <= a < folders.len() && (#[trigger] folders[a]).parent_id == Some(node.id);
            assert(folders[a].parent_id is Some);
        }
    }
    lemma_push_keeps_acyclic(folders, node);
}

/// Moving a folder under a parent that is neither the folder itself nor
/// below it, or to the root, leaves the table a forest.
pub proof fn lemma_move_keeps_forest(folders: Seq<FolderNode>, i: int, parent: Option<Seq<char>>)
    requires
        distinct_ids(folders),
        parents_exist(folders),
        acyclic(folders),
        0 <= i < folders.len(),
        parent matches Some(p) ==> has_folder(folders, p) && !in_subtree(
            folders,
            folders[i].id,
            p,
        ),
    ensures
        distinct_ids(with_parent(folders, i, parent)),
        parents_exist(with_parent(folders, i, parent)),
        acyclic(with_parent(folders, i, parent)),
{
    let moved = with_parent(folders, i, parent);
    let f = folders[i].id;
    lemma_with_parent(folders, i, parent, f);
    assert forall|a: int|
        0 <= a < moved.len() && (#[trigger] moved[a]).parent_id is Some implies has_folder(
        moved,
        moved[a].parent_id->0,
    ) by {
        let q = moved[a].parent_id->0;
        lemma_with_parent(folders, i, parent, q);
        if a != i {
            assert(folders[a].parent_id is Some);
        }
    }
    lemma_move_keeps_acyclic(folders, i, parent);
}

/// Moving a folder under a parent that is neither the folder itself nor
/// below it, or to the root, makes no folder its own ancestor.
pub proof fn lemma_move_keeps_acyclic(folders: Seq<FolderNode>, i: int, parent: Option<Seq<char>>)
    requires
        distinct_ids(folders),
        acyclic(folders),
        0 <= i < folders.len(),
        parent matches Some(p) ==> !in_subtree(folders, folders[i].id, p),
    ensures
        acyclic(with_parent(folders, i, parent)),
{
    let moved = with_parent(folders, i, parent);
    let f = folders[i].id;
    lemma_with_parent(folders, i, parent, f);
    assert forall|x: Seq<char>, k: nat|
        has_folder(moved, x) && k >= 1 implies #[trigger] nth_ancestor(
        moved,
        x,
        k,
    ) != Some(x) by {
        if nth_ancestor(moved, x, k) == Some(x) {
            lemma_with_parent(folders, i, parent, x);
            if exists|j: nat| j < k && #[trigger] nth_ancestor(moved, x, j) == Some(f) {
                let j = choose|j: nat| j < k && #[trigger] nth_ancestor(moved, x, j) == Some(f);
                // Rotate the cycle so that it starts at the moved folder.
                lemma_ancestor_add(moved, x, k, j);
                lemma_ancestor_add(moved, x, j, k);
                assert(k + j == j + k);
                assert(nth_ancestor(moved, f, k) == Some(f));
                lemma_ancestor_add(moved, f, 1, (k - 1) as nat);
                assert(nth_ancestor(moved, f, 1) == parent_of(moved, f)) by {
                    assert(nth_ancestor(moved, f, 0) == Some(f));
                }
                assert(1 + (k - 1) as nat == k);
                match parent {
                    None => {
                        assert(false);
                    },
                    Some(p) => {
                        let rest = (k - 1) as nat;
                        assert(nth_ancestor(moved, p, rest) == Some(f));
                        let m = lemma_first_hit(moved, p, f, rest);
                        lemma_chain_unchanged(folders, i, parent, p, m);
                        assert(nth_ancestor(folders, p, m) == Some(f));
                        assert(in_subtree(folders, f, p));
                    },
                }
            } else {
                lemma_chain_unchanged(folders, i, parent, x, k);
                assert(nth_ancestor(folders, x, k) == Some(x));
            }
        }
    }
}

/// Removing a folder without subfolders leaves the table a forest.
pub proof fn lemma_remove_keeps_forest(folders: Seq<FolderNode>, i: int)
    requires
        distinct_ids(folders),
        parents_exist(folders),
        acyclic(folders),
        0 <= i < folders.len(),
        !has_subfolder(folders, folders[i].id),
    ensures
        distinct_ids(folders.remove(i)),
        parents_exist(folders.remove(i)),
        acyclic(folders.remove(i)),
{
    let rest = folders.remove(i);
    lemma_remove_lookup(folders, i);
    assert forall|a: int|
        0 <= a < rest.len() && (#[trigger] rest[a]).parent_id is Some implies has_folder(
        rest,
        rest[a].parent_id->0,
    ) by {
        let a2 = if a < i { a } else { a + 1 };
        assert(rest[a] == folders[a2]);
        assert(folders[a2].parent_id is Some);
        assert(folders[a2].parent_id != Some(folders[i].id));
    }
    lemma_remove_keeps_acyclic(folders, i);
}

/// Removing a folder without subfolders makes no folder its own ancestor.
pub proof fn lemma_remove_keeps_acyclic(folders: Seq<FolderNode>, i: int)
    requires
        distinct_ids(folders),
        acyclic(folders),
        0 <= i < folders.len(),
        !has_subfolder(folders, folders[i].id),
    ensures
        acyclic(folders.remove(i)),
{
    let rest = folders.remove(i);
    lemma_remove_lookup(folders, i);
    assert forall|x: Seq<char>, k: nat|
        has_folder(rest, x) && k >= 1 implies #[trigger] nth_ancestor(
        rest,
        x,
        k,
    ) != Some(x) by {
        lemma_remove_chain(folders, i, x, k);
    }
}

/// What is kept from one store to the next is kept over any number of
/// steps: after every sequence of operations that each keep the store
/// sound, no folder is its own ancestor if none was, the folders of a
/// forest are still a forest, and the files of a store in which every
/// file's folder exists still all have their folder.
pub proof fn lemma_kept_sound_chain(a: StoreState, b: StoreState, c: StoreState)
    requires
        kept_sound(a, b),
        kept_sound(b, c),
    ensures
        kept_sound(a, c),
        acyclic(a.folders) ==> acyclic(c.folders),
        a.forest() ==> c.forest(),
        files_resolve(a) ==> files_resolve(c),
{
}

/// A consistent store stays consistent under whatever keeps it sound. In a
/// consistent store no folder is its own ancestor, and every file that
/// names a folder names one of the table.
pub proof fn lemma_kept_consistent(before: StoreState, after: StoreState)
    requires
        before.consistent(),
        kept_sound(before, after),
    ensures
        after.consistent(),
        acyclic(after.folders),
        files_resolve(after),
{
}

/// A walk up the parent references that reaches `target` at all reaches it
/// in fewer steps than the table has folders.
pub proof fn lemma_reach_is_bounded(
    folders: Seq<FolderNode>,
    start: Seq<char>,
    target: Seq<char>,
    k: nat,
) -> (m: nat)
    requires
        distinct_ids(folders),
        has_folder(folders, target),
        nth_ancestor(folders, start, k) == Some(target),
    ensures
        m < folders.len(),
        m <= k,
        nth_ancestor(folders, start, m) == Some(target),
        forall|j: nat| j < m ==> #[trigger] nth_ancestor(folders, start, j) != Some(target),
{
    let m = lemma_first_hit(folders, start, target, k);
    let n = folders.len() as int;
    let at = |i: int| pos_of(folders, nth_ancestor(folders, start, i as nat)->0);
    let idx = Seq::new(m + 1, at);
    assert forall|i: int| 0 <= i <= m implies {
        &&& #[trigger] nth_ancestor(folders, start, i as nat) is Some
        &&& 0 <= at(i) < n
        &&& folders[at(i)].id == nth_ancestor(folders, start, i as nat)->0
    } by {
        if i < m {
            lemma_chain_in_table(folders, start, i as nat, m);
        }
    }
    assert forall|i: int, j: int| 0 <= i < idx.len() && 0 <= j < idx.len() && i != j implies idx[i]
        != idx[j] by {
        assert(nth_ancestor(folders, start, i as nat) is Some);
        assert(nth_ancestor(folders, start, j as nat) is Some);
        if i < j {
            lemma_first_hit_distinct(folders, start, target, m, i as nat, j as nat);
        } else {
            lemma_first_hit_distinct(folders, start, target, m, j as nat, i as nat);
        }
    }
    assert(idx.no_duplicates());
    idx.unique_seq_to_set();
    lemma_int_range(0, n);
    assert(idx.to_set().subset_of(set_int_range(0, n))) by {
        assert forall|v: int| idx.to_set().contains(v) implies set_int_range(0, n).contains(v) by {
            let i = choose|i: int| 0 <= i < idx.len() && idx[i] == v;
            assert(nth_ancestor(folders, start, i as nat) is Some);
        }
    }
    lemma_len_subset(idx.to_set(), set_int_range(0, n));
    m
}

/// A bounded walk decides membership in a subtree: if the first
/// `folders.len()` steps up from `start` do not stand on `root`, and either
/// that many steps were made or the chain has ended, no step ever does.
pub proof fn lemma_walk_decides(
    folders: Seq<FolderNode>,
    root: Seq<char>,
    start: Seq<char>,
    steps: nat,
)
    requires
        distinct_ids(folders),
        has_folder(folders, root),
        forall|j: nat| j < steps ==> #[trigger] nth_ancestor(folders, start, j) != Some(root),
        steps >= folders.len() || nth_ancestor(folders, start, steps) is None,
    ensures
        !in_subtree(folders, root, start),
{
    if in_subtree(folders, root, start) {
        let k = choose|k: nat| #[trigger] nth_ancestor(folders, start, k) == Some(root);
        let m = lemma_reach_is_bounded(folders, start, root, k);
        if m >= steps {
            lemma_ancestor_none(folders, start, steps, m);
        }
    }
}

/// A folder that is its own ancestor is so within as many steps as the
/// table has folders.
pub proof fn lemma_cycle_is_short(folders: Seq<FolderNode>, id: Seq<char>, k: nat) -> (j: nat)
    requires
        distinct_ids(folders),
        has_folder(folders, id),
        k >= 1,
        nth_ancestor(folders, id, k) == Some(id),
    ensures
        1 <= j <= folders.len(),
        j <= k,
        nth_ancestor(folders, id, j) == Some(id),
{
    let rest = (k - 1) as nat;
    lemma_ancestor_add(folders, id, 1, rest);
    assert(1 + rest == k);
    assert(nth_ancestor(folders, id, 1) == parent_of(folders, id)) by {
        assert(nth_ancestor(folders, id, 0) == Some(id));
    }
    let p = parent_of(folders, id)->0;
    let m = lemma_reach_is_bounded(folders, p, id, rest);
    lemma_ancestor_add(folders, id, 1, m);
    (m + 1) as nat
}

/// In a forest, the walk up from any folder leaves the table within as
/// many steps as the table has folders.
pub proof fn lemma_chain_ends(folders: Seq<FolderNode>, id: Seq<char>)
    requires
        distinct_ids(folders),
        parents_exist(folders),
        acyclic(folders),
        has_folder(folders, id),
    ensures
        nth_ancestor(folders, id, folders.len()) is None,
{
    let n = folders.len();
    if nth_ancestor(folders, id, n) is Some {
        let t = nth_ancestor(folders, id, n)->0;
        assert(n >= 1);
        lemma_chain_in_table(folders, id, (n - 1) as nat, n);
        let before = nth_ancestor(folders, id, (n - 1) as nat)->0;
        let i = pos_of(folders, before);
        lemma_pos_of(folders, i);
        assert(has_folder(folders, t));
        let m = lemma_reach_is_bounded(folders, id, t, n);
        lemma_ancestor_add(folders, id, m, (n - m) as nat);
        assert(m + (n - m) as nat == n);
        assert(nth_ancestor(folders, t, (n - m) as nat) == Some(t));
    }
}

/// Creating a folder a second time, under the same name and the same
/// parent, ends in `Conflict`.
pub proof fn lemma_second_create_conflicts(folders: Seq<FolderNode>, node: FolderNode)
    requires
        create_outcome(folders, node.name, node.parent_id) is Accepted,
    ensures
        create_outcome(folders.push(node), node.name, node.parent_id) is Conflict,
{
    let grown = folders.push(node);
    match node.parent_id {
        Some(p) => {
            let a = pos_of(folders, p);
            assert(grown[a].id == p);
        },
        None => {},
    }
    assert(grown[folders.len() as int] == node);
}

/// A folder is deleted exactly if it exists and nothing refers to it; once
/// it is deleted it is gone, and a second deletion ends in `NotFound`.
pub proof fn lemma_delete_removes(s: StoreState, id: Seq<char>)
    requires
        s.keyed(),
        delete_outcome(s, id) is Deleted,
    ensures
        delete_outcome(
            StoreState { folders: s.folders.remove(pos_of(s.folders, id)), files: s.files },
            id,
        ) is NotFound,
{
    let i = pos_of(s.folders, id);
    lemma_remove_lookup(s.folders, i);
}

/// A file that was assigned to a folder keeps the folder from being
/// deleted; once the file is forgotten, and nothing else lies in the
/// folder, the folder can be deleted.
pub proof fn lemma_file_blocks_delete(s: StoreState, record: FileRecord, id: Seq<char>)
    requires
        s.keyed(),
        has_folder(s.folders, id),
        record.folder_id == Some(id),
    ensures
        delete_outcome(StoreState { folders: s.folders, files: upsert(s.files, record) }, id)
            is Conflict,
        !has_file_in(s.files, id) && !has_subfolder(s.folders, id) ==> delete_outcome(
            StoreState {
                folders: s.folders,
                files: without_file(upsert(s.files, record), record.filename),
            },
            id,
        ) is Deleted,
{
    let put = upsert(s.files, record);
    lemma_upsert_holds(s.files, record);
    lemma_upsert_keyed(s.files, record);
    let p = file_pos(put, record.filename);
    assert(put[p].folder_id == Some(id));
    if !has_file_in(s.files, id) {
        let gone = without_file(put, record.filename);
        if has_file_in(gone, id) {
            let j = choose|j: int|
                0 <= j < gone.len() && (#[trigger] gone[j]).folder_id == Some(id);
            let j2 = if j < p { j } else { j + 1 };
            assert(gone[j] == put[j2]);
            lemma_file_pos(put, p);
            assert(put[j2] != record) by {
                if j2 < p {
                    assert(put[j2].filename != put[p].filename);
                } else {
                    assert(put[p].filename != put[j2].filename);
                }
            }
            if has_file(s.files, record.filename) {
                assert(put[j2] == s.files[j2]);
            } else {
                assert(put[j2] == s.files[j2]);
            }
            assert(s.files[j2].folder_id == Some(id));
        }
    }
}

/// The subtree of a folder holds the folder itself.
pub proof fn lemma_subtree_holds_root(folders: Seq<FolderNode>, root: Seq<char>)
    ensures
        in_subtree(folders, root, root),
{
    assert(nth_ancestor(folders, root, 0) == Some(root));
}

/// The subtree of a folder holds, with every folder, the folders that have
/// it as their parent.
pub proof fn lemma_subtree_holds_children(
    folders: Seq<FolderNode>,
    root: Seq<char>,
    parent: Seq<char>,
    child: Seq<char>,
)
    requires
        in_subtree(folders, root, parent),
        parent_of(folders, child) == Some(parent),
    ensures
        in_subtree(folders, root, child),
{
    let k = choose|k: nat| #[trigger] nth_ancestor(folders, parent, k) == Some(root);
    lemma_ancestor_add(folders, child, 1, k);
    assert(nth_ancestor(folders, child, 1) == parent_of(folders, child)) by {
        assert(nth_ancestor(folders, child, 0) == Some(child));
    }
    assert(nth_ancestor(folders, child, 1 + k) == Some(root));
}

/// A move of a folder under a parent that is the folder itself or lies
/// below it ends in `InvalidOperation`; under any other folder, or to the
/// root, it succeeds unless a folder of the same name is already there.
pub proof fn lemma_move_outcome(folders: Seq<FolderNode>, id: Seq<char>, parent: Option<Seq<char>>)
    requires
        has_folder(folders, id),
        !dangling(folders, parent),
    ensures
        move_outcome(folders, id, parent) is InvalidOperation <==> (parent matches Some(p)
            && in_subtree(folders, id, p)),
        !(move_outcome(folders, id, parent) is InvalidOperation) && !name_taken(
            folders,
            folders[pos_of(folders, id)].name,
            parent,
            Some(id),
        ) ==> move_outcome(folders, id, parent) is Moved,
        move_outcome(folders, id, Some(id)) is InvalidOperation,
{
    lemma_subtree_holds_root(folders, id);
}

/// The trail of a folder whose chain of parents ends within `fuel` steps is
/// a path from a root down to the folder: it begins with a folder without
/// a parent, each of its folders is the parent of the next, and it ends
/// with the folder itself.
pub proof fn lemma_trail_is_path(s: StoreState, id: Seq<char>, fuel: nat)
    requires
        distinct_ids(s.folders),
        parents_exist(s.folders),
        has_folder(s.folders, id),
        nth_ancestor(s.folders, id, fuel) is None,
    ensures
        crumb_trail(s, id, fuel).len() >= 1,
        crumb_trail(s, id, fuel).first().parent_id is None,
        crumb_trail(s, id, fuel).last().id == id,
        forall|i: int|
            0 <= i < crumb_trail(s, id, fuel).len() - 1 ==> (#[trigger] crumb_trail(
                s,
                id,
                fuel,
            )[i + 1]).parent_id == Some(crumb_trail(s, id, fuel)[i].id),
    decreases fuel,
{
    assert(nth_ancestor(s.folders, id, 0) == Some(id));
    let at = pos_of(s.folders, id);
    lemma_pos_of(s.folders, at);
    let node = s.folders[at];
    let trail = crumb_trail(s, id, fuel);
    match node.parent_id {
        Some(p) => {
            let rest = (fuel - 1) as nat;
            lemma_ancestor_add(s.folders, id, 1, rest);
            assert(nth_ancestor(s.folders, id, 1) == parent_of(s.folders, id));
            assert(1 + rest == fuel);
            lemma_trail_is_path(s, p, rest);
            let above = crumb_trail(s, p, rest);
            assert(trail == above.push(summary_of(s, node)));
            assert forall|i: int| 0 <= i < trail.len() - 1 implies (#[trigger] trail[i
                + 1]).parent_id == Some(trail[i].id) by {
                if i < above.len() - 1 {
                    assert(trail[i + 1] == above[i + 1]);
                }
            }
        },
        None => {
            assert(trail =~= seq![summary_of(s, node)]);
        },
    }
}

/// In a forest, the breadcrumbs of a folder lead from a root down to the
/// folder.
pub proof fn lemma_breadcrumbs_are_path(s: StoreState, id: Seq<char>)
    requires
        s.forest(),
        has_folder(s.folders, id),
    ensures
        breadcrumbs_of(s, Some(id)).len() >= 1,
        breadcrumbs_of(s, Some(id)).first().parent_id is None,
        breadcrumbs_of(s, Some(id)).last().id == id,
        forall|i: int|
            0 <= i < breadcrumbs_of(s, Some(id)).len() - 1 ==> (#[trigger] breadcrumbs_of(
                s,
                Some(id),
            )[i + 1]).parent_id == Some(breadcrumbs_of(s, Some(id))[i].id),
{
    lemma_chain_ends(s.folders, id);
    lemma_trail_is_path(s, id, s.folders.len());
}

} // verus!
