//! Paths in the namespace: resolving one, creating one, and reading the
//! path of a node back.

use vstd::prelude::*;
use vstd::string::*;
use super::model::{
    lemma_ancestor_depth, lemma_closures_ok_more_pending, lemma_depth_bound, lemma_find_in,
    lemma_moved, lemma_row_means_subtree, row_for, row_sound, Namespace, NodeClosure, NodeId,
};
use super::shared::{StoreFault, VFSError, VfsTarget};
use super::store::{
    create_vfs_node_internal, get_vfs_node, lemma_files_ok_kept, listed_from,
    update_vfs_closures, VfsDb, VfsNode, VfsNodeCreateArgs,
};
use crate::text::{names_of, path_lookup_names, path_names_of};

verus! {

/// What resolving `path` answers in a namespace that has its root: the
/// node that the path's names lead to from the root, or `NotFound`.
pub open spec fn resolve_outcome(ns: Namespace, path: Seq<char>) -> Result<NodeId, VFSError> {
    match ns.walk(0, path_names_of(path)) {
        Some(i) => Ok(NodeId(i as u64)),
        None => Err(VFSError::NotFound),
    }
}

/// What ensuring `path` makes of a namespace that has its root, and the
/// node that the path then leads to.
pub open spec fn ensure_outcome(ns: Namespace, path: Seq<char>, now: i64) -> (Namespace, NodeId) {
    let grown = ns.grow(0, path_names_of(path), now);
    (grown.0, NodeId(grown.1 as u64))
}

/// Makes sure that the root exists and answers it. The root is node 0; it
/// is created on the first call and found on every later one.
pub fn ensure_vfs_root(db: &mut VfsDb) -> (r: Result<NodeId, VFSError>)
    requires
        old(db).wf(),
    ensures
        final(db).wf(),
        r == Ok::<NodeId, VFSError>(NodeId(0)),
        final(db)@ == old(db)@.with_ns(old(db)@.ns.with_root(old(db)@.now)),
        final(db)@.ns.nodes.len() > 0,
{
    proof {
        reveal_strlit("root");
    }
    create_vfs_node_internal(
        db,
        VfsNodeCreateArgs { name: String::from_str("root"), hide: false },
        None,
    )
}

/// Prepares the namespace for use: puts the root in place.
pub fn init_vfs(db: &mut VfsDb) -> (r: Result<(), VFSError>)
    requires
        old(db).wf(),
    ensures
        final(db).wf(),
        r == Ok::<(), VFSError>(()),
        final(db)@ == old(db)@.with_ns(old(db)@.ns.with_root(old(db)@.now)),
{
    let _ = ensure_vfs_root(db);
    Ok(())
}

/// Resolves a path against the nodes that exist. The root is put in place
/// first; after that nothing is created, and the first name without a
/// node ends the walk with `NotFound`.
pub fn traverse_vfs_path(db: &mut VfsDb, vfs_path: &str) -> (r: Result<NodeId, VFSError>)
    requires
        old(db).wf(),
    ensures
        final(db).wf(),
        final(db)@ == old(db)@.with_ns(old(db)@.ns.with_root(old(db)@.now)),
        r == resolve_outcome(final(db)@.ns, vfs_path@),
        r is Ok ==> final(db)@.ns.has(r->Ok_0),
{
    let _ = ensure_vfs_root(db);
    let names = path_lookup_names(vfs_path);
    let ghost ns = db@.ns;
    let ghost all = names_of(names@);
    let mut current = NodeId(0);
    let mut i: usize = 0;
    assert(all.subrange(0, all.len() as int) =~= all);
    while i < names.len()
        invariant
            i <= names.len(),
            db.wf(),
            db@.ns == ns,
            db@ == old(db)@.with_ns(old(db)@.ns.with_root(old(db)@.now)),
            all == names_of(names@),
            all == path_names_of(vfs_path@),
            ns.has(current),
            ns.walk(0, all) == ns.walk(current.0 as int, all.subrange(i as int, all.len() as int)),
        decreases names.len() - i,
    {
        let ghost rest = all.subrange(i as int, all.len() as int);
        assert(rest[0] == names@[i as int]@);
        assert(rest.drop_first() =~= all.subrange(i + 1, all.len() as int));
        let total: usize = db.nodes.len();
        assert(ns.nodes.len() == total);
        proof {
            lemma_find_in(ns, Some(current), names@[i as int]@, ns.nodes.len());
        }
        match get_vfs_node(db, &names[i], Some(current)) {
            Ok(child) => {
                current = child;
            },
            Err(e) => {
                assert(ns.find_child(Some(current), rest[0]) is None);
                assert(ns.walk(current.0 as int, rest) is None);
                return Err(e);
            },
        }
        i += 1;
    }
    assert(all.subrange(i as int, all.len() as int) =~= Seq::empty());
    Ok(current)
}

/// Creates whatever is missing of a path, and answers the node that the
/// path leads to. The root is put in place first; each name that has no
/// node yet becomes a visible folder below the node reached so far.
pub fn ensure_vfs_path(db: &mut VfsDb, vfs_path: &str) -> (r: Result<NodeId, VFSError>)
    requires
        old(db).wf(),
    ensures
        final(db).wf(),
        final(db)@ == old(db)@.with_ns(
            ensure_outcome(old(db)@.ns.with_root(old(db)@.now), vfs_path@, old(db)@.now).0,
        ),
        r == Ok::<NodeId, VFSError>(
            ensure_outcome(old(db)@.ns.with_root(old(db)@.now), vfs_path@, old(db)@.now).1,
        ),
        final(db)@.ns.has(r->Ok_0),
{
    let _ = ensure_vfs_root(db);
    let names = path_lookup_names(vfs_path);
    let ghost start = db@.ns;
    let ghost now = db@.now;
    let ghost all = names_of(names@);
    let mut current = NodeId(0);
    let mut i: usize = 0;
    assert(all.subrange(0, all.len() as int) =~= all);
    while i < names.len()
        invariant
            i <= names.len(),
            db.wf(),
            db@.now == now,
            db@ == old(db)@.with_ns(db@.ns),
            all == names_of(names@),
            db@.ns.has(current),
            start.grow(0, all, now) == db@.ns.grow(
                current.0 as int,
                all.subrange(i as int, all.len() as int),
                now,
            ),
        decreases names.len() - i,
    {
        let ghost rest = all.subrange(i as int, all.len() as int);
        let ghost ns = db@.ns;
        let total: usize = db.nodes.len();
        assert(ns.nodes.len() == total);
        assert(rest[0] == names@[i as int]@);
        assert(rest.drop_first() =~= all.subrange(i + 1, all.len() as int));
        proof {
            lemma_find_in(ns, Some(current), names@[i as int]@, ns.nodes.len());
        }
        let made = create_vfs_node_internal(
            db,
            VfsNodeCreateArgs { name: names[i].clone(), hide: false },
            Some(current),
        );
        match made {
            Ok(child) => {
                current = child;
            },
            Err(e) => {
                return Err(e);
            },
        }
        i += 1;
    }
    Ok(current)
}

/// The path of a node: the names from just below the root down to the
/// node itself. The root's path is empty. `NotFound` if there is no such
/// node.
pub fn get_vfs_path_to(db: &VfsDb, to: NodeId) -> (r: Result<Vec<String>, VFSError>)
    requires
        db.wf(),
    ensures
        !db@.ns.has(to) ==> r == Err::<Vec<String>, VFSError>(VFSError::NotFound),
        db@.ns.has(to) ==> r is Ok && names_of(r->Ok_0@) == db@.ns.path_names(to.0 as int),
{
    let total: usize = db.nodes.len();
    assert(db@.ns.nodes.len() == total);
    if to.0 >= total as u64 {
        return Err(VFSError::NotFound);
    }
    let ghost ns = db@.ns;
    let ghost n = to.0 as int;
    let mut path: Vec<String> = Vec::new();
    let mut cur: u64 = to.0;
    let ghost mut k: nat = 0;
    assert(ns.nodes[cur as int] == db.nodes@[cur as int]@);
    let mut parent = db.nodes[cur as usize].parent_id;
    while parent.is_some()
        invariant
            db@.ns == ns,
            ns.valid(),
            ns.nodes.len() == total,
            ns.in_range(n),
            k <= ns.depths[n],
            cur as int == ns.ancestor(n, k),
            ns.in_range(cur as int),
            parent == ns.nodes[cur as int].parent,
            path.len() == k,
            forall|i: int|
                0 <= i < k ==> (#[trigger] path@[i])@ == ns.nodes[ns.ancestor(
                    n,
                    (k - 1 - i) as nat,
                )].name,
        decreases ns.depths[n] - k,
    {
        let p = parent.unwrap();
        proof {
            lemma_ancestor_depth(ns, n, k);
            assert(ns.node_ok(cur as int));
            assert(ns.ancestor(n, k + 1) == ns.up(ns.ancestor(n, k)));
        }
        let ghost before = path@;
        path.insert(0, db.nodes[cur as usize].node_name.clone());
        proof {
            assert forall|i: int| 0 <= i < k + 1 implies (#[trigger] path@[i])@
                == ns.nodes[ns.ancestor(n, (k + 1 - 1 - i) as nat)].name by {
                if i > 0 {
                    assert(path@[i] == before[i - 1]);
                }
            }
            k = k + 1;
        }
        cur = p.0;
        assert(ns.nodes[cur as int] == db.nodes@[cur as int]@);
        parent = db.nodes[cur as usize].parent_id;
    }
    proof {
        lemma_ancestor_depth(ns, n, k);
        assert(ns.node_ok(cur as int));
        assert(k == ns.depths[n]);
        assert(names_of(path@) =~= ns.path_names(n));
    }
    Ok(path)
}

/// Whether `node` lies in the subtree of `ancestor` (a node lies in its
/// own). The closure table answers this from one scan of its rows. Nodes
/// that do not exist lie in no subtree and have none.
pub fn is_descendant(db: &VfsDb, ancestor: NodeId, node: NodeId) -> (r: bool)
    requires
        db.wf(),
    ensures
        r == (db@.ns.has(ancestor) && db@.ns.has(node) && db@.ns.in_subtree(
            node.0 as int,
            ancestor.0 as int,
        )),
{
    let total: usize = db.nodes.len();
    assert(db@.ns.nodes.len() == total);
    if ancestor.0 >= total as u64 || node.0 >= total as u64 {
        return false;
    }
    let mut i: usize = 0;
    while i < db.closures.len()
        invariant
            i <= db.closures.len(),
            db.wf(),
            db@.ns.has(ancestor),
            db@.ns.has(node),
            db@.ns.nodes.len() == total,
            forall|j: int|
                0 <= j < i ==> !((#[trigger] db.closures@[j]).ancestor == ancestor
                    && db.closures@[j].descendant == node),
        decreases db.closures.len() - i,
    {
        let row = db.closures[i];
        if row.ancestor.0 == ancestor.0 && row.descendant.0 == node.0 {
            proof {
                lemma_row_means_subtree(db@.ns, db.closure_rows(), ancestor.0 as int, node.0 as int);
            }
            return true;
        }
        i += 1;
    }
    proof {
        lemma_row_means_subtree(db@.ns, db.closure_rows(), ancestor.0 as int, node.0 as int);
    }
    false
}

/// The nodes of the subtree of `ancestor`, itself included, each once, in
/// the order in which the closure table lists them. `NotFound` if there is
/// no such node.
pub fn get_descendants(db: &VfsDb, ancestor: NodeId) -> (r: Result<Vec<NodeId>, VFSError>)
    requires
        db.wf(),
    ensures
        !db@.ns.has(ancestor) ==> r == Err::<Vec<NodeId>, VFSError>(VFSError::NotFound),
        db@.ns.has(ancestor) ==> r is Ok && r->Ok_0@.no_duplicates() && forall|x: NodeId|
            r->Ok_0@.contains(x) <==> db@.ns.has(x) && db@.ns.in_subtree(
                x.0 as int,
                ancestor.0 as int,
            ),
{
    let total: usize = db.nodes.len();
    assert(db@.ns.nodes.len() == total);
    if ancestor.0 >= total as u64 {
        return Err(VFSError::NotFound);
    }
    Ok(subtree_of(db, ancestor))
}

/// The nodes of the subtree of an existing node.
fn subtree_of(db: &VfsDb, ancestor: NodeId) -> (out: Vec<NodeId>)
    requires
        db.wf(),
        db@.ns.has(ancestor),
    ensures
        forall|x: NodeId|
            out@.contains(x) <==> db@.ns.has(x) && db@.ns.in_subtree(
                x.0 as int,
                ancestor.0 as int,
            ),
        out@.no_duplicates(),
{
    let total: usize = db.nodes.len();
    let ghost ns = db@.ns;
    let ghost rows = db.closure_rows();
    let ghost m = ancestor.0 as int;
    assert(ns.nodes.len() == total);
    let mut out: Vec<NodeId> = Vec::new();
    let ghost mut src: Seq<int> = Seq::empty();
    let mut i: usize = 0;
    while i < db.closures.len()
        invariant
            i <= db.closures.len(),
            db.closures@ == rows,
            src.len() == out.len(),
            forall|a: int|
                0 <= a < out.len() ==> 0 <= #[trigger] src[a] < i && rows[src[a]].ancestor
                    == ancestor && rows[src[a]].descendant == out@[a],
            forall|a: int, b: int| 0 <= a < b < out.len() ==> src[a] < src[b],
            forall|j: int|
                0 <= j < i && (#[trigger] rows[j]).ancestor == ancestor ==> out@.contains(
                    rows[j].descendant,
                ),
        decreases db.closures.len() - i,
    {
        let row = db.closures[i];
        if row.ancestor.0 == ancestor.0 {
            let ghost before = out@;
            out.push(row.descendant);
            proof {
                src = src.push(i as int);
                assert forall|j: int|
                    0 <= j < i + 1 && (#[trigger] rows[j]).ancestor == ancestor implies out@.contains(
                    rows[j].descendant,
                ) by {
                    if j < i {
                        let a = choose|a: int|
                            0 <= a < before.len() && before[a] == rows[j].descendant;
                        assert(out@[a] == rows[j].descendant);
                    } else {
                        assert(out@[out.len() - 1] == rows[j].descendant);
                    }
                }
            }
        }
        i += 1;
    }
    proof {
        assert forall|x: NodeId|
            out@.contains(x) <==> ns.has(x) && ns.in_subtree(x.0 as int, m) by {
            if out@.contains(x) {
                let a = choose|a: int| 0 <= a < out.len() && out@[a] == x;
                let j = src[a];
                assert(row_sound(ns, rows[j]));
                lemma_row_means_subtree(ns, rows, m, x.0 as int);
            }
            if ns.has(x) && ns.in_subtree(x.0 as int, m) {
                lemma_row_means_subtree(ns, rows, m, x.0 as int);
                let j = choose|j: int|
                    0 <= j < rows.len() && (#[trigger] rows[j]).ancestor == NodeId(m as u64)
                        && rows[j].descendant == NodeId(x.0 as int as u64);
                assert(out@.contains(rows[j].descendant));
            }
        }
        assert forall|a: int, b: int| 0 <= a < out.len() && 0 <= b < out.len() && a != b
            implies out@[a] != out@[b] by {
            let ra = rows[src[a]];
            let rb = rows[src[b]];
            if a < b {
                assert(src[a] < src[b]);
            } else {
                assert(src[b] < src[a]);
            }
            assert(ra != rb);
            assert(row_sound(ns, ra));
            assert(row_sound(ns, rb));
            if ra.descendant == rb.descendant {
                lemma_ancestor_depth(ns, ra.descendant.0 as int, ra.depth as nat);
                lemma_ancestor_depth(ns, rb.descendant.0 as int, rb.depth as nat);
            }
        }
    }
    out
}

/// The closure rows of a node, nearest ancestor first: the node itself at
/// depth 0, then its parent, and so on up to the root.
pub open spec fn ancestor_rows(ns: Namespace, n: int) -> Seq<NodeClosure> {
    Seq::new(ns.depths[n] + 1, |k: int| row_for(ns, n, k as nat))
}

/// Reads the ancestors of a node out of the closure table, nearest first.
/// `NotFound` if there is no such node.
pub fn get_ancestors(db: &VfsDb, node: NodeId) -> (r: Result<Vec<NodeClosure>, VFSError>)
    requires
        db.wf(),
    ensures
        !db@.ns.has(node) ==> r == Err::<Vec<NodeClosure>, VFSError>(VFSError::NotFound),
        db@.ns.has(node) ==> r is Ok && r->Ok_0@ == ancestor_rows(db@.ns, node.0 as int),
{
    let total: usize = db.nodes.len();
    let ghost ns = db@.ns;
    let ghost rows = db.closure_rows();
    let ghost n = node.0 as int;
    assert(ns.nodes.len() == total);
    if node.0 >= total as u64 {
        return Err(VFSError::NotFound);
    }
    proof {
        lemma_depth_bound(ns, n);
    }
    let mut out: Vec<NodeClosure> = Vec::new();
    let mut k: u64 = 0;
    let mut open = true;
    while open
        invariant
            db.wf(),
            db@.ns == ns,
            db.closure_rows() == rows,
            ns.in_range(n),
            node.0 == n,
            ns.nodes.len() == total,
            ns.depths[n] < total,
            open ==> k <= ns.depths[n] + 1,
            !open ==> k == ns.depths[n] + 1,
            out@.len() == k,
            forall|j: int| 0 <= j < k ==> #[trigger] out@[j] == row_for(ns, n, j as nat),
        decreases
            (if open {
                ns.depths[n] + 3 - k
            } else {
                0
            }),
    {
        let mut found: Option<NodeClosure> = None;
        let mut i: usize = 0;
        while i < db.closures.len() && found.is_none()
            invariant
                i <= db.closures.len(),
                db.closures@ == rows,
                node.0 == n,
                match found {
                    Some(row) => row.descendant == node && row.depth == k && rows.contains(row),
                    None => forall|j: int|
                        0 <= j < i ==> !((#[trigger] rows[j]).descendant == node && rows[j].depth
                            == k),
                },
            decreases db.closures.len() - i,
        {
            let row = db.closures[i];
            if row.descendant.0 == node.0 && row.depth == k {
                found = Some(row);
            }
            i += 1;
        }
        match found {
            Some(row) => {
                proof {
                    let j = choose|j: int| 0 <= j < rows.len() && rows[j] == row;
                    assert(row_sound(ns, rows[j]));
                }
                out.push(row);
                k = k + 1;
            },
            None => {
                proof {
                    if k <= ns.depths[n] {
                        let row = row_for(ns, n, k as nat);
                        assert(rows.contains(row));
                        let j = choose|j: int| 0 <= j < rows.len() && rows[j] == row;
                        assert(rows[j].descendant == node && rows[j].depth == k);
                    }
                }
                open = false;
            },
        }
    }
    assert(out@ =~= ancestor_rows(ns, n));
    Ok(out)
}

/// What hanging `node` below `parent` does to the namespace, and what it
/// answers.
///
/// Both must exist. The new parent must lie outside the subtree of the
/// node (which also keeps the root where it is), and must have no other
/// child of the node's name. Then the node's parent pointer changes, its
/// update time is set, and its subtree takes the depth of the new place.
pub open spec fn move_outcome(ns: Namespace, node: NodeId, parent: NodeId, now: i64) -> (
    Namespace,
    Result<(), VFSError>,
) {
    if !ns.has(node) || !ns.has(parent) {
        (ns, Err(VFSError::NotFound))
    } else if ns.in_subtree(parent.0 as int, node.0 as int) {
        (ns, Err(VFSError::InvalidPath))
    } else {
        match ns.find_child(Some(parent), ns.nodes[node.0 as int].name) {
            Some(c) => if c == node.0 {
                (ns.moved(node.0 as int, parent, now), Ok(()))
            } else {
                (ns, Err(VFSError::Sql(StoreFault::UniqueViolation)))
            },
            None => (ns.moved(node.0 as int, parent, now), Ok(())),
        }
    }
}

/// Hangs `node_id` below `parent_id` and brings the closure rows of every
/// node of the moved subtree up to date. See `move_outcome`.
pub fn move_vfs_node(db: &mut VfsDb, node_id: NodeId, parent_id: NodeId) -> (r: Result<
    (),
    VFSError,
>)
    requires
        old(db).wf(),
    ensures
        final(db).wf(),
        final(db)@ == old(db)@.with_ns(
            move_outcome(old(db)@.ns, node_id, parent_id, old(db)@.now).0,
        ),
        r == move_outcome(old(db)@.ns, node_id, parent_id, old(db)@.now).1,
{
    let total: usize = db.nodes.len();
    let ghost before = db@;
    let ghost rows = db.closure_rows();
    let ghost m = node_id.0 as int;
    assert(before.ns.nodes.len() == total);
    if node_id.0 >= total as u64 || parent_id.0 >= total as u64 {
        return Err(VFSError::NotFound);
    }
    if is_descendant(db, node_id, parent_id) {
        return Err(VFSError::InvalidPath);
    }
    let at: usize = node_id.0 as usize;
    assert(before.ns.nodes[m] == db.nodes@[m]@);
    let name = db.nodes[at].node_name.clone();
    proof {
        lemma_find_in(before.ns, Some(parent_id), name@, before.ns.nodes.len());
    }
    match get_vfs_node(db, &name, Some(parent_id)) {
        Ok(other) => {
            if other.0 != node_id.0 {
                return Err(VFSError::Sql(StoreFault::UniqueViolation));
            }
        },
        Err(_) => {},
    }
    let subtree = subtree_of(db, node_id);
    let moved = VfsNode {
        id: db.nodes[at].id,
        parent_id: Some(parent_id),
        node_name: name,
        vfs_file: db.nodes[at].vfs_file,
        created_at: db.nodes[at].created_at,
        updated_at: Some(db.clock),
        hide: db.nodes[at].hide,
    };
    db.nodes.set(at, moved);
    let ghost after = before.ns.moved(m, parent_id, before.now);
    proof {
        db.depths@ = after.depths;
        let listed = listed_from(subtree@, 0);
        assert forall|x: int| before.ns.subtree(m).contains(x) implies listed.contains(x) by {
            let id = NodeId(x as u64);
            assert(before.ns.node_ok(x));
            assert(subtree@.contains(id));
            let j = choose|j: int| 0 <= j < subtree.len() && subtree@[j] == id;
            assert(subtree@[j].0 as int == x);
        }
        lemma_closures_ok_more_pending(before.ns, rows, Set::empty(), listed);
        lemma_moved(before.ns, rows, listed, m, parent_id, before.now);
        assert(db@.ns.nodes =~= after.nodes);
        assert forall|j: int| 0 <= j < subtree.len() implies after.has(#[trigger] subtree@[j]) by {
            assert(subtree@.contains(subtree@[j]));
        }
        assert forall|j: int| 0 <= j < rows.len() implies after.has(
            (#[trigger] rows[j]).descendant,
        ) by {
            assert(row_sound(before.ns, rows[j]));
        }
    }
    update_vfs_closures(db, &subtree);
    proof {
        lemma_files_ok_kept(before, db@);
    }
    Ok(())
}

/// Moves a node below a target: a node given by its identifier, or a path,
/// of which whatever is missing is created first (and stays, should the
/// move then be refused). See `move_outcome` for the move itself.
pub fn move_vfs_file(db: &mut VfsDb, node_id: NodeId, target: VfsTarget) -> (r: Result<(), VFSError>)
    requires
        old(db).wf(),
    ensures
        final(db).wf(),
        final(db)@ == old(db)@.with_ns(
            move_outcome(
                move_target(old(db)@.ns, target, old(db)@.now).0,
                node_id,
                move_target(old(db)@.ns, target, old(db)@.now).1,
                old(db)@.now,
            ).0,
        ),
        r == move_outcome(
            move_target(old(db)@.ns, target, old(db)@.now).0,
            node_id,
            move_target(old(db)@.ns, target, old(db)@.now).1,
            old(db)@.now,
        ).1,
{
    let parent_id = match target {
        VfsTarget::Node(parent_id) => parent_id,
        VfsTarget::Path(vfs_path) => {
            match ensure_vfs_path(db, vfs_path.as_str()) {
                Ok(found) => found,
                Err(e) => {
                    return Err(e);
                },
            }
        },
    };
    move_vfs_node(db, node_id, parent_id)
}

/// The namespace in which a target is looked up, and the node that it
/// names there: for a path, the namespace with the path ensured.
pub open spec fn move_target(ns: Namespace, target: VfsTarget, now: i64) -> (Namespace, NodeId) {
    match target {
        VfsTarget::Node(id) => (ns, id),
        VfsTarget::Path(path) => ensure_outcome(ns.with_root(now), path@, now),
    }
}

} // verus!
