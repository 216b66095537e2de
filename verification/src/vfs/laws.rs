//! What holds of the namespace whatever is done to it: proofs that relate
//! creating a path, resolving it, reading it back, and the closure table.

use vstd::prelude::*;
use super::commit::commit_outcome;
use super::files::{FileDataView, VFSFileType};
use super::model::{
    closures_ok, lemma_ancestor_add, lemma_ancestor_depth, lemma_ancestor_in_range,
    lemma_ancestor_same, lemma_ancestor_via_parent, lemma_find_in, lemma_find_in_push,
    lemma_find_in_stable, lemma_moved_outside, lemma_only_root, lemma_root_subtree,
    lemma_with_child_valid, row_for, row_sound, FileId, Namespace, NodeClosure, NodeId,
};
use super::namespace::{ensure_outcome, resolve_outcome};
use super::shared::{VFSError, VfsTarget};
use super::store::DbView;
use crate::media::{first_stream_of, FFProbeMediaOutput, MediaCodecType};
use crate::text::path_names_of;

verus! {

/// `more` holds every node of `ns`, unchanged and at the same depth.
pub open spec fn extends(ns: Namespace, more: Namespace) -> bool {
    &&& ns.nodes.len() <= more.nodes.len()
    &&& forall|i: int| 0 <= i < ns.nodes.len() ==> #[trigger] more.nodes[i] == ns.nodes[i]
    &&& forall|i: int| 0 <= i < ns.nodes.len() ==> #[trigger] more.depths[i] == ns.depths[i]
}

/// The path of a child is the path of its parent and then the child's
/// name.
pub proof fn lemma_path_of_child(ns: Namespace, c: int)
    requires
        ns.valid(),
        ns.in_range(c),
        ns.nodes[c].parent is Some,
    ensures
        ns.path_names(c) == ns.path_names(ns.up(c)).push(ns.nodes[c].name),
{
    let p = ns.up(c);
    assert(ns.node_ok(c));
    let dp = ns.depths[p];
    assert forall|i: int| 0 <= i < dp + 1 implies ns.path_names(c)[i] == ns.path_names(p).push(
        ns.nodes[c].name,
    )[i] by {
        if i < dp {
            lemma_ancestor_via_parent(ns, c, (dp - 1 - i) as nat);
        }
    }
    assert(ns.path_names(c) =~= ns.path_names(p).push(ns.nodes[c].name));
}

/// A node has the same path in every namespace that extends its own.
pub proof fn lemma_path_names_same(ns: Namespace, more: Namespace, n: int)
    requires
        ns.valid(),
        extends(ns, more),
        ns.in_range(n),
    ensures
        more.path_names(n) == ns.path_names(n),
{
    assert(more.depths[n] == ns.depths[n]);
    assert forall|i: int| 0 <= i < ns.depths[n] implies more.path_names(n)[i] == ns.path_names(
        n,
    )[i] by {
        let k = (ns.depths[n] - 1 - i) as nat;
        lemma_ancestor_same(ns, more, n, k);
        lemma_ancestor_in_range(ns, n, k);
    }
    assert(more.path_names(n) =~= ns.path_names(n));
}

/// What a child found in a namespace is found as in every extension.
pub proof fn lemma_find_child_extends(
    ns: Namespace,
    more: Namespace,
    parent: Option<NodeId>,
    name: Seq<char>,
)
    requires
        extends(ns, more),
        ns.find_child(parent, name) is Some,
    ensures
        more.find_child(parent, name) == ns.find_child(parent, name),
{
    lemma_find_in_push(ns, more, parent, name, ns.nodes.len());
    lemma_find_in_stable(more, parent, name, ns.nodes.len(), more.nodes.len());
}

/// Creating along a list of names: the result is valid, keeps what was
/// there, leads to the answered node when walked, and gives that node the
/// path of the start node followed by the names.
pub proof fn lemma_grow(ns: Namespace, cur: int, names: Seq<Seq<char>>, now: i64)
    requires
        ns.valid(),
        ns.in_range(cur),
        ns.nodes.len() + names.len() <= u64::MAX,
    ensures
        ns.grow(cur, names, now).0.valid(),
        extends(ns, ns.grow(cur, names, now).0),
        ns.grow(cur, names, now).0.in_range(ns.grow(cur, names, now).1),
        ns.grow(cur, names, now).0.nodes.len() <= ns.nodes.len() + names.len(),
        ns.grow(cur, names, now).0.walk(cur, names) == Some(ns.grow(cur, names, now).1),
        ns.grow(cur, names, now).0.path_names(ns.grow(cur, names, now).1) == ns.path_names(cur)
            + names,
    decreases names.len(),
{
    let g = ns.grow(cur, names, now);
    if names.len() == 0 {
        assert(ns.path_names(cur) + names =~= ns.path_names(cur));
    } else {
        let nm = names[0];
        let rest = names.drop_first();
        let key = Some(NodeId(cur as u64));
        assert(ns.node_ok(cur));
        lemma_find_in(ns, key, nm, ns.nodes.len());
        match ns.find_child(key, nm) {
            Some(c) => {
                lemma_grow(ns, c, rest, now);
                lemma_find_child_extends(ns, g.0, key, nm);
                lemma_path_of_child(ns, c);
                assert(ns.path_names(cur).push(nm) + rest =~= ns.path_names(cur) + names);
            },
            None => {
                let fresh = ns.nodes.len() as int;
                let one = ns.with_child(NodeId(cur as u64), nm, false, now);
                lemma_with_child_valid(ns, NodeId(cur as u64), nm, false, now);
                lemma_grow(one, fresh, rest, now);
                assert(extends(ns, one));
                lemma_find_in_push(ns, one, key, nm, ns.nodes.len());
                assert(one.is_child(fresh, key, nm));
                assert(one.find_child(key, nm) == Some(fresh));
                lemma_find_child_extends(one, g.0, key, nm);
                lemma_path_of_child(one, fresh);
                lemma_path_names_same(ns, one, cur);
                assert(ns.path_names(cur).push(nm) + rest =~= ns.path_names(cur) + names);
            },
        }
    }
}

/// Where every name has its node already, creating along the names
/// creates nothing and answers what walking answers.
pub proof fn lemma_grow_found(ns: Namespace, cur: int, names: Seq<Seq<char>>, now: i64)
    requires
        ns.walk(cur, names) is Some,
    ensures
        ns.grow(cur, names, now) == (ns, ns.walk(cur, names)->0),
    decreases names.len(),
{
    if names.len() > 0 {
        let c = ns.find_child(Some(NodeId(cur as u64)), names[0])->0;
        lemma_grow_found(ns, c, names.drop_first(), now);
    }
}

/// A namespace with its root in place is valid if it was before.
pub proof fn lemma_with_root(ns: Namespace, now: i64)
    requires
        ns.valid(),
    ensures
        ns.with_root(now).valid(),
        ns.with_root(now).in_range(0),
        ns.with_root(now).path_names(0) == Seq::<Seq<char>>::empty(),
        ns.with_root(now).with_root(now) == ns.with_root(now),
{
    let rooted = ns.with_root(now);
    if ns.nodes.len() == 0 {
        lemma_only_root("root"@, false, now);
    }
    assert(rooted.node_ok(0));
    assert(rooted.path_names(0) =~= Seq::<Seq<char>>::empty());
}

/// Round trip of creating and resolving: after a path was ensured,
/// resolving the same path answers the node that ensuring answered.
pub proof fn law_ensure_then_resolve(ns: Namespace, path: Seq<char>, now: i64)
    requires
        ns.valid(),
        ns.nodes.len() + path_names_of(path).len() < u64::MAX,
    ensures
        ({
            let made = ensure_outcome(ns.with_root(now), path, now);
            &&& made.0.valid()
            &&& made.0.has(made.1)
            &&& made.0.with_root(now) == made.0
            &&& resolve_outcome(made.0, path) == Ok::<NodeId, VFSError>(made.1)
        }),
{
    lemma_with_root(ns, now);
    lemma_grow(ns.with_root(now), 0, path_names_of(path), now);
}

/// Reading back what was created: the path of the node that ensuring a
/// path answers is the list of names that the path stands for, that is its
/// segments without a leading root segment and with the escaped spaces
/// decoded.
pub proof fn law_path_of_ensured(ns: Namespace, path: Seq<char>, now: i64)
    requires
        ns.valid(),
        ns.nodes.len() + path_names_of(path).len() < u64::MAX,
    ensures
        ({
            let made = ensure_outcome(ns.with_root(now), path, now);
            made.0.path_names(made.1.0 as int) == path_names_of(path)
        }),
{
    lemma_with_root(ns, now);
    let rooted = ns.with_root(now);
    lemma_grow(rooted, 0, path_names_of(path), now);
    assert(rooted.path_names(0) + path_names_of(path) =~= path_names_of(path));
}

/// Ensuring a path twice is ensuring it once: the second call, at whatever
/// time, creates no node and answers the node of the first. So no sequence
/// of such calls leaves two siblings of one name.
pub proof fn law_ensure_twice(ns: Namespace, path: Seq<char>, now: i64, later: i64)
    requires
        ns.valid(),
        ns.nodes.len() + path_names_of(path).len() < u64::MAX,
    ensures
        ({
            let made = ensure_outcome(ns.with_root(now), path, now);
            &&& ensure_outcome(made.0.with_root(later), path, later) == made
            &&& made.0.siblings_unique()
        }),
{
    lemma_with_root(ns, now);
    let rooted = ns.with_root(now);
    let names = path_names_of(path);
    lemma_grow(rooted, 0, names, now);
    let made = rooted.grow(0, names, now);
    lemma_grow_found(made.0, 0, names, later);
}

/// Walking along two lists of names, one after the other, is walking along
/// the first and then, from where that led, along the second.
pub proof fn lemma_walk_concat(ns: Namespace, cur: int, a: Seq<Seq<char>>, b: Seq<Seq<char>>)
    ensures
        ns.walk(cur, a + b) == match ns.walk(cur, a) {
            Some(x) => ns.walk(x, b),
            None => None,
        },
    decreases a.len(),
{
    if a.len() == 0 {
        assert(a + b =~= b);
    } else {
        assert((a + b)[0] == a[0]);
        assert((a + b).drop_first() =~= a.drop_first() + b);
        match ns.find_child(Some(NodeId(cur as u64)), a[0]) {
            Some(c) => {
                lemma_walk_concat(ns, c, a.drop_first(), b);
            },
            None => {},
        }
    }
}

/// Reading a path back and walking along it leads to the node that it was
/// read from: the names of a node's path, followed from the root, end at
/// the node.
pub proof fn law_walk_own_path(ns: Namespace, n: int)
    requires
        ns.valid(),
        ns.in_range(n),
    ensures
        ns.walk(0, ns.path_names(n)) == Some(n),
    decreases ns.depths[n],
{
    assert(ns.node_ok(n));
    match ns.nodes[n].parent {
        None => {
            assert(ns.path_names(n) =~= Seq::<Seq<char>>::empty());
        },
        Some(p) => {
            let pi = p.0 as int;
            let name = ns.nodes[n].name;
            assert(ns.node_ok(pi));
            law_walk_own_path(ns, pi);
            lemma_path_of_child(ns, n);
            assert(ns.path_names(pi).push(name) =~= ns.path_names(pi) + seq![name]);
            lemma_walk_concat(ns, 0, ns.path_names(pi), seq![name]);
            lemma_find_in(ns, Some(p), name, ns.nodes.len());
            assert(ns.is_child(n, Some(p), name));
            let found = ns.find_child(Some(NodeId(pi as u64)), name);
            assert(found is Some);
            assert(found->0 == n) by {
                let c = found->0;
                if c != n {
                    assert(ns.nodes[c].parent == ns.nodes[n].parent && ns.nodes[c].name
                        == ns.nodes[n].name);
                }
            }
            assert(seq![name].drop_first() =~= Seq::<Seq<char>>::empty());
            assert(ns.walk(n, Seq::<Seq<char>>::empty()) == Some(n));
            assert(ns.walk(pi, seq![name]) == Some(n));
        },
    }
}

/// Within a moved subtree, the first ancestors of a node, up to the moved
/// node itself, stay what they were.
pub proof fn lemma_moved_inside(ns: Namespace, m: int, q: NodeId, now: i64, s: int, k: nat)
    requires
        ns.valid(),
        ns.in_range(m),
        ns.in_range(s),
        ns.in_subtree(s, m),
        k <= ns.depths[s] - ns.depths[m],
    ensures
        ns.moved(m, q, now).ancestor(s, k) == ns.ancestor(s, k),
    decreases k,
{
    if k > 0 {
        lemma_moved_inside(ns, m, q, now, s, (k - 1) as nat);
        lemma_ancestor_depth(ns, s, (k - 1) as nat);
    }
}

/// Beyond the moved node, the ancestors of a node of the moved subtree are
/// the new parent and its ancestors.
pub proof fn lemma_moved_above(ns: Namespace, m: int, q: NodeId, now: i64, s: int, k: nat)
    requires
        ns.valid(),
        ns.in_range(m),
        ns.has(q),
        !ns.in_subtree(q.0 as int, m),
        ns.in_range(s),
        ns.in_subtree(s, m),
        k <= ns.depths[q.0 as int],
    ensures
        ns.moved(m, q, now).ancestor(s, (ns.depths[s] - ns.depths[m] + 1 + k) as nat)
            == ns.ancestor(q.0 as int, k),
{
    let after = ns.moved(m, q, now);
    let d = (ns.depths[s] - ns.depths[m]) as nat;
    lemma_moved_inside(ns, m, q, now, s, d);
    lemma_ancestor_add(after, s, d, k + 1);
    lemma_ancestor_via_parent(after, m, k);
    lemma_moved_outside(ns, m, q, now, q.0 as int, k);
}

/// What a move does to paths: the path of every node of the moved subtree
/// becomes the path of the new parent followed by what the node's old path
/// held from the moved node on. No node outside the subtree changes its
/// path.
pub proof fn law_moved_paths(ns: Namespace, m: int, q: NodeId, now: i64, s: int)
    requires
        ns.valid(),
        ns.in_range(m),
        ns.has(q),
        !ns.in_subtree(q.0 as int, m),
        ns.in_range(s),
    ensures
        ns.in_subtree(s, m) ==> ns.depths[m] >= 1 && ns.moved(m, q, now).path_names(s)
            == ns.path_names(q.0 as int) + ns.path_names(s).subrange(
            ns.depths[m] - 1,
            ns.depths[s] as int,
        ),
        !ns.in_subtree(s, m) ==> ns.moved(m, q, now).path_names(s) == ns.path_names(s),
{
    let after = ns.moved(m, q, now);
    let qi = q.0 as int;
    lemma_root_subtree(ns, qi);
    assert(ns.node_ok(m));
    if ns.in_subtree(s, m) {
        let d = ns.depths[s] - ns.depths[m];
        let tail = ns.path_names(s).subrange(ns.depths[m] - 1, ns.depths[s] as int);
        let want = ns.path_names(qi) + tail;
        assert(after.depths[s] == d + ns.depths[qi] + 1);
        assert forall|i: int| 0 <= i < after.depths[s] implies after.path_names(s)[i]
            == want[i] by {
            let k = (after.depths[s] - 1 - i) as nat;
            if i < ns.depths[qi] {
                lemma_moved_above(ns, m, q, now, s, (ns.depths[qi] - 1 - i) as nat);
                lemma_ancestor_in_range(ns, qi, (ns.depths[qi] - 1 - i) as nat);
            } else {
                lemma_moved_inside(ns, m, q, now, s, k);
                lemma_ancestor_in_range(ns, s, k);
            }
        }
        assert(after.path_names(s) =~= want);
    } else {
        assert forall|i: int| 0 <= i < ns.depths[s] implies after.path_names(s)[i]
            == ns.path_names(s)[i] by {
            let k = (ns.depths[s] - 1 - i) as nat;
            lemma_moved_outside(ns, m, q, now, s, k);
            lemma_ancestor_in_range(ns, s, k);
        }
        assert(after.path_names(s) =~= ns.path_names(s));
    }
}

/// A multimedia file whose probe report has neither a video nor an audio
/// stream cannot be committed: the commit answers `MediaStreamMissing`, and
/// the tables stay exactly as they were, so that neither a node nor a file
/// record is left behind.
pub proof fn law_commit_needs_a_stream(
    s: DbView,
    data: FileDataView,
    probe: FFProbeMediaOutput,
    target: Option<VfsTarget>,
)
    requires
        data.file_type == VFSFileType::Multimedia(probe),
        first_stream_of(probe.streams@, MediaCodecType::Video) is None,
        first_stream_of(probe.streams@, MediaCodecType::Audio) is None,
    ensures
        commit_outcome(s, data, target) == (
            s,
            Err::<(FileId, NodeId), VFSError>(VFSError::MediaStreamMissing),
        ),
{
}

/// The closure table, seen from a node `n` and one of its ancestors, the
/// one `k` edges above it (`k` = 0 is `n` itself): the table holds the row
/// (ancestor, `n`, `k`), it holds it once, and any row that joins this
/// ancestor and `n` has the depth `k`. For `k` = 0 the row is (`n`, `n`, 0).
pub proof fn law_closure_rows(ns: Namespace, rows: Seq<NodeClosure>, n: int, k: nat)
    requires
        ns.valid(),
        closures_ok(ns, rows, Set::empty()),
        ns.in_range(n),
        k <= ns.depths[n],
    ensures
        rows.contains(row_for(ns, n, k)),
        row_for(ns, n, 0) == (NodeClosure {
            ancestor: NodeId(n as u64),
            descendant: NodeId(n as u64),
            depth: 0,
        }),
        forall|i: int, j: int|
            0 <= i < rows.len() && 0 <= j < rows.len() && #[trigger] rows[i] == #[trigger] rows[j]
                ==> i == j,
        forall|i: int|
            0 <= i < rows.len() && (#[trigger] rows[i]).descendant == NodeId(n as u64)
                && rows[i].ancestor == row_for(ns, n, k).ancestor ==> rows[i] == row_for(ns, n, k),
{
    assert(ns.node_ok(n));
    lemma_ancestor_depth(ns, n, k);
    assert forall|i: int|
        0 <= i < rows.len() && (#[trigger] rows[i]).descendant == NodeId(n as u64)
            && rows[i].ancestor == row_for(ns, n, k).ancestor implies rows[i] == row_for(
        ns,
        n,
        k,
    ) by {
        assert(row_sound(ns, rows[i]));
        lemma_ancestor_depth(ns, n, rows[i].depth as nat);
        super::model::lemma_depth_bound(ns, n);
        assert(ns.node_ok(ns.ancestor(n, k)));
        assert(ns.node_ok(ns.ancestor(n, rows[i].depth as nat)));
    }
}

/// Every row of the closure table tells the truth: both its nodes exist,
/// and its ancestor lies exactly `depth` edges above its descendant.
pub proof fn law_closure_rows_sound(ns: Namespace, rows: Seq<NodeClosure>, j: int)
    requires
        ns.valid(),
        closures_ok(ns, rows, Set::empty()),
        0 <= j < rows.len(),
    ensures
        ns.has(rows[j].descendant),
        ns.has(rows[j].ancestor),
        rows[j].depth <= ns.depths[rows[j].descendant.0 as int],
        rows[j].ancestor.0 == ns.ancestor(rows[j].descendant.0 as int, rows[j].depth as nat),
{
    let r = rows[j];
    assert(row_sound(ns, r));
    lemma_ancestor_depth(ns, r.descendant.0 as int, r.depth as nat);
    assert(ns.node_ok(ns.ancestor(r.descendant.0 as int, r.depth as nat)));
}

} // verus!
