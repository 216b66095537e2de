//! The tables of the namespace: nodes, closure rows, file records and
//! thumbnail links, with the invariant that ties them together.

use vstd::prelude::*;
use super::files::{FileView, VfsFile};
use super::model::{
    closures_ok, lemma_ancestor_depth, lemma_closures_ok_more_pending, lemma_depth_bound,
    lemma_find_in_stable, lemma_only_root, lemma_with_child, row_for, row_sound, FileId,
    Namespace, NodeClosure, NodeId, NodeView,
};
use super::shared::VFSError;
use crate::text::{is_root_name, is_root_segment};

verus! {

/// A namespace entry: a folder, or the holder of one file.
#[derive(Debug, Clone)]
pub struct VfsNode {
    pub id: NodeId,
    pub parent_id: Option<NodeId>,
    pub node_name: String,
    pub vfs_file: Option<FileId>,
    /// Creation time, in microseconds since the epoch.
    pub created_at: i64,
    pub updated_at: Option<i64>,
    pub hide: bool,
}

impl View for VfsNode {
    type V = NodeView;

    open spec fn view(&self) -> NodeView {
        NodeView {
            id: self.id,
            parent: self.parent_id,
            name: self.node_name@,
            file: self.vfs_file,
            created_at: self.created_at,
            updated_at: self.updated_at,
            hide: self.hide,
        }
    }
}

/// What a new node is made from.
#[derive(Debug, Clone)]
pub struct VfsNodeCreateArgs {
    pub name: String,
    pub hide: bool,
}

/// The link from a file to the image that is its thumbnail.
#[derive(Clone, Copy, Debug, PartialEq, Eq, Structural)]
pub struct VfsThumb {
    pub id: FileId,
    pub thumbnail: FileId,
}

/// The views of a node table's rows.
pub open spec fn node_views(nodes: Seq<VfsNode>) -> Seq<NodeView> {
    nodes.map_values(|n: VfsNode| n@)
}

/// What the tables hold, as contracts see it. The closure table is left
/// out: it is derived from the nodes, and well-formedness pins down what
/// it holds.
pub struct DbView {
    pub ns: Namespace,
    pub files: Seq<FileView>,
    pub thumbs: Seq<VfsThumb>,
    pub now: i64,
}

/// The file records are numbered by position, every node that holds a file
/// holds one that exists, and every thumbnail link joins two files that
/// exist, no file having two links.
pub open spec fn files_ok(s: DbView) -> bool {
    &&& forall|i: int| 0 <= i < s.files.len() ==> (#[trigger] s.files[i]).id == FileId(i as u64)
    &&& forall|n: int|
        0 <= n < s.ns.nodes.len() ==> match (#[trigger] s.ns.nodes[n]).file {
            Some(f) => (f.0 as int) < s.files.len(),
            None => true,
        }
    &&& forall|i: int|
        0 <= i < s.thumbs.len() ==> ((#[trigger] s.thumbs[i]).id.0 as int) < s.files.len() && (
        s.thumbs[i].thumbnail.0 as int) < s.files.len()
    &&& forall|i: int, j: int|
        0 <= i < s.thumbs.len() && 0 <= j < s.thumbs.len() && i != j ==> (
        #[trigger] s.thumbs[i]).id != (#[trigger] s.thumbs[j]).id
}

/// The invariant of the node, file and link tables.
pub open spec fn valid_state(s: DbView) -> bool {
    &&& s.ns.valid()
    &&& files_ok(s)
}

impl DbView {
    /// Tables that hold nothing, with the clock at `now`.
    pub open spec fn empty(now: i64) -> DbView {
        DbView { ns: Namespace::empty(), files: Seq::empty(), thumbs: Seq::empty(), now }
    }

    /// The same tables with another namespace.
    pub open spec fn with_ns(self, ns: Namespace) -> DbView {
        DbView { ns, ..self }
    }
}

/// Tables whose nodes hold the files they held, with the same file records
/// and links, keep their file records in order.
pub proof fn lemma_files_ok_kept(before: DbView, after: DbView)
    requires
        files_ok(before),
        after.files == before.files,
        after.thumbs == before.thumbs,
        forall|n: int|
            0 <= n < after.ns.nodes.len() ==> (#[trigger] after.ns.nodes[n]).file is None || (n
                < before.ns.nodes.len() && after.ns.nodes[n].file == before.ns.nodes[n].file),
    ensures
        files_ok(after),
{
    assert forall|n: int| 0 <= n < after.ns.nodes.len() implies match (
    #[trigger] after.ns.nodes[n]).file {
        Some(f) => (f.0 as int) < after.files.len(),
        None => true,
    } by {
        if after.ns.nodes[n].file is Some {
            assert(before.ns.nodes[n].file == after.ns.nodes[n].file);
        }
    }
}

/// One more file record, numbered by its position, keeps the file records
/// in order.
pub proof fn lemma_files_ok_push_file(before: DbView, after: DbView, row: FileView)
    requires
        files_ok(before),
        row.id == FileId(before.files.len() as u64),
        after.files == before.files.push(row),
        after.thumbs == before.thumbs,
        after.ns == before.ns,
    ensures
        files_ok(after),
{
    assert forall|i: int| 0 <= i < after.files.len() implies (#[trigger] after.files[i]).id
        == FileId(i as u64) by {
        if i < before.files.len() {
            assert(after.files[i] == before.files[i]);
        }
    }
    assert forall|n: int| 0 <= n < after.ns.nodes.len() implies match (
    #[trigger] after.ns.nodes[n]).file {
        Some(f) => (f.0 as int) < after.files.len(),
        None => true,
    } by {
        assert(after.ns.nodes[n] == before.ns.nodes[n]);
    }
    assert forall|i: int| 0 <= i < after.thumbs.len() implies ((
    #[trigger] after.thumbs[i]).id.0 as int) < after.files.len() && (
    after.thumbs[i].thumbnail.0 as int) < after.files.len() by {
        assert(after.thumbs[i] == before.thumbs[i]);
    }
}

/// A node that takes up a file which exists keeps the file records in
/// order.
pub proof fn lemma_files_ok_linked(before: DbView, after: DbView, n: int, f: FileId)
    requires
        files_ok(before),
        0 <= n < before.ns.nodes.len(),
        (f.0 as int) < before.files.len(),
        after.ns == before.ns.linked(n, f),
        after.files == before.files,
        after.thumbs == before.thumbs,
    ensures
        files_ok(after),
{
    assert forall|i: int| 0 <= i < after.ns.nodes.len() implies match (
    #[trigger] after.ns.nodes[i]).file {
        Some(g) => (g.0 as int) < after.files.len(),
        None => true,
    } by {
        if i != n {
            assert(after.ns.nodes[i] == before.ns.nodes[i]);
        }
    }
}

/// A first thumbnail link for a file, between files that exist, keeps the
/// file records in order.
pub proof fn lemma_files_ok_push_thumb(before: DbView, after: DbView, link: VfsThumb)
    requires
        files_ok(before),
        (link.id.0 as int) < before.files.len(),
        (link.thumbnail.0 as int) < before.files.len(),
        forall|j: int| 0 <= j < before.thumbs.len() ==> (#[trigger] before.thumbs[j]).id != link.id,
        after.thumbs == before.thumbs.push(link),
        after.files == before.files,
        after.ns == before.ns,
    ensures
        files_ok(after),
{
    assert forall|i: int| 0 <= i < after.thumbs.len() implies ((
    #[trigger] after.thumbs[i]).id.0 as int) < after.files.len() && (
    after.thumbs[i].thumbnail.0 as int) < after.files.len() by {
        if i < before.thumbs.len() {
            assert(after.thumbs[i] == before.thumbs[i]);
        }
    }
    assert forall|i: int, j: int|
        0 <= i < after.thumbs.len() && 0 <= j < after.thumbs.len() && i != j implies (
    #[trigger] after.thumbs[i]).id != (#[trigger] after.thumbs[j]).id by {
        if i < before.thumbs.len() {
            assert(after.thumbs[i] == before.thumbs[i]);
        }
        if j < before.thumbs.len() {
            assert(after.thumbs[j] == before.thumbs[j]);
        }
    }
}

/// The views of a file table's rows.
pub open spec fn file_views(files: Seq<VfsFile>) -> Seq<FileView> {
    files.map_values(|f: VfsFile| f@)
}

/// The tables themselves.
pub struct VfsDb {
    pub(crate) nodes: Vec<VfsNode>,
    pub(crate) closures: Vec<NodeClosure>,
    pub(crate) files: Vec<VfsFile>,
    pub(crate) thumbs: Vec<VfsThumb>,
    pub(crate) clock: i64,
    pub(crate) depths: Ghost<Seq<nat>>,
}

impl VfsDb {
    /// What the tables hold.
    pub open(crate) spec fn view(&self) -> DbView {
        DbView {
            ns: Namespace { nodes: node_views(self.nodes@), depths: self.depths@ },
            files: file_views(self.files@),
            thumbs: self.thumbs@,
            now: self.clock,
        }
    }

    /// The rows of the closure table.
    pub open(crate) spec fn closure_rows(&self) -> Seq<NodeClosure> {
        self.closures@
    }

    /// Well-formedness: the invariant holds of the tables, and the closure
    /// table holds exactly one row for each node and each of its ancestors
    /// (itself included), with the distance between the two.
    pub open spec fn wf(&self) -> bool {
        valid_state(self@) && closures_ok(self@.ns, self.closure_rows(), Set::empty())
    }

    /// Empty tables, with the clock at `now`.
    pub fn new(now: i64) -> (db: VfsDb)
        ensures
            db.wf(),
            db@ == DbView::empty(now),
            db.closure_rows().len() == 0,
    {
        let db = VfsDb {
            nodes: Vec::new(),
            closures: Vec::new(),
            files: Vec::new(),
            thumbs: Vec::new(),
            clock: now,
            depths: Ghost(Seq::empty()),
        };
        assert(db@.ns.nodes =~= Seq::empty());
        assert(db@.files =~= Seq::empty());
        db
    }

    /// The time that the tables stamp new and moved nodes with.
    pub fn now(&self) -> (t: i64)
        ensures
            t == self@.now,
    {
        self.clock
    }

    /// Sets the time that the tables stamp with, in microseconds since the
    /// epoch.
    pub fn set_time(&mut self, now: i64)
        requires
            old(self).wf(),
        ensures
            final(self).wf(),
            final(self)@ == (DbView { now, ..old(self)@ }),
            final(self).closure_rows() == old(self).closure_rows(),
    {
        self.clock = now;
    }

    /// How many nodes there are.
    pub fn node_count(&self) -> (n: usize)
        ensures
            n == self@.ns.nodes.len(),
    {
        self.nodes.len()
    }

    /// How many file records there are.
    pub fn file_count(&self) -> (n: usize)
        ensures
            n == self@.files.len(),
    {
        self.files.len()
    }

    /// How many rows the closure table has.
    pub fn closure_count(&self) -> (n: usize)
        ensures
            n == self.closure_rows().len(),
    {
        self.closures.len()
    }
}

/// The nodes that a list of flags marks.
pub open spec fn marked_set(marked: Seq<bool>) -> Set<int> {
    Set::new(|i: int| 0 <= i < marked.len() && marked[i])
}

/// Drops the closure rows whose descendant is marked. The marked nodes are
/// pending afterwards: their rows are missing.
pub(crate) fn drop_marked_closures(
    db: &mut VfsDb,
    marked: &Vec<bool>,
    Ghost(pending): Ghost<Set<int>>,
)
    requires
        old(db)@.ns.valid(),
        marked@.len() == old(db)@.ns.nodes.len(),
        closures_ok(old(db)@.ns, old(db).closure_rows(), pending),
        forall|j: int|
            0 <= j < old(db).closure_rows().len() ==> old(db)@.ns.has(
                (#[trigger] old(db).closure_rows()[j]).descendant,
            ),
    ensures
        final(db)@ == old(db)@,
        closures_ok(
            final(db)@.ns,
            final(db).closure_rows(),
            pending.union(marked_set(marked@)),
        ),
        forall|j: int|
            0 <= j < final(db).closure_rows().len() ==> final(db)@.ns.has(
                (#[trigger] final(db).closure_rows()[j]).descendant,
            ) && !marked@[final(db).closure_rows()[j].descendant.0 as int],
{
    let ghost ns = db@.ns;
    let ghost rows = db.closure_rows();
    let total: usize = marked.len();
    let mut kept: Vec<NodeClosure> = Vec::new();
    let ghost mut src: Seq<int> = Seq::empty();
    let mut i: usize = 0;
    while i < db.closures.len()
        invariant
            db.closures@ == rows,
            i <= rows.len(),
            total == marked@.len(),
            total == ns.nodes.len(),
            forall|j: int| 0 <= j < rows.len() ==> ns.has((#[trigger] rows[j]).descendant),
            src.len() == kept.len(),
            forall|a: int|
                0 <= a < kept.len() ==> 0 <= #[trigger] src[a] < i && kept@[a] == rows[src[a]]
                    && !marked@[kept@[a].descendant.0 as int],
            forall|a: int, b: int| 0 <= a < b < kept.len() ==> src[a] < src[b],
            forall|j: int|
                0 <= j < i && !marked@[rows[j].descendant.0 as int] ==> kept@.contains(
                    #[trigger] rows[j],
                ),
        decreases rows.len() - i,
    {
        let r = db.closures[i];
        assert(ns.has(rows[i as int].descendant));
        if !marked[r.descendant.0 as usize] {
            let ghost before = kept@;
            kept.push(r);
            proof {
                src = src.push(i as int);
                assert forall|j: int|
                    0 <= j < i + 1 && !marked@[rows[j].descendant.0 as int]
                    implies kept@.contains(#[trigger] rows[j]) by {
                    if j < i {
                        let a = choose|a: int| 0 <= a < before.len() && before[a] == rows[j];
                        assert(kept@[a] == rows[j]);
                    } else {
                        assert(kept@[kept.len() - 1] == rows[j]);
                    }
                }
            }
        }
        i += 1;
    }
    db.closures = kept;
    proof {
        let after = db.closure_rows();
        let more = pending.union(marked_set(marked@));
        assert forall|j: int| 0 <= j < after.len() implies ns.has(
            (#[trigger] after[j]).descendant,
        ) && !marked@[after[j].descendant.0 as int] by {
            assert(after[j] == rows[src[j]]);
        }
        assert forall|j: int|
            0 <= j < after.len() && !more.contains((#[trigger] after[j]).descendant.0 as int)
            implies row_sound(ns, after[j]) by {
            assert(after[j] == rows[src[j]]);
        }
        assert forall|m: int, d: nat|
            ns.in_range(m) && !more.contains(m) && d <= ns.depths[m] implies after.contains(
            #[trigger] row_for(ns, m, d),
        ) by {
            let row = row_for(ns, m, d);
            assert(rows.contains(row));
            let j = choose|j: int| 0 <= j < rows.len() && rows[j] == row;
            assert(ns.node_ok(m));
            assert(!marked_set(marked@).contains(m));
            assert(!marked@[rows[j].descendant.0 as int]);
        }
        assert forall|a: int, b: int| 0 <= a < after.len() && 0 <= b < after.len() && a != b
            implies after[a] != after[b] by {
            assert(after[a] == rows[src[a]]);
            assert(after[b] == rows[src[b]]);
            if a < b {
                assert(src[a] < src[b]);
            } else {
                assert(src[b] < src[a]);
            }
        }
    }
}

/// Writes the closure rows of a node that has none: one row for the node
/// itself, and one for each ancestor that its parent pointers lead to,
/// with the number of steps taken. The node is no longer pending
/// afterwards.
pub(crate) fn write_closures(db: &mut VfsDb, node_id: NodeId, Ghost(pending): Ghost<Set<int>>)
    requires
        old(db)@.ns.valid(),
        old(db)@.ns.has(node_id),
        closures_ok(old(db)@.ns, old(db).closure_rows(), pending),
        forall|j: int|
            0 <= j < old(db).closure_rows().len() ==> (
            #[trigger] old(db).closure_rows()[j]).descendant != node_id,
    ensures
        final(db)@ == old(db)@,
        closures_ok(final(db)@.ns, final(db).closure_rows(), pending.remove(node_id.0 as int)),
        forall|j: int|
            0 <= j < final(db).closure_rows().len() ==> (
            #[trigger] final(db).closure_rows()[j]).descendant == node_id || (j < old(
                db,
            ).closure_rows().len() && final(db).closure_rows()[j] == old(db).closure_rows()[j]),
{
    let ghost ns = db@.ns;
    let ghost base = db.closure_rows();
    let n: u64 = node_id.0;
    let total: usize = db.nodes.len();
    assert(ns.nodes.len() == total);
    proof {
        lemma_depth_bound(ns, n as int);
        assert(ns.node_ok(n as int));
    }
    let mut cur: u64 = n;
    let mut k: u64 = 0;
    db.closures.push(NodeClosure { ancestor: NodeId(cur), descendant: node_id, depth: 0 });
    assert(db@.ns.nodes[cur as int] == db.nodes@[cur as int]@);
    let mut parent = db.nodes[cur as usize].parent_id;
    while parent.is_some()
        invariant
            db@ == old(db)@,
            db@.ns == ns,
            ns.nodes.len() == total,
            ns.valid(),
            ns.in_range(n as int),
            node_id.0 == n,
            ns.depths[n as int] < ns.nodes.len(),
            k <= ns.depths[n as int],
            cur as int == ns.ancestor(n as int, k as nat),
            ns.in_range(cur as int),
            parent == ns.nodes[cur as int].parent,
            db.closure_rows().len() == base.len() + k + 1,
            forall|a: int| 0 <= a < base.len() ==> db.closure_rows()[a] == base[a],
            forall|a: int|
                base.len() <= a < db.closure_rows().len() ==> #[trigger] db.closure_rows()[a]
                    == row_for(ns, n as int, (a - base.len()) as nat),
        decreases ns.depths[n as int] - k,
    {
        let p = parent.unwrap();
        proof {
            lemma_ancestor_depth(ns, n as int, k as nat);
            assert(ns.node_ok(cur as int));
            assert(ns.ancestor(n as int, (k + 1) as nat) == ns.up(ns.ancestor(n as int, k as nat)));
        }
        cur = p.0;
        k = k + 1;
        db.closures.push(NodeClosure { ancestor: NodeId(cur), descendant: node_id, depth: k });
        assert(db@.ns.nodes[cur as int] == db.nodes@[cur as int]@);
        parent = db.nodes[cur as usize].parent_id;
    }
    proof {
        lemma_ancestor_depth(ns, n as int, k as nat);
        assert(ns.node_ok(cur as int));
        assert(k == ns.depths[n as int]);
        let after = db.closure_rows();
        let rest = pending.remove(n as int);
        assert forall|j: int| 0 <= j < after.len() implies (#[trigger] after[j]).descendant
            == node_id || (j < base.len() && after[j] == base[j]) by {
            if j >= base.len() {
                assert(after[j] == row_for(ns, n as int, (j - base.len()) as nat));
            }
        }
        assert forall|j: int|
            0 <= j < after.len() && !rest.contains((#[trigger] after[j]).descendant.0 as int)
            implies row_sound(ns, after[j]) by {
            if j < base.len() {
                assert(after[j] == base[j]);
            } else {
                assert(after[j] == row_for(ns, n as int, (j - base.len()) as nat));
                lemma_ancestor_depth(ns, n as int, (j - base.len()) as nat);
            }
        }
        assert forall|m: int, d: nat|
            ns.in_range(m) && !rest.contains(m) && d <= ns.depths[m] implies after.contains(
            #[trigger] row_for(ns, m, d),
        ) by {
            if m == n {
                assert(after[(base.len() + d) as int] == row_for(ns, m, d));
            } else {
                let row = row_for(ns, m, d);
                assert(base.contains(row));
                let a = choose|a: int| 0 <= a < base.len() && base[a] == row;
                assert(after[a] == row);
            }
        }
        assert forall|a: int, b: int| 0 <= a < after.len() && 0 <= b < after.len() && a != b
            implies after[a] != after[b] by {
            if a < base.len() {
                assert(after[a] == base[a]);
            } else {
                assert(after[a] == row_for(ns, n as int, (a - base.len()) as nat));
            }
            if b < base.len() {
                assert(after[b] == base[b]);
            } else {
                assert(after[b] == row_for(ns, n as int, (b - base.len()) as nat));
            }
        }
    }
}

/// The nodes that `list` names from position `from` on.
pub open spec fn listed_from(list: Seq<NodeId>, from: int) -> Set<int> {
    Set::new(|x: int| exists|j: int| from <= j < list.len() && (#[trigger] list[j]).0 as int == x)
}

/// Brings the closure rows of the listed nodes up to date: the rows that
/// have one of them as descendant are dropped, then for each of them one
/// row is written for the node itself and one for each ancestor that its
/// parent pointers lead to.
///
/// Beforehand the rows of the listed nodes may be stale; afterwards the
/// whole table is right.
pub(crate) fn update_vfs_closures(db: &mut VfsDb, nodes: &Vec<NodeId>)
    requires
        old(db)@.ns.valid(),
        nodes@.no_duplicates(),
        forall|j: int| 0 <= j < nodes@.len() ==> old(db)@.ns.has(#[trigger] nodes@[j]),
        forall|j: int|
            0 <= j < old(db).closure_rows().len() ==> old(db)@.ns.has(
                (#[trigger] old(db).closure_rows()[j]).descendant,
            ),
        closures_ok(old(db)@.ns, old(db).closure_rows(), listed_from(nodes@, 0)),
    ensures
        final(db)@ == old(db)@,
        closures_ok(final(db)@.ns, final(db).closure_rows(), Set::empty()),
{
    let total: usize = db.nodes.len();
    let ghost ns = db@.ns;
    assert(ns.nodes.len() == total);
    let mut marked: Vec<bool> = vec![false; total];
    let mut i: usize = 0;
    while i < nodes.len()
        invariant
            i <= nodes.len(),
            marked@.len() == total,
            ns.nodes.len() == total,
            forall|j: int| 0 <= j < nodes@.len() ==> ns.has(#[trigger] nodes@[j]),
            forall|x: int|
                0 <= x < total ==> (#[trigger] marked@[x] <==> exists|j: int|
                    0 <= j < i && (#[trigger] nodes@[j]).0 == x),
        decreases nodes.len() - i,
    {
        marked.set(nodes[i].0 as usize, true);
        i += 1;
    }
    let ghost listed = listed_from(nodes@, 0);
    drop_marked_closures(db, &marked, Ghost(listed));
    proof {
        let thinned = db.closure_rows();
        assert forall|x: int| listed.union(marked_set(marked@)).contains(x) implies listed.contains(
            x,
        ) by {
            if marked_set(marked@).contains(x) {
                let j = choose|j: int| 0 <= j < nodes@.len() && (#[trigger] nodes@[j]).0 == x;
                assert(nodes@[j].0 as int == x);
            }
        }
        lemma_closures_ok_more_pending(ns, thinned, listed.union(marked_set(marked@)), listed);
        assert forall|k: int, j: int|
            0 <= k < nodes@.len() && 0 <= j < thinned.len() implies (
        #[trigger] thinned[j]).descendant != #[trigger] nodes@[k] by {
            assert(marked@[nodes@[k].0 as int]);
        }
    }
    let mut i: usize = 0;
    while i < nodes.len()
        invariant
            i <= nodes.len(),
            db@ == old(db)@,
            db@.ns == ns,
            ns.valid(),
            nodes@.no_duplicates(),
            forall|j: int| 0 <= j < nodes@.len() ==> ns.has(#[trigger] nodes@[j]),
            closures_ok(ns, db.closure_rows(), listed_from(nodes@, i as int)),
            forall|k: int, j: int|
                i <= k < nodes@.len() && 0 <= j < db.closure_rows().len() ==> (
                #[trigger] db.closure_rows()[j]).descendant != #[trigger] nodes@[k],
        decreases nodes.len() - i,
    {
        let ghost pending = listed_from(nodes@, i as int);
        let ghost rows_before = db.closure_rows();
        write_closures(db, nodes[i], Ghost(pending));
        proof {
            assert forall|x: int| pending.remove(nodes@[i as int].0 as int).contains(x)
                implies listed_from(nodes@, i + 1).contains(x) by {
                let j = choose|j: int|
                    i <= j < nodes@.len() && (#[trigger] nodes@[j]).0 as int == x;
                assert(j != i);
            }
            lemma_closures_ok_more_pending(
                ns,
                db.closure_rows(),
                pending.remove(nodes@[i as int].0 as int),
                listed_from(nodes@, i + 1),
            );
            let rows_now = db.closure_rows();
            assert forall|k: int, j: int|
                i + 1 <= k < nodes@.len() && 0 <= j < rows_now.len() implies (
            #[trigger] rows_now[j]).descendant != #[trigger] nodes@[k] by {
                if rows_now[j].descendant == nodes@[k] {
                    assert(nodes@[k] != nodes@[i as int]);
                    assert(rows_now[j] == rows_before[j]);
                }
            }
        }
        i += 1;
    }
    proof {
        assert(listed_from(nodes@, nodes@.len() as int) =~= Set::empty());
    }
}

/// Whether two optional parents are the same.
pub fn same_parent(a: Option<NodeId>, b: Option<NodeId>) -> (r: bool)
    ensures
        r == (a == b),
{
    match (a, b) {
        (Some(x), Some(y)) => x.0 == y.0,
        (None, None) => true,
        _ => false,
    }
}

/// Looks up the child of `parent` called `name`: `NotFound` if there is
/// none. With no parent given, the root is what is looked for.
pub fn get_vfs_node(db: &VfsDb, name: &String, parent: Option<NodeId>) -> (r: Result<
    NodeId,
    VFSError,
>)
    ensures
        match db@.ns.find_child(parent, name@) {
            Some(i) => r == Ok::<NodeId, VFSError>(NodeId(i as u64)),
            None => r == Err::<NodeId, VFSError>(VFSError::NotFound),
        },
{
    let mut i: usize = 0;
    while i < db.nodes.len()
        invariant
            i <= db.nodes.len(),
            db@.ns.find_in(parent, name@, i as nat) is None,
        decreases db.nodes.len() - i,
    {
        let node = &db.nodes[i];
        let hit = same_parent(node.parent_id, parent) && node.node_name == *name;
        proof {
            assert(db@.ns.nodes[i as int] == db.nodes@[i as int]@);
            assert(hit == db@.ns.is_child(i as int, parent, name@));
        }
        if hit {
            proof {
                lemma_find_in_stable(db@.ns, parent, name@, (i + 1) as nat, db.nodes.len() as nat);
            }
            return Ok(NodeId(i as u64));
        }
        i += 1;
    }
    Err(VFSError::NotFound)
}

/// What a get-or-create of one node does to the namespace, and what it
/// answers.
///
/// Without a parent only the root can be meant: a name that is no root
/// name is refused, and the root is made if the namespace is empty. With a
/// parent, the parent must exist; its child of that name is answered if
/// there is one, and appended if not.
pub open spec fn create_outcome(
    ns: Namespace,
    name: Seq<char>,
    hide: bool,
    parent: Option<NodeId>,
    now: i64,
) -> (Namespace, Result<NodeId, VFSError>) {
    match parent {
        None => if !is_root_name(name) {
            (ns, Err(VFSError::InvalidPath))
        } else if ns.nodes.len() > 0 {
            (ns, Ok(NodeId(0)))
        } else {
            (Namespace::only_root(name, hide, now), Ok(NodeId(0)))
        },
        Some(p) => if !ns.has(p) {
            (ns, Err(VFSError::NotFound))
        } else {
            match ns.find_child(Some(p), name) {
                Some(i) => (ns, Ok(NodeId(i as u64))),
                None => (ns.with_child(p, name, hide, now), Ok(NodeId(ns.nodes.len() as u64))),
            }
        },
    }
}

/// Answers the child of `parent` called `args.name`, creating it first if
/// it is missing. See `create_outcome`.
pub fn create_vfs_node_internal(db: &mut VfsDb, args: VfsNodeCreateArgs, parent: Option<NodeId>) -> (r:
    Result<NodeId, VFSError>)
    requires
        old(db).wf(),
    ensures
        final(db).wf(),
        final(db)@ == old(db)@.with_ns(
            create_outcome(old(db)@.ns, args.name@, args.hide, parent, old(db)@.now).0,
        ),
        r == create_outcome(old(db)@.ns, args.name@, args.hide, parent, old(db)@.now).1,
{
    let total: usize = db.nodes.len();
    assert(db@.ns.nodes.len() == total);
    match parent {
        None => {
            if !is_root_segment(args.name.as_str()) {
                return Err(VFSError::InvalidPath);
            }
            if total > 0 {
                return Ok(NodeId(0));
            }
            let ghost name = args.name@;
            proof {
                if db.closure_rows().len() > 0 {
                    assert(row_sound(db@.ns, db.closure_rows()[0]));
                }
            }
            let node = VfsNode {
                id: NodeId(0),
                parent_id: None,
                node_name: args.name,
                vfs_file: None,
                created_at: db.clock,
                updated_at: None,
                hide: args.hide,
            };
            db.nodes.push(node);
            proof {
                db.depths@ = seq![0nat];
                lemma_only_root(name, args.hide, db.clock);
                assert(db@.ns.nodes =~= Namespace::only_root(name, args.hide, db.clock).nodes);
                assert(db.closure_rows() =~= Seq::empty());
            }
            let ghost grown = db@;
            write_closures(db, NodeId(0), Ghost(Set::empty().insert(0int)));
            proof {
                assert(Set::<int>::empty().insert(0int).remove(0int) =~= Set::empty());
                lemma_files_ok_kept(old(db)@, db@);
            }
            Ok(NodeId(0))
        },
        Some(p) => {
            if p.0 >= total as u64 {
                return Err(VFSError::NotFound);
            }
            match get_vfs_node(db, &args.name, parent) {
                Ok(found) => Ok(found),
                Err(_) => {
                    let ghost before = db@;
                    let ghost rows = db.closure_rows();
                    let ghost name = args.name@;
                    let fresh = NodeId(total as u64);
                    let node = VfsNode {
                        id: fresh,
                        parent_id: Some(p),
                        node_name: args.name,
                        vfs_file: None,
                        created_at: db.clock,
                        updated_at: None,
                        hide: args.hide,
                    };
                    db.nodes.push(node);
                    proof {
                        db.depths@ = before.ns.depths.push(before.ns.depths[p.0 as int] + 1);
                        lemma_with_child(
                            before.ns,
                            rows,
                            p,
                            name,
                            args.hide,
                            db.clock,
                        );
                        assert(db@.ns.nodes =~= before.ns.with_child(
                            p,
                            name,
                            args.hide,
                            db.clock,
                        ).nodes);
                    }
                    proof {
                        assert forall|j: int| 0 <= j < rows.len() implies (
                        #[trigger] rows[j]).descendant != fresh by {
                            assert(row_sound(before.ns, rows[j]));
                        }
                    }
                    write_closures(db, fresh, Ghost(Set::empty().insert(total as int)));
                    proof {
                        assert(Set::<int>::empty().insert(total as int).remove(total as int)
                            =~= Set::empty());
                        lemma_files_ok_kept(before, db@);
                    }
                    Ok(fresh)
                },
            }
        },
    }
}

} // verus!
