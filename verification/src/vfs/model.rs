//! The mathematical model of the namespace: nodes with parent pointers, the
//! depth of each node, and the ancestor relation that the closure table
//! records.

use vstd::prelude::*;

verus! {

/// Identifier of a namespace node.
#[derive(Clone, Copy, Debug, PartialEq, Eq, Hash, Structural)]
pub struct NodeId(pub u64);

/// Identifier of a file record. A separate type from `NodeId`, so that no
/// file identifier can stand where a node is meant.
#[derive(Clone, Copy, Debug, PartialEq, Eq, Hash, Structural)]
pub struct FileId(pub u64);

/// One row of the closure table: `ancestor` lies `depth` edges above
/// `descendant`. A node is its own ancestor at depth 0.
#[derive(Clone, Copy, Debug, PartialEq, Eq, Structural)]
pub struct NodeClosure {
    pub ancestor: NodeId,
    pub descendant: NodeId,
    pub depth: u64,
}

/// What a node is, as contracts see it.
pub struct NodeView {
    pub id: NodeId,
    pub parent: Option<NodeId>,
    pub name: Seq<char>,
    pub file: Option<FileId>,
    pub created_at: i64,
    pub updated_at: Option<i64>,
    pub hide: bool,
}

/// The node table together with each node's distance from the root.
pub struct Namespace {
    pub nodes: Seq<NodeView>,
    pub depths: Seq<nat>,
}

/// The node that a fresh folder entry is: no file, never updated.
pub open spec fn fresh_node(
    id: int,
    parent: Option<NodeId>,
    name: Seq<char>,
    hide: bool,
    now: i64,
) -> NodeView {
    NodeView {
        id: NodeId(id as u64),
        parent,
        name,
        file: None,
        created_at: now,
        updated_at: None,
        hide,
    }
}

impl Namespace {
    /// The namespace without any node.
    pub open spec fn empty() -> Namespace {
        Namespace { nodes: Seq::empty(), depths: Seq::empty() }
    }

    /// Whether `n` names a node of this namespace.
    pub open spec fn has(self, n: NodeId) -> bool {
        (n.0 as int) < self.nodes.len()
    }

    /// Whether `i` is the position of a node.
    pub open spec fn in_range(self, i: int) -> bool {
        0 <= i < self.nodes.len()
    }

    /// The parent's index, or the node's own for the root.
    pub open spec fn up(self, i: int) -> int {
        match self.nodes[i].parent {
            Some(p) => p.0 as int,
            None => i,
        }
    }

    /// The node `k` edges above `n` (the root's parent counts as the root).
    pub open spec fn ancestor(self, n: int, k: nat) -> int
        decreases k,
    {
        if k == 0 {
            n
        } else {
            self.up(self.ancestor(n, (k - 1) as nat))
        }
    }

    /// Node `i` agrees with its parent pointer: the root is node 0 at depth
    /// 0, every other node lies one below an existing parent.
    pub open spec fn node_ok(self, i: int) -> bool {
        &&& self.nodes[i].id == NodeId(i as u64)
        &&& i <= u64::MAX
        &&& match self.nodes[i].parent {
            None => i == 0 && self.depths[i] == 0,
            Some(p) => i != 0 && (p.0 as int) < self.nodes.len() && self.depths[i]
                == self.depths[p.0 as int] + 1,
        }
    }

    /// No two distinct nodes share both parent and name.
    pub open spec fn siblings_unique(self) -> bool {
        forall|i: int, j: int|
            #![trigger self.nodes[i], self.nodes[j]]
            0 <= i < self.nodes.len() && 0 <= j < self.nodes.len() && i != j ==> !(
            self.nodes[i].parent == self.nodes[j].parent && self.nodes[i].name
                == self.nodes[j].name)
    }

    /// The invariant of the node table.
    pub open spec fn valid(self) -> bool {
        &&& self.depths.len() == self.nodes.len()
        &&& forall|i: int| 0 <= i < self.nodes.len() ==> #[trigger] self.node_ok(i)
        &&& self.siblings_unique()
    }

    /// Whether `s` lies in the subtree rooted at `m` (`m` itself included).
    pub open spec fn in_subtree(self, s: int, m: int) -> bool {
        self.depths[s] >= self.depths[m] && self.ancestor(
            s,
            (self.depths[s] - self.depths[m]) as nat,
        ) == m
    }

    /// The names from just below the root down to `n`.
    pub open spec fn path_names(self, n: int) -> Seq<Seq<char>> {
        Seq::new(
            self.depths[n],
            |i: int| self.nodes[self.ancestor(n, (self.depths[n] - 1 - i) as nat)].name,
        )
    }

    /// Whether node `i` is the child of `parent` called `name`.
    pub open spec fn is_child(self, i: int, parent: Option<NodeId>, name: Seq<char>) -> bool {
        self.nodes[i].parent == parent && self.nodes[i].name == name
    }

    /// The first of the nodes before position `n` that is the child of
    /// `parent` called `name`.
    pub open spec fn find_in(self, parent: Option<NodeId>, name: Seq<char>, n: nat) -> Option<int>
        decreases n,
    {
        if n == 0 {
            None
        } else {
            match self.find_in(parent, name, (n - 1) as nat) {
                Some(i) => Some(i),
                None => if self.is_child(n - 1, parent, name) {
                    Some(n - 1)
                } else {
                    None
                },
            }
        }
    }

    /// The child of `parent` called `name`, if there is one.
    pub open spec fn find_child(self, parent: Option<NodeId>, name: Seq<char>) -> Option<int> {
        self.find_in(parent, name, self.nodes.len())
    }

    /// The node reached from `cur` by descending through the children
    /// named by `names`, one after the other; `None` as soon as a child is
    /// missing.
    pub open spec fn walk(self, cur: int, names: Seq<Seq<char>>) -> Option<int>
        decreases names.len(),
    {
        if names.len() == 0 {
            Some(cur)
        } else {
            match self.find_child(Some(NodeId(cur as u64)), names[0]) {
                Some(c) => self.walk(c, names.drop_first()),
                None => None,
            }
        }
    }

    /// The same descent, creating each child that is missing as a visible
    /// folder: the namespace that results, and the node reached.
    pub open spec fn grow(self, cur: int, names: Seq<Seq<char>>, now: i64) -> (Namespace, int)
        decreases names.len(),
    {
        if names.len() == 0 {
            (self, cur)
        } else {
            match self.find_child(Some(NodeId(cur as u64)), names[0]) {
                Some(c) => self.grow(c, names.drop_first(), now),
                None => self.with_child(NodeId(cur as u64), names[0], false, now).grow(
                    self.nodes.len() as int,
                    names.drop_first(),
                    now,
                ),
            }
        }
    }

    /// The namespace with its root in place: made, if there was no node
    /// yet, as a visible node called `root`.
    pub open spec fn with_root(self, now: i64) -> Namespace {
        if self.nodes.len() == 0 {
            Namespace::only_root("root"@, false, now)
        } else {
            self
        }
    }

    /// The nodes of the subtree rooted at `m`.
    pub open spec fn subtree(self, m: int) -> Set<int> {
        Set::new(|s: int| self.in_range(s) && self.in_subtree(s, m))
    }

    /// The namespace after node `m` was hung below `q` at time `now`: the
    /// parent pointer of `m` changes, and the whole subtree of `m` moves to
    /// the depth that its new place gives it.
    pub open spec fn moved(self, m: int, q: NodeId, now: i64) -> Namespace {
        Namespace {
            nodes: self.nodes.update(
                m,
                NodeView { parent: Some(q), updated_at: Some(now), ..self.nodes[m] },
            ),
            depths: Seq::new(
                self.nodes.len(),
                |i: int|
                    if self.in_subtree(i, m) {
                        (self.depths[i] - self.depths[m] + self.depths[q.0 as int] + 1) as nat
                    } else {
                        self.depths[i]
                    },
            ),
        }
    }

    /// The namespace in which node `n` holds the file `f`.
    pub open spec fn linked(self, n: int, f: FileId) -> Namespace {
        Namespace {
            nodes: self.nodes.update(n, NodeView { file: Some(f), ..self.nodes[n] }),
            depths: self.depths,
        }
    }

    /// The namespace with one more node, appended below `parent`.
    pub open spec fn with_child(self, parent: NodeId, name: Seq<char>, hide: bool, now: i64)
        -> Namespace {
        Namespace {
            nodes: self.nodes.push(
                fresh_node(self.nodes.len() as int, Some(parent), name, hide, now),
            ),
            depths: self.depths.push(self.depths[parent.0 as int] + 1),
        }
    }

    /// The namespace that holds nothing but a root of the given name.
    pub open spec fn only_root(name: Seq<char>, hide: bool, now: i64) -> Namespace {
        Namespace { nodes: seq![fresh_node(0, None, name, hide, now)], depths: seq![0nat] }
    }
}

/// The ancestor `k` above `n` exists and lies `k` levels higher.
pub proof fn lemma_ancestor_depth(ns: Namespace, n: int, k: nat)
    requires
        ns.valid(),
        ns.in_range(n),
        k <= ns.depths[n],
    ensures
        ns.in_range(ns.ancestor(n, k)),
        ns.depths[ns.ancestor(n, k)] == ns.depths[n] - k,
    decreases k,
{
    if k > 0 {
        lemma_ancestor_depth(ns, n, (k - 1) as nat);
        let a = ns.ancestor(n, (k - 1) as nat);
        assert(ns.node_ok(a));
    }
}

/// Climbing `k + 1` from a node is climbing `k` from its parent.
pub proof fn lemma_ancestor_via_parent(ns: Namespace, n: int, k: nat)
    ensures
        ns.ancestor(n, k + 1) == ns.ancestor(ns.up(n), k),
    decreases k,
{
    if k == 0 {
        assert(ns.ancestor(n, 1) == ns.up(ns.ancestor(n, 0)));
    } else {
        lemma_ancestor_via_parent(ns, n, (k - 1) as nat);
        assert(ns.ancestor(n, k + 1) == ns.up(ns.ancestor(n, k)));
        assert(ns.ancestor(ns.up(n), k) == ns.up(ns.ancestor(ns.up(n), (k - 1) as nat)));
    }
}

/// Climbing `j` and then `k` is climbing `j + k`.
pub proof fn lemma_ancestor_add(ns: Namespace, n: int, j: nat, k: nat)
    ensures
        ns.ancestor(ns.ancestor(n, j), k) == ns.ancestor(n, j + k),
    decreases k,
{
    if k > 0 {
        lemma_ancestor_add(ns, n, j, (k - 1) as nat);
        assert(ns.ancestor(n, j + k) == ns.up(ns.ancestor(n, (j + k - 1) as nat)));
    }
}

/// What `find_in` returns is the earliest match, and `None` means that
/// there is none.
pub proof fn lemma_find_in(ns: Namespace, parent: Option<NodeId>, name: Seq<char>, n: nat)
    ensures
        match ns.find_in(parent, name, n) {
            Some(i) => 0 <= i < n && ns.is_child(i, parent, name) && forall|j: int|
                0 <= j < i ==> !#[trigger] ns.is_child(j, parent, name),
            None => forall|j: int| 0 <= j < n ==> !#[trigger] ns.is_child(j, parent, name),
        },
    decreases n,
{
    if n > 0 {
        lemma_find_in(ns, parent, name, (n - 1) as nat);
    }
}

/// Appending a node leaves the search among the earlier nodes as it was.
pub proof fn lemma_find_in_push(
    ns: Namespace,
    more: Namespace,
    parent: Option<NodeId>,
    name: Seq<char>,
    n: nat,
)
    requires
        n <= ns.nodes.len() <= more.nodes.len(),
        forall|i: int| 0 <= i < ns.nodes.len() ==> more.nodes[i] == ns.nodes[i],
    ensures
        more.find_in(parent, name, n) == ns.find_in(parent, name, n),
    decreases n,
{
    if n > 0 {
        lemma_find_in_push(ns, more, parent, name, (n - 1) as nat);
    }
}

/// Every ancestor of a node is a node.
pub proof fn lemma_ancestor_in_range(ns: Namespace, n: int, k: nat)
    requires
        ns.valid(),
        ns.in_range(n),
    ensures
        ns.in_range(ns.ancestor(n, k)),
    decreases k,
{
    if k > 0 {
        lemma_ancestor_in_range(ns, n, (k - 1) as nat);
        assert(ns.node_ok(ns.ancestor(n, (k - 1) as nat)));
    }
}

/// A namespace that extends another without touching the parent pointers
/// of its nodes gives those nodes the same ancestors.
pub proof fn lemma_ancestor_same(ns: Namespace, more: Namespace, n: int, k: nat)
    requires
        ns.valid(),
        ns.in_range(n),
        ns.nodes.len() <= more.nodes.len(),
        forall|i: int|
            0 <= i < ns.nodes.len() ==> (#[trigger] more.nodes[i]).parent == ns.nodes[i].parent,
    ensures
        more.ancestor(n, k) == ns.ancestor(n, k),
    decreases k,
{
    if k > 0 {
        lemma_ancestor_same(ns, more, n, (k - 1) as nat);
        lemma_ancestor_in_range(ns, n, (k - 1) as nat);
    }
}

/// A new child under an existing parent, with a name that no sibling has,
/// keeps the namespace valid.
pub proof fn lemma_with_child_valid(
    ns: Namespace,
    parent: NodeId,
    name: Seq<char>,
    hide: bool,
    now: i64,
)
    requires
        ns.valid(),
        ns.has(parent),
        ns.find_child(Some(parent), name) is None,
        ns.nodes.len() <= u64::MAX,
    ensures
        ns.with_child(parent, name, hide, now).valid(),
{
    let more = ns.with_child(parent, name, hide, now);
    let fresh = ns.nodes.len() as int;
    lemma_find_in(ns, Some(parent), name, ns.nodes.len());
    assert forall|i: int| 0 <= i < more.nodes.len() implies #[trigger] more.node_ok(i) by {
        if i < fresh {
            assert(ns.node_ok(i));
        } else {
            assert(ns.node_ok(parent.0 as int));
        }
    }
    assert forall|i: int, j: int|
        #![trigger more.nodes[i], more.nodes[j]]
        0 <= i < more.nodes.len() && 0 <= j < more.nodes.len() && i != j implies !(
        more.nodes[i].parent == more.nodes[j].parent && more.nodes[i].name
            == more.nodes[j].name) by {
        if i < fresh && j < fresh {
            assert(ns.nodes[i] == more.nodes[i] && ns.nodes[j] == more.nodes[j]);
        } else if i < fresh {
            assert(!ns.is_child(i, Some(parent), name));
        } else {
            assert(!ns.is_child(j, Some(parent), name));
        }
    }
}

/// Such a new child also leaves every closure row of the old nodes right.
pub proof fn lemma_with_child(
    ns: Namespace,
    rows: Seq<NodeClosure>,
    parent: NodeId,
    name: Seq<char>,
    hide: bool,
    now: i64,
)
    requires
        ns.valid(),
        ns.has(parent),
        ns.find_child(Some(parent), name) is None,
        ns.nodes.len() <= u64::MAX,
        closures_ok(ns, rows, Set::empty()),
    ensures
        ns.with_child(parent, name, hide, now).valid(),
        closures_ok(
            ns.with_child(parent, name, hide, now),
            rows,
            Set::empty().insert(ns.nodes.len() as int),
        ),
{
    let more = ns.with_child(parent, name, hide, now);
    let fresh = ns.nodes.len() as int;
    lemma_with_child_valid(ns, parent, name, hide, now);
    let pending = Set::<int>::empty().insert(fresh);
    assert forall|j: int|
        0 <= j < rows.len() && !pending.contains((#[trigger] rows[j]).descendant.0 as int)
        implies row_sound(more, rows[j]) by {
        assert(row_sound(ns, rows[j]));
        lemma_ancestor_same(ns, more, rows[j].descendant.0 as int, rows[j].depth as nat);
    }
    assert forall|n: int, k: nat|
        more.in_range(n) && !pending.contains(n) && k <= more.depths[n] implies rows.contains(
        #[trigger] row_for(more, n, k),
    ) by {
        lemma_ancestor_same(ns, more, n, k);
        assert(rows.contains(row_for(ns, n, k)));
    }
}

/// A lone root is a valid namespace.
pub proof fn lemma_only_root(name: Seq<char>, hide: bool, now: i64)
    ensures
        Namespace::only_root(name, hide, now).valid(),
        closures_ok(
            Namespace::only_root(name, hide, now),
            Seq::empty(),
            Set::empty().insert(0int),
        ),
{
    let ns = Namespace::only_root(name, hide, now);
    assert(ns.node_ok(0));
}

/// Every node lies in the subtree of the root.
pub proof fn lemma_root_subtree(ns: Namespace, n: int)
    requires
        ns.valid(),
        ns.in_range(n),
    ensures
        ns.in_subtree(n, 0),
{
    lemma_ancestor_depth(ns, n, ns.depths[n]);
    assert(ns.node_ok(ns.ancestor(n, ns.depths[n])));
    assert(ns.node_ok(0));
}

/// A node other than `m` lies in the subtree of `m` exactly if its parent
/// does.
pub proof fn lemma_subtree_step(ns: Namespace, i: int, m: int)
    requires
        ns.valid(),
        ns.in_range(i),
        ns.in_range(m),
        i != m,
    ensures
        ns.nodes[i].parent is None ==> !ns.in_subtree(i, m),
        ns.nodes[i].parent is Some ==> (ns.in_subtree(i, m) <==> ns.in_subtree(ns.up(i), m)),
{
    assert(ns.node_ok(i));
    assert(ns.node_ok(m));
    match ns.nodes[i].parent {
        None => {},
        Some(p) => {
            let pi = p.0 as int;
            if ns.in_subtree(i, m) {
                let d = (ns.depths[i] - ns.depths[m]) as nat;
                assert(d != 0);
                lemma_ancestor_via_parent(ns, i, (d - 1) as nat);
            }
            if ns.in_subtree(pi, m) {
                let d = (ns.depths[pi] - ns.depths[m]) as nat;
                lemma_ancestor_via_parent(ns, i, d);
            }
        },
    }
}

/// A node outside the subtree of `m` keeps all its ancestors when `m` is
/// moved.
pub proof fn lemma_moved_outside(ns: Namespace, m: int, q: NodeId, now: i64, s: int, k: nat)
    requires
        ns.valid(),
        ns.in_range(m),
        ns.in_range(s),
        !ns.in_subtree(s, m),
        k <= ns.depths[s],
    ensures
        ns.moved(m, q, now).ancestor(s, k) == ns.ancestor(s, k),
    decreases k,
{
    if k > 0 {
        lemma_moved_outside(ns, m, q, now, s, (k - 1) as nat);
        lemma_ancestor_depth(ns, s, (k - 1) as nat);
        let a = ns.ancestor(s, (k - 1) as nat);
        assert(a != m);
    }
}

/// Moving a node below a node outside its own subtree, where no other
/// child has its name, keeps the namespace valid; the closure rows of
/// every node outside the moved subtree stay right. `pending` covers the
/// moved subtree.
pub proof fn lemma_moved(
    ns: Namespace,
    rows: Seq<NodeClosure>,
    pending: Set<int>,
    m: int,
    q: NodeId,
    now: i64,
)
    requires
        ns.valid(),
        ns.in_range(m),
        ns.has(q),
        !ns.in_subtree(q.0 as int, m),
        ns.find_child(Some(q), ns.nodes[m].name) is None || ns.find_child(
            Some(q),
            ns.nodes[m].name,
        ) == Some(m),
        closures_ok(ns, rows, pending),
        forall|s: int| ns.subtree(m).contains(s) ==> pending.contains(s),
    ensures
        ns.moved(m, q, now).valid(),
        closures_ok(ns.moved(m, q, now), rows, pending),
{
    let after = ns.moved(m, q, now);
    let name = ns.nodes[m].name;
    lemma_root_subtree(ns, q.0 as int);
    assert(m != 0);
    assert(ns.in_subtree(m, m));
    assert forall|i: int| 0 <= i < after.nodes.len() implies #[trigger] after.node_ok(i) by {
        assert(ns.node_ok(i));
        if i != m {
            lemma_subtree_step(ns, i, m);
        }
    }
    lemma_find_in(ns, Some(q), name, ns.nodes.len());
    assert forall|i: int, j: int|
        #![trigger after.nodes[i], after.nodes[j]]
        0 <= i < after.nodes.len() && 0 <= j < after.nodes.len() && i != j implies !(
        after.nodes[i].parent == after.nodes[j].parent && after.nodes[i].name
            == after.nodes[j].name) by {
        if i != m && j != m {
            assert(ns.nodes[i] == after.nodes[i] && ns.nodes[j] == after.nodes[j]);
        } else {
            let other = if i == m {
                j
            } else {
                i
            };
            assert(after.nodes[other] == ns.nodes[other]);
            if ns.is_child(other, Some(q), name) {
                assert(ns.is_child(m, Some(q), name));
                assert(ns.nodes[other].parent == ns.nodes[m].parent && ns.nodes[other].name
                    == ns.nodes[m].name);
            }
        }
    }
    assert forall|j: int|
        0 <= j < rows.len() && !pending.contains((#[trigger] rows[j]).descendant.0 as int)
        implies row_sound(after, rows[j]) by {
        assert(row_sound(ns, rows[j]));
        let d = rows[j].descendant.0 as int;
        assert(!ns.subtree(m).contains(d));
        lemma_moved_outside(ns, m, q, now, d, rows[j].depth as nat);
    }
    assert forall|n: int, k: nat|
        after.in_range(n) && !pending.contains(n) && k <= after.depths[n] implies rows.contains(
        #[trigger] row_for(after, n, k),
    ) by {
        assert(!ns.subtree(m).contains(n));
        lemma_moved_outside(ns, m, q, now, n, k);
        assert(rows.contains(row_for(ns, n, k)));
    }
}

/// A closure table holds a row from `m` down to `q` exactly if `q` lies in
/// the subtree of `m`.
pub proof fn lemma_row_means_subtree(ns: Namespace, rows: Seq<NodeClosure>, m: int, q: int)
    requires
        ns.valid(),
        ns.in_range(m),
        ns.in_range(q),
        ns.nodes.len() <= u64::MAX,
        closures_ok(ns, rows, Set::empty()),
    ensures
        ns.in_subtree(q, m) <==> exists|j: int|
            0 <= j < rows.len() && (#[trigger] rows[j]).ancestor == NodeId(m as u64)
                && rows[j].descendant == NodeId(q as u64),
{
    if ns.in_subtree(q, m) {
        let d = (ns.depths[q] - ns.depths[m]) as nat;
        let row = row_for(ns, q, d);
        assert(rows.contains(row));
        let j = choose|j: int| 0 <= j < rows.len() && rows[j] == row;
        assert(rows[j].ancestor == NodeId(m as u64) && rows[j].descendant == NodeId(q as u64));
    }
    if exists|j: int|
        0 <= j < rows.len() && (#[trigger] rows[j]).ancestor == NodeId(m as u64)
            && rows[j].descendant == NodeId(q as u64) {
        let j = choose|j: int|
            0 <= j < rows.len() && (#[trigger] rows[j]).ancestor == NodeId(m as u64)
                && rows[j].descendant == NodeId(q as u64);
        assert(row_sound(ns, rows[j]));
        lemma_ancestor_depth(ns, q, rows[j].depth as nat);
    }
}

/// Allowing more nodes to be stale keeps a closure table acceptable.
pub proof fn lemma_closures_ok_more_pending(
    ns: Namespace,
    rows: Seq<NodeClosure>,
    pending: Set<int>,
    more: Set<int>,
)
    requires
        closures_ok(ns, rows, pending),
        forall|x: int| pending.contains(x) ==> more.contains(x),
    ensures
        closures_ok(ns, rows, more),
{
}

/// Once the search has found a node among the first `n`, looking further
/// finds the same one.
pub proof fn lemma_find_in_stable(
    ns: Namespace,
    parent: Option<NodeId>,
    name: Seq<char>,
    n: nat,
    m: nat,
)
    requires
        n <= m,
        ns.find_in(parent, name, n) is Some,
    ensures
        ns.find_in(parent, name, m) == ns.find_in(parent, name, n),
    decreases m,
{
    if n < m {
        lemma_find_in_stable(ns, parent, name, n, (m - 1) as nat);
    }
}

/// Giving a node a file changes nothing of the tree: the namespace stays
/// valid and the closure table right.
pub proof fn lemma_linked(ns: Namespace, rows: Seq<NodeClosure>, n: int, f: FileId)
    requires
        ns.valid(),
        ns.in_range(n),
        closures_ok(ns, rows, Set::empty()),
    ensures
        ns.linked(n, f).valid(),
        closures_ok(ns.linked(n, f), rows, Set::empty()),
{
    let after = ns.linked(n, f);
    assert forall|i: int| 0 <= i < after.nodes.len() implies #[trigger] after.node_ok(i) by {
        assert(ns.node_ok(i));
    }
    assert forall|i: int, j: int|
        #![trigger after.nodes[i], after.nodes[j]]
        0 <= i < after.nodes.len() && 0 <= j < after.nodes.len() && i != j implies !(
        after.nodes[i].parent == after.nodes[j].parent && after.nodes[i].name
            == after.nodes[j].name) by {
        assert(ns.nodes[i].parent == after.nodes[i].parent && ns.nodes[i].name
            == after.nodes[i].name);
        assert(ns.nodes[j].parent == after.nodes[j].parent && ns.nodes[j].name
            == after.nodes[j].name);
    }
    assert forall|j: int| 0 <= j < rows.len() implies row_sound(after, #[trigger] rows[j]) by {
        assert(row_sound(ns, rows[j]));
        lemma_ancestor_same(ns, after, rows[j].descendant.0 as int, rows[j].depth as nat);
    }
    assert forall|m: int, k: nat|
        after.in_range(m) && k <= after.depths[m] implies rows.contains(
        #[trigger] row_for(after, m, k),
    ) by {
        lemma_ancestor_same(ns, after, m, k);
        assert(rows.contains(row_for(ns, m, k)));
    }
}

/// Whether some position of `ds` holds the value `d`.
pub open spec fn holds_value(ds: Seq<nat>, d: nat) -> bool {
    exists|i: int| 0 <= i < ds.len() && #[trigger] ds[i] == d
}

/// A sequence that holds every value up to `top` has more than `top` items.
pub proof fn lemma_values_need_room(ds: Seq<nat>, top: nat)
    requires
        forall|d: nat| d <= top ==> #[trigger] holds_value(ds, d),
    ensures
        ds.len() > top,
    decreases top,
{
    assert(holds_value(ds, top));
    let at = choose|i: int| 0 <= i < ds.len() && #[trigger] ds[i] == top;
    if top > 0 {
        let rest = ds.remove(at);
        assert forall|d: nat| d <= top - 1 implies #[trigger] holds_value(rest, d) by {
            assert(holds_value(ds, d));
            let i = choose|i: int| 0 <= i < ds.len() && #[trigger] ds[i] == d;
            if i < at {
                assert(rest[i] == d);
            } else {
                assert(rest[i - 1] == d);
            }
        }
        lemma_values_need_room(rest, (top - 1) as nat);
    }
}

/// No node lies as deep as there are nodes.
pub proof fn lemma_depth_bound(ns: Namespace, n: int)
    requires
        ns.valid(),
        ns.in_range(n),
    ensures
        ns.depths[n] < ns.nodes.len(),
{
    let top = ns.depths[n];
    assert forall|d: nat| d <= top implies #[trigger] holds_value(ns.depths, d) by {
        lemma_ancestor_depth(ns, n, (top - d) as nat);
        let a = ns.ancestor(n, (top - d) as nat);
        assert(ns.depths[a] == d);
    }
    lemma_values_need_room(ns.depths, top);
}

/// The closure row that records the ancestor `k` above `n`.
pub open spec fn row_for(ns: Namespace, n: int, k: nat) -> NodeClosure {
    NodeClosure {
        ancestor: NodeId(ns.ancestor(n, k) as u64),
        descendant: NodeId(n as u64),
        depth: k as u64,
    }
}

/// A row that tells the truth: its ancestor lies `depth` above its
/// descendant.
pub open spec fn row_sound(ns: Namespace, r: NodeClosure) -> bool {
    &&& ns.has(r.descendant)
    &&& r.depth <= ns.depths[r.descendant.0 as int]
    &&& r == row_for(ns, r.descendant.0 as int, r.depth as nat)
}

/// The closure table is right for every node outside `pending`: each of
/// its rows is sound, every (node, ancestor) pair has its row, and no row
/// occurs twice. Rows of pending nodes may be stale.
pub open spec fn closures_ok(ns: Namespace, rows: Seq<NodeClosure>, pending: Set<int>) -> bool {
    &&& forall|j: int|
        0 <= j < rows.len() && !pending.contains((#[trigger] rows[j]).descendant.0 as int)
            ==> row_sound(ns, rows[j])
    &&& forall|n: int, k: nat|
        ns.in_range(n) && !pending.contains(n) && k <= ns.depths[n] ==> rows.contains(
            #[trigger] row_for(ns, n, k),
        )
    &&& rows.no_duplicates()
}

} // verus!
