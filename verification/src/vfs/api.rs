//! What the namespace offers to the layer above it: listing the children
//! of a node, and creating a node by name.

use vstd::prelude::*;
use vstd::string::*;
use super::commit::{get_thumbnail, thumbnail_of};
use super::files::{DetailsView, FileDetails, VfsFile};
use super::model::{lemma_find_in, FileId, Namespace, NodeId};
use super::namespace::{get_vfs_path_to, resolve_outcome, traverse_vfs_path};
use super::shared::{PubVfsNode, PubVfsNodeType, VFSError, VfsTarget};
use super::store::{
    create_outcome, create_vfs_node_internal, DbView, VfsDb, VfsNode, VfsNodeCreateArgs,
};
use crate::text::{names_of, slash_joined};

verus! {

/// How a listing is filtered.
#[derive(Debug, Clone, Copy)]
pub struct VfsGetNodeArgs {
    pub show_hidden: bool,
}

/// What a listed node is, as contracts see it.
pub struct PubNodeView {
    pub id: NodeId,
    pub name: Seq<char>,
    pub path: Seq<Seq<char>>,
    pub node_type: PubVfsNodeType,
    pub thumbnail: Option<Seq<char>>,
}

impl View for PubVfsNode {
    type V = PubNodeView;

    open spec fn view(&self) -> PubNodeView {
        PubNodeView {
            id: self.id,
            name: self.name@,
            path: names_of(self.path@),
            node_type: self.node_type,
            thumbnail: match self.thumbnail {
                Some(t) => Some(t@),
                None => None,
            },
        }
    }
}

/// The picture that stands for a node of the given kind where it has no
/// thumbnail.
pub open spec fn default_icon(t: PubVfsNodeType) -> Seq<char> {
    match t {
        PubVfsNodeType::Folder => "/icons/folder.png"@,
        PubVfsNodeType::Video => "/icons/video-file.png"@,
        PubVfsNodeType::Audio => "/icons/music-file.png"@,
        PubVfsNodeType::Image => "/icons/image.png"@,
        PubVfsNodeType::Text => "/icons/document.png"@,
    }
}

impl PubVfsNode {
    /// The picture to show for this node: its thumbnail, or the picture of
    /// its kind.
    pub fn thumb_src(&self) -> (src: String)
        ensures
            src@ == match self@.thumbnail {
                Some(t) => t,
                None => default_icon(self.node_type),
            },
    {
        match &self.thumbnail {
            Some(t) => t.clone(),
            None => match self.node_type {
                PubVfsNodeType::Folder => String::from_str("/icons/folder.png"),
                PubVfsNodeType::Video => String::from_str("/icons/video-file.png"),
                PubVfsNodeType::Audio => String::from_str("/icons/music-file.png"),
                PubVfsNodeType::Image => String::from_str("/icons/image.png"),
                PubVfsNodeType::Text => String::from_str("/icons/document.png"),
            },
        }
    }

    /// The address of this node's page: `/vfs/root`, then the names of its
    /// path, each after a `/`.
    pub fn href(&self) -> (link: String)
        ensures
            link@ == "/vfs/root"@ + slash_joined(self@.path, self@.path.len()),
    {
        let mut link = String::from_str("/vfs/root");
        let mut i: usize = 0;
        assert(link@ + slash_joined(self@.path, 0) =~= link@);
        while i < self.path.len()
            invariant
                i <= self.path.len(),
                link@ == "/vfs/root"@ + slash_joined(self@.path, i as nat),
            decreases self.path.len() - i,
        {
            proof {
                reveal_strlit("/");
            }
            let ghost before = link@;
            link.append("/");
            link.append(self.path[i].as_str());
            assert(link@ =~= before + seq!['/'] + self@.path[i as int]);
            i += 1;
        }
        link
    }
}

/// The coarse kind of a node: a folder if it holds no file, else the kind
/// of its file.
pub open spec fn node_type_of(s: DbView, n: int) -> PubVfsNodeType {
    match s.ns.nodes[n].file {
        None => PubVfsNodeType::Folder,
        Some(f) => match s.files[f.0 as int].details {
            DetailsView::Video(_) => PubVfsNodeType::Video,
            DetailsView::Audio(_) => PubVfsNodeType::Audio,
            DetailsView::Image(_) => PubVfsNodeType::Image,
            DetailsView::Text => PubVfsNodeType::Text,
        },
    }
}

/// How node `n` is listed: its identifier and name, its path from below
/// the root, its kind, and the path of its thumbnail if its file has one.
pub open spec fn pub_node_of(s: DbView, n: int) -> PubNodeView {
    PubNodeView {
        id: NodeId(n as u64),
        name: s.ns.nodes[n].name,
        path: s.ns.path_names(n),
        node_type: node_type_of(s, n),
        thumbnail: match thumbnail_of(s, NodeId(n as u64)) {
            Some(found) => Some(found.1),
            None => None,
        },
    }
}

/// A copy of the row of a node. `NotFound` if there is no such node.
pub fn get_vfs_node_data(db: &VfsDb, id: NodeId) -> (r: Result<VfsNode, VFSError>)
    requires
        db.wf(),
    ensures
        !db@.ns.has(id) ==> r == Err::<VfsNode, VFSError>(VFSError::NotFound),
        db@.ns.has(id) ==> r is Ok && r->Ok_0@ == db@.ns.nodes[id.0 as int],
{
    let total: usize = db.nodes.len();
    assert(db@.ns.nodes.len() == total);
    if id.0 >= total as u64 {
        return Err(VFSError::NotFound);
    }
    let at: usize = id.0 as usize;
    assert(db@.ns.nodes[at as int] == db.nodes@[at as int]@);
    Ok(
        VfsNode {
            id: db.nodes[at].id,
            parent_id: db.nodes[at].parent_id,
            node_name: db.nodes[at].node_name.clone(),
            vfs_file: db.nodes[at].vfs_file,
            created_at: db.nodes[at].created_at,
            updated_at: db.nodes[at].updated_at,
            hide: db.nodes[at].hide,
        },
    )
}

/// A copy of the record of a file. `NotFound` if there is no such file.
pub fn get_vfs_file_data(db: &VfsDb, id: FileId) -> (r: Result<VfsFile, VFSError>)
    requires
        db.wf(),
    ensures
        id.0 >= db@.files.len() ==> r == Err::<VfsFile, VFSError>(VFSError::NotFound),
        id.0 < db@.files.len() ==> r is Ok && r->Ok_0@ == db@.files[id.0 as int],
{
    let total: usize = db.files.len();
    assert(db@.files.len() == total);
    if id.0 >= total as u64 {
        return Err(VFSError::NotFound);
    }
    let at: usize = id.0 as usize;
    assert(db@.files[at as int] == db.files@[at as int]@);
    Ok(
        VfsFile {
            id: db.files[at].id,
            file_path: db.files[at].file_path.clone(),
            file_size: db.files[at].file_size,
            details: db.files[at].details.copy(),
        },
    )
}

/// A node as listings show it. `NotFound` if there is no such node. See
/// `pub_node_of`.
pub fn get_pub_vfs_node(db: &VfsDb, id: NodeId) -> (r: Result<PubVfsNode, VFSError>)
    requires
        db.wf(),
    ensures
        !db@.ns.has(id) ==> r == Err::<PubVfsNode, VFSError>(VFSError::NotFound),
        db@.ns.has(id) ==> r is Ok && r->Ok_0@ == pub_node_of(db@, id.0 as int),
{
    let total: usize = db.nodes.len();
    assert(db@.ns.nodes.len() == total);
    if id.0 >= total as u64 {
        return Err(VFSError::NotFound);
    }
    let at: usize = id.0 as usize;
    assert(db@.ns.nodes[at as int] == db.nodes@[at as int]@);
    assert(db@.ns.node_ok(at as int));
    let path = match get_vfs_path_to(db, id) {
        Ok(path) => path,
        Err(e) => {
            return Err(e);
        },
    };
    let node_type = match db.nodes[at].vfs_file {
        None => PubVfsNodeType::Folder,
        Some(f) => {
            assert(db@.files.len() == db.files.len());
            assert(db@.files[f.0 as int] == db.files@[f.0 as int]@);
            match &db.files[f.0 as usize].details {
                FileDetails::Video(_) => PubVfsNodeType::Video,
                FileDetails::Audio(_) => PubVfsNodeType::Audio,
                FileDetails::Image(_) => PubVfsNodeType::Image,
                FileDetails::Text => PubVfsNodeType::Text,
            }
        },
    };
    let thumbnail = match get_thumbnail(db, id) {
        Ok(Some(found)) => Some(found.1),
        Ok(None) => None,
        Err(e) => {
            return Err(e);
        },
    };
    Ok(
        PubVfsNode {
            id: db.nodes[at].id,
            name: db.nodes[at].node_name.clone(),
            path,
            node_type,
            thumbnail,
        },
    )
}

/// Whether node `i` is a child of `parent` that a listing shows.
pub open spec fn is_listed(ns: Namespace, i: int, parent: NodeId, show_hidden: bool) -> bool {
    ns.nodes[i].parent == Some(parent) && (!ns.nodes[i].hide || show_hidden)
}

/// The children of `parent` among the first `n` nodes that a listing
/// shows, in the order of their creation.
pub open spec fn listed_children(ns: Namespace, parent: NodeId, show_hidden: bool, n: nat) -> Seq<
    int,
>
    decreases n,
{
    if n == 0 {
        Seq::empty()
    } else {
        let before = listed_children(ns, parent, show_hidden, (n - 1) as nat);
        if is_listed(ns, n - 1, parent, show_hidden) {
            before.push(n - 1)
        } else {
            before
        }
    }
}

/// Whether a listing shows hidden nodes: only if asked to.
pub open spec fn shows_hidden(args: Option<VfsGetNodeArgs>) -> bool {
    match args {
        Some(a) => a.show_hidden,
        None => false,
    }
}

/// The namespace in which a target is read, and the node that it names:
/// a node must exist, a path must resolve (the root is put in place for
/// it).
pub open spec fn target_lookup(ns: Namespace, at: VfsTarget, now: i64) -> (
    Namespace,
    Result<NodeId, VFSError>,
) {
    match at {
        VfsTarget::Node(id) => if ns.has(id) {
            (ns, Ok(id))
        } else {
            (ns, Err(VFSError::NotFound))
        },
        VfsTarget::Path(path) => (ns.with_root(now), resolve_outcome(ns.with_root(now), path@)),
    }
}

/// Finds the node that a target names. See `target_lookup`.
pub fn lookup_target(db: &mut VfsDb, at: VfsTarget) -> (r: Result<NodeId, VFSError>)
    requires
        old(db).wf(),
    ensures
        final(db).wf(),
        final(db)@ == old(db)@.with_ns(target_lookup(old(db)@.ns, at, old(db)@.now).0),
        r == target_lookup(old(db)@.ns, at, old(db)@.now).1,
        r is Ok ==> final(db)@.ns.has(r->Ok_0),
{
    match at {
        VfsTarget::Node(id) => {
            let total: usize = db.nodes.len();
            assert(db@.ns.nodes.len() == total);
            if id.0 >= total as u64 {
                Err(VFSError::NotFound)
            } else {
                Ok(id)
            }
        },
        VfsTarget::Path(path) => traverse_vfs_path(db, path.as_str()),
    }
}

/// Lists the children of a target, oldest first; hidden ones only if
/// `args` asks for them.
///
/// An error is answered if the target names no node. Otherwise the answer
/// holds one entry for each listed child (see `listed_children`), each as
/// `pub_node_of` describes it.
pub fn get_vfs_nodes(db: &mut VfsDb, at: VfsTarget, args: Option<VfsGetNodeArgs>) -> (r: Result<
    Vec<PubVfsNode>,
    VFSError,
>)
    requires
        old(db).wf(),
    ensures
        final(db).wf(),
        final(db)@ == old(db)@.with_ns(target_lookup(old(db)@.ns, at, old(db)@.now).0),
        match target_lookup(old(db)@.ns, at, old(db)@.now).1 {
            Err(e) => r == Err::<Vec<PubVfsNode>, VFSError>(e),
            Ok(parent) => r is Ok && ({
                let listed = listed_children(
                    final(db)@.ns,
                    parent,
                    shows_hidden(args),
                    final(db)@.ns.nodes.len(),
                );
                &&& r->Ok_0@.len() == listed.len()
                &&& forall|i: int|
                    0 <= i < listed.len() ==> (#[trigger] r->Ok_0@[i])@ == pub_node_of(
                        final(db)@,
                        listed[i],
                    )
            }),
        },
{
    let parent = match lookup_target(db, at) {
        Ok(parent) => parent,
        Err(e) => {
            return Err(e);
        },
    };
    let show_hidden = match args {
        Some(a) => a.show_hidden,
        None => false,
    };
    let ghost s = db@;
    let mut out: Vec<PubVfsNode> = Vec::new();
    let mut i: usize = 0;
    while i < db.nodes.len()
        invariant
            i <= db.nodes.len(),
            db.wf(),
            db@ == s,
            s.ns.nodes.len() == db.nodes.len(),
            show_hidden == shows_hidden(args),
            out@.len() == listed_children(s.ns, parent, show_hidden, i as nat).len(),
            forall|j: int|
                0 <= j < out@.len() ==> (#[trigger] out@[j])@ == pub_node_of(
                    s,
                    listed_children(s.ns, parent, show_hidden, i as nat)[j],
                ),
        decreases db.nodes.len() - i,
    {
        assert(s.ns.nodes[i as int] == db.nodes@[i as int]@);
        let is_child = match db.nodes[i].parent_id {
            Some(p) => p.0 == parent.0,
            None => false,
        };
        if is_child && (!db.nodes[i].hide || show_hidden) {
            let entry = get_pub_vfs_node(db, NodeId(i as u64));
            match entry {
                Ok(node) => {
                    out.push(node);
                },
                Err(e) => {
                    assert(false);
                    return Err(e);
                },
            }
        }
        i += 1;
    }
    Ok(out)
}

/// Creates the node called `name` below a target, unless it is there
/// already, and answers it as listings show it.
///
/// An error is answered if the target names no node. The node is a
/// visible folder when it is created.
pub fn create_vfs_node(db: &mut VfsDb, at: VfsTarget, name: String) -> (r: Result<
    PubVfsNode,
    VFSError,
>)
    requires
        old(db).wf(),
    ensures
        final(db).wf(),
        final(db)@ == old(db)@.with_ns(final(db)@.ns),
        match target_lookup(old(db)@.ns, at, old(db)@.now).1 {
            Err(e) => r == Err::<PubVfsNode, VFSError>(e) && final(db)@.ns == target_lookup(
                old(db)@.ns,
                at,
                old(db)@.now,
            ).0,
            Ok(parent) => ({
                let made = create_outcome(
                    target_lookup(old(db)@.ns, at, old(db)@.now).0,
                    name@,
                    false,
                    Some(parent),
                    old(db)@.now,
                );
                &&& final(db)@.ns == made.0
                &&& made.1 is Ok
                &&& r is Ok
                &&& r->Ok_0@ == pub_node_of(final(db)@, made.1->Ok_0.0 as int)
            }),
        },
{
    let parent = match lookup_target(db, at) {
        Ok(parent) => parent,
        Err(e) => {
            return Err(e);
        },
    };
    let ghost placed = db@.ns;
    proof {
        lemma_find_in(placed, Some(parent), name@, placed.nodes.len());
    }
    let total: usize = db.nodes.len();
    assert(placed.nodes.len() == total);
    let made = create_vfs_node_internal(db, VfsNodeCreateArgs { name, hide: false }, Some(parent));
    match made {
        Ok(id) => get_pub_vfs_node(db, id),
        Err(e) => {
            assert(false);
            Err(e)
        },
    }
}

} // verus!
