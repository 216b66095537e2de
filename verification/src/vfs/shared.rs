//! The types that callers of the namespace exchange with it.

use vstd::prelude::*;
use super::model::NodeId;

verus! {

/// Where an operation is aimed: a node by its identifier, or a path from
/// the root, segments separated by `/`.
#[derive(Debug, Clone)]
pub enum VfsTarget {
    Node(NodeId),
    Path(String),
}

impl From<NodeId> for VfsTarget {
    fn from(value: NodeId) -> (target: VfsTarget) {
        VfsTarget::Node(value)
    }
}

impl vstd::std_specs::convert::FromSpecImpl<NodeId> for VfsTarget {
    open spec fn obeys_from_spec() -> bool {
        true
    }

    open spec fn from_spec(value: NodeId) -> VfsTarget {
        VfsTarget::Node(value)
    }
}

impl From<String> for VfsTarget {
    fn from(value: String) -> (target: VfsTarget) {
        VfsTarget::Path(value)
    }
}

impl vstd::std_specs::convert::FromSpecImpl<String> for VfsTarget {
    open spec fn obeys_from_spec() -> bool {
        true
    }

    open spec fn from_spec(value: String) -> VfsTarget {
        VfsTarget::Path(value)
    }
}

/// What the tables refuse.
#[derive(Debug, Clone, Copy, PartialEq, Eq, Structural)]
pub enum StoreFault {
    /// A row with this key is there already.
    UniqueViolation,
    /// A row that this one points to is missing.
    ForeignKeyViolation,
}

/// Why a namespace operation failed.
#[derive(Debug, Clone, PartialEq, Eq)]
pub enum VFSError {
    /// There is no such node, file or path.
    NotFound,
    /// A path or a place that the namespace cannot take: a root of another
    /// name, or a move of a node into its own subtree.
    InvalidPath,
    /// The tables refused a row.
    Sql(StoreFault),
    /// A probe report lacks the named field.
    MediaMissingMetadata(String),
    /// A probe report lacks the stream that the file's kind needs.
    MediaStreamMissing,
}

/// What a listing tells about a node's media.
#[derive(Debug, Clone)]
pub struct VfsMediaData {
    pub thumbnail: Option<String>,
}

/// The coarse kind of a node, as listings show it.
#[derive(Debug, Clone, Copy, PartialEq, Eq, Structural)]
pub enum PubVfsNodeType {
    Folder,
    Video,
    Audio,
    Image,
    Text,
}

/// A node as listings show it. `path` holds the names from below the root
/// down to the node.
#[derive(Debug, Clone)]
pub struct PubVfsNode {
    pub id: NodeId,
    pub name: String,
    pub path: Vec<String>,
    pub node_type: PubVfsNodeType,
    pub thumbnail: Option<String>,
}

} // verus!
