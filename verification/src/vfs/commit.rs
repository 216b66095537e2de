//! Committing a file: its record, its node and the link between them are
//! written together or not at all. Thumbnail links live here too.

use vstd::prelude::*;
use super::files::{classify, details_of, DetailsView, FileDataView, FileView, VfsFile, VfsFileData};
use super::model::{lemma_linked, FileId, Namespace, NodeId};
use super::namespace::{ensure_outcome, ensure_vfs_path, ensure_vfs_root};
use super::shared::{StoreFault, VFSError, VfsTarget};
use super::store::{
    create_outcome, create_vfs_node_internal, lemma_files_ok_linked, lemma_files_ok_push_file,
    lemma_files_ok_push_thumb, DbView, VfsDb, VfsNode, VfsNodeCreateArgs, VfsThumb,
};

verus! {

/// The record that a file is stored as.
pub open spec fn file_row(id: int, data: FileDataView, details: DetailsView) -> FileView {
    FileView { id: FileId(id as u64), path: data.path, size: data.size, details }
}

/// What writing the record of a file does and answers.
///
/// The details are worked out first (see `details_of`); where the file has
/// no stream to take them from, `MediaStreamMissing` is answered and
/// nothing is written. Otherwise the record is appended under the next
/// file identifier.
pub open spec fn file_outcome(s: DbView, data: FileDataView) -> (DbView, Result<FileId, VFSError>) {
    match details_of(data.file_type) {
        Ok(d) => (
            DbView { files: s.files.push(file_row(s.files.len() as int, data, d)), ..s },
            Ok(FileId(s.files.len() as u64)),
        ),
        Err(e) => (s, Err(e)),
    }
}

/// Writes the record of a file and answers its identifier. See
/// `file_outcome`.
pub fn create_vfs_file(db: &mut VfsDb, file_data: VfsFileData) -> (r: Result<FileId, VFSError>)
    requires
        old(db).wf(),
    ensures
        final(db).wf(),
        final(db)@ == file_outcome(old(db)@, file_data@).0,
        r == file_outcome(old(db)@, file_data@).1,
{
    let details = match classify(&file_data.file_type) {
        Ok(details) => details,
        Err(e) => {
            return Err(e);
        },
    };
    let total: usize = db.files.len();
    let ghost before = db@;
    assert(before.files.len() == total);
    let id = FileId(total as u64);
    db.files.push(
        VfsFile {
            id,
            file_path: file_data.file.path,
            file_size: file_data.file.file_size,
            details,
        },
    );
    proof {
        let row = file_row(total as int, file_data@, details@);
        assert(db@.files =~= before.files.push(row));
        lemma_files_ok_push_file(before, db@, row);
    }
    Ok(id)
}

/// What making a node hold a file does and answers: `NotFound` without
/// the node, a foreign-key fault without the file; otherwise nothing but
/// the node's file changes.
pub open spec fn link_outcome(s: DbView, file_id: FileId, node_id: NodeId) -> (
    DbView,
    Result<(), VFSError>,
) {
    if !s.ns.has(node_id) {
        (s, Err(VFSError::NotFound))
    } else if file_id.0 >= s.files.len() {
        (s, Err(VFSError::Sql(StoreFault::ForeignKeyViolation)))
    } else {
        (s.with_ns(s.ns.linked(node_id.0 as int, file_id)), Ok(()))
    }
}

/// Makes a node hold a file. See `link_outcome`.
pub fn set_vfs_file_to_node(db: &mut VfsDb, file_id: FileId, node_id: NodeId) -> (r: Result<
    (),
    VFSError,
>)
    requires
        old(db).wf(),
    ensures
        final(db).wf(),
        final(db)@ == link_outcome(old(db)@, file_id, node_id).0,
        r == link_outcome(old(db)@, file_id, node_id).1,
{
    let nodes: usize = db.nodes.len();
    let files: usize = db.files.len();
    let ghost before = db@;
    let ghost rows = db.closure_rows();
    assert(before.ns.nodes.len() == nodes);
    assert(before.files.len() == files);
    if node_id.0 >= nodes as u64 {
        return Err(VFSError::NotFound);
    }
    if file_id.0 >= files as u64 {
        return Err(VFSError::Sql(StoreFault::ForeignKeyViolation));
    }
    let at: usize = node_id.0 as usize;
    assert(before.ns.nodes[at as int] == db.nodes@[at as int]@);
    let linked = VfsNode {
        id: db.nodes[at].id,
        parent_id: db.nodes[at].parent_id,
        node_name: db.nodes[at].node_name.clone(),
        vfs_file: Some(file_id),
        created_at: db.nodes[at].created_at,
        updated_at: db.nodes[at].updated_at,
        hide: db.nodes[at].hide,
    };
    db.nodes.set(at, linked);
    proof {
        lemma_linked(before.ns, rows, at as int, file_id);
        assert(db@.ns.nodes =~= before.ns.linked(at as int, file_id).nodes);
        lemma_files_ok_linked(before, db@, at as int, file_id);
    }
    Ok(())
}

/// Where a committed file's node goes: below the given node, below the
/// node that the given path leads to once it is ensured, or below the
/// root. The namespace is the one in which that place exists.
pub open spec fn commit_place(ns: Namespace, target: Option<VfsTarget>, now: i64) -> (
    Namespace,
    NodeId,
) {
    match target {
        Some(VfsTarget::Node(n)) => (ns, n),
        Some(VfsTarget::Path(p)) => ensure_outcome(ns.with_root(now), p@, now),
        None => (ns.with_root(now), NodeId(0)),
    }
}

/// What a commit does and answers.
///
/// A file without the stream that its kind needs is refused with
/// `MediaStreamMissing`, a target node that does not exist with
/// `NotFound`; the tables then stay as they were. Otherwise the place is
/// ensured, the node is the child of the place that bears the file's name
/// (created if it is missing), the record is appended under the next file
/// identifier, and the node holds the new file.
pub open spec fn commit_outcome(s: DbView, data: FileDataView, target: Option<VfsTarget>) -> (
    DbView,
    Result<(FileId, NodeId), VFSError>,
) {
    match details_of(data.file_type) {
        Err(e) => (s, Err(e)),
        Ok(d) => {
            let place = commit_place(s.ns, target, s.now);
            if !place.0.has(place.1) {
                (s, Err(VFSError::NotFound))
            } else {
                let made = create_outcome(place.0, data.name, data.hide, Some(place.1), s.now);
                let node = made.1->Ok_0;
                let file = FileId(s.files.len() as u64);
                (
                    DbView {
                        ns: made.0.linked(node.0 as int, file),
                        files: s.files.push(file_row(s.files.len() as int, data, d)),
                        ..s
                    },
                    Ok((file, node)),
                )
            }
        },
    }
}

/// Commits a file: finds or creates its node below the target, writes its
/// record, and makes the node hold the file. Answers the identifiers of
/// both.
///
/// A commit happens whole or not at all: whenever an error is answered the
/// tables are exactly as they were. See `commit_outcome`.
pub fn commit_file_to_vfs(data: VfsFileData, db: &mut VfsDb, vfs_target: Option<VfsTarget>) -> (r:
    Result<(FileId, NodeId), VFSError>)
    requires
        old(db).wf(),
    ensures
        final(db).wf(),
        final(db)@ == commit_outcome(old(db)@, data@, vfs_target).0,
        r == commit_outcome(old(db)@, data@, vfs_target).1,
        r is Err ==> final(db)@ == old(db)@,
{
    let ghost before = db@;
    let details = match classify(&data.file_type) {
        Ok(details) => details,
        Err(e) => {
            return Err(e);
        },
    };
    let nodes: usize = db.nodes.len();
    assert(before.ns.nodes.len() == nodes);
    let parent = match vfs_target {
        Some(VfsTarget::Node(node)) => {
            if node.0 >= nodes as u64 {
                return Err(VFSError::NotFound);
            }
            node
        },
        Some(VfsTarget::Path(vfs_path)) => {
            match ensure_vfs_path(db, vfs_path.as_str()) {
                Ok(found) => found,
                Err(e) => {
                    assert(false);
                    return Err(e);
                },
            }
        },
        None => {
            match ensure_vfs_root(db) {
                Ok(found) => found,
                Err(e) => {
                    assert(false);
                    return Err(e);
                },
            }
        },
    };
    let ghost placed = db@.ns;
    let made = create_vfs_node_internal(
        db,
        VfsNodeCreateArgs { name: data.name, hide: data.hide },
        Some(parent),
    );
    proof {
        super::model::lemma_find_in(placed, Some(parent), data.name@, placed.nodes.len());
    }
    let node_id = match made {
        Ok(node_id) => node_id,
        Err(e) => {
            assert(false);
            return Err(e);
        },
    };
    let files: usize = db.files.len();
    assert(before.files.len() == files);
    let file_id = FileId(files as u64);
    let ghost mid = db@;
    db.files.push(
        VfsFile {
            id: file_id,
            file_path: data.file.path,
            file_size: data.file.file_size,
            details,
        },
    );
    proof {
        let row = file_row(files as int, data@, details@);
        assert(db@.files =~= before.files.push(row));
        lemma_files_ok_push_file(mid, db@, row);
    }
    let linked = set_vfs_file_to_node(db, file_id, node_id);
    assert(linked is Ok);
    Ok((file_id, node_id))
}

/// What linking a thumbnail does and answers: a foreign-key fault unless
/// both files exist, a uniqueness fault if the file has a thumbnail
/// already; otherwise one link is added.
pub open spec fn thumbnail_outcome(s: DbView, file_id: FileId, image_id: FileId) -> (
    DbView,
    Result<(), VFSError>,
) {
    if file_id.0 >= s.files.len() || image_id.0 >= s.files.len() {
        (s, Err(VFSError::Sql(StoreFault::ForeignKeyViolation)))
    } else if exists|i: int| 0 <= i < s.thumbs.len() && (#[trigger] s.thumbs[i]).id == file_id {
        (s, Err(VFSError::Sql(StoreFault::UniqueViolation)))
    } else {
        (
            DbView { thumbs: s.thumbs.push(VfsThumb { id: file_id, thumbnail: image_id }), ..s },
            Ok(()),
        )
    }
}

/// Makes the image `image_id` the thumbnail of the file `file_id`. See
/// `thumbnail_outcome`.
pub fn set_thumbnail(db: &mut VfsDb, file_id: FileId, image_id: FileId) -> (r: Result<(), VFSError>)
    requires
        old(db).wf(),
    ensures
        final(db).wf(),
        final(db)@ == thumbnail_outcome(old(db)@, file_id, image_id).0,
        r == thumbnail_outcome(old(db)@, file_id, image_id).1,
{
    let files: usize = db.files.len();
    assert(db@.files.len() == files);
    if file_id.0 >= files as u64 || image_id.0 >= files as u64 {
        return Err(VFSError::Sql(StoreFault::ForeignKeyViolation));
    }
    let ghost before = db@;
    let mut i: usize = 0;
    while i < db.thumbs.len()
        invariant
            i <= db.thumbs.len(),
            db@ == before,
            before == old(db)@,
            db.wf(),
            before.files.len() == files,
            file_id.0 < files,
            image_id.0 < files,
            forall|j: int| 0 <= j < i ==> (#[trigger] db.thumbs@[j]).id != file_id,
        decreases db.thumbs.len() - i,
    {
        if db.thumbs[i].id.0 == file_id.0 {
            assert(before.thumbs[i as int].id == file_id);
            return Err(VFSError::Sql(StoreFault::UniqueViolation));
        }
        i += 1;
    }
    let link = VfsThumb { id: file_id, thumbnail: image_id };
    db.thumbs.push(link);
    proof {
        lemma_files_ok_push_thumb(before, db@, link);
    }
    Ok(())
}

/// The thumbnail link of a file, if it has one.
pub open spec fn thumb_of(thumbs: Seq<VfsThumb>, file_id: FileId) -> Option<VfsThumb>
    decreases thumbs.len(),
{
    if thumbs.len() == 0 {
        None
    } else if thumbs.last().id == file_id {
        Some(thumbs.last())
    } else {
        thumb_of(thumbs.drop_last(), file_id)
    }
}

/// The thumbnail of the file that a node holds: the identifier of that
/// file, and the path of the image linked to it. `None` where the node
/// does not exist, holds no file, or its file has no thumbnail.
pub open spec fn thumbnail_of(s: DbView, node_id: NodeId) -> Option<
    (FileId, Seq<char>),
> {
    if !s.ns.has(node_id) {
        None
    } else {
        match s.ns.nodes[node_id.0 as int].file {
            None => None,
            Some(f) => match thumb_of(s.thumbs, f) {
                None => None,
                Some(link) => Some((link.id, s.files[link.thumbnail.0 as int].path)),
            },
        }
    }
}

/// Looks up the thumbnail of a node's file. See `thumbnail_of`.
pub fn get_thumbnail(db: &VfsDb, id: NodeId) -> (r: Result<Option<(FileId, String)>, VFSError>)
    requires
        db.wf(),
    ensures
        r is Ok,
        match thumbnail_of(db@, id) {
            Some(found) => r->Ok_0 is Some && ({
                let got = r->Ok_0->Some_0;
                got.0 == found.0 && got.1@ == found.1
            }),
            None => r->Ok_0 is None,
        },
{
    let nodes: usize = db.nodes.len();
    assert(db@.ns.nodes.len() == nodes);
    if id.0 >= nodes as u64 {
        return Ok(None);
    }
    let at: usize = id.0 as usize;
    assert(db@.ns.nodes[at as int] == db.nodes@[at as int]@);
    let file_id = match db.nodes[at].vfs_file {
        Some(file_id) => file_id,
        None => {
            return Ok(None);
        },
    };
    let files: usize = db.files.len();
    assert(db@.files.len() == files);
    let mut i: usize = db.thumbs.len();
    assert(db.thumbs@.subrange(0, i as int) =~= db.thumbs@);
    while i > 0
        invariant
            i <= db.thumbs.len(),
            db.wf(),
            db@.ns.has(id),
            db@.ns.nodes[id.0 as int].file == Some(file_id),
            db@.files.len() == files,
            thumb_of(db.thumbs@, file_id) == thumb_of(db.thumbs@.subrange(0, i as int), file_id),
        decreases i,
    {
        let ghost head = db.thumbs@.subrange(0, i as int);
        assert(head.last() == db.thumbs@[i - 1]);
        assert(head.drop_last() =~= db.thumbs@.subrange(0, i - 1));
        let link = db.thumbs[i - 1];
        if link.id.0 == file_id.0 {
            assert(db@.thumbs[i - 1] == link);
            let image: usize = link.thumbnail.0 as usize;
            assert(db@.files[image as int] == db.files@[image as int]@);
            return Ok(Some((link.id, db.files[image].file_path.clone())));
        }
        i -= 1;
    }
    assert(db.thumbs@.subrange(0, 0) =~= Seq::empty());
    Ok(None)
}

} // verus!
