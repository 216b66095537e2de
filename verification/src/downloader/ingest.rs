//! Committing what a download brought: the media file under the reported
//! title, and its thumbnail as a hidden node beside it.

use vstd::prelude::*;
use vstd::string::*;
use crate::media::FFProbeMediaOutput;
use crate::vfs::commit::{commit_file_to_vfs, commit_outcome, set_thumbnail, thumbnail_outcome};
use crate::vfs::files::{FileDataView, FileRef, VFSFileType, VfsFileData};
use crate::vfs::model::FileId;
use crate::vfs::shared::{VFSError, VfsTarget};
use crate::vfs::store::{DbView, VfsDb};

verus! {

/// A file together with what the probe reported of it.
#[derive(Debug, Clone)]
pub struct ProbedFile {
    pub file: FileRef,
    pub probe: FFProbeMediaOutput,
}

/// The name given to media whose title is not known.
pub open spec fn unknown_title() -> Seq<char> {
    "UNKNOWN TITLE??"@
}

/// What is appended to the media's name to name its thumbnail.
pub open spec fn thumbnail_suffix() -> Seq<char> {
    " Thumbnail"@
}

/// The name under which downloaded media is committed.
pub open spec fn media_name(title: Option<String>) -> Seq<char> {
    match title {
        Some(t) => t@,
        None => unknown_title(),
    }
}

/// The media file of a download, as it is committed: visible, as
/// multimedia, under the media's name.
pub open spec fn media_data(title: Option<String>, media: ProbedFile) -> FileDataView {
    FileDataView {
        name: media_name(title),
        path: media.file.path@,
        size: media.file.file_size,
        file_type: VFSFileType::Multimedia(media.probe),
        hide: false,
    }
}

/// The thumbnail of a download, as it is committed: hidden, as an image,
/// under the media's name followed by the thumbnail suffix.
pub open spec fn thumbnail_data(title: Option<String>, thumbnail: ProbedFile) -> FileDataView {
    FileDataView {
        name: media_name(title) + thumbnail_suffix(),
        path: thumbnail.file.path@,
        size: thumbnail.file.file_size,
        file_type: VFSFileType::Image(thumbnail.probe),
        hide: true,
    }
}

/// What taking in a download does and answers.
///
/// The media file is committed first; if that fails, nothing has changed.
/// With a thumbnail, the thumbnail is committed to the same target and
/// linked to the media file; if either step fails, the error is answered
/// and what the earlier steps wrote stays. On success the identifier of
/// the media file is answered.
pub open spec fn download_outcome(
    s: DbView,
    title: Option<String>,
    media: ProbedFile,
    thumbnail: Option<ProbedFile>,
    target: Option<VfsTarget>,
) -> (DbView, Result<FileId, VFSError>) {
    let first = commit_outcome(s, media_data(title, media), target);
    match first.1 {
        Err(e) => (first.0, Err(e)),
        Ok(ids) => match thumbnail {
            None => (first.0, Ok(ids.0)),
            Some(t) => {
                let second = commit_outcome(first.0, thumbnail_data(title, t), target);
                match second.1 {
                    Err(e) => (second.0, Err(e)),
                    Ok(thumb_ids) => {
                        let linked = thumbnail_outcome(second.0, ids.0, thumb_ids.0);
                        match linked.1 {
                            Err(e) => (linked.0, Err(e)),
                            Ok(_) => (linked.0, Ok(ids.0)),
                        }
                    },
                }
            },
        },
    }
}

/// A copy of an optional target.
pub fn copy_target(target: &Option<VfsTarget>) -> (r: Option<VfsTarget>)
    ensures
        r == *target,
{
    match target {
        None => None,
        Some(VfsTarget::Node(id)) => Some(VfsTarget::Node(*id)),
        Some(VfsTarget::Path(path)) => Some(VfsTarget::Path(path.clone())),
    }
}

/// Takes in a download: commits its media file, and its thumbnail if it
/// has one, and links the two. See `download_outcome`.
pub fn download_media(
    db: &mut VfsDb,
    title: Option<String>,
    media: ProbedFile,
    thumbnail: Option<ProbedFile>,
    vfs_target: Option<VfsTarget>,
) -> (r: Result<FileId, VFSError>)
    requires
        old(db).wf(),
    ensures
        final(db).wf(),
        final(db)@ == download_outcome(old(db)@, title, media, thumbnail, vfs_target).0,
        r == download_outcome(old(db)@, title, media, thumbnail, vfs_target).1,
{
    let name = match &title {
        Some(t) => t.clone(),
        None => String::from_str("UNKNOWN TITLE??"),
    };
    let file_data = VfsFileData {
        name: name.clone(),
        file: media.file,
        file_type: VFSFileType::Multimedia(media.probe),
        hide: false,
    };
    assert(file_data@ == media_data(title, media));
    let media_file_id = match commit_file_to_vfs(file_data, db, copy_target(&vfs_target)) {
        Ok(ids) => ids.0,
        Err(e) => {
            return Err(e);
        },
    };
    match thumbnail {
        None => Ok(media_file_id),
        Some(thumb_file) => {
            let file_data = VfsFileData {
                name: name.concat(" Thumbnail"),
                file: thumb_file.file,
                file_type: VFSFileType::Image(thumb_file.probe),
                hide: true,
            };
            assert(file_data@ == thumbnail_data(title, thumb_file));
            let thumb_id = match commit_file_to_vfs(file_data, db, vfs_target) {
                Ok(ids) => ids.0,
                Err(e) => {
                    return Err(e);
                },
            };
            match set_thumbnail(db, media_file_id, thumb_id) {
                Ok(_) => Ok(media_file_id),
                Err(e) => Err(e),
            }
        },
    }
}

} // verus!
