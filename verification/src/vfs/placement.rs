//! Where a stored file lies: a bucketed path derived from the text of a
//! fresh identifier, so that no directory grows without bound.

use vstd::prelude::*;
use vstd::string::*;
use crate::ids::{hyphenated, random_uuid, uuid_text};

verus! {

/// How many directory levels a bucket path has.
pub const HIERARCHIAL_PATH_PARTS_COUNT: usize = 2;

/// The directory, below the site folder, that holds the stored files.
pub fn get_vfs_dir() -> (dir: String)
    ensures
        dir@ == "vfsfiles"@,
{
    String::from_str("vfsfiles")
}

/// The first `levels` directories of a bucket path, each closed by `/`:
/// level by level, the next two characters of the identifier.
pub open spec fn bucket_dirs(id: Seq<char>, levels: nat) -> Seq<char>
    decreases levels,
{
    if levels == 0 {
        Seq::empty()
    } else {
        bucket_dirs(id, (levels - 1) as nat) + id.subrange(2 * (levels - 1), 2 * levels as int) + seq!['/']
    }
}

/// The bucket path of an identifier: two directory levels of two
/// characters each, then the whole identifier. `ab/cd/abcdef` for `abcdef`.
pub open spec fn bucket_path(id: Seq<char>) -> Seq<char> {
    bucket_dirs(id, HIERARCHIAL_PATH_PARTS_COUNT as nat) + id
}

/// The bucket path with a file extension: `.` and the extension are
/// appended, unless the extension is empty.
pub open spec fn bucket_file(id: Seq<char>, extension: Seq<char>) -> Seq<char> {
    if extension.len() == 0 {
        bucket_path(id)
    } else {
        bucket_path(id) + seq!['.'] + extension
    }
}

/// Derives the bucket path of an identifier. The identifier must have a
/// character for every directory level to take.
pub fn get_hierarchial_hash_path(uuid: &str) -> (path: String)
    requires
        uuid@.len() >= 2 * HIERARCHIAL_PATH_PARTS_COUNT,
    ensures
        path@ == bucket_path(uuid@),
{
    let mut path = String::new();
    let mut level: usize = 0;
    while level < HIERARCHIAL_PATH_PARTS_COUNT
        invariant
            level <= HIERARCHIAL_PATH_PARTS_COUNT,
            uuid@.len() >= 2 * HIERARCHIAL_PATH_PARTS_COUNT,
            path@ == bucket_dirs(uuid@, level as nat),
        decreases HIERARCHIAL_PATH_PARTS_COUNT - level,
    {
        proof {
            reveal_strlit("/");
        }
        let ghost before = path@;
        path.append(uuid.substring_char(2 * level, 2 * level + 2));
        path.append("/");
        assert(path@ =~= before + uuid@.subrange(2 * level, 2 * (level + 1)) + seq!['/']);
        level += 1;
    }
    path.append(uuid);
    path
}

/// Derives the bucket path of an identifier and gives it the extension of
/// the file that goes there.
pub fn bucket_file_path(uuid: &str, extension: &str) -> (path: String)
    requires
        uuid@.len() >= 2 * HIERARCHIAL_PATH_PARTS_COUNT,
    ensures
        path@ == bucket_file(uuid@, extension@),
{
    let mut path = get_hierarchial_hash_path(uuid);
    if extension.unicode_len() > 0 {
        proof {
            reveal_strlit(".");
        }
        let ghost before = path@;
        path.append(".");
        path.append(extension);
        assert(path@ =~= before + seq!['.'] + extension@);
    }
    path
}

/// Where a file is to lie: the text of its storage identifier, and the
/// bucket path derived from it.
#[derive(Debug, Clone)]
pub struct Placement {
    pub id: String,
    pub path: String,
}

/// The placement that belongs to the storage identifier `id`: the same
/// identifier always gives the same path.
pub fn placement_for(id: u128, extension: &str) -> (p: Placement)
    ensures
        p.id@ == hyphenated(id),
        p.path@ == bucket_file(hyphenated(id), extension@),
{
    let text = uuid_text(id);
    let path = bucket_file_path(text.as_str(), extension);
    Placement { id: text, path }
}

/// A placement under a freshly drawn storage identifier.
pub fn fresh_placement(extension: &str) -> (p: Placement)
    ensures
        exists|id: u128|
            p.id@ == #[trigger] hyphenated(id) && p.path@ == bucket_file(hyphenated(id), extension@),
{
    let id = random_uuid();
    placement_for(id, extension)
}

} // verus!
