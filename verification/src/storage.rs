//! Keys of the browser-side store: how a dotted path names a store and an
//! entry in it.

use vstd::prelude::*;
use vstd::string::*;

verus! {

/// The key of an entry.
#[derive(Debug, Clone, PartialEq, Eq)]
pub enum IDBKey {
    String(String),
    Int(u32),
}

impl From<u32> for IDBKey {
    fn from(value: u32) -> (key: IDBKey) {
        IDBKey::Int(value)
    }
}

impl vstd::std_specs::convert::FromSpecImpl<u32> for IDBKey {
    open spec fn obeys_from_spec() -> bool {
        true
    }

    open spec fn from_spec(value: u32) -> IDBKey {
        IDBKey::Int(value)
    }
}

impl From<String> for IDBKey {
    fn from(value: String) -> (key: IDBKey) {
        IDBKey::String(value)
    }
}

impl vstd::std_specs::convert::FromSpecImpl<String> for IDBKey {
    open spec fn obeys_from_spec() -> bool {
        true
    }

    open spec fn from_spec(value: String) -> IDBKey {
        IDBKey::String(value)
    }
}

/// A range of keys, each bound written as JSON text, with whether the
/// bound itself is left out.
#[derive(Debug)]
pub enum IDBQueryArgs {
    LowerBound(String, Option<bool>),
    UpperBound(String, Option<bool>),
    Bound((String, String), Option<(bool, bool)>),
}

/// The position of the first `.` of `s` at or after `from`, or the length
/// of `s` if there is none.
pub open spec fn next_dot(s: Seq<char>, from: int) -> int
    decreases s.len() - from,
{
    if from < 0 || from >= s.len() {
        s.len() as int
    } else if s[from] == '.' {
        from
    } else {
        next_dot(s, from + 1)
    }
}

/// Whether a path has the form `store.id`: one `.` that is not its last
/// character, or that form with one more `.` at the very end.
pub open spec fn is_store_and_id(path: Seq<char>) -> bool {
    let first = next_dot(path, 0);
    let second = next_dot(path, first + 1);
    first < path.len() && first + 1 < path.len() && (second == path.len() || second == path.len()
        - 1)
}

/// The store that a path names: what stands before the `.` of the form
/// `store.id`, and the whole path otherwise.
pub open spec fn store_of(path: Seq<char>) -> Seq<char> {
    if is_store_and_id(path) {
        path.subrange(0, next_dot(path, 0))
    } else {
        path
    }
}

/// The entry that a path names: what stands after the `.` of the form
/// `store.id` (without a `.` at the very end), and nothing otherwise.
pub open spec fn id_of(path: Seq<char>) -> Option<Seq<char>> {
    if is_store_and_id(path) {
        Some(path.subrange(next_dot(path, 0) + 1, next_dot(path, next_dot(path, 0) + 1)))
    } else {
        None
    }
}

/// Finds the first `.` at or after `from`.
fn find_dot(path: &str, from: usize) -> (at: usize)
    requires
        from <= path@.len(),
    ensures
        at == next_dot(path@, from as int),
        from <= at <= path@.len(),
{
    let n = path.unicode_len();
    let mut i: usize = from;
    while i < n
        invariant
            from <= i <= n,
            n == path@.len(),
            next_dot(path@, from as int) == next_dot(path@, i as int),
        decreases n - i,
    {
        if path.get_char(i) == '.' {
            return i;
        }
        i += 1;
    }
    i
}

/// Takes a dotted path apart into the store and the entry that it names.
/// See `store_of` and `id_of`.
pub fn get_storage_and_id_from_path(path: &str) -> (r: (String, Option<String>))
    ensures
        r.0@ == store_of(path@),
        match id_of(path@) {
            Some(id) => r.1 is Some && r.1->0@ == id,
            None => r.1 is None,
        },
{
    let n = path.unicode_len();
    let first = find_dot(path, 0);
    if first < n && first + 1 < n {
        let second = find_dot(path, first + 1);
        if second == n || second == n - 1 {
            let store = String::from_str(path.substring_char(0, first));
            let id = String::from_str(path.substring_char(first + 1, second));
            return (store, Some(id));
        }
    }
    (String::from_str(path), None)
}

} // verus!
