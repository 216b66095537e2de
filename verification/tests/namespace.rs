use thrw::vfs::model::{NodeClosure, NodeId};
use thrw::vfs::namespace::{
    ensure_vfs_path, ensure_vfs_root, get_ancestors, get_descendants, get_vfs_path_to, init_vfs,
    is_descendant, move_vfs_file, move_vfs_node, traverse_vfs_path,
};
use thrw::vfs::shared::{StoreFault, VFSError, VfsTarget};
use thrw::vfs::store::{create_vfs_node_internal, get_vfs_node, VfsDb, VfsNodeCreateArgs};
use thrw::vfs::api::get_vfs_node_data;

fn row(ancestor: u64, descendant: u64, depth: u64) -> NodeClosure {
    NodeClosure { ancestor: NodeId(ancestor), descendant: NodeId(descendant), depth }
}

fn names(parts: &[&str]) -> Vec<String> {
    parts.iter().map(|p| p.to_string()).collect()
}

#[test]
fn ensure_then_resolve_yields_same_node() {
    let mut db = VfsDb::new(0);
    for path in ["a/b/c", "root/x", "a/b", "", "/lead//double/", "with%20space/and more", "ROOT/up"] {
        let made = ensure_vfs_path(&mut db, path).unwrap();
        let found = traverse_vfs_path(&mut db, path).unwrap();
        assert_eq!(made, found, "path {path:?}");
    }
}

#[test]
fn ensure_abc_on_empty_namespace() {
    let mut db = VfsDb::new(0);
    assert_eq!(db.node_count(), 0);
    let c = ensure_vfs_path(&mut db, "a/b/c").unwrap();
    assert_eq!(db.node_count(), 4);
    let root = traverse_vfs_path(&mut db, "").unwrap();
    let a = traverse_vfs_path(&mut db, "a").unwrap();
    let b = traverse_vfs_path(&mut db, "a/b").unwrap();
    assert_eq!((root, a, b, c), (NodeId(0), NodeId(1), NodeId(2), NodeId(3)));
    assert_eq!(get_ancestors(&db, root).unwrap(), vec![row(0, 0, 0)]);
    assert_eq!(get_ancestors(&db, a).unwrap(), vec![row(1, 1, 0), row(0, 1, 1)]);
    assert_eq!(get_ancestors(&db, b).unwrap(), vec![row(2, 2, 0), row(1, 2, 1), row(0, 2, 2)]);
    assert_eq!(
        get_ancestors(&db, c).unwrap(),
        vec![row(3, 3, 0), row(2, 3, 1), row(1, 3, 2), row(0, 3, 3)]
    );
    // exactly these rows and no others
    assert_eq!(db.closure_count(), 1 + 2 + 3 + 4);
}

#[test]
fn every_node_has_one_self_entry_and_one_entry_per_ancestor() {
    let mut db = VfsDb::new(0);
    ensure_vfs_path(&mut db, "a/b/c").unwrap();
    ensure_vfs_path(&mut db, "a/d").unwrap();
    ensure_vfs_path(&mut db, "e").unwrap();
    let mut total = 0;
    for n in 0..db.node_count() as u64 {
        let rows = get_ancestors(&db, NodeId(n)).unwrap();
        let depth = get_vfs_path_to(&db, NodeId(n)).unwrap().len();
        assert_eq!(rows.len(), depth + 1);
        assert_eq!(rows[0], row(n, n, 0));
        let mut cur = NodeId(n);
        for (k, r) in rows.iter().enumerate() {
            assert_eq!(r.descendant, NodeId(n));
            assert_eq!(r.depth, k as u64);
            assert_eq!(r.ancestor, cur);
            if let Some(p) = get_vfs_node_data(&db, cur).unwrap().parent_id {
                cur = p;
            }
        }
        total += rows.len();
    }
    assert_eq!(db.closure_count(), total);
}

#[test]
fn path_of_ensured_node_is_the_normalised_path() {
    let mut db = VfsDb::new(0);
    let n = ensure_vfs_path(&mut db, "a/b/c").unwrap();
    assert_eq!(get_vfs_path_to(&db, n).unwrap(), names(&["a", "b", "c"]));
    let n = ensure_vfs_path(&mut db, "Root/my%20music/al%20bum%20").unwrap();
    assert_eq!(get_vfs_path_to(&db, n).unwrap(), names(&["my music", "al bum "]));
    let n = ensure_vfs_path(&mut db, "x/root/y").unwrap();
    assert_eq!(get_vfs_path_to(&db, n).unwrap(), names(&["x", "root", "y"]));
    let n = ensure_vfs_path(&mut db, "root").unwrap();
    assert_eq!(n, NodeId(0));
    assert_eq!(get_vfs_path_to(&db, n).unwrap(), Vec::<String>::new());
}

#[test]
fn only_the_single_escaped_space_is_decoded() {
    let mut db = VfsDb::new(0);
    let n = ensure_vfs_path(&mut db, "a%2Fb%20c%2520").unwrap();
    assert_eq!(get_vfs_path_to(&db, n).unwrap(), names(&["a%2Fb c%2520"]));
}

#[test]
fn ensuring_twice_creates_no_duplicate_sibling() {
    let mut db = VfsDb::new(0);
    let first = ensure_vfs_path(&mut db, "a/b/c").unwrap();
    let nodes = db.node_count();
    let rows = db.closure_count();
    db.set_time(99);
    let second = ensure_vfs_path(&mut db, "a/b/c").unwrap();
    assert_eq!(first, second);
    assert_eq!(db.node_count(), nodes);
    assert_eq!(db.closure_count(), rows);
    // no two nodes share parent and name
    for i in 0..nodes as u64 {
        for j in 0..i {
            let x = get_vfs_node_data(&db, NodeId(i)).unwrap();
            let y = get_vfs_node_data(&db, NodeId(j)).unwrap();
            assert!(!(x.parent_id == y.parent_id && x.node_name == y.node_name));
        }
    }
}

#[test]
fn resolve_fails_on_first_missing_segment() {
    let mut db = VfsDb::new(0);
    ensure_vfs_path(&mut db, "a/b").unwrap();
    assert_eq!(traverse_vfs_path(&mut db, "a/x/b"), Err(VFSError::NotFound));
    assert_eq!(traverse_vfs_path(&mut db, "a/b/c"), Err(VFSError::NotFound));
    assert_eq!(traverse_vfs_path(&mut db, "b"), Err(VFSError::NotFound));
    assert_eq!(traverse_vfs_path(&mut db, "a/b"), Ok(NodeId(2)));
    assert_eq!(db.node_count(), 3);
}

#[test]
fn resolve_ignores_a_leading_root_in_any_case() {
    let mut db = VfsDb::new(0);
    let b = ensure_vfs_path(&mut db, "a/b").unwrap();
    assert_eq!(traverse_vfs_path(&mut db, "root/a/b"), Ok(b));
    assert_eq!(traverse_vfs_path(&mut db, "RoOt/a/b"), Ok(b));
    assert_eq!(traverse_vfs_path(&mut db, "a/root/b"), Err(VFSError::NotFound));
    assert_eq!(traverse_vfs_path(&mut db, "root"), Ok(NodeId(0)));
}

#[test]
fn root_is_created_lazily_and_once() {
    let mut db = VfsDb::new(7);
    assert_eq!(db.node_count(), 0);
    assert_eq!(traverse_vfs_path(&mut db, ""), Ok(NodeId(0)));
    assert_eq!(db.node_count(), 1);
    assert_eq!(ensure_vfs_root(&mut db), Ok(NodeId(0)));
    assert_eq!(ensure_vfs_root(&mut db), Ok(NodeId(0)));
    assert_eq!(init_vfs(&mut db), Ok(()));
    assert_eq!(db.node_count(), 1);
    let root = get_vfs_node_data(&db, NodeId(0)).unwrap();
    assert_eq!(root.node_name, "root");
    assert_eq!(root.parent_id, None);
    assert_eq!(root.created_at, 7);
    assert!(!root.hide);
}

#[test]
fn create_node_is_get_or_create() {
    let mut db = VfsDb::new(1);
    let root = ensure_vfs_root(&mut db).unwrap();
    let args = |name: &str, hide: bool| VfsNodeCreateArgs { name: name.to_string(), hide };
    let a = create_vfs_node_internal(&mut db, args("a", true), Some(root)).unwrap();
    assert_eq!(a, NodeId(1));
    db.set_time(2);
    let again = create_vfs_node_internal(&mut db, args("a", false), Some(root)).unwrap();
    assert_eq!(again, a);
    assert_eq!(db.node_count(), 2);
    let row = get_vfs_node_data(&db, a).unwrap();
    assert!(row.hide);
    assert_eq!(row.created_at, 1);
    assert_eq!(row.updated_at, None);
    assert_eq!(row.vfs_file, None);
    assert_eq!(get_vfs_node(&db, &"a".to_string(), Some(root)), Ok(a));
    assert_eq!(get_vfs_node(&db, &"b".to_string(), Some(root)), Err(VFSError::NotFound));
}

#[test]
fn create_node_refuses_a_second_root_and_a_missing_parent() {
    let mut db = VfsDb::new(0);
    let args = |name: &str| VfsNodeCreateArgs { name: name.to_string(), hide: false };
    assert_eq!(create_vfs_node_internal(&mut db, args("other"), None), Err(VFSError::InvalidPath));
    assert_eq!(db.node_count(), 0);
    assert_eq!(create_vfs_node_internal(&mut db, args("a"), Some(NodeId(0))), Err(VFSError::NotFound));
    assert_eq!(create_vfs_node_internal(&mut db, args("Root"), None), Ok(NodeId(0)));
    assert_eq!(create_vfs_node_internal(&mut db, args("root"), None), Ok(NodeId(0)));
    assert_eq!(db.node_count(), 1);
    assert_eq!(create_vfs_node_internal(&mut db, args("a"), Some(NodeId(5))), Err(VFSError::NotFound));
}

#[test]
fn moving_an_interior_node_updates_its_descendants_too() {
    let mut db = VfsDb::new(0);
    let c = ensure_vfs_path(&mut db, "a/b/c").unwrap();
    let a = NodeId(1);
    let b = NodeId(2);
    let z = ensure_vfs_path(&mut db, "z").unwrap();
    assert_eq!(z, NodeId(4));
    db.set_time(50);
    assert_eq!(move_vfs_file(&mut db, b, VfsTarget::Node(z)), Ok(()));
    assert_eq!(get_ancestors(&db, b).unwrap(), vec![row(2, 2, 0), row(4, 2, 1), row(0, 2, 2)]);
    assert_eq!(
        get_ancestors(&db, c).unwrap(),
        vec![row(3, 3, 0), row(2, 3, 1), row(4, 3, 2), row(0, 3, 3)]
    );
    assert_eq!(get_ancestors(&db, a).unwrap(), vec![row(1, 1, 0), row(0, 1, 1)]);
    assert_eq!(get_ancestors(&db, z).unwrap(), vec![row(4, 4, 0), row(0, 4, 1)]);
    assert_eq!(db.closure_count(), 1 + 2 + 3 + 4 + 2);
    assert_eq!(get_vfs_path_to(&db, c).unwrap(), names(&["z", "b", "c"]));
    assert_eq!(traverse_vfs_path(&mut db, "z/b/c"), Ok(c));
    assert_eq!(traverse_vfs_path(&mut db, "a/b"), Err(VFSError::NotFound));
    let moved = get_vfs_node_data(&db, b).unwrap();
    assert_eq!(moved.parent_id, Some(z));
    assert_eq!(moved.updated_at, Some(50));
    assert_eq!(get_vfs_node_data(&db, c).unwrap().updated_at, None);
    assert!(!is_descendant(&db, a, c));
    assert!(is_descendant(&db, z, c));
}

#[test]
fn moving_deeper_changes_depths_of_the_whole_subtree() {
    let mut db = VfsDb::new(0);
    let c = ensure_vfs_path(&mut db, "a/b/c").unwrap();
    let deep = ensure_vfs_path(&mut db, "p/q/r/s").unwrap();
    assert_eq!(move_vfs_node(&mut db, NodeId(1), deep), Ok(()));
    assert_eq!(get_vfs_path_to(&db, c).unwrap(), names(&["p", "q", "r", "s", "a", "b", "c"]));
    let rows = get_ancestors(&db, c).unwrap();
    assert_eq!(rows.len(), 8);
    assert_eq!(rows[7], row(0, 3, 7));
    assert_eq!(rows[3], row(deep.0, 3, 3));
}

#[test]
fn move_refuses_cycles_missing_nodes_and_name_clashes() {
    let mut db = VfsDb::new(0);
    let c = ensure_vfs_path(&mut db, "a/b/c").unwrap();
    let other_b = ensure_vfs_path(&mut db, "z/b").unwrap();
    let z = traverse_vfs_path(&mut db, "z").unwrap();
    let (a, b) = (NodeId(1), NodeId(2));
    let nodes = db.node_count();
    let rows = db.closure_count();
    assert_eq!(move_vfs_node(&mut db, a, c), Err(VFSError::InvalidPath));
    assert_eq!(move_vfs_node(&mut db, a, a), Err(VFSError::InvalidPath));
    assert_eq!(move_vfs_node(&mut db, NodeId(0), a), Err(VFSError::InvalidPath));
    assert_eq!(move_vfs_node(&mut db, NodeId(77), a), Err(VFSError::NotFound));
    assert_eq!(move_vfs_node(&mut db, a, NodeId(77)), Err(VFSError::NotFound));
    assert_eq!(move_vfs_node(&mut db, b, z), Err(VFSError::Sql(StoreFault::UniqueViolation)));
    assert_eq!(db.node_count(), nodes);
    assert_eq!(db.closure_count(), rows);
    assert_eq!(get_vfs_path_to(&db, c).unwrap(), names(&["a", "b", "c"]));
    assert_eq!(get_vfs_path_to(&db, other_b).unwrap(), names(&["z", "b"]));
    // moving to where it is already is allowed
    assert_eq!(move_vfs_node(&mut db, b, a), Ok(()));
    assert_eq!(get_vfs_path_to(&db, c).unwrap(), names(&["a", "b", "c"]));
}

#[test]
fn move_to_a_path_creates_the_path() {
    let mut db = VfsDb::new(0);
    let b = ensure_vfs_path(&mut db, "a/b").unwrap();
    assert_eq!(move_vfs_file(&mut db, b, VfsTarget::Path("new/place".to_string())), Ok(()));
    assert_eq!(get_vfs_path_to(&db, b).unwrap(), names(&["new", "place", "b"]));
    // a path inside the moved subtree is created, then the move is refused
    let before = db.node_count();
    assert_eq!(
        move_vfs_file(&mut db, b, VfsTarget::Path("new/place/b/inner".to_string())),
        Err(VFSError::InvalidPath)
    );
    assert_eq!(db.node_count(), before + 1);
}

#[test]
fn descendants_are_the_subtree() {
    let mut db = VfsDb::new(0);
    ensure_vfs_path(&mut db, "a/b/c").unwrap();
    ensure_vfs_path(&mut db, "a/d").unwrap();
    ensure_vfs_path(&mut db, "e").unwrap();
    let mut sub = get_descendants(&db, NodeId(1)).unwrap();
    sub.sort_by_key(|n| n.0);
    assert_eq!(sub, vec![NodeId(1), NodeId(2), NodeId(3), NodeId(4)]);
    let mut all = get_descendants(&db, NodeId(0)).unwrap();
    all.sort_by_key(|n| n.0);
    assert_eq!(all.len(), db.node_count());
    assert_eq!(get_descendants(&db, NodeId(5)), Ok(vec![NodeId(5)]));
    assert_eq!(get_descendants(&db, NodeId(6)), Err(VFSError::NotFound));
    assert!(!is_descendant(&db, NodeId(6), NodeId(1)));
    assert!(!is_descendant(&db, NodeId(1), NodeId(6)));
    assert!(is_descendant(&db, NodeId(1), NodeId(3)));
    assert!(is_descendant(&db, NodeId(3), NodeId(3)));
    assert!(!is_descendant(&db, NodeId(3), NodeId(1)));
    assert!(!is_descendant(&db, NodeId(5), NodeId(1)));
}

#[test]
fn path_and_ancestors_of_a_missing_node_are_not_found() {
    let db = VfsDb::new(0);
    assert_eq!(get_vfs_path_to(&db, NodeId(0)), Err(VFSError::NotFound));
    assert_eq!(get_ancestors(&db, NodeId(3)), Err(VFSError::NotFound));
}

#[test]
fn targets_from_identifiers_and_paths() {
    assert!(matches!(VfsTarget::from(NodeId(4)), VfsTarget::Node(NodeId(4))));
    assert!(matches!(VfsTarget::from("a/b".to_string()), VfsTarget::Path(p) if p == "a/b"));
}
