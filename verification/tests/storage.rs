use thrw::storage::{get_storage_and_id_from_path, IDBKey};

fn expected(path: &str) -> (String, Option<String>) {
    // what splitting at the dots gives, an empty last piece dropped
    let parts: Vec<&str> = path.split_terminator(".").collect();
    match &parts[..] {
        &[a, b] => (a.to_string(), Some(b.to_string())),
        _ => (path.to_string(), None),
    }
}

#[test]
fn store_and_id_from_path() {
    assert_eq!(get_storage_and_id_from_path("logs.12"), ("logs".to_string(), Some("12".to_string())));
    assert_eq!(get_storage_and_id_from_path("logs"), ("logs".to_string(), None));
    assert_eq!(get_storage_and_id_from_path("a.b.c"), ("a.b.c".to_string(), None));
    assert_eq!(get_storage_and_id_from_path("a.b."), ("a".to_string(), Some("b".to_string())));
    assert_eq!(get_storage_and_id_from_path(".b"), (String::new(), Some("b".to_string())));
    for path in ["", ".", "..", "a.", "a..", "a..b", ".a.", "x.y", "x.y.", "x.y..", "é.ü", "a.b.c."] {
        assert_eq!(get_storage_and_id_from_path(path), expected(path), "{path:?}");
    }
}

#[test]
fn keys_from_values() {
    assert_eq!(IDBKey::from(5u32), IDBKey::Int(5));
    assert_eq!(IDBKey::from("k".to_string()), IDBKey::String("k".to_string()));
}
