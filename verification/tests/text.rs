use thrw::text::{is_root_segment, path_lookup_names, split_path, unescape_segment};

#[test]
fn split_path_drops_empty_segments() {
    assert_eq!(split_path("a/b/c"), vec!["a", "b", "c"]);
    assert_eq!(split_path("/a//b/"), vec!["a", "b"]);
    assert_eq!(split_path(""), Vec::<String>::new());
    assert_eq!(split_path("///"), Vec::<String>::new());
    assert_eq!(split_path("single"), vec!["single"]);
    assert_eq!(split_path("ü/日本語/x y"), vec!["ü", "日本語", "x y"]);
}

#[test]
fn unescape_decodes_only_percent_twenty() {
    assert_eq!(unescape_segment("a%20b"), "a b");
    assert_eq!(unescape_segment("%20%20"), "  ");
    assert_eq!(unescape_segment("%2"), "%2");
    assert_eq!(unescape_segment("%200"), " 0");
    assert_eq!(unescape_segment("%%20"), "% ");
    assert_eq!(unescape_segment("%2520"), "%2520");
    assert_eq!(unescape_segment("é%20é"), "é é");
    assert_eq!(unescape_segment(""), "");
    assert_eq!(unescape_segment("a%20b"), "a%20b".replace("%20", " "));
}

#[test]
fn root_segment_is_recognised_in_any_case() {
    for s in ["root", "ROOT", "Root", "rOoT"] {
        assert!(is_root_segment(s), "{s}");
    }
    for s in ["roo", "roots", "r00t", "", "röot", " root"] {
        assert!(!is_root_segment(s), "{s}");
    }
}

#[test]
fn lookup_names_skip_leading_root_only() {
    assert_eq!(path_lookup_names("root/a%20b/c"), vec!["a b", "c"]);
    assert_eq!(path_lookup_names("a/root/c"), vec!["a", "root", "c"]);
    assert_eq!(path_lookup_names("ROOT"), Vec::<String>::new());
    assert_eq!(path_lookup_names("root/root"), vec!["root"]);
    assert_eq!(path_lookup_names("/root/x"), vec!["x"]);
}
