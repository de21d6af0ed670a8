use modresolve::{FileSystem, join_path, normalize_path};

#[test]
fn join_appends_segments() {
    assert_eq!(join_path("/a/b", "./c"), "/a/b/c");
    assert_eq!(join_path("/a/b", "c"), "/a/b/c");
    assert_eq!(join_path("/d", "package.json"), "/d/package.json");
}

#[test]
fn join_resolves_parents_lexically() {
    assert_eq!(join_path("/a/b", "../c"), "/a/c");
    assert_eq!(join_path("/a/b", "../../c"), "/c");
    assert_eq!(join_path("/a", "c/./d//e"), "/a/c/d/e");
}

#[test]
fn parents_above_the_root_stay_at_the_root() {
    assert_eq!(join_path("/", ".."), "/");
    assert_eq!(join_path("/a", "../../.."), "/");
}

#[test]
fn normalization_removes_residual_segments() {
    assert_eq!(normalize_path("/a//b/./../c"), "/a/c");
    assert_eq!(normalize_path("/a/b/"), "/a/b");
    assert_eq!(normalize_path("/"), "/");
}

#[test]
fn later_entries_shadow_earlier_ones() {
    let mut fs = FileSystem::new();
    assert!(!fs.is_file("/a"));
    fs.add_file("/a".to_string(), "first".to_string());
    fs.add_file("/a".to_string(), "second".to_string());
    assert!(fs.is_file("/a"));
    assert_eq!(fs.read("/a"), Some(&"second".to_string()));
    assert_eq!(fs.read("/b"), None);
}
