use modresolve::{FileSystem, ResolveError, Resolver};

fn fs_with(files: &[(&str, &str)]) -> FileSystem {
    let mut fs = FileSystem::new();
    for (path, content) in files {
        fs.add_file(path.to_string(), content.to_string());
    }
    fs
}

#[test]
fn exact_match_wins_over_extension_inference() {
    let fs = fs_with(&[("/d/foo.js", "")]);
    let resolver = Resolver::new();
    assert_eq!(resolver.resolve(&fs, "/d", "./foo"), Ok("/d/foo.js".to_string()));
    assert_eq!(resolver.resolve(&fs, "/d", "./foo.js"), Ok("/d/foo.js".to_string()));
}

#[test]
fn file_wins_over_directory() {
    let fs = fs_with(&[("/d/pkg", "i am a file"), ("/d/pkg/index.js", "")]);
    let resolver = Resolver::new();
    assert_eq!(resolver.resolve(&fs, "/d", "./pkg"), Ok("/d/pkg".to_string()));
}

#[test]
fn manifest_main_field_resolves() {
    let fs = fs_with(&[
        ("/d/pkg/package.json", "{\"main\": \"lib/index\"}"),
        ("/d/pkg/lib/index.js", ""),
    ]);
    let resolver = Resolver::new();
    assert_eq!(resolver.resolve(&fs, "/d", "./pkg"), Ok("/d/pkg/lib/index.js".to_string()));
}

#[test]
fn manifest_main_field_with_dot_prefix_resolves() {
    let fs = fs_with(&[
        ("/d/pkg/package.json", "{\"main\": \"./lib/entry.js\"}"),
        ("/d/pkg/lib/entry.js", ""),
    ]);
    let resolver = Resolver::new();
    assert_eq!(resolver.resolve(&fs, "/d", "./pkg"), Ok("/d/pkg/lib/entry.js".to_string()));
}

#[test]
fn invalid_manifest_is_a_manifest_error_not_not_found() {
    let fs = fs_with(&[
        ("/d/pkg/package.json", "{\"main\": "),
        ("/d/pkg/index.js", ""),
    ]);
    let resolver = Resolver::new();
    match resolver.resolve(&fs, "/d", "./pkg") {
        Err(ResolveError::ManifestError { path, message }) => {
            assert_eq!(path, "/d/pkg/package.json");
            assert!(!message.is_empty());
        }
        other => panic!("expected a manifest error, got {:?}", other),
    }
}

#[test]
fn directory_without_manifest_falls_back_to_index() {
    let fs = fs_with(&[("/d/sub/index.js", "")]);
    let resolver = Resolver::new();
    assert_eq!(resolver.resolve(&fs, "/d", "./sub"), Ok("/d/sub/index.js".to_string()));
}

#[test]
fn manifest_without_main_falls_back_to_index() {
    let fs = fs_with(&[
        ("/d/pkg/package.json", "{\"name\": \"pkg\"}"),
        ("/d/pkg/index.js", ""),
    ]);
    let resolver = Resolver::new();
    assert_eq!(resolver.resolve(&fs, "/d", "./pkg"), Ok("/d/pkg/index.js".to_string()));
}

#[test]
fn missing_main_target_is_not_found() {
    let fs = fs_with(&[("/d/pkg/package.json", "{\"main\": \"missing\"}")]);
    let resolver = Resolver::new();
    assert_eq!(resolver.resolve(&fs, "/d", "./pkg"), Err(ResolveError::NotFound));
}

#[test]
fn declared_main_never_falls_back_to_index() {
    // Once a manifest declares an entry file, a miss there is terminal,
    // even when an index.js stands right beside it.
    let fs = fs_with(&[
        ("/d/pkg/package.json", "{\"main\": \"missing\"}"),
        ("/d/pkg/index.js", ""),
    ]);
    let resolver = Resolver::new();
    assert_eq!(resolver.resolve(&fs, "/d", "./pkg"), Err(ResolveError::NotFound));
}

#[test]
fn main_with_extension_inference() {
    let fs = fs_with(&[
        ("/d/pkg/package.json", "{\"main\": \"lib/index\"}"),
        ("/d/pkg/lib/index.js", ""),
        ("/d/pkg/index.js", ""),
    ]);
    let resolver = Resolver::new();
    assert_eq!(resolver.resolve(&fs, "/d", "./pkg"), Ok("/d/pkg/lib/index.js".to_string()));
}

#[test]
fn bare_specifiers_are_unsupported() {
    let fs = fs_with(&[("/d/foo.js", ""), ("/d/lodash.js", "")]);
    let resolver = Resolver::new();
    assert_eq!(resolver.resolve(&fs, "/d", "lodash"), Err(ResolveError::UnsupportedRequest));
    assert_eq!(resolver.resolve(&fs, "/d", "foo"), Err(ResolveError::UnsupportedRequest));
    assert_eq!(resolver.resolve(&fs, "/d", "."), Err(ResolveError::UnsupportedRequest));
    assert_eq!(resolver.resolve(&fs, "/d", ".."), Err(ResolveError::UnsupportedRequest));
    assert_eq!(resolver.resolve(&fs, "/d", ".hidden"), Err(ResolveError::UnsupportedRequest));
}

#[test]
fn empty_specifier_is_malformed() {
    let fs = fs_with(&[("/d/foo.js", "")]);
    let resolver = Resolver::new();
    assert_eq!(resolver.resolve(&fs, "/d", ""), Err(ResolveError::MalformedSpecifier));
}

#[test]
fn absolute_specifier_runs_the_same_probes() {
    let fs = fs_with(&[("/d/foo.js", ""), ("/lib/sub/index.js", "")]);
    let resolver = Resolver::new();
    assert_eq!(resolver.resolve(&fs, "/d", "/d/foo"), Ok("/d/foo.js".to_string()));
    assert_eq!(resolver.resolve(&fs, "/elsewhere", "/lib/sub"), Ok("/lib/sub/index.js".to_string()));
}

#[test]
fn parent_traversal_is_resolved_lexically() {
    let fs = fs_with(&[("/d/foo.js", "")]);
    let resolver = Resolver::new();
    assert_eq!(resolver.resolve(&fs, "/d/nested", "../foo"), Ok("/d/foo.js".to_string()));
    assert_eq!(resolver.resolve(&fs, "/d", "./nested/../foo"), Ok("/d/foo.js".to_string()));
}

#[test]
fn trailing_separators_normalize_away() {
    let fs = fs_with(&[("/d/sub/index.js", "")]);
    let resolver = Resolver::new();
    assert_eq!(resolver.resolve(&fs, "/d", "./sub/"), Ok("/d/sub/index.js".to_string()));
    assert_eq!(resolver.resolve(&fs, "/d/", "./sub"), Ok("/d/sub/index.js".to_string()));
}

#[test]
fn the_root_works_as_a_base_directory() {
    let fs = fs_with(&[("/foo.js", "")]);
    let resolver = Resolver::new();
    assert_eq!(resolver.resolve(&fs, "/", "./foo"), Ok("/foo.js".to_string()));
}

#[test]
fn not_found_when_nothing_matches() {
    let fs = fs_with(&[("/d/foo.js", "")]);
    let resolver = Resolver::new();
    assert_eq!(resolver.resolve(&fs, "/d", "./bar"), Err(ResolveError::NotFound));
}

#[test]
fn repeated_calls_agree() {
    let fs = fs_with(&[
        ("/d/foo.js", ""),
        ("/d/pkg/package.json", "not json at all"),
        ("/d/sub/index.js", ""),
    ]);
    let resolver = Resolver::new();
    for request in ["./foo", "./pkg", "./sub", "./gone", "bare", ""] {
        let first = resolver.resolve(&fs, "/d", request);
        let second = resolver.resolve(&fs, "/d", request);
        assert_eq!(first, second);
    }
}
