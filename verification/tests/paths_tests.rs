use senc::errors::SencError;
use senc::paths::{
    assert_file_path_in_projectroot, normalize_path, file_extension, file_name, file_stem, join_path,
    parent_dir, relative_path,
};

#[test]
fn test_sandbox_accepts_root_itself() {
    assert_eq!(assert_file_path_in_projectroot("/proj", "/proj"), Ok(()));
}

#[test]
fn test_sandbox_accepts_descendant() {
    assert_eq!(assert_file_path_in_projectroot("/proj/a/b/c.sen.js", "/proj"), Ok(()));
}

#[test]
fn test_sandbox_rejects_file_outside_root() {
    assert_eq!(
        assert_file_path_in_projectroot("/elsewhere/main.sen.js", "/proj"),
        Err(SencError::OutOfBounds)
    );
}

#[test]
fn test_sandbox_rejects_sibling_with_root_as_name_prefix() {
    assert_eq!(
        assert_file_path_in_projectroot("/project-b/main.sen.js", "/proj"),
        Err(SencError::OutOfBounds)
    );
}

#[test]
fn test_sandbox_ignores_doubled_and_trailing_slashes() {
    assert_eq!(assert_file_path_in_projectroot("/proj//a/b", "/proj/"), Ok(()));
}

#[test]
fn test_sandbox_rejects_parent_of_root() {
    assert_eq!(assert_file_path_in_projectroot("/", "/proj"), Err(SencError::OutOfBounds));
}

#[test]
fn test_normalize_path_drops_dot_segments() {
    assert_eq!(normalize_path("./test"), "test");
    assert_eq!(normalize_path("a/./b/./c"), "a/b/c");
}

#[test]
fn test_normalize_path_resolves_dotdot() {
    assert_eq!(normalize_path("hello/world/.."), "hello");
    assert_eq!(normalize_path("/test/../path/"), "/path");
    assert_eq!(normalize_path("a/b/../../c"), "c");
}

#[test]
fn test_normalize_path_keeps_leading_dotdot_of_unrooted_path() {
    assert_eq!(normalize_path("../x"), "../x");
    assert_eq!(normalize_path("../../y"), "../../y");
}

#[test]
fn test_normalize_path_drops_dotdot_at_root() {
    assert_eq!(normalize_path("/.."), "/");
    assert_eq!(normalize_path("/../etc"), "/etc");
}

#[test]
fn test_normalize_path_collapses_slashes() {
    assert_eq!(normalize_path("a//b///c"), "a/b/c");
    assert_eq!(normalize_path("//"), "/");
}

#[test]
fn test_normalize_path_of_empty_is_current_dir() {
    assert_eq!(normalize_path(""), ".");
    assert_eq!(normalize_path("a/.."), ".");
}

#[test]
fn test_parent_dir() {
    assert_eq!(parent_dir("/a/b/c.txt"), "/a/b");
    assert_eq!(parent_dir("/a"), "/");
    assert_eq!(parent_dir("alone"), "");
}

#[test]
fn test_file_name() {
    assert_eq!(file_name("/a/b/c.sen.js"), "c.sen.js");
    assert_eq!(file_name("plain"), "plain");
}

#[test]
fn test_file_stem_strips_one_extension() {
    assert_eq!(file_stem("main.sen.js"), "main.sen");
    assert_eq!(file_stem("main.sen"), "main");
    assert_eq!(file_stem("noext"), "noext");
    assert_eq!(file_stem(".hidden"), ".hidden");
}

#[test]
fn test_file_extension() {
    assert_eq!(file_extension("a.tar.gz"), Some("gz".to_string()));
    assert_eq!(file_extension(".hidden"), None);
    assert_eq!(file_extension("plain"), None);
    assert_eq!(file_extension("dot."), Some("".to_string()));
}

#[test]
fn test_relative_path() {
    assert_eq!(relative_path("/proj", "/proj/a/b"), Some("a/b".to_string()));
    assert_eq!(relative_path("/proj", "/proj"), Some("".to_string()));
    assert_eq!(relative_path("/proj", "/other/a"), None);
}

#[test]
fn test_join_path() {
    assert_eq!(join_path("a", "b"), "a/b");
    assert_eq!(join_path("/out", "x/y"), "/out/x/y");
}
