//! Paths.

use axiomos::vfs::path::{AsPath, OwnedPath, Path};

#[test]
fn test_append_str() {
    let mut path = OwnedPath::new("");
    path.append_str("foo");
    assert_eq!(path.as_str(), "foo");
    path.append_str("bar");
    assert_eq!(path.as_str(), "foobar");
    path.append_str("/");
    assert_eq!(path.as_str(), "foobar/");
    path.append_str("baz");
    assert_eq!(path.as_str(), "foobar/baz");
    path.append_str(".txt");
    assert_eq!(path.as_str(), "foobar/baz.txt");
}

#[test]
fn test_push() {
    let mut path = OwnedPath::new("");
    path.push("foo");
    assert_eq!(path.as_str(), "/foo");
    path.push("bar");
    assert_eq!(path.as_str(), "/foo/bar");
    path.push(".txt");
    assert_eq!(path.as_str(), "/foo/bar/.txt");
}

#[test]
fn test_append_str_edge_cases() {
    // Empty append
    let mut path = OwnedPath::new("foo");
    path.append_str("");
    assert_eq!(path.as_str(), "foo");

    // Multiple slashes
    let mut path = OwnedPath::new("foo");
    path.append_str("///bar");
    assert_eq!(path.as_str(), "foo///bar");

    // Special characters
    let mut path = OwnedPath::new("foo");
    path.append_str("-bar_baz.txt");
    assert_eq!(path.as_str(), "foo-bar_baz.txt");

    // Spaces
    let mut path = OwnedPath::new("foo");
    path.append_str(" bar");
    assert_eq!(path.as_str(), "foo bar");
}

#[test]
fn test_push_edge_cases() {
    // Push to absolute path
    let mut path = OwnedPath::new("/");
    path.push("foo");
    assert_eq!(path.as_str(), "/foo");

    // Push to path ending with slash
    let mut path = OwnedPath::new("/foo/");
    path.push("bar");
    assert_eq!(path.as_str(), "/foo/bar");

    // Push empty string
    let mut path = OwnedPath::new("/foo");
    path.push("");
    assert_eq!(path.as_str(), "/foo/");

    // Push empty string multiple times
    let mut path = OwnedPath::new("/foo");
    path.push("");
    assert_eq!(path.as_str(), "/foo/");
    path.push("");
    assert_eq!(path.as_str(), "/foo//");
    path.append_str(".bar");
    assert_eq!(path.as_str(), "/foo//.bar");

    // Push path with leading slash
    let mut path = OwnedPath::new("/foo");
    path.push("/bar");
    assert_eq!(path.as_str(), "/foo//bar");

    // Push path with trailing slash
    let mut path = OwnedPath::new("/foo");
    path.push("bar/");
    assert_eq!(path.as_str(), "/foo/bar/");

    // Push to relative path (makes it absolute)
    let mut path = OwnedPath::new("foo");
    path.push("bar");
    assert_eq!(path.as_str(), "foo/bar");

    // Push multiple components
    let mut path = OwnedPath::new("");
    path.push("foo");
    path.push("bar");
    path.push("baz");
    assert_eq!(path.as_str(), "/foo/bar/baz");

    // Push with dots
    let mut path = OwnedPath::new("/foo");
    path.push(".");
    assert_eq!(path.as_str(), "/foo/.");

    let mut path = OwnedPath::new("/foo");
    path.push("..");
    assert_eq!(path.as_str(), "/foo/..");

    // Push hidden file
    let mut path = OwnedPath::new("/foo");
    path.push(".hidden");
    assert_eq!(path.as_str(), "/foo/.hidden");
}

#[test]
fn test_new() {
    // From &str
    let path = OwnedPath::new("/foo/bar");
    assert_eq!(path.as_str(), "/foo/bar");

    // From String
    let path = OwnedPath::new(String::from("/foo/bar"));
    assert_eq!(path.as_str(), "/foo/bar");

    // Empty
    let path = OwnedPath::new("");
    assert_eq!(path.as_str(), "");

    // With special characters
    let path = OwnedPath::new("/foo-bar_baz.txt");
    assert_eq!(path.as_str(), "/foo-bar_baz.txt");
}

#[test]
fn test_deref() {
    let owned = OwnedPath::new("/foo/bar");
    let path: Path = owned.as_path();
    assert_eq!(path.as_str(), "/foo/bar");

    // Should have access to Path methods
    assert!(owned.is_absolute());
    assert_eq!(owned.file_name(), Some("bar"));
    assert_eq!(owned.parent(), Some(Path::new("/foo")));
}

#[test]
fn test_as_ref_path() {
    let owned = OwnedPath::new("/foo/bar");
    let path: Path = AsPath::as_path(&owned);
    assert_eq!(path.as_str(), "/foo/bar");
}

#[test]
fn test_borrow() {

    let owned = OwnedPath::new("/foo/bar");
    let borrowed = owned.as_path();
    assert_eq!(borrowed.as_str(), "/foo/bar");
    assert_eq!(borrowed, Path::new("/foo/bar"));
}

#[test]
fn test_display() {

    let path = OwnedPath::new("/foo/bar");
    assert_eq!(path.to_string(), "/foo/bar");

    let path = OwnedPath::new("");
    assert_eq!(path.to_string(), "");

    let path = OwnedPath::new("relative");
    assert_eq!(path.to_string(), "relative");
}

#[test]
fn test_clone() {
    let path = OwnedPath::new("/foo/bar");
    let cloned = path.clone();
    assert_eq!(path, cloned);
    assert_eq!(cloned.as_str(), "/foo/bar");
}

#[test]
fn test_eq() {
    let path1 = OwnedPath::new("/foo/bar");
    let path2 = OwnedPath::new("/foo/bar");
    let path3 = OwnedPath::new("/foo/baz");

    assert_eq!(path1, path2);
    assert_ne!(path1, path3);
}

#[test]
fn test_mixed_operations() {
    // Mix append_str and push
    let mut path = OwnedPath::new("/foo");
    path.push("bar");
    path.append_str(".txt");
    assert_eq!(path.as_str(), "/foo/bar.txt");

    // Note: when path ends with separator and we push, it doesn't add another separator
    let mut path = OwnedPath::new("");
    path.push("foo");
    path.append_str("/");
    path.push("bar");
    // After push("foo"), path is "/foo", append_str("/") makes "/foo/", push("bar") makes "/foo/bar"
    assert_eq!(path.as_str(), "/foo/bar");

    // Build complex path
    let mut path = OwnedPath::new("/home");
    path.push("user");
    path.push("documents");
    path.push("file");
    path.append_str(".txt");
    assert_eq!(path.as_str(), "/home/user/documents/file.txt");
}

#[test]
fn test_push_path_reference() {
    let mut owned = OwnedPath::new("/foo");
    let to_push = Path::new("bar");
    owned.push(to_push);
    assert_eq!(owned.as_str(), "/foo/bar");

    let mut owned = OwnedPath::new("/foo");
    owned.push("bar/baz");
    assert_eq!(owned.as_str(), "/foo/bar/baz");
}
