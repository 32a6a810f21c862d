use hostenv::{absolutize_path, absolutize_with, PathError};
use path_absolutize::Absolutize;

#[test]
fn test_absolutize_path() {
    let home_dir = dirs::home_dir().expect("Unable to locate user's home directory.");
    let home = home_dir.to_string_lossy().into_owned();

    // Empty path returns an error.
    let actual = absolutize_path("");
    assert!(actual.is_err());

    // "~" alone expands to home directory.
    let actual = absolutize_path("~").unwrap();
    assert_eq!(actual, home);

    // "~/foo" expands to "<home-directory>/foo".
    let actual = absolutize_path("~/foo").unwrap();
    let expected = format!("{}/foo", home);
    assert_eq!(actual, expected);

    // "~/foo/.." expands to home directory.
    let actual = absolutize_path("~/foo/..").unwrap();
    assert_eq!(actual, home);

    // "/foo/~" remains unchanged.
    let actual = absolutize_path("/foo/~").unwrap();
    assert_eq!(actual, "/foo/~");

    // "/foo/~/foo" remains unchanged.
    let actual = absolutize_path("/foo/~/foo").unwrap();
    assert_eq!(actual, "/foo/~/foo");

    // "/~foo/foo" remains unchanged.
    let actual = absolutize_path("/~foo/foo").unwrap();
    assert_eq!(actual, "/~foo/foo");
}

#[test]
fn empty_path_is_invalid_input() {
    assert_eq!(absolutize_path(""), Err(PathError::InvalidInput));
    let home = Some(String::from("/home/user"));
    assert_eq!(absolutize_with("", &home, "/"), Err(PathError::InvalidInput));
    assert_eq!(absolutize_with("", &None, "/"), Err(PathError::InvalidInput));
}

#[test]
fn tilde_without_home_is_not_found() {
    assert_eq!(absolutize_with("~", &None, "/cwd"), Err(PathError::NotFound));
    assert_eq!(absolutize_with("~/foo", &None, "/cwd"), Err(PathError::NotFound));
}

#[test]
fn tilde_expansion_with_explicit_home() {
    let home = Some(String::from("/home/user"));
    assert_eq!(absolutize_with("~", &home, "/cwd").unwrap(), "/home/user");
    assert_eq!(absolutize_with("~/foo", &home, "/cwd").unwrap(), "/home/user/foo");
    assert_eq!(absolutize_with("~/foo/..", &home, "/cwd").unwrap(), "/home/user");
}

#[test]
fn no_substitution_except_leading_bare_tilde() {
    let home = Some(String::from("/home/user"));
    assert_eq!(absolutize_with("/foo/~", &home, "/cwd").unwrap(), "/foo/~");
    assert_eq!(absolutize_with("/foo/~/foo", &home, "/cwd").unwrap(), "/foo/~/foo");
    assert_eq!(absolutize_with("/~foo/foo", &home, "/cwd").unwrap(), "/~foo/foo");
    assert_eq!(absolutize_with("~foo", &home, "/cwd").unwrap(), "/cwd/~foo");
}

#[test]
fn relative_paths_are_prefixed_with_working_directory() {
    assert_eq!(absolutize_with("foo/bar", &None, "/cwd").unwrap(), "/cwd/foo/bar");
    assert_eq!(absolutize_with("../x", &None, "/a/b").unwrap(), "/a/x");
    assert_eq!(absolutize_with(".", &None, "/a/b").unwrap(), "/a/b");
}

#[test]
fn lexical_dot_resolution_touches_no_filesystem() {
    assert_eq!(absolutize_with("/no/such/dir/..", &None, "/").unwrap(), "/no/such");
    assert_eq!(absolutize_with("/a/./b/../c", &None, "/").unwrap(), "/a/c");
    assert_eq!(absolutize_with("/..", &None, "/").unwrap(), "/");
    assert_eq!(absolutize_with("/a//b///c", &None, "/").unwrap(), "/a/b/c");
    assert_eq!(absolutize_with("/", &None, "/").unwrap(), "/");
}

#[test]
fn relative_input_uses_the_working_directory() {
    let expected = std::path::Path::new("foo")
        .absolutize()
        .unwrap()
        .to_string_lossy()
        .into_owned();
    assert_eq!(absolutize_path("foo").unwrap(), expected);
}
