use kotomori::directory_display::DirectoryDisplay;
use lexiclean::Lexiclean;
use std::path::Path;

#[test]
fn cleans_before_matching_home() {
    assert_eq!(
        DirectoryDisplay::with_home("/foo/bar/../baz", "/foo"),
        Path::new("~").join("baz").display().to_string(),
    );
}

#[test]
fn cleans_parent_components() {
    assert_eq!(
        DirectoryDisplay::new("foo/bar/..").to_display_string(),
        "foo"
    );
}

#[test]
fn displays_absolute_path() {
    assert_eq!(
        DirectoryDisplay::new("/foo/./bar").to_display_string(),
        Path::new("/foo/bar").lexiclean().display().to_string(),
    );
}

#[test]
fn displays_child_of_home_with_tilde() {
    assert_eq!(
        DirectoryDisplay::with_home("/foo/bar", "/foo"),
        Path::new("~").join("bar").display().to_string(),
    );
}

#[test]
fn displays_home_as_tilde() {
    assert_eq!(DirectoryDisplay::with_home("/foo", "/foo"), "~");
}

#[test]
fn displays_path_outside_home() {
    assert_eq!(
        DirectoryDisplay::with_home("/bar", "/foo"),
        Path::new("/bar").lexiclean().display().to_string(),
    );
}

#[test]
fn displays_relative_path() {
    assert_eq!(
        DirectoryDisplay::new("foo/./bar").to_display_string(),
        Path::new("foo").join("bar").display().to_string(),
    );
}

#[test]
fn home_is_cleaned_before_matching() {
    assert_eq!(DirectoryDisplay::with_home("/foo/bar", "/foo/baz/.."), "~/bar");
}

#[test]
fn a_sibling_with_a_longer_name_is_not_below_home() {
    assert_eq!(DirectoryDisplay::with_home("/foobar", "/foo"), "/foobar");
}

#[test]
fn relative_paths_are_written_from_tilde() {
    assert_eq!(DirectoryDisplay::format_relative(""), "~");
    assert_eq!(DirectoryDisplay::format_relative("foo/bar"), "~/foo/bar");
}

#[test]
fn an_absolute_part_replaces_the_tilde() {
    assert_eq!(DirectoryDisplay::format_relative("/a"), "/a");
}
