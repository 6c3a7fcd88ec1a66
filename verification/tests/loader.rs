use kotomori::loader::Loader;

#[test]
fn agent_paths_run_from_root_to_cwd() {
    let loader = Loader::with_cwd("/foo/bar/baz");
    assert_eq!(
        loader.agent_paths("/foo"),
        ["/foo/AGENTS.md", "/foo/bar/AGENTS.md", "/foo/bar/baz/AGENTS.md"]
    );
}

#[test]
fn agent_paths_outside_the_root_are_none() {
    let loader = Loader::with_cwd("/foo/bar");
    assert!(loader.agent_paths("/qux").is_empty());
}

#[test]
fn repository_root_is_the_innermost_marked_ancestor() {
    let loader = Loader::with_cwd("/foo/bar/baz");
    assert_eq!(loader.ancestors(), ["/foo/bar/baz", "/foo/bar", "/foo", "/"]);
    assert_eq!(loader.repository_root(&[false, true, true, false]), "/foo/bar");
    assert_eq!(loader.repository_root(&[false]), "/foo/bar/baz");
    assert_eq!(loader.repository_root(&[]), "/foo/bar/baz");
}

#[test]
fn loads_agents_from_root_to_cwd() {
    assert_eq!(
        Loader::load(&[
            ("/r/AGENTS.md".to_string(), "foo\n".to_string()),
            ("/r/c/AGENTS.md".to_string(), "bar\n".to_string()),
        ]),
        "/r/AGENTS.md:\nfoo\n\n/r/c/AGENTS.md:\nbar"
    );
}

#[test]
fn returns_empty_without_agents() {
    assert_eq!(Loader::load(&[]), "");
}

#[test]
fn cwd_is_kept() {
    assert_eq!(Loader::with_cwd("/x").cwd(), "/x");
}

#[test]
fn ancestors_start_with_the_directory_and_end_at_the_root() {
    let loader = Loader::with_cwd("/foo/bar");
    assert_eq!(loader.ancestors(), ["/foo/bar", "/foo", "/"]);
    assert_eq!(Loader::with_cwd("foo").ancestors(), ["foo", ""]);
}
