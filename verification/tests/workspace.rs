use auto_header::path::PathStyle;
use auto_header::workspace::WorkspaceRegistry;

fn registry_of(roots: &[&str]) -> WorkspaceRegistry {
    let mut registry = WorkspaceRegistry::new();
    registry.initialize(Some(roots.iter().map(|r| r.to_string()).collect()), None);
    registry
}

#[test]
fn new_registry_has_no_roots() {
    let registry = WorkspaceRegistry::new();
    assert!(registry.roots().is_empty());
    assert_eq!(registry.root_for("/proj/main.rs", PathStyle::Posix), None);
}

#[test]
fn declared_folders_become_the_roots_in_their_order() {
    let registry = registry_of(&["/b", "/a", "/c"]);
    assert_eq!(registry.roots(), &vec!["/b".to_string(), "/a".to_string(), "/c".to_string()]);
}

#[test]
fn folders_come_before_the_single_root() {
    let mut registry = WorkspaceRegistry::new();
    registry.initialize(Some(vec!["/a".to_string()]), Some("/root".to_string()));
    assert_eq!(registry.roots(), &vec!["/a".to_string()]);
    let mut registry = WorkspaceRegistry::new();
    registry.initialize(Some(vec![]), Some("/root".to_string()));
    assert!(registry.roots().is_empty());
}

#[test]
fn single_root_counts_where_no_folders_are_declared() {
    let mut registry = WorkspaceRegistry::new();
    registry.initialize(None, Some("/root".to_string()));
    assert_eq!(registry.roots(), &vec!["/root".to_string()]);
    let mut registry = WorkspaceRegistry::new();
    registry.initialize(None, None);
    assert!(registry.roots().is_empty());
}

#[test]
fn roots_are_never_removed() {
    let mut registry = registry_of(&["/a", "/b"]);
    registry.initialize(Some(vec!["/c".to_string()]), None);
    assert_eq!(registry.roots(), &vec!["/a".to_string(), "/b".to_string(), "/c".to_string()]);
    registry.initialize(None, None);
    assert_eq!(registry.roots().len(), 3);
    registry.initialize(Some(vec![]), None);
    assert_eq!(registry.roots().len(), 3);
}

#[test]
fn root_of_a_file_is_the_root_it_lies_below() {
    let registry = registry_of(&["/other", "/proj", "/third"]);
    assert_eq!(registry.root_for("/proj/main.rs", PathStyle::Posix), Some(&"/proj".to_string()));
    assert_eq!(registry.root_for("/third/a/b/c.txt", PathStyle::Posix), Some(&"/third".to_string()));
    assert_eq!(registry.root_for("/proj", PathStyle::Posix), Some(&"/proj".to_string()));
}

#[test]
fn file_below_no_root_has_none() {
    let registry = registry_of(&["/other", "/proj"]);
    assert_eq!(registry.root_for("/tmp/main.rs", PathStyle::Posix), None);
    assert_eq!(registry.root_for("/project/main.rs", PathStyle::Posix), None);
    assert_eq!(registry.root_for("proj/main.rs", PathStyle::Posix), None);
    assert_eq!(registry.root_for("", PathStyle::Posix), None);
}

#[test]
fn first_declared_root_wins_over_a_deeper_one() {
    let outer_first = registry_of(&["/a", "/a/b"]);
    assert_eq!(outer_first.root_for("/a/b/c.rs", PathStyle::Posix), Some(&"/a".to_string()));
    let inner_first = registry_of(&["/a/b", "/a"]);
    assert_eq!(inner_first.root_for("/a/b/c.rs", PathStyle::Posix), Some(&"/a/b".to_string()));
    assert_eq!(inner_first.root_for("/a/c.rs", PathStyle::Posix), Some(&"/a".to_string()));
}

#[test]
fn root_is_returned_as_it_was_declared() {
    let registry = registry_of(&["/proj/"]);
    assert_eq!(registry.root_for("/proj/main.rs", PathStyle::Posix), Some(&"/proj/".to_string()));
}
