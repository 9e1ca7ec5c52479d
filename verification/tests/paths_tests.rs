use msy::streaming::paths::{
    normalize_path, starts_with_components, validate_path, validate_symlink_target, PathComponent,
    PathError,
};
use std::path::{Component, Path, PathBuf};

/// A path's components as the library takes them.
fn components_of(p: &str) -> Vec<PathComponent> {
    Path::new(p)
        .components()
        .map(|c| match c {
            Component::Prefix(x) => PathComponent::Prefix(x.as_os_str().to_string_lossy().into_owned()),
            Component::RootDir => PathComponent::RootDir,
            Component::CurDir => PathComponent::CurDir,
            Component::ParentDir => PathComponent::ParentDir,
            Component::Normal(x) => PathComponent::Normal(x.to_string_lossy().into_owned()),
        })
        .collect()
}

/// The path the components stand for.
fn path_of(cs: &[PathComponent]) -> PathBuf {
    let mut p = PathBuf::new();
    for c in cs {
        match c {
            PathComponent::Prefix(s) | PathComponent::Normal(s) => p.push(s),
            PathComponent::RootDir => p.push("/"),
            PathComponent::CurDir => p.push("."),
            PathComponent::ParentDir => p.push(".."),
        }
    }
    p
}

fn root() -> Vec<PathComponent> {
    components_of("/srv/data")
}

#[test]
fn plain_relative_path_is_joined_under_root() {
    let full = validate_path(&root(), "a/b.txt").unwrap();
    assert_eq!(path_of(&full), PathBuf::from("/srv/data/a/b.txt"));
    assert_eq!(path_of(&full), Path::new("/srv/data").join("a/b.txt"));
    let full = validate_path(&root(), "./c").unwrap();
    assert_eq!(path_of(&full), PathBuf::from("/srv/data/c"));
    let full = validate_path(&components_of("/r"), "a/b.txt").unwrap();
    assert_eq!(path_of(&full), PathBuf::from("/r/a/b.txt"));
}

#[test]
fn refused_relative_paths() {
    let r = components_of("/r");
    for rel in ["", "/etc/passwd", "../x", "a/../b", "a/b/.."] {
        assert!(validate_path(&r, rel).is_err(), "{} was accepted", rel);
    }
}

#[test]
fn empty_path_is_refused() {
    assert!(matches!(validate_path(&root(), ""), Err(PathError::Empty)));
}

#[test]
fn absolute_path_is_refused() {
    match validate_path(&root(), "/etc/passwd") {
        Err(PathError::Absolute(p)) => assert_eq!(p, "/etc/passwd"),
        other => panic!("unexpected {:?}", other),
    }
}

#[test]
fn parent_components_are_refused() {
    match validate_path(&root(), "a/../../etc") {
        Err(PathError::Traversal(p)) => assert_eq!(p, "a/../../etc"),
        other => panic!("unexpected {:?}", other),
    }
    assert!(matches!(validate_path(&root(), ".."), Err(PathError::Traversal(_))));
    assert!(matches!(validate_path(&root(), "x/y/.."), Err(PathError::Traversal(_))));
}

#[test]
fn symlink_target_inside_root_is_accepted() {
    let link = components_of("/srv/data/dir/link");
    assert!(validate_symlink_target(&root(), &link, "../other.txt").is_ok());
    assert!(validate_symlink_target(&root(), &link, "sub/file").is_ok());
    let r = components_of("/r");
    assert!(validate_symlink_target(&r, &components_of("/r/d/l"), "../x").is_ok());
}

#[test]
fn symlink_target_escaping_root_is_refused() {
    let link = components_of("/srv/data/dir/link");
    match validate_symlink_target(&root(), &link, "../../../etc/shadow") {
        Err(PathError::SymlinkEscapesRoot(t)) => assert_eq!(t, "../../../etc/shadow"),
        other => panic!("unexpected {:?}", other),
    }
    let r = components_of("/r");
    assert!(matches!(
        validate_symlink_target(&r, &components_of("/r/d/l"), "../../x"),
        Err(PathError::SymlinkEscapesRoot(_))
    ));
    assert!(matches!(
        validate_symlink_target(&r, &components_of("/other/l"), "x"),
        Err(PathError::SymlinkEscapesRoot(_))
    ));
}

#[test]
fn absolute_symlink_target_is_refused() {
    let link = components_of("/srv/data/link");
    match validate_symlink_target(&root(), &link, "/etc/hosts") {
        Err(PathError::AbsoluteSymlinkTarget(t)) => assert_eq!(t, "/etc/hosts"),
        other => panic!("unexpected {:?}", other),
    }
}

#[test]
fn link_without_directory_is_not_checked_further() {
    assert!(validate_symlink_target(&root(), &components_of("/"), "../../x").is_ok());
    assert!(validate_symlink_target(&root(), &[], "../../x").is_ok());
}

fn comps(names: &[&str]) -> Vec<PathComponent> {
    names
        .iter()
        .map(|n| match *n {
            "/" => PathComponent::RootDir,
            "." => PathComponent::CurDir,
            ".." => PathComponent::ParentDir,
            s => PathComponent::Normal(s.to_string()),
        })
        .collect()
}

fn names(cs: &[PathComponent]) -> Vec<String> {
    cs.iter()
        .map(|c| match c {
            PathComponent::RootDir => "/".to_string(),
            PathComponent::CurDir => ".".to_string(),
            PathComponent::ParentDir => "..".to_string(),
            PathComponent::Normal(s) => s.clone(),
            PathComponent::Prefix(s) => s.clone(),
        })
        .collect()
}

#[test]
fn normalize_drops_dots_and_resolves_parents() {
    let n = normalize_path(&comps(&["/", "a", ".", "b", "..", "c"]));
    assert_eq!(names(&n), vec!["/", "a", "c"]);
    let n = normalize_path(&comps(&["/", "..", "x"]));
    assert_eq!(names(&n), vec!["/", "x"]);
    let n = normalize_path(&comps(&["..", "y"]));
    assert_eq!(names(&n), vec!["y"]);
}

#[test]
fn normalize_is_idempotent_on_example() {
    let once = normalize_path(&comps(&["/", "a", "..", "b", ".", "c", ".."]));
    let twice = normalize_path(&once);
    assert_eq!(names(&once), names(&twice));
}

#[test]
fn validated_path_stays_under_root_when_normalized() {
    let r = root();
    let full = validate_path(&r, "x/./y").unwrap();
    assert!(starts_with_components(&normalize_path(&full), &normalize_path(&r)));
}

#[test]
fn component_prefix_check() {
    assert!(starts_with_components(&comps(&["/", "a", "b"]), &comps(&["/", "a"])));
    assert!(!starts_with_components(&comps(&["/", "ab"]), &comps(&["/", "a"])));
    assert!(!starts_with_components(&comps(&["/"]), &comps(&["/", "a"])));
    assert!(starts_with_components(&comps(&["x"]), &comps(&[])));
}
