use std::path::{Component, Path};

use codeg::error::AppErrorCode;
use codeg::workspace::confine::ensure_inside_root;
use codeg::workspace::path::{
    base_name, entry_names, parent_dir, path_starts_with, read_posix_path, resolve_relative_path,
    validate_relative_components, EntryPath, PathComponent, PathReading,
};

const PATHS: [&str; 31] = [
    "", "/", "//", ".", "./", "..", "a", "a/", "a//", "/a", "//a", "/a/", "a/b", "a/b/", "a//b",
    "a/./b", "a/../b", "./a", "./a/b", "/./a", "/../a", "a/.", "a/..", "...", "a/...", "/a/b/c",
    ".a", "a/.b", "ü/ß", " / ", "a\\b",
];

fn described(r: &PathReading) -> (bool, Vec<String>) {
    let components = r
        .components
        .iter()
        .map(|c| match c {
            PathComponent::Prefix(p) => format!("prefix {p}"),
            PathComponent::RootDir => "/".to_string(),
            PathComponent::CurDir => ".".to_string(),
            PathComponent::ParentDir => "..".to_string(),
            PathComponent::Normal(n) => format!("={n}"),
        })
        .collect();
    (r.is_absolute, components)
}

/// The host's own reading of a path.
fn host(path: &Path) -> (bool, Vec<String>) {
    let components = path
        .components()
        .map(|c| match c {
            Component::Prefix(p) => format!("prefix {}", p.as_os_str().to_str().unwrap()),
            Component::RootDir => "/".to_string(),
            Component::CurDir => ".".to_string(),
            Component::ParentDir => "..".to_string(),
            Component::Normal(n) => format!("={}", n.to_str().unwrap()),
        })
        .collect();
    (path.is_absolute(), components)
}

fn relative(components: Vec<PathComponent>) -> PathReading {
    PathReading { is_absolute: false, components }
}

#[test]
fn components_are_those_of_the_host() {
    for p in PATHS {
        assert_eq!(described(&read_posix_path(p)), host(Path::new(p)), "{p:?}");
    }
}

#[test]
fn parents_and_names_are_those_of_the_host() {
    for p in PATHS {
        let reading = read_posix_path(p);
        let parent = parent_dir(&reading).map(|q| described(&q));
        assert_eq!(parent, Path::new(p).parent().map(host), "{p:?}");
        let name = Path::new(p).file_name().map(|q| q.to_str().unwrap().to_string());
        assert_eq!(base_name(&reading), name, "{p:?}");
    }
}

#[test]
fn prefixes_are_those_of_the_host() {
    for p in PATHS {
        for q in PATHS {
            assert_eq!(
                path_starts_with(&read_posix_path(p), &read_posix_path(q)),
                Path::new(p).starts_with(q),
                "{p:?} {q:?}"
            );
        }
    }
}

#[test]
fn accepted_paths_stay_below_the_root() {
    let mut accepted = 0;
    for root in PATHS {
        for rel in PATHS {
            let above = read_posix_path(root);
            if let Ok(path) = resolve_relative_path(&above, &read_posix_path(rel)) {
                accepted += 1;
                assert!(path_starts_with(&path, &above), "{root:?} {rel:?}");
                assert_eq!(described(&path), host(&Path::new(root).join(rel)), "{root:?} {rel:?}");
            }
        }
    }
    assert_eq!(accepted, 31 * 20);
}

#[test]
fn refused_paths_say_why() {
    let message =
        |p: &str| validate_relative_components(&read_posix_path(p)).unwrap_err().message;
    assert_eq!(message("/etc"), "Path must be relative");
    assert_eq!(message("a/../.."), "Path cannot contain '..'");
    assert_eq!(message(".."), "Path cannot contain '..'");
    assert!(validate_relative_components(&read_posix_path("./a/./b")).is_ok());
    assert!(validate_relative_components(&read_posix_path("")).is_ok());
    assert!(validate_relative_components(&read_posix_path("...")).is_ok());
    let e = resolve_relative_path(&read_posix_path("/ws"), &read_posix_path("/etc")).unwrap_err();
    assert_eq!(e.code, AppErrorCode::InvalidInput);
}

#[test]
fn readings_of_another_host_are_judged_alike() {
    let name = |s: &str| PathComponent::Normal(s.to_string());
    let drive = || PathComponent::Prefix("C:".to_string());
    let message =
        |comps: Vec<PathComponent>| validate_relative_components(&relative(comps)).unwrap_err().message;
    // `C:x`, `\\x`, `a\\..\\b`
    assert_eq!(message(vec![drive(), name("x")]), "Invalid path component");
    assert_eq!(message(vec![PathComponent::RootDir, name("x")]), "Invalid path component");
    assert_eq!(
        message(vec![name("a"), PathComponent::ParentDir, name("b")]),
        "Path cannot contain '..'"
    );
    assert_eq!(
        message(vec![PathComponent::CurDir, PathComponent::ParentDir, drive()]),
        "Path cannot contain '..'"
    );
    assert!(validate_relative_components(&relative(vec![name("a")])).is_ok());
    let absolute = PathReading { is_absolute: true, components: vec![drive(), PathComponent::RootDir] };
    assert_eq!(
        validate_relative_components(&absolute).unwrap_err().message,
        "Path must be relative"
    );
    assert!(parent_dir(&absolute).is_none());
    let path = resolve_relative_path(&absolute, &relative(vec![PathComponent::CurDir, name("a")])).unwrap();
    assert_eq!(
        described(&path),
        (true, vec!["prefix C:".to_string(), "/".to_string(), "=a".to_string()])
    );
    let other = PathReading { is_absolute: true, components: vec![PathComponent::Prefix("D:".to_string())] };
    assert!(path_starts_with(&path, &absolute));
    assert!(!path_starts_with(&path, &other));
}

#[test]
fn places_are_reached_over_names() {
    let place = EntryPath::at("/ws").enter("a").enter("b");
    assert_eq!((place.base.as_str(), place.names.clone()), ("/ws", vec!["a".to_string(), "b".to_string()]));
    assert_eq!(place.dir().names, vec!["a".to_string()]);
    assert_eq!(place.copy().names, place.names);
    let bare = EntryPath::at("/ws").dir();
    assert_eq!((bare.base.as_str(), bare.names.len()), ("/ws", 0));
    assert_eq!(entry_names(&read_posix_path("/x/../y/./z").components), vec!["x", "y", "z"]);
}

#[test]
fn resolved_paths_must_lie_in_the_resolved_root() {
    let ok = |s: &str| -> Result<PathReading, String> { Ok(read_posix_path(s)) };
    let err = |s: &str| -> Result<PathReading, String> { Err(s.to_string()) };
    assert!(ensure_inside_root(ok("/ws"), ok("/ws")).is_ok());
    assert!(ensure_inside_root(ok("/ws"), ok("/ws/a/b")).is_ok());
    let e = ensure_inside_root(ok("/ws"), ok("/ws2/a")).unwrap_err();
    assert_eq!(e.message, "Resolved path escapes workspace root");
    assert_eq!(e.code, AppErrorCode::InvalidInput);
    let e = ensure_inside_root(err("no root"), err("no target")).unwrap_err();
    assert_eq!((e.code, e.message.as_str()), (AppErrorCode::Os, "no root"));
    let e = ensure_inside_root(ok("/ws"), err("no target")).unwrap_err();
    assert_eq!((e.code, e.message.as_str()), (AppErrorCode::Os, "no target"));
}
