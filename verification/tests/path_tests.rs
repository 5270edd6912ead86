use epiphyte::path::{
    components_of, path_eq, path_file_name, path_first_below, path_join, path_parent,
    path_starts_with,
};
use std::path::{Component, Path};

fn owned(items: &[&str]) -> Vec<String> {
    items.iter().map(|s| s.to_string()).collect()
}

fn std_components(p: &str) -> Vec<String> {
    Path::new(p)
        .components()
        .map(|c| match c {
            Component::RootDir => "/".to_string(),
            other => other.as_os_str().to_string_lossy().to_string(),
        })
        .collect()
}

const SAMPLES: [&str; 30] = [
    "",
    "/",
    "//",
    ".",
    "./",
    "..",
    "../",
    "a",
    "a/",
    "a/b",
    "a//b",
    "a/./b",
    "a/b/.",
    "./a",
    "./a/./b/",
    "../a",
    "a/..",
    "a/../b",
    "/a",
    "/a/",
    "/a/b",
    "/a//b/",
    "/./a",
    "/../a",
    "/a/.",
    "/repo",
    "/repo/.epi/trees",
    "/repo/.epi/trees/feature-a",
    "/repo/.epi/trees-old/feature-a",
    "/repo/../sibling",
];

#[test]
fn components_drop_empty_and_inner_dot_pieces() {
    assert_eq!(components_of("/a//b/./c/"), owned(&["/", "a", "b", "c"]));
    assert_eq!(components_of("./a"), owned(&[".", "a"]));
    assert_eq!(components_of("a/.."), owned(&["a", ".."]));
    assert_eq!(components_of(""), Vec::<String>::new());
    assert_eq!(components_of("/"), owned(&["/"]));
}

#[test]
fn components_agree_with_the_standard_library() {
    for p in SAMPLES {
        assert_eq!(components_of(p), std_components(p), "components of {:?}", p);
    }
}

#[test]
fn starts_with_is_by_whole_components() {
    assert!(path_starts_with("/etc/passwd", "/etc"));
    assert!(path_starts_with("/etc/passwd", "/etc/"));
    assert!(path_starts_with("/etc/passwd", "/etc/passwd"));
    assert!(path_starts_with("/etc/passwd", "/etc/passwd/"));
    assert!(path_starts_with("/etc/passwd", "/etc/passwd///"));
    assert!(!path_starts_with("/etc/passwd", "/e"));
    assert!(!path_starts_with("/etc/passwd", "/etc/passwd.txt"));
    assert!(!path_starts_with("/etc/foo.rs", "/etc/foo"));
    assert!(!path_starts_with("/repo/.epi/trees-old/x", "/repo/.epi/trees"));
}

#[test]
fn starts_with_agrees_with_the_standard_library() {
    for p in SAMPLES {
        for base in SAMPLES {
            assert_eq!(
                path_starts_with(p, base),
                Path::new(p).starts_with(Path::new(base)),
                "{:?} under {:?}",
                p,
                base
            );
        }
    }
}

#[test]
fn path_eq_agrees_with_the_standard_library() {
    assert!(path_eq("/repo/", "/repo"));
    assert!(path_eq("/repo/./x", "/repo//x"));
    assert!(!path_eq("/repo", "/repo/x"));
    assert!(!path_eq("repo", "/repo"));
    for p in SAMPLES {
        for q in SAMPLES {
            assert_eq!(path_eq(p, q), Path::new(p) == Path::new(q), "{:?} and {:?}", p, q);
        }
    }
}

#[test]
fn file_name_is_the_last_named_component() {
    assert_eq!(path_file_name("/repo/.epi/trees/feature-a"), Some("feature-a".to_string()));
    assert_eq!(path_file_name("/repo/.epi/trees/feature-a/"), Some("feature-a".to_string()));
    assert_eq!(path_file_name("foo.txt/."), Some("foo.txt".to_string()));
    assert_eq!(path_file_name("/"), None);
    assert_eq!(path_file_name(""), None);
    assert_eq!(path_file_name("a/.."), None);
    assert_eq!(path_file_name("."), None);
}

#[test]
fn file_name_agrees_with_the_standard_library() {
    for p in SAMPLES {
        let expected = Path::new(p).file_name().map(|n| n.to_string_lossy().to_string());
        assert_eq!(path_file_name(p), expected, "file name of {:?}", p);
    }
}

#[test]
fn join_puts_one_slash_between() {
    assert_eq!(path_join("/repo", ".epi"), "/repo/.epi");
    assert_eq!(path_join("/repo/", ".epi"), "/repo/.epi");
    assert_eq!(path_join("/repo", "/etc"), "/etc");
    assert_eq!(path_join("", "a"), "a");
    assert_eq!(path_join("a", ""), "a/");
    assert_eq!(path_join("/", "a"), "/a");
}

#[test]
fn join_agrees_with_the_standard_library() {
    for base in SAMPLES {
        for rel in SAMPLES {
            let expected = Path::new(base).join(rel).to_string_lossy().to_string();
            assert_eq!(path_join(base, rel), expected, "{:?} joined with {:?}", base, rel);
        }
    }
}

#[test]
fn first_below_names_the_next_component() {
    assert_eq!(
        path_first_below("/repo/.epi/trees/feature-a/src/lib", "/repo/.epi/trees"),
        Some("feature-a".to_string())
    );
    assert_eq!(path_first_below("/repo/.epi/trees", "/repo/.epi/trees"), None);
    assert_eq!(path_first_below("/repo/src", "/repo/.epi/trees"), None);
    assert_eq!(path_first_below("/repo/.epi/trees/../x", "/repo/.epi/trees"), Some("..".to_string()));
}

#[test]
fn first_below_agrees_with_the_standard_library() {
    for p in SAMPLES {
        for base in SAMPLES {
            let expected = match Path::new(p).strip_prefix(Path::new(base)) {
                Ok(rest) => {
                    rest.components().next().map(|c| c.as_os_str().to_string_lossy().to_string())
                }
                Err(_) => None,
            };
            assert_eq!(path_first_below(p, base), expected, "{:?} below {:?}", p, base);
        }
    }
}

#[test]
fn parent_drops_the_last_component() {
    assert_eq!(path_parent("/repo/.epi/trees/a/.env"), Some("/repo/.epi/trees/a".to_string()));
    assert_eq!(path_parent("/a"), Some("/".to_string()));
    assert_eq!(path_parent("a"), Some(String::new()));
    assert_eq!(path_parent("a/b/"), Some("a".to_string()));
    assert_eq!(path_parent("/"), None);
    assert_eq!(path_parent(""), None);
}

#[test]
fn parent_names_the_same_place_as_the_standard_library() {
    for p in SAMPLES {
        let expected = Path::new(p).parent();
        let got = path_parent(p);
        assert_eq!(got.is_some(), expected.is_some(), "parent of {:?}", p);
        if let (Some(mine), Some(theirs)) = (got, expected) {
            assert_eq!(Path::new(&mine), theirs, "parent of {:?}", p);
        }
    }
}
