use std::path::Path;

use toolchain_bench::paths::{is_absolute_path, join_path};

fn std_join(base: &str, rel: &str) -> String {
    Path::new(base).join(rel).to_str().unwrap().to_string()
}

#[test]
fn absolute_paths_start_at_the_root() {
    assert!(is_absolute_path("/"));
    assert!(is_absolute_path("/usr/lib"));
    assert!(!is_absolute_path(""));
    assert!(!is_absolute_path("usr/lib"));
    assert!(!is_absolute_path("./usr"));
    assert!(!is_absolute_path("a/"));
}

#[test]
fn absolute_paths_agree_with_std() {
    for p in ["", "/", "a", "/a", "a/b", "//a", "./a", "../a", " /a"] {
        assert_eq!(is_absolute_path(p), Path::new(p).is_absolute(), "{:?}", p);
    }
}

#[test]
fn join_puts_one_separator_between() {
    assert_eq!(join_path("/work", "build"), "/work/build");
    assert_eq!(join_path("work", "build/x"), "work/build/x");
}

#[test]
fn join_adds_no_separator_after_one() {
    assert_eq!(join_path("/work/", "build"), "/work/build");
    assert_eq!(join_path("/", "build"), "/build");
}

#[test]
fn join_onto_empty_base_is_the_relative_path() {
    assert_eq!(join_path("", "build"), "build");
    assert_eq!(join_path("", ""), "");
}

#[test]
fn join_with_absolute_path_replaces_the_base() {
    assert_eq!(join_path("/work", "/opt/x"), "/opt/x");
    assert_eq!(join_path("", "/opt/x"), "/opt/x");
}

#[test]
fn join_with_empty_relative_path_ends_in_separator() {
    assert_eq!(join_path("/work", ""), "/work/");
    assert_eq!(join_path("/work/", ""), "/work/");
}

#[test]
fn join_agrees_with_std() {
    let bases = ["", "/", "/work", "/work/", "work", "a/b", "a/b/", "/a//"];
    let rels = ["", "x", "x/y", "/x", "/", "target/a_b", "./x", "../x", "x/"];
    for base in bases {
        for rel in rels {
            assert_eq!(join_path(base, rel), std_join(base, rel), "{:?} {:?}", base, rel);
        }
    }
}

#[test]
fn join_keeps_characters_outside_ascii() {
    assert_eq!(join_path("/räum", "größe"), "/räum/größe");
    assert_eq!(join_path("/räum/", "größe"), "/räum/größe");
}
