use toolchain_bench::action::Action;
use toolchain_bench::build_toolchain::{build_toolchain, ToolChainOpts};
use toolchain_bench::config::{GlobalConfig, ToolchainConfig};

fn opts(force: bool) -> ToolChainOpts {
    ToolChainOpts {
        name: "patched".to_string(),
        rust_rev: "abc123".to_string(),
        patches: vec!["one.patch".to_string(), "two.patch".to_string()],
        patch_folder: "/proj/patches".to_string(),
        toolchains_root: "/proj/toolchains".to_string(),
        force,
    }
}

fn global() -> GlobalConfig {
    GlobalConfig {
        project_root: "/proj".to_string(),
        rust_repo: "rust".to_string(),
        rust_rev: "global-rev".to_string(),
        toolchains_root: "toolchains".to_string(),
        patch_root: "patches".to_string(),
        build_root: "build".to_string(),
    }
}

const EXPECTED_CONFIG: &str = r#"
# Includes one of the default files in src/bootstrap/defaults
profile = "user"
changelog-seen = 2

[install]
prefix = "/proj/toolchains/patched"
sysconfdir = "etc"

[build]
docs = false
extended = true
tools = ["cargo", "src"]

[rust]
description = "patched+abc123"
"#;

fn repo() -> String {
    "/proj/rust".to_string()
}

fn link() -> Action {
    Action::Link { name: "patched".to_string(), folder: "/proj/toolchains/patched".to_string() }
}

fn installs(actions: &[Action]) -> usize {
    actions.iter().filter(|a| matches!(a, Action::Install { .. })).count()
}

#[test]
fn toolchain_without_marker_is_installed_and_linked() {
    let actions = build_toolchain("/proj/rust", &opts(false), false);
    assert_eq!(
        actions,
        vec![
            Action::Reset { repo: repo(), rev: "abc123".to_string() },
            Action::ApplyPatch { repo: repo(), file: "/proj/patches/one.patch".to_string() },
            Action::ApplyPatch { repo: repo(), file: "/proj/patches/two.patch".to_string() },
            Action::WriteFile {
                path: "/proj/rust/config.toml".to_string(),
                content: EXPECTED_CONFIG.to_string(),
            },
            Action::Install { repo: repo() },
            link(),
        ]
    );
}

#[test]
fn toolchain_with_marker_is_only_linked() {
    assert_eq!(build_toolchain("/proj/rust", &opts(false), true), vec![link()]);
}

#[test]
fn toolchain_build_is_idempotent() {
    let o = opts(false);
    let first = build_toolchain("/proj/rust", &o, false);
    let second = build_toolchain("/proj/rust", &o, true);
    let third = build_toolchain("/proj/rust", &o, true);
    assert_eq!(installs(&first) + installs(&second) + installs(&third), 1);
    assert_eq!(installs(&first), 1);
    assert_eq!(second, vec![link()]);
    assert_eq!(second, third);
    assert_eq!(first.last(), second.last());
}

#[test]
fn forced_toolchain_is_installed_again() {
    let forced = build_toolchain("/proj/rust", &opts(true), true);
    let fresh = build_toolchain("/proj/rust", &opts(false), false);
    assert_eq!(installs(&forced), 1);
    assert_eq!(forced, fresh);
}

#[test]
fn toolchain_without_patches_applies_none() {
    let mut o = opts(false);
    o.patches = vec![];
    let actions = build_toolchain("/proj/rust", &o, false);
    assert_eq!(actions.len(), 4);
    assert_eq!(actions[0], Action::Reset { repo: repo(), rev: "abc123".to_string() });
    assert!(matches!(actions[1], Action::WriteFile { .. }));
    assert_eq!(actions[2], Action::Install { repo: repo() });
    assert_eq!(actions[3], link());
}

#[test]
fn patches_keep_their_declared_order() {
    let mut o = opts(false);
    o.patches = vec!["z".to_string(), "a".to_string(), "/abs/m".to_string()];
    let actions = build_toolchain("/proj/rust", &o, false);
    assert_eq!(
        actions[1..4].to_vec(),
        vec![
            Action::ApplyPatch { repo: repo(), file: "/proj/patches/z".to_string() },
            Action::ApplyPatch { repo: repo(), file: "/proj/patches/a".to_string() },
            Action::ApplyPatch { repo: repo(), file: "/abs/m".to_string() },
        ]
    );
}

#[test]
fn marker_is_the_compiler_binary() {
    assert_eq!(opts(false).marker_path(), "/proj/toolchains/patched/bin/rustc");
    assert_eq!(opts(false).folder(), "/proj/toolchains/patched");
}

#[test]
fn options_take_the_global_revision_by_default() {
    let t = ToolchainConfig {
        name: "t".to_string(),
        patches: vec!["p".to_string()],
        rust_rev: None,
        profiles: vec![],
    };
    let o = ToolChainOpts::new(&t, &global(), false);
    assert_eq!(
        o,
        ToolChainOpts {
            name: "t".to_string(),
            rust_rev: "global-rev".to_string(),
            patches: vec!["p".to_string()],
            patch_folder: "/proj/patches".to_string(),
            toolchains_root: "/proj/toolchains".to_string(),
            force: false,
        }
    );
}

#[test]
fn options_take_the_toolchains_own_revision() {
    let t = ToolchainConfig {
        name: "t".to_string(),
        patches: vec![],
        rust_rev: Some("own-rev".to_string()),
        profiles: vec![],
    };
    let o = ToolChainOpts::new(&t, &global(), true);
    assert_eq!(o.rust_rev, "own-rev");
    assert!(o.force);
}
