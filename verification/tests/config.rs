use toolchain_bench::config::{
    Config, CrateOpt, EnvVar, GlobalConfig, Profile, Run, ToolchainConfig,
};
use toolchain_bench::error::Error;

fn global(root: &str) -> GlobalConfig {
    GlobalConfig {
        project_root: root.to_string(),
        rust_repo: "rust".to_string(),
        rust_rev: "abc123".to_string(),
        toolchains_root: "toolchains".to_string(),
        patch_root: "patches".to_string(),
        build_root: "build".to_string(),
    }
}

fn profile(name: &str) -> Profile {
    Profile {
        name: name.to_string(),
        environ: vec![EnvVar { name: "RUSTFLAGS".to_string(), value: name.to_string() }],
    }
}

fn krate(name: &str) -> CrateOpt {
    CrateOpt {
        name: name.to_string(),
        git: None,
        path: Some("/src".to_string()),
        build_cmd: None,
        output_path: "release/bin".to_string(),
        runs: vec![Run { name: "r".to_string(), count: 1, args: vec![] }],
    }
}

fn config() -> Config {
    Config {
        global: global("/proj"),
        toolchains: vec![ToolchainConfig {
            name: "base".to_string(),
            patches: vec![],
            rust_rev: None,
            profiles: vec!["release".to_string()],
        }],
        profiles: vec![profile("debug"), profile("release"), profile("debug")],
        crates: vec![krate("one"), krate("two"), krate("one")],
    }
}

#[test]
fn relative_paths_are_joined_to_the_project_root() {
    let g = global("/proj");
    assert_eq!(g.rust_repo(), "/proj/rust");
    assert_eq!(g.toolchains_root(), "/proj/toolchains");
    assert_eq!(g.patches_root(), "/proj/patches");
    assert_eq!(g.build_root(), "/proj/build");
    assert_eq!(g.to_absolute_path("x/y"), "/proj/x/y");
}

#[test]
fn absolute_paths_are_used_as_they_are() {
    let mut g = global("/proj");
    g.rust_repo = "/src/rust".to_string();
    g.toolchains_root = "/opt/toolchains".to_string();
    g.patch_root = "/opt/patches".to_string();
    g.build_root = "/tmp/build".to_string();
    assert_eq!(g.rust_repo(), "/src/rust");
    assert_eq!(g.toolchains_root(), "/opt/toolchains");
    assert_eq!(g.patches_root(), "/opt/patches");
    assert_eq!(g.build_root(), "/tmp/build");
    assert_eq!(g.to_absolute_path("/x/y"), "/x/y");
}

#[test]
fn project_root_with_trailing_separator() {
    let g = global("/proj/");
    assert_eq!(g.build_root(), "/proj/build");
}

#[test]
fn empty_project_root_becomes_the_parent_directory() {
    let mut c = config();
    c.global.project_root = String::new();
    let c = c.with_default_root("/home/me/bench");
    assert_eq!(c.global.project_root, "/home/me/bench");
    assert_eq!(c.global.build_root(), "/home/me/bench/build");
}

#[test]
fn set_project_root_is_kept() {
    let before = config();
    let after = config().with_default_root("/home/me/bench");
    assert_eq!(after, before);
}

#[test]
fn find_profile_gives_the_first_of_the_name() {
    let c = config();
    assert_eq!(c.find_profile("debug"), Some(0));
    assert_eq!(c.find_profile("release"), Some(1));
}

#[test]
fn find_profile_of_unknown_name_is_none() {
    let c = config();
    assert_eq!(c.find_profile("bench"), None);
    assert_eq!(c.find_profile(""), None);
    assert_eq!(c.find_profile("Debug"), None);
}

#[test]
fn find_crate_gives_the_first_of_the_name() {
    let c = config();
    assert_eq!(c.find_crate("one"), Ok(0));
    assert_eq!(c.find_crate("two"), Ok(1));
}

#[test]
fn find_crate_of_unknown_name_is_a_lookup_error() {
    let c = config();
    assert_eq!(c.find_crate("three"), Err(Error::Lookup { name: "three".to_string() }));
}

#[test]
fn select_crates_without_a_name_takes_all() {
    let c = config();
    assert_eq!(c.select_crates(None), vec![0, 1, 2]);
}

#[test]
fn select_crates_with_a_name_takes_all_of_that_name() {
    let c = config();
    assert_eq!(c.select_crates(Some("one")), vec![0, 2]);
    assert_eq!(c.select_crates(Some("two")), vec![1]);
    assert_eq!(c.select_crates(Some("three")), Vec::<usize>::new());
}
