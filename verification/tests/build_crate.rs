use toolchain_bench::action::Action;
use toolchain_bench::build_crate::{
    build_crate_for_all_profile, build_crate_step, Artifact, BuildStep,
};
use toolchain_bench::config::{
    Config, CrateOpt, EnvVar, GlobalConfig, Profile, ToolchainConfig,
};
use toolchain_bench::error::Error;

fn var(name: &str, value: &str) -> EnvVar {
    EnvVar { name: name.to_string(), value: value.to_string() }
}

fn toolchain(name: &str, profiles: &[&str]) -> ToolchainConfig {
    ToolchainConfig {
        name: name.to_string(),
        patches: vec![],
        rust_rev: None,
        profiles: profiles.iter().map(|p| p.to_string()).collect(),
    }
}

fn profile(name: &str, flags: &str) -> Profile {
    Profile { name: name.to_string(), environ: vec![var("RUSTFLAGS", flags)] }
}

fn krate(git: Option<&str>, path: Option<&str>) -> CrateOpt {
    CrateOpt {
        name: "app".to_string(),
        git: git.map(|s| s.to_string()),
        path: path.map(|s| s.to_string()),
        build_cmd: None,
        output_path: "release/app".to_string(),
        runs: vec![],
    }
}

fn config(toolchains: Vec<ToolchainConfig>) -> Config {
    Config {
        global: GlobalConfig {
            project_root: "/proj".to_string(),
            rust_repo: "rust".to_string(),
            rust_rev: "abc".to_string(),
            toolchains_root: "toolchains".to_string(),
            patch_root: "patches".to_string(),
            build_root: "build".to_string(),
        },
        toolchains,
        profiles: vec![profile("debug", "-g"), profile("release", "-O")],
        crates: vec![],
    }
}

fn make_dir() -> Action {
    Action::MakeDir { path: "/proj/build".to_string() }
}

fn clone_of(url: &str) -> Action {
    Action::GitClone {
        from_dir: Some("/proj/build".to_string()),
        url: url.to_string(),
        dest: "app".to_string(),
    }
}

fn copy_of(path: &str) -> Action {
    Action::CopyDir {
        cwd: "/proj/build".to_string(),
        path: path.to_string(),
        dest: "app".to_string(),
    }
}

fn fetches(step: &BuildStep) -> Vec<Action> {
    step.actions
        .iter()
        .filter(|a| matches!(a, Action::GitClone { .. } | Action::CopyDir { .. }))
        .cloned()
        .collect()
}

fn environ_of(step: &BuildStep) -> Vec<EnvVar> {
    match &step.actions[step.actions.len() - 2] {
        Action::Build { environ, .. } => environ.clone(),
        other => panic!("no build but {:?}", other),
    }
}

#[test]
fn build_step_of_a_program_that_is_cloned() {
    let c = config(vec![toolchain("patched", &["release"])]);
    let k = krate(Some("https://example.org/app.git"), None);
    let step = build_crate_step(&k, &c.toolchains[0], &c.profiles[1], &c, false).unwrap();
    assert_eq!(
        step,
        BuildStep {
            actions: vec![
                make_dir(),
                clone_of("https://example.org/app.git"),
                Action::Build {
                    workspace: "/proj/build/app".to_string(),
                    environ: vec![
                        var("RUSTFLAGS", "-O"),
                        var("CARGO_TARGET_DIR", "/proj/build/app/target/patched_release"),
                        var("RUSTUP_TOOLCHAIN", "patched"),
                    ],
                    cmd: "cargo build --release".to_string(),
                },
                Action::Strip {
                    path: "/proj/build/app/target/patched_release/release/app".to_string(),
                },
            ],
            artifact: Artifact {
                toolchain: "patched".to_string(),
                profile: "release".to_string(),
                crate_name: "app".to_string(),
                output_path: "/proj/build/app/target/patched_release/release/app".to_string(),
            },
        }
    );
}

#[test]
fn build_step_copies_a_local_program() {
    let c = config(vec![toolchain("t", &["debug"])]);
    let k = krate(None, Some("/src/app"));
    let step = build_crate_step(&k, &c.toolchains[0], &c.profiles[0], &c, false).unwrap();
    assert_eq!(step.actions.len(), 4);
    assert_eq!(step.actions[0], make_dir());
    assert_eq!(step.actions[1], copy_of("/src/app"));
}

#[test]
fn build_step_prefers_the_repository_to_the_local_path() {
    let c = config(vec![toolchain("t", &["debug"])]);
    let k = krate(Some("url"), Some("/src/app"));
    let step = build_crate_step(&k, &c.toolchains[0], &c.profiles[0], &c, false).unwrap();
    assert_eq!(fetches(&step), vec![clone_of("url")]);
}

#[test]
fn build_step_fetches_nothing_into_a_workspace_that_exists() {
    let c = config(vec![toolchain("t", &["debug"])]);
    let k = krate(Some("url"), Some("/src/app"));
    let step = build_crate_step(&k, &c.toolchains[0], &c.profiles[0], &c, true).unwrap();
    assert_eq!(step.actions.len(), 3);
    assert_eq!(fetches(&step), vec![]);
}

#[test]
fn build_step_without_source_is_a_configuration_error() {
    let c = config(vec![toolchain("t", &["debug"])]);
    let k = krate(None, None);
    let planned = build_crate_step(&k, &c.toolchains[0], &c.profiles[0], &c, false);
    assert_eq!(planned, Err(Error::Config { krate: "app".to_string() }));
}

#[test]
fn build_step_without_source_is_planned_if_the_workspace_exists() {
    let c = config(vec![toolchain("t", &["debug"])]);
    let k = krate(None, None);
    let step = build_crate_step(&k, &c.toolchains[0], &c.profiles[0], &c, true).unwrap();
    assert_eq!(fetches(&step), vec![]);
    assert!(matches!(&step.actions[1], Action::Build { workspace, .. } if workspace == "/proj/build/app"));
}

#[test]
fn build_step_uses_the_programs_own_command() {
    let c = config(vec![toolchain("t", &["debug"])]);
    let mut k = krate(Some("url"), None);
    k.build_cmd = Some("make all".to_string());
    let step = build_crate_step(&k, &c.toolchains[0], &c.profiles[0], &c, true).unwrap();
    assert!(matches!(&step.actions[1], Action::Build { cmd, .. } if cmd == "make all"));
}

#[test]
fn build_step_ends_with_stripping_the_artifact() {
    let c = config(vec![toolchain("t", &["debug"])]);
    let k = krate(Some("url"), None);
    let step = build_crate_step(&k, &c.toolchains[0], &c.profiles[0], &c, false).unwrap();
    assert_eq!(
        step.actions.last(),
        Some(&Action::Strip { path: step.artifact.output_path.clone() })
    );
    assert_eq!(step.artifact.output_path, "/proj/build/app/target/t_debug/release/app");
}

#[test]
fn build_environment_ends_with_the_planned_variables() {
    let c = config(vec![toolchain("t", &["debug"])]);
    let k = krate(Some("url"), None);
    let p = Profile {
        name: "debug".to_string(),
        environ: vec![var("CARGO_TARGET_DIR", "/elsewhere"), var("A", "1"), var("RUSTUP_TOOLCHAIN", "x")],
    };
    let step = build_crate_step(&k, &c.toolchains[0], &p, &c, true).unwrap();
    let environ = environ_of(&step);
    assert_eq!(
        environ,
        vec![
            var("CARGO_TARGET_DIR", "/elsewhere"),
            var("A", "1"),
            var("RUSTUP_TOOLCHAIN", "x"),
            var("CARGO_TARGET_DIR", "/proj/build/app/target/t_debug"),
            var("RUSTUP_TOOLCHAIN", "t"),
        ]
    );
    let mut env = std::collections::HashMap::new();
    for v in environ.iter() {
        env.insert(v.name.clone(), v.value.clone());
    }
    assert_eq!(env["CARGO_TARGET_DIR"], "/proj/build/app/target/t_debug");
    assert_eq!(env["RUSTUP_TOOLCHAIN"], "t");
    assert_eq!(env["A"], "1");
    assert_eq!(env.len(), 3);
}

#[test]
fn all_profiles_plans_one_build_for_each_listed_profile() {
    let c = config(vec![
        toolchain("a", &["debug", "release"]),
        toolchain("b", &[]),
        toolchain("c", &["release"]),
    ]);
    let k = krate(Some("url"), None);
    let steps = build_crate_for_all_profile(&k, &c, true).unwrap();
    let pairs: Vec<(String, String)> = steps
        .iter()
        .map(|s| (s.artifact.toolchain.clone(), s.artifact.profile.clone()))
        .collect();
    assert_eq!(
        pairs,
        vec![
            ("a".to_string(), "debug".to_string()),
            ("a".to_string(), "release".to_string()),
            ("c".to_string(), "release".to_string()),
        ]
    );
}

#[test]
fn all_profiles_builds_a_profile_twice_that_is_listed_twice() {
    let c = config(vec![toolchain("a", &["debug", "release", "debug"])]);
    let k = krate(Some("url"), None);
    let steps = build_crate_for_all_profile(&k, &c, true).unwrap();
    assert_eq!(steps.len(), 3);
    assert_eq!(steps[0], steps[2]);
    assert_eq!(steps[1].artifact.profile, "release");
}

#[test]
fn all_profiles_without_toolchains_plans_nothing() {
    let c = config(vec![]);
    let k = krate(None, None);
    assert_eq!(build_crate_for_all_profile(&k, &c, false), Ok(vec![]));
}

#[test]
fn all_profiles_fetches_in_the_first_build_only() {
    let c = config(vec![toolchain("a", &["debug", "release"]), toolchain("b", &["debug"])]);
    let k = krate(None, Some("/src/app"));
    let steps = build_crate_for_all_profile(&k, &c, false).unwrap();
    assert_eq!(steps.len(), 3);
    assert_eq!(fetches(&steps[0]), vec![copy_of("/src/app")]);
    assert_eq!(fetches(&steps[1]), vec![]);
    assert_eq!(fetches(&steps[2]), vec![]);
}

#[test]
fn all_profiles_steps_are_those_of_build_crate_step() {
    let c = config(vec![toolchain("a", &["release", "debug"])]);
    let k = krate(Some("url"), None);
    let steps = build_crate_for_all_profile(&k, &c, false).unwrap();
    let first = build_crate_step(&k, &c.toolchains[0], &c.profiles[1], &c, false).unwrap();
    let second = build_crate_step(&k, &c.toolchains[0], &c.profiles[0], &c, true).unwrap();
    assert_eq!(steps, vec![first, second]);
}

#[test]
fn all_profiles_with_unknown_profile_is_a_lookup_error() {
    let c = config(vec![toolchain("a", &["debug", "bench"]), toolchain("b", &["nope"])]);
    let k = krate(Some("url"), None);
    assert_eq!(
        build_crate_for_all_profile(&k, &c, true),
        Err(Error::Lookup { name: "bench".to_string() })
    );
}

#[test]
fn program_without_source_fails_before_anything_is_planned() {
    let mut c = config(vec![toolchain("a", &["debug", "release"])]);
    let k = krate(None, None);
    c.crates = vec![k.clone()];
    assert_eq!(
        build_crate_for_all_profile(&c.crates[0], &c, false),
        Err(Error::Config { krate: "app".to_string() })
    );
}

#[test]
fn unknown_first_profile_is_reported_before_the_missing_source() {
    let c = config(vec![toolchain("a", &["bench", "debug"])]);
    let k = krate(None, None);
    assert_eq!(
        build_crate_for_all_profile(&k, &c, false),
        Err(Error::Lookup { name: "bench".to_string() })
    );
}

#[test]
fn missing_source_is_reported_before_a_later_unknown_profile() {
    let c = config(vec![toolchain("a", &["debug", "bench"])]);
    let k = krate(None, None);
    assert_eq!(
        build_crate_for_all_profile(&k, &c, false),
        Err(Error::Config { krate: "app".to_string() })
    );
}

#[test]
fn profile_names_resolve_to_the_first_profile_of_the_name() {
    let mut c = config(vec![toolchain("a", &["debug"])]);
    c.profiles.push(profile("debug", "-other"));
    let k = krate(Some("url"), None);
    let steps = build_crate_for_all_profile(&k, &c, true).unwrap();
    assert_eq!(environ_of(&steps[0])[0], var("RUSTFLAGS", "-g"));
}
