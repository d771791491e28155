use toolchain_bench::build_crate::build_crate_for_all_profile;
use toolchain_bench::config::{
    Config, CrateOpt, GlobalConfig, Profile, Run, ToolchainConfig,
};
use toolchain_bench::error::Error;
use toolchain_bench::run::{
    run_cmd_step, run_cmds, Invocation, OneRunResult, RunOutcome, RunStep,
};

fn toolchain(name: &str, profiles: &[&str]) -> ToolchainConfig {
    ToolchainConfig {
        name: name.to_string(),
        patches: vec![],
        rust_rev: None,
        profiles: profiles.iter().map(|p| p.to_string()).collect(),
    }
}

fn profile(name: &str) -> Profile {
    Profile { name: name.to_string(), environ: vec![] }
}

fn run(name: &str, count: u64, args: &[&str]) -> Run {
    Run { name: name.to_string(), count, args: args.iter().map(|a| a.to_string()).collect() }
}

fn krate(runs: Vec<Run>) -> CrateOpt {
    CrateOpt {
        name: "app".to_string(),
        git: None,
        path: None,
        build_cmd: None,
        output_path: "release/app".to_string(),
        runs,
    }
}

fn config(toolchains: Vec<ToolchainConfig>) -> Config {
    Config {
        global: GlobalConfig {
            project_root: "/proj".to_string(),
            rust_repo: "rust".to_string(),
            rust_rev: "abc".to_string(),
            toolchains_root: "toolchains".to_string(),
            patch_root: "patches".to_string(),
            build_root: "build".to_string(),
        },
        toolchains,
        profiles: vec![profile("debug"), profile("release")],
        crates: vec![],
    }
}

fn invocation(cmd: &str, args: &[&str]) -> Invocation {
    Invocation { cmd: cmd.to_string(), args: args.iter().map(|a| a.to_string()).collect() }
}

#[test]
fn run_step_repeats_each_run_as_often_as_its_count() {
    let c = config(vec![toolchain("t", &["release"])]);
    let k = krate(vec![run("fast", 2, &["--quick"]), run("none", 0, &["x"]), run("slow", 1, &["a", "b"])]);
    let step = run_cmd_step(&k, &c.toolchains[0], &c.profiles[1], &c);
    assert_eq!(
        step,
        RunStep {
            krate: "app".to_string(),
            toolchain: "t".to_string(),
            profile: "release".to_string(),
            program: "/proj/build/app/target/t_release/release/app".to_string(),
            invocations: vec![
                invocation("fast", &["--quick"]),
                invocation("fast", &["--quick"]),
                invocation("slow", &["a", "b"]),
            ],
        }
    );
}

#[test]
fn run_step_of_a_program_without_runs_starts_nothing() {
    let c = config(vec![toolchain("t", &["release"])]);
    let step = run_cmd_step(&krate(vec![]), &c.toolchains[0], &c.profiles[1], &c);
    assert_eq!(step.invocations, vec![]);
    assert_eq!(step.program, "/proj/build/app/target/t_release/release/app");
}

#[test]
fn run_cmds_plans_every_pair_in_declared_order() {
    let c = config(vec![toolchain("b", &["release", "debug"]), toolchain("a", &["debug"])]);
    let k = krate(vec![run("r", 1, &[])]);
    let steps = run_cmds(None, &c, &k).unwrap();
    let pairs: Vec<(&str, &str)> =
        steps.iter().map(|s| (s.toolchain.as_str(), s.profile.as_str())).collect();
    assert_eq!(pairs, vec![("b", "release"), ("b", "debug"), ("a", "debug")]);
    assert_eq!(steps[1], run_cmd_step(&k, &c.toolchains[0], &c.profiles[0], &c));
}

#[test]
fn run_cmds_with_a_profile_runs_only_that_profile() {
    let c = config(vec![toolchain("b", &["release", "debug"]), toolchain("a", &["debug"])]);
    let k = krate(vec![run("r", 1, &[])]);
    let steps = run_cmds(Some("debug"), &c, &k).unwrap();
    let pairs: Vec<(&str, &str)> =
        steps.iter().map(|s| (s.toolchain.as_str(), s.profile.as_str())).collect();
    assert_eq!(pairs, vec![("b", "debug"), ("a", "debug")]);
}

#[test]
fn run_cmds_with_a_profile_that_nothing_lists_plans_nothing() {
    let c = config(vec![toolchain("b", &["release", "debug"])]);
    let k = krate(vec![run("r", 1, &[])]);
    assert_eq!(run_cmds(Some("bench"), &c, &k), Ok(vec![]));
}

#[test]
fn run_cmds_with_unknown_profile_is_a_lookup_error() {
    let c = config(vec![toolchain("b", &["release", "bench", "nope"])]);
    let k = krate(vec![run("r", 1, &[])]);
    assert_eq!(run_cmds(None, &c, &k), Err(Error::Lookup { name: "bench".to_string() }));
}

#[test]
fn run_cmds_ignores_unknown_profiles_that_are_filtered_out() {
    let c = config(vec![toolchain("b", &["bench", "release"])]);
    let k = krate(vec![run("r", 1, &[])]);
    let steps = run_cmds(Some("release"), &c, &k).unwrap();
    assert_eq!(steps.len(), 1);
    assert_eq!(run_cmds(Some("bench"), &c, &k), Err(Error::Lookup { name: "bench".to_string() }));
}

#[test]
fn result_carries_the_names_the_size_and_the_duration() {
    let c = config(vec![toolchain("t", &["release"])]);
    let k = krate(vec![run("fast", 1, &[])]);
    let step = run_cmd_step(&k, &c.toolchains[0], &c.profiles[1], &c);
    let one = step.result(&step.invocations[0], 4096, RunOutcome { duration_ms: 17, success: true });
    assert_eq!(
        one,
        OneRunResult {
            krate: "app".to_string(),
            toolchain: "t".to_string(),
            profile: "release".to_string(),
            cmd: "fast".to_string(),
            binary_size: 4096,
            duration_ms: 17,
        }
    );
}

#[test]
fn failed_invocation_still_gives_a_result() {
    let c = config(vec![toolchain("t", &["release"])]);
    let k = krate(vec![run("fast", 1, &[])]);
    let step = run_cmd_step(&k, &c.toolchains[0], &c.profiles[1], &c);
    let failed = step.result(&step.invocations[0], 1, RunOutcome { duration_ms: 250, success: false });
    let passed = step.result(&step.invocations[0], 1, RunOutcome { duration_ms: 250, success: true });
    assert_eq!(failed.duration_ms, 250);
    assert_eq!(failed, passed);
}

#[test]
fn runs_start_the_binaries_that_the_builds_leave() {
    let c = config(vec![toolchain("b", &["release", "debug"]), toolchain("a", &["debug"])]);
    let k = krate(vec![run("r", 1, &[])]);
    let builds = build_crate_for_all_profile(&k, &c, true).unwrap();
    let runs = run_cmds(None, &c, &k).unwrap();
    assert_eq!(builds.len(), runs.len());
    for (build, run) in builds.iter().zip(runs.iter()) {
        assert_eq!(build.artifact.output_path, run.program);
        assert_eq!(build.artifact.toolchain, run.toolchain);
        assert_eq!(build.artifact.profile, run.profile);
    }
}

#[test]
fn results_of_a_step_share_the_size_and_keep_the_order() {
    let c = config(vec![toolchain("t", &["release"])]);
    let k = krate(vec![run("fast", 2, &[]), run("slow", 1, &[])]);
    let step = run_cmd_step(&k, &c.toolchains[0], &c.profiles[1], &c);
    let outcomes = vec![
        RunOutcome { duration_ms: 5, success: true },
        RunOutcome { duration_ms: 7, success: false },
        RunOutcome { duration_ms: 900, success: true },
    ];
    let all = step.results(2048, &outcomes);
    let seen: Vec<(&str, u64, u64)> =
        all.iter().map(|r| (r.cmd.as_str(), r.binary_size, r.duration_ms)).collect();
    assert_eq!(seen, vec![("fast", 2048, 5), ("fast", 2048, 7), ("slow", 2048, 900)]);
    for (i, one) in all.iter().enumerate() {
        assert_eq!(*one, step.result(&step.invocations[i], 2048, outcomes[i]));
    }
}

#[test]
fn results_stop_where_the_outcomes_or_the_invocations_end() {
    let c = config(vec![toolchain("t", &["release"])]);
    let k = krate(vec![run("fast", 2, &[])]);
    let step = run_cmd_step(&k, &c.toolchains[0], &c.profiles[1], &c);
    let outcome = RunOutcome { duration_ms: 5, success: true };
    assert_eq!(step.results(1, &vec![]).len(), 0);
    assert_eq!(step.results(1, &vec![outcome]).len(), 1);
    assert_eq!(step.results(1, &vec![outcome, outcome, outcome]).len(), 2);
}
