//! Building one program under every toolchain and profile.
//!
//! The functions here plan a build: they say which directory to create, how
//! to fetch the sources, which command to run in which environment, and what
//! artifact comes out. The caller carries the actions out in order.

use vstd::prelude::*;
use vstd::string::*;
use crate::action::{Action, ActionView};
use crate::config::{
    is_named, lemma_first_place, lemma_pair_count_step, lemma_pairs_index, lemma_pairs_len,
    pair_count, pairs, Config, CrateOpt, EnvVar, Profile, ToolchainConfig,
};
use crate::error::{Error, ErrorView};
use crate::paths::{join, join_path};
use crate::utils::{crate_folder, crate_folder_path, target_folder, target_folder_path};

verus! {

/// The binary that one build of a program leaves behind.
#[derive(Debug, Clone, PartialEq, Eq)]
pub struct Artifact {
    pub toolchain: String,
    pub profile: String,
    pub crate_name: String,
    pub output_path: String,
}

/// The mathematical value of an [`Artifact`].
pub struct ArtifactView {
    pub toolchain: Seq<char>,
    pub profile: Seq<char>,
    pub crate_name: Seq<char>,
    pub output_path: Seq<char>,
}

impl DeepView for Artifact {
    type V = ArtifactView;

    open spec fn deep_view(&self) -> ArtifactView {
        ArtifactView {
            toolchain: self.toolchain@,
            profile: self.profile@,
            crate_name: self.crate_name@,
            output_path: self.output_path@,
        }
    }
}

/// One build of a program: the actions to carry out in order, and the
/// artifact that is there when the last of them is done.
#[derive(Debug, Clone, PartialEq, Eq)]
pub struct BuildStep {
    pub actions: Vec<Action>,
    pub artifact: Artifact,
}

/// The mathematical value of a [`BuildStep`].
pub struct BuildStepView {
    pub actions: Seq<ActionView>,
    pub artifact: ArtifactView,
}

impl DeepView for BuildStep {
    type V = BuildStepView;

    open spec fn deep_view(&self) -> BuildStepView {
        BuildStepView { actions: self.actions.deep_view(), artifact: self.artifact.deep_view() }
    }
}

/// The variable that tells the build where to put its output.
pub open spec fn target_dir_var() -> Seq<char> {
    "CARGO_TARGET_DIR"@
}

/// The variable that selects the toolchain.
pub open spec fn toolchain_var() -> Seq<char> {
    "RUSTUP_TOOLCHAIN"@
}

/// The command that builds a program which names none of its own.
pub open spec fn default_build_cmd() -> Seq<char> {
    "cargo build --release"@
}

/// The environment of a build: the profile's variables, then the target
/// directory and the toolchain.
pub open spec fn build_environ(
    profile: &Profile,
    target: Seq<char>,
    toolchain: Seq<char>,
) -> Seq<(Seq<char>, Seq<char>)> {
    profile.environ.deep_view().push((target_dir_var(), target)).push((toolchain_var(), toolchain))
}

/// The value that a list of variables gives to `name`: that of the last
/// entry of that name.
pub open spec fn env_value(env: Seq<(Seq<char>, Seq<char>)>, name: Seq<char>) -> Option<Seq<char>>
    decreases env.len(),
{
    if env.len() == 0 {
        None
    } else if env.last().0 == name {
        Some(env.last().1)
    } else {
        env_value(env.drop_last(), name)
    }
}

/// In a build's environment the target directory and the toolchain are the
/// planned ones, whatever the profile says of them, and every other variable
/// is as the profile sets it.
pub proof fn lemma_build_environ_values(
    profile: &Profile,
    target: Seq<char>,
    toolchain: Seq<char>,
    name: Seq<char>,
)
    ensures
        env_value(build_environ(profile, target, toolchain), target_dir_var()) == Some(target),
        env_value(build_environ(profile, target, toolchain), toolchain_var()) == Some(toolchain),
        name != target_dir_var() && name != toolchain_var() ==> env_value(
            build_environ(profile, target, toolchain),
            name,
        ) == env_value(profile.environ.deep_view(), name),
{
    reveal_strlit("CARGO_TARGET_DIR");
    reveal_strlit("RUSTUP_TOOLCHAIN");
    assert(target_dir_var()[0] != toolchain_var()[0]);
    let base = profile.environ.deep_view();
    let mid = base.push((target_dir_var(), target));
    let full = mid.push((toolchain_var(), toolchain));
    assert(full.drop_last() =~= mid);
    assert(mid.drop_last() =~= base);
    assert(env_value(full, toolchain_var()) == Some(toolchain));
    assert(env_value(full, target_dir_var()) == env_value(mid, target_dir_var()));
    if name != target_dir_var() && name != toolchain_var() {
        assert(env_value(full, name) == env_value(mid, name));
        assert(env_value(mid, name) == env_value(base, name));
    }
}

/// The command that builds `k`.
pub open spec fn build_cmd_of(k: &CrateOpt) -> Seq<char> {
    match k.build_cmd {
        Some(cmd) => cmd@,
        None => default_build_cmd(),
    }
}

/// How the sources of `k` get into its workspace: not at all if the
/// workspace is there, else by a clone of the repository, else by a copy of
/// the local directory. Either is made in the build root, into a directory
/// of the program's name.
pub open spec fn fetch_actions(k: &CrateOpt, config: &Config, workspace_exists: bool) -> Seq<
    ActionView,
> {
    let build_root = config.global.build_root_path();
    if workspace_exists {
        Seq::empty()
    } else {
        match (k.git, k.path) {
            (Some(url), _) => seq![
                ActionView::GitClone { from_dir: Some(build_root), url: url@, dest: k.name@ },
            ],
            (None, Some(path)) => seq![
                ActionView::CopyDir { cwd: build_root, path: path@, dest: k.name@ },
            ],
            (None, None) => Seq::empty(),
        }
    }
}

/// The artifact of building `k` under `toolchain` and `profile`.
pub open spec fn artifact_of(
    k: &CrateOpt,
    toolchain: &ToolchainConfig,
    profile: &Profile,
    config: &Config,
) -> ArtifactView {
    ArtifactView {
        toolchain: toolchain.name@,
        profile: profile.name@,
        crate_name: k.name@,
        output_path: join(target_folder_path(k, profile, toolchain, config), k.output_path@),
    }
}

/// The actions of building `k` under `toolchain` and `profile`: make sure
/// that the build root is there; fetch the sources; run the build command in
/// the workspace, with the target directory of this pair; strip the binary.
pub open spec fn build_actions(
    k: &CrateOpt,
    toolchain: &ToolchainConfig,
    profile: &Profile,
    config: &Config,
    workspace_exists: bool,
) -> Seq<ActionView> {
    seq![ActionView::MakeDir { path: config.global.build_root_path() }] + fetch_actions(
        k,
        config,
        workspace_exists,
    ) + seq![
        ActionView::Build {
            workspace: crate_folder_path(k, config),
            environ: build_environ(
                profile,
                target_folder_path(k, profile, toolchain, config),
                toolchain.name@,
            ),
            cmd: build_cmd_of(k),
        },
        ActionView::Strip { path: artifact_of(k, toolchain, profile, config).output_path },
    ]
}

/// The build of `k` under `toolchain` and `profile`.
pub open spec fn build_step_of(
    k: &CrateOpt,
    toolchain: &ToolchainConfig,
    profile: &Profile,
    config: &Config,
    workspace_exists: bool,
) -> BuildStepView {
    BuildStepView {
        actions: build_actions(k, toolchain, profile, config, workspace_exists),
        artifact: artifact_of(k, toolchain, profile, config),
    }
}

/// A copy of a list of variables.
pub fn clone_environ(env: &Vec<EnvVar>) -> (copy: Vec<EnvVar>)
    ensures
        copy@ == env@,
{
    let mut copy: Vec<EnvVar> = Vec::new();
    let mut i: usize = 0;
    while i < env.len()
        invariant
            i <= env@.len(),
            copy@ == env@.take(i as int),
        decreases env@.len() - i,
    {
        let var = EnvVar { name: env[i].name.clone(), value: env[i].value.clone() };
        copy.push(var);
        assert(copy@ =~= env@.take(i + 1));
        i += 1;
    }
    assert(env@.take(env@.len() as int) =~= env@);
    copy
}

/// Plans the build of `krate` under `toolchain` and `profile`.
///
/// `workspace_exists` says whether the program's workspace is on disk. If it
/// is not, the sources are fetched first; a program that names no source
/// cannot be fetched, and nothing is planned for it.
pub fn build_crate_step(
    krate: &CrateOpt,
    toolchain: &ToolchainConfig,
    profile: &Profile,
    config: &Config,
    workspace_exists: bool,
) -> (planned: Result<BuildStep, Error>)
    ensures
        planned is Err <==> !workspace_exists && !krate.has_source(),
        planned matches Err(e) ==> e.deep_view() == (ErrorView::Config { krate: krate.name@ }),
        planned matches Ok(step) ==> step.deep_view() == build_step_of(
            krate,
            toolchain,
            profile,
            config,
            workspace_exists,
        ),
{
    let build_root = config.global.build_root();
    let mut actions: Vec<Action> = Vec::new();
    actions.push(Action::MakeDir { path: config.global.build_root() });
    if !workspace_exists {
        match &krate.git {
            Some(url) => {
                actions.push(
                    Action::GitClone {
                        from_dir: Some(build_root),
                        url: url.clone(),
                        dest: krate.name.clone(),
                    },
                );
            },
            None => match &krate.path {
                Some(path) => {
                    actions.push(
                        Action::CopyDir {
                            cwd: build_root,
                            path: path.clone(),
                            dest: krate.name.clone(),
                        },
                    );
                },
                None => {
                    return Err(Error::Config { krate: krate.name.clone() });
                },
            },
        }
    }
    let target = target_folder(krate, profile, toolchain, config);
    let output_path = join_path(target.as_str(), krate.output_path.as_str());

    let mut environ = clone_environ(&profile.environ);
    environ.push(EnvVar { name: String::from_str("CARGO_TARGET_DIR"), value: target });
    environ.push(EnvVar { name: String::from_str("RUSTUP_TOOLCHAIN"), value: toolchain.name.clone() });
    assert(environ.deep_view() =~= build_environ(
        profile,
        target_folder_path(krate, profile, toolchain, config),
        toolchain.name@,
    ));

    let cmd = match &krate.build_cmd {
        Some(cmd) => cmd.clone(),
        None => String::from_str("cargo build --release"),
    };
    actions.push(Action::Build { workspace: crate_folder(krate, config), environ, cmd });
    actions.push(Action::Strip { path: output_path.clone() });
    assert(actions.deep_view() =~= build_actions(
        krate,
        toolchain,
        profile,
        config,
        workspace_exists,
    ));
    Ok(
        BuildStep {
            actions,
            artifact: Artifact {
                toolchain: toolchain.name.clone(),
                profile: profile.name.clone(),
                crate_name: krate.name.clone(),
                output_path,
            },
        },
    )
}

/// What stops the plan at pair `i`, if all pairs before it went through: a
/// profile name that does not resolve, or, at the first pair, sources that
/// are neither on disk nor can be fetched.
pub open spec fn step_error(
    krate: &CrateOpt,
    config: &Config,
    workspace_exists: bool,
    i: int,
) -> Option<ErrorView> {
    let name = config.pair_profile_name(pairs(config.toolchains@)[i]);
    if !is_named(config.profile_names(), name) {
        Some(ErrorView::Lookup { name })
    } else if i == 0 && !workspace_exists && !krate.has_source() {
        Some(ErrorView::Config { krate: krate.name@ })
    } else {
        None
    }
}

/// Pair `i` is the first that stops the plan, and does so with `error`.
pub open spec fn fails_at(
    krate: &CrateOpt,
    config: &Config,
    workspace_exists: bool,
    i: int,
    error: ErrorView,
) -> bool {
    &&& 0 <= i < pair_count(config.toolchains@)
    &&& step_error(krate, config, workspace_exists, i) == Some(error)
    &&& forall|j: int| 0 <= j < i ==> step_error(krate, config, workspace_exists, j) is None
}

/// The build planned for pair `i`. Only the first build may have to fetch
/// the sources: the later ones find the workspace in place.
pub open spec fn step_of(
    krate: &CrateOpt,
    config: &Config,
    workspace_exists: bool,
    i: int,
) -> BuildStepView {
    let pair = pairs(config.toolchains@)[i];
    build_step_of(
        krate,
        &config.toolchains@[pair.0],
        &config.resolved_profile(config.pair_profile_name(pair)),
        config,
        workspace_exists || i > 0,
    )
}

/// Plans the builds of `krate` under every toolchain and each profile that
/// the toolchain lists, in declared order.
///
/// There is one build for each entry of each toolchain's profile list, so a
/// profile listed twice is built twice. The plan is made as a whole or not at
/// all: the first pair that cannot be planned gives the error.
pub fn build_crate_for_all_profile(
    krate: &CrateOpt,
    config: &Config,
    workspace_exists: bool,
) -> (planned: Result<Vec<BuildStep>, Error>)
    ensures
        match planned {
            Ok(steps) => {
                &&& steps@.len() == pair_count(config.toolchains@)
                &&& forall|i: int|
                    0 <= i < steps@.len() ==> step_error(krate, config, workspace_exists, i) is None
                &&& forall|i: int|
                    0 <= i < steps@.len() ==> (#[trigger] steps@[i]).deep_view() == step_of(
                        krate,
                        config,
                        workspace_exists,
                        i,
                    )
            },
            Err(e) => exists|i: int| fails_at(krate, config, workspace_exists, i, e.deep_view()),
        },
{
    let mut steps: Vec<BuildStep> = Vec::new();
    let mut t: usize = 0;
    while t < config.toolchains.len()
        invariant
            t <= config.toolchains@.len(),
            steps@.len() == pair_count(config.toolchains@.take(t as int)),
            forall|i: int|
                0 <= i < steps@.len() ==> step_error(krate, config, workspace_exists, i) is None,
            forall|i: int|
                0 <= i < steps@.len() ==> (#[trigger] steps@[i]).deep_view() == step_of(
                    krate,
                    config,
                    workspace_exists,
                    i,
                ),
        decreases config.toolchains@.len() - t,
    {
        let toolchain = &config.toolchains[t];
        let ghost base = steps@.len() as int;
        let mut j: usize = 0;
        while j < toolchain.profiles.len()
            invariant
                t < config.toolchains@.len(),
                *toolchain == config.toolchains@[t as int],
                j <= toolchain.profiles@.len(),
                base == pair_count(config.toolchains@.take(t as int)),
                steps@.len() == base + j,
                forall|i: int|
                    0 <= i < steps@.len() ==> step_error(krate, config, workspace_exists, i) is None,
                forall|i: int|
                    0 <= i < steps@.len() ==> (#[trigger] steps@[i]).deep_view() == step_of(
                        krate,
                        config,
                        workspace_exists,
                        i,
                    ),
            decreases toolchain.profiles@.len() - j,
        {
            let name = &toolchain.profiles[j];
            let ghost here = base + j;
            proof {
                lemma_pairs_len(config.toolchains@);
                lemma_pairs_index(config.toolchains@, t as int, j as int);
                assert(config.pair_profile_name(pairs(config.toolchains@)[here]) == name@);
            }
            let found = match config.find_profile(name.as_str()) {
                Some(found) => found,
                None => {
                    let error = Error::Lookup { name: name.clone() };
                    assert(fails_at(krate, config, workspace_exists, here, error.deep_view()));
                    return Err(error);
                },
            };
            proof {
                lemma_first_place(config.profile_names(), name@, found as int);
                assert(config.resolved_profile(name@) == config.profiles@[found as int]);
            }
            let exists = workspace_exists || steps.len() > 0;
            match build_crate_step(krate, toolchain, &config.profiles[found], config, exists) {
                Ok(step) => {
                    steps.push(step);
                },
                Err(error) => {
                    assert(fails_at(krate, config, workspace_exists, here, error.deep_view()));
                    return Err(error);
                },
            }
            j += 1;
        }
        proof {
            lemma_pair_count_step(config.toolchains@, t as int);
        }
        t += 1;
    }
    assert(config.toolchains@.take(t as int) =~= config.toolchains@);
    Ok(steps)
}

} // verus!
