//! Timing the runs of a built program under every toolchain and profile.
//!
//! The functions here plan the invocations and turn each measured
//! invocation into a result. The caller starts the processes and takes the
//! times.

use vstd::prelude::*;
use vstd::string::*;
use crate::build_crate::step_of;
use crate::config::{
    is_named, lemma_first_place, lemma_pair_count_step, lemma_pairs_index, lemma_pairs_len,
    pair_count, pairs, Config, CrateOpt, Profile, Run, ToolchainConfig,
};
use crate::error::{Error, ErrorView};
use crate::paths::{join, join_path};
use crate::text::{clone_strings, str_eq};
use crate::utils::{target_folder, target_folder_path};

verus! {

/// The results of all runs of one program.
#[derive(Debug, Clone, PartialEq, Eq)]
pub struct RunResult {
    pub results: Vec<OneRunResult>,
}

/// One timed invocation.
#[derive(Debug, Clone, PartialEq, Eq)]
pub struct OneRunResult {
    /// The program's name.
    pub krate: String,
    /// The toolchain's name.
    pub toolchain: String,
    /// The profile's name.
    pub profile: String,
    /// The run's name.
    pub cmd: String,
    /// The size of the binary in bytes.
    pub binary_size: u64,
    /// How long the invocation took, in milliseconds.
    pub duration_ms: u64,
}

/// The mathematical value of a [`OneRunResult`].
pub struct OneRunResultView {
    pub krate: Seq<char>,
    pub toolchain: Seq<char>,
    pub profile: Seq<char>,
    pub cmd: Seq<char>,
    pub binary_size: u64,
    pub duration_ms: u64,
}

impl DeepView for OneRunResult {
    type V = OneRunResultView;

    open spec fn deep_view(&self) -> OneRunResultView {
        OneRunResultView {
            krate: self.krate@,
            toolchain: self.toolchain@,
            profile: self.profile@,
            cmd: self.cmd@,
            binary_size: self.binary_size,
            duration_ms: self.duration_ms,
        }
    }
}

/// One start of the program: the name of the run it belongs to and the
/// arguments to pass.
#[derive(Debug, Clone, PartialEq, Eq)]
pub struct Invocation {
    pub cmd: String,
    pub args: Vec<String>,
}

/// The mathematical value of an [`Invocation`].
pub struct InvocationView {
    pub cmd: Seq<char>,
    pub args: Seq<Seq<char>>,
}

impl DeepView for Invocation {
    type V = InvocationView;

    open spec fn deep_view(&self) -> InvocationView {
        InvocationView { cmd: self.cmd@, args: self.args.deep_view() }
    }
}

/// The runs of a program under one toolchain and profile: measure the size
/// of the binary at `program` once, then start it once for each entry of
/// `invocations`, in this order. The binary is started by this path; it is
/// not looked up in the search path.
#[derive(Debug, Clone, PartialEq, Eq)]
pub struct RunStep {
    pub krate: String,
    pub toolchain: String,
    pub profile: String,
    pub program: String,
    pub invocations: Vec<Invocation>,
}

/// The mathematical value of a [`RunStep`].
pub struct RunStepView {
    pub krate: Seq<char>,
    pub toolchain: Seq<char>,
    pub profile: Seq<char>,
    pub program: Seq<char>,
    pub invocations: Seq<InvocationView>,
}

impl DeepView for RunStep {
    type V = RunStepView;

    open spec fn deep_view(&self) -> RunStepView {
        RunStepView {
            krate: self.krate@,
            toolchain: self.toolchain@,
            profile: self.profile@,
            program: self.program@,
            invocations: self.invocations.deep_view(),
        }
    }
}

/// How one invocation ended: the time it took and whether the program
/// reported success.
#[derive(Debug, Clone, Copy, PartialEq, Eq)]
pub struct RunOutcome {
    pub duration_ms: u64,
    pub success: bool,
}

/// One start of `run`.
pub open spec fn invocation_of(run: &Run) -> InvocationView {
    InvocationView { cmd: run.name@, args: run.args.deep_view() }
}

/// The invocations that a list of runs asks for: the runs in turn, each as
/// often as its count says.
pub open spec fn invocations_of(runs: Seq<Run>) -> Seq<InvocationView>
    decreases runs.len(),
{
    if runs.len() == 0 {
        Seq::empty()
    } else {
        invocations_of(runs.drop_last()) + Seq::new(
            runs.last().count as nat,
            |i: int| invocation_of(&runs.last()),
        )
    }
}

/// The runs of `k` under `toolchain` and `profile`.
pub open spec fn run_step_of(
    k: &CrateOpt,
    toolchain: &ToolchainConfig,
    profile: &Profile,
    config: &Config,
) -> RunStepView {
    RunStepView {
        krate: k.name@,
        toolchain: toolchain.name@,
        profile: profile.name@,
        program: join(target_folder_path(k, profile, toolchain, config), k.output_path@),
        invocations: invocations_of(k.runs@),
    }
}

impl RunStep {
    /// The result of invocation `i` of this step, measured on a binary of
    /// `binary_size` bytes, if it ended in `outcome`.
    pub open spec fn result_view(
        &self,
        i: int,
        binary_size: u64,
        outcome: RunOutcome,
    ) -> OneRunResultView {
        OneRunResultView {
            krate: self.krate@,
            toolchain: self.toolchain@,
            profile: self.profile@,
            cmd: self.invocations@[i].cmd@,
            binary_size,
            duration_ms: outcome.duration_ms,
        }
    }

    /// The result of one invocation of this step.
    ///
    /// Whether the program reported success plays no part: a failed
    /// invocation is timed and reported like any other.
    pub fn result(&self, invocation: &Invocation, binary_size: u64, outcome: RunOutcome) -> (one:
        OneRunResult)
        ensures
            one.deep_view() == (OneRunResultView {
                krate: self.krate@,
                toolchain: self.toolchain@,
                profile: self.profile@,
                cmd: invocation.cmd@,
                binary_size,
                duration_ms: outcome.duration_ms,
            }),
    {
        OneRunResult {
            krate: self.krate.clone(),
            toolchain: self.toolchain.clone(),
            profile: self.profile.clone(),
            cmd: invocation.cmd.clone(),
            binary_size,
            duration_ms: outcome.duration_ms,
        }
    }

    /// The results of this step: one for each invocation that has an
    /// outcome, in the order of the invocations. `outcomes` holds the
    /// outcomes of the invocations in that order, and `binary_size` the size
    /// of the binary, which is measured once for the step, so that all its
    /// results carry the same size.
    pub fn results(&self, binary_size: u64, outcomes: &Vec<RunOutcome>) -> (all: Vec<OneRunResult>)
        ensures
            all@.len() == if outcomes@.len() < self.invocations@.len() {
                outcomes@.len()
            } else {
                self.invocations@.len()
            },
            forall|i: int|
                0 <= i < all@.len() ==> (#[trigger] all@[i]).deep_view() == self.result_view(
                    i,
                    binary_size,
                    outcomes@[i],
                ),
    {
        let mut all: Vec<OneRunResult> = Vec::new();
        let mut i: usize = 0;
        while i < self.invocations.len() && i < outcomes.len()
            invariant
                i <= self.invocations@.len(),
                i <= outcomes@.len(),
                all@.len() == i,
                forall|k: int|
                    0 <= k < i ==> (#[trigger] all@[k]).deep_view() == self.result_view(
                        k,
                        binary_size,
                        outcomes@[k],
                    ),
            decreases self.invocations@.len() - i,
        {
            let one = self.result(&self.invocations[i], binary_size, outcomes[i]);
            all.push(one);
            i += 1;
        }
        all
    }
}

/// Plans the runs of `krate` under `toolchain` and `profile`.
pub fn run_cmd_step(
    krate: &CrateOpt,
    toolchain: &ToolchainConfig,
    profile: &Profile,
    config: &Config,
) -> (step: RunStep)
    ensures
        step.deep_view() == run_step_of(krate, toolchain, profile, config),
{
    let target = target_folder(krate, profile, toolchain, config);
    let program = join_path(target.as_str(), krate.output_path.as_str());

    let mut invocations: Vec<Invocation> = Vec::new();
    let mut r: usize = 0;
    while r < krate.runs.len()
        invariant
            r <= krate.runs@.len(),
            invocations.deep_view() == invocations_of(krate.runs@.take(r as int)),
        decreases krate.runs@.len() - r,
    {
        let run = &krate.runs[r];
        let ghost before = invocations.deep_view();
        let mut n: u64 = 0;
        while n < run.count
            invariant
                n <= run.count,
                invocations.deep_view() == before + Seq::new(n as nat, |i: int| invocation_of(run)),
            decreases run.count - n,
        {
            let ghost so_far = invocations.deep_view();
            let invocation = Invocation { cmd: run.name.clone(), args: clone_strings(&run.args) };
            assert(invocation.deep_view() == invocation_of(run)) by {
                assert(invocation.args.deep_view() =~= run.args.deep_view());
            }
            invocations.push(invocation);
            assert(invocations.deep_view() =~= so_far.push(invocation_of(run)));
            assert(so_far.push(invocation_of(run)) =~= before + Seq::new(
                (n + 1) as nat,
                |i: int| invocation_of(run),
            ));
            n += 1;
        }
        proof {
            assert(krate.runs@.take(r + 1).drop_last() =~= krate.runs@.take(r as int));
            assert(krate.runs@.take(r + 1).last() == *run);
        }
        r += 1;
    }
    assert(krate.runs@.take(krate.runs@.len() as int) =~= krate.runs@);
    RunStep {
        krate: krate.name.clone(),
        toolchain: toolchain.name.clone(),
        profile: profile.name.clone(),
        program,
        invocations,
    }
}

/// Whether a pair is to be run: every pair is, unless `only` names a
/// profile, and then those of that profile.
pub open spec fn is_selected(config: &Config, only: Option<Seq<char>>, pair: (int, int)) -> bool {
    match only {
        Some(name) => config.pair_profile_name(pair) == name,
        None => true,
    }
}

/// The test that [`is_selected`] makes, as a function of the pair.
pub open spec fn selector(config: &Config, only: Option<Seq<char>>) -> spec_fn((int, int)) -> bool {
    |pair: (int, int)| is_selected(config, only, pair)
}

/// The pairs among `among` that are to be run, in their order.
pub open spec fn selected(
    config: &Config,
    only: Option<Seq<char>>,
    among: Seq<(int, int)>,
) -> Seq<(int, int)> {
    among.filter(selector(config, only))
}

/// The runs planned for `pair`.
pub open spec fn run_step_at(krate: &CrateOpt, config: &Config, pair: (int, int)) -> RunStepView {
    run_step_of(
        krate,
        &config.toolchains@[pair.0],
        &config.resolved_profile(config.pair_profile_name(pair)),
        config,
    )
}

/// The profile of `pair` resolves.
pub open spec fn pair_resolves(config: &Config, pair: (int, int)) -> bool {
    is_named(config.profile_names(), config.pair_profile_name(pair))
}

/// A run starts the binary that the build of the same pair leaves behind:
/// the program of the run planned for a pair is the artifact of the build
/// planned for it.
pub proof fn lemma_run_starts_what_build_leaves(
    krate: &CrateOpt,
    config: &Config,
    workspace_exists: bool,
    i: int,
)
    requires
        0 <= i < pair_count(config.toolchains@),
    ensures
        run_step_at(krate, config, pairs(config.toolchains@)[i]).program == step_of(
            krate,
            config,
            workspace_exists,
            i,
        ).artifact.output_path,
        run_step_at(krate, config, pairs(config.toolchains@)[i]).toolchain == step_of(
            krate,
            config,
            workspace_exists,
            i,
        ).artifact.toolchain,
        run_step_at(krate, config, pairs(config.toolchains@)[i]).profile == step_of(
            krate,
            config,
            workspace_exists,
            i,
        ).artifact.profile,
{
}

/// Plans the runs of `krate` under every toolchain and each profile that the
/// toolchain lists, in declared order. With `profile_to_run`, only the pairs
/// of that profile are run, and only their profile names must resolve.
pub fn run_cmds(profile_to_run: Option<&str>, config: &Config, krate: &CrateOpt) -> (planned:
    Result<Vec<RunStep>, Error>)
    ensures
        match planned {
            Ok(steps) => {
                let chosen = selected(config, profile_to_run.deep_view(), pairs(config.toolchains@));
                &&& steps@.len() == chosen.len()
                &&& forall|i: int| 0 <= i < chosen.len() ==> pair_resolves(config, #[trigger] chosen[i])
                &&& forall|i: int|
                    0 <= i < steps@.len() ==> (#[trigger] steps@[i]).deep_view() == run_step_at(
                        krate,
                        config,
                        chosen[i],
                    )
            },
            Err(e) => {
                let chosen = selected(config, profile_to_run.deep_view(), pairs(config.toolchains@));
                exists|i: int|
                    {
                        &&& 0 <= i < chosen.len()
                        &&& !pair_resolves(config, #[trigger] chosen[i])
                        &&& e.deep_view() == (ErrorView::Lookup {
                            name: config.pair_profile_name(chosen[i]),
                        })
                        &&& forall|j: int| 0 <= j < i ==> pair_resolves(config, #[trigger] chosen[j])
                    }
            },
        },
{
    let ghost only = profile_to_run.deep_view();
    let ghost all = pairs(config.toolchains@);
    proof {
        lemma_pairs_len(config.toolchains@);
    }
    let mut steps: Vec<RunStep> = Vec::new();
    let mut t: usize = 0;
    assert(all.take(0) =~= Seq::<(int, int)>::empty());
    assert(selected(config, only, all.take(0)).len() == 0) by {
        reveal(Seq::filter);
    }
    while t < config.toolchains.len()
        invariant
            t <= config.toolchains@.len(),
            only == profile_to_run.deep_view(),
            all == pairs(config.toolchains@),
            all.len() == pair_count(config.toolchains@),
            pair_count(config.toolchains@.take(t as int)) <= all.len(),
            steps@.len() == selected(
                config,
                only,
                all.take(pair_count(config.toolchains@.take(t as int)) as int),
            ).len(),
            forall|i: int|
                0 <= i < steps@.len() ==> pair_resolves(
                    config,
                    #[trigger] selected(
                        config,
                        only,
                        all.take(pair_count(config.toolchains@.take(t as int)) as int),
                    )[i],
                ),
            forall|i: int|
                0 <= i < steps@.len() ==> (#[trigger] steps@[i]).deep_view() == run_step_at(
                    krate,
                    config,
                    selected(
                        config,
                        only,
                        all.take(pair_count(config.toolchains@.take(t as int)) as int),
                    )[i],
                ),
        decreases config.toolchains@.len() - t,
    {
        let toolchain = &config.toolchains[t];
        let ghost base = pair_count(config.toolchains@.take(t as int)) as int;
        proof {
            lemma_pair_count_step(config.toolchains@, t as int);
            assert(config.toolchains@.take(config.toolchains@.len() as int)
                =~= config.toolchains@);
            if toolchain.profiles@.len() > 0 {
                lemma_pairs_index(config.toolchains@, t as int, toolchain.profiles@.len() - 1);
            }
        }
        let mut j: usize = 0;
        while j < toolchain.profiles.len()
            invariant
                t < config.toolchains@.len(),
                *toolchain == config.toolchains@[t as int],
                j <= toolchain.profiles@.len(),
                only == profile_to_run.deep_view(),
                all == pairs(config.toolchains@),
                all.len() == pair_count(config.toolchains@),
                base == pair_count(config.toolchains@.take(t as int)),
                base + toolchain.profiles@.len() <= all.len(),
                steps@.len() == selected(config, only, all.take(base + j)).len(),
                forall|i: int|
                    0 <= i < steps@.len() ==> pair_resolves(
                        config,
                        #[trigger] selected(config, only, all.take(base + j))[i],
                    ),
                forall|i: int|
                    0 <= i < steps@.len() ==> (#[trigger] steps@[i]).deep_view() == run_step_at(
                        krate,
                        config,
                        selected(config, only, all.take(base + j))[i],
                    ),
            decreases toolchain.profiles@.len() - j,
        {
            let name = &toolchain.profiles[j];
            let ghost here = base + j;
            let ghost before = selected(config, only, all.take(here));
            proof {
                lemma_pairs_index(config.toolchains@, t as int, j as int);
                assert(all[here] == (t as int, j as int));
                assert(config.pair_profile_name(all[here]) == name@);
                assert(all.take(here + 1) =~= all.take(here).push(all[here]));
                all.take(here).lemma_filter_push(all[here], selector(config, only));
            }
            let should_run = match profile_to_run {
                Some(only_name) => str_eq(only_name, name.as_str()),
                None => true,
            };
            assert(should_run == is_selected(config, only, all[here]));
            if should_run {
                assert(selected(config, only, all.take(here + 1)) == before.push(all[here]));
                match config.find_profile(name.as_str()) {
                    Some(found) => {
                        proof {
                            lemma_first_place(config.profile_names(), name@, found as int);
                        }
                        let step = run_cmd_step(krate, toolchain, &config.profiles[found], config);
                        steps.push(step);
                    },
                    None => {
                        let error = Error::Lookup { name: name.clone() };
                        proof {
                            let chosen = selected(config, only, all);
                            let rest = all.skip(here + 1);
                            assert(all =~= all.take(here + 1) + rest);
                            Seq::filter_distributes_over_add(
                                all.take(here + 1),
                                rest,
                                selector(config, only),
                            );
                            let k = before.len() as int;
                            assert(chosen[k] == all[here]);
                            assert forall|m: int| 0 <= m < k implies pair_resolves(
                                config,
                                #[trigger] chosen[m],
                            ) by {
                                assert(chosen[m] == before[m]);
                            }
                        }
                        return Err(error);
                    },
                }
            } else {
                assert(selected(config, only, all.take(here + 1)) == before);
            }
            j += 1;
        }
        t += 1;
    }
    assert(config.toolchains@.take(t as int) =~= config.toolchains@);
    assert(all.take(all.len() as int) =~= all);
    Ok(steps)
}

} // verus!
