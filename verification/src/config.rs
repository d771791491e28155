//! The configuration: global settings, toolchains, profiles and programs.

use vstd::prelude::*;
use vstd::string::*;
use crate::error::{Error, ErrorView};
use crate::paths::{is_absolute, is_absolute_path, join, join_path};
use crate::text::str_eq;

verus! {

/// Settings shared by every toolchain and program.
#[derive(Debug, Clone, PartialEq, Eq)]
pub struct GlobalConfig {
    /// The project root, against which every relative path is resolved.
    pub project_root: String,
    /// The compiler's source tree; all patches and builds are applied to it.
    pub rust_repo: String,
    /// The revision the patches are based on. A toolchain can override it.
    pub rust_rev: String,
    /// Where the toolchains are installed.
    pub toolchains_root: String,
    /// Where the patch files are found.
    pub patch_root: String,
    /// Where the programs are built.
    pub build_root: String,
}

impl GlobalConfig {
    /// A configured path made absolute: an absolute one stands as it is, a
    /// relative one is joined to the project root.
    pub open spec fn absolute(&self, path: Seq<char>) -> Seq<char> {
        if is_absolute(path) {
            path
        } else {
            join(self.project_root@, path)
        }
    }

    /// The absolute path of the compiler's source tree.
    pub open spec fn rust_repo_path(&self) -> Seq<char> {
        self.absolute(self.rust_repo@)
    }

    /// The absolute path under which toolchains are installed.
    pub open spec fn toolchains_root_path(&self) -> Seq<char> {
        self.absolute(self.toolchains_root@)
    }

    /// The absolute path under which patch files are found.
    pub open spec fn patches_root_path(&self) -> Seq<char> {
        self.absolute(self.patch_root@)
    }

    /// The absolute path under which programs are built.
    pub open spec fn build_root_path(&self) -> Seq<char> {
        self.absolute(self.build_root@)
    }

    /// The compiler's source tree; all patches and builds are applied to it.
    pub fn rust_repo(&self) -> (path: String)
        ensures
            path@ == self.rust_repo_path(),
    {
        join_path(self.project_root.as_str(), self.rust_repo.as_str())
    }

    /// Where the toolchains are installed.
    pub fn toolchains_root(&self) -> (path: String)
        ensures
            path@ == self.toolchains_root_path(),
    {
        self.to_absolute_path(self.toolchains_root.as_str())
    }

    /// Where the patch files are found.
    pub fn patches_root(&self) -> (path: String)
        ensures
            path@ == self.patches_root_path(),
    {
        self.to_absolute_path(self.patch_root.as_str())
    }

    /// Where the programs are built.
    pub fn build_root(&self) -> (path: String)
        ensures
            path@ == self.build_root_path(),
    {
        self.to_absolute_path(self.build_root.as_str())
    }

    /// Resolves a configured path against the project root.
    pub fn to_absolute_path(&self, path: &str) -> (abs: String)
        ensures
            abs@ == self.absolute(path@),
    {
        if is_absolute_path(path) {
            String::from_str(path)
        } else {
            join_path(self.project_root.as_str(), path)
        }
    }
}

/// How one toolchain is built.
#[derive(Debug, Clone, PartialEq, Eq)]
pub struct ToolchainConfig {
    /// The toolchain's name, under which it is installed and linked.
    pub name: String,
    /// The patch files to apply, in this order. None means an unpatched build.
    pub patches: Vec<String>,
    /// The revision these patches are based on; overrides the global one.
    pub rust_rev: Option<String>,
    /// The names of the profiles under which this toolchain builds programs.
    pub profiles: Vec<String>,
}

/// One variable of a build's environment.
#[derive(Debug, Clone, PartialEq, Eq)]
pub struct EnvVar {
    pub name: String,
    pub value: String,
}

impl DeepView for EnvVar {
    type V = (Seq<char>, Seq<char>);

    open spec fn deep_view(&self) -> (Seq<char>, Seq<char>) {
        (self.name@, self.value@)
    }
}

/// A named set of environment variables given to every build that uses it.
#[derive(Debug, Clone, PartialEq, Eq)]
pub struct Profile {
    /// The profile's name, by which toolchains refer to it.
    pub name: String,
    /// The variables, in the order in which they are set: where a name
    /// occurs twice the later entry counts.
    pub environ: Vec<EnvVar>,
}

/// A named, repeatable invocation of a built program.
#[derive(Debug, Clone, PartialEq, Eq)]
pub struct Run {
    /// The run's name, under which its timings are reported.
    pub name: String,
    /// How many times to run.
    pub count: u64,
    /// The arguments passed to the program, as they are.
    pub args: Vec<String>,
}

/// How one program is fetched, built and run.
#[derive(Debug, Clone, PartialEq, Eq)]
pub struct CrateOpt {
    /// The program's name, also the name of its workspace directory.
    pub name: String,
    /// The repository to clone the program from.
    pub git: Option<String>,
    /// The local directory to copy the program from, if no repository is set.
    pub path: Option<String>,
    /// The build command, if not the default one.
    pub build_cmd: Option<String>,
    /// Where the binary ends up, relative to the build's target directory.
    pub output_path: String,
    /// The runs to time for each toolchain and profile.
    pub runs: Vec<Run>,
}

impl CrateOpt {
    /// Whether the program says where its sources come from.
    pub open spec fn has_source(&self) -> bool {
        self.git is Some || self.path is Some
    }
}

/// The whole configuration.
#[derive(Debug, Clone, PartialEq, Eq)]
pub struct Config {
    pub global: GlobalConfig,
    pub toolchains: Vec<ToolchainConfig>,
    pub profiles: Vec<Profile>,
    pub crates: Vec<CrateOpt>,
}

/// `i` is the first place in `names` that holds `name`.
pub open spec fn is_first_at(names: Seq<Seq<char>>, name: Seq<char>, i: int) -> bool {
    &&& 0 <= i < names.len()
    &&& names[i] == name
    &&& forall|j: int| 0 <= j < i ==> names[j] != name
}

/// `name` occurs in `names`.
pub open spec fn is_named(names: Seq<Seq<char>>, name: Seq<char>) -> bool {
    exists|i: int| 0 <= i < names.len() && names[i] == name
}

impl Config {
    /// The names of the profiles, in declared order.
    pub open spec fn profile_names(&self) -> Seq<Seq<char>> {
        Seq::new(self.profiles@.len(), |i: int| self.profiles@[i].name@)
    }

    /// The names of the programs, in declared order.
    pub open spec fn crate_names(&self) -> Seq<Seq<char>> {
        Seq::new(self.crates@.len(), |i: int| self.crates@[i].name@)
    }

    /// The profile name that a pair stands for.
    pub open spec fn pair_profile_name(&self, pair: (int, int)) -> Seq<char> {
        self.toolchains@[pair.0].profiles@[pair.1]@
    }

    /// The profile that `name` resolves to: the first of that name.
    pub open spec fn resolved_profile(&self, name: Seq<char>) -> Profile {
        self.profiles@[first_place(self.profile_names(), name)]
    }

    /// The place of the profile called `name`: the first one, should several
    /// share the name.
    pub fn find_profile(&self, name: &str) -> (found: Option<usize>)
        ensures
            match found {
                Some(i) => is_first_at(self.profile_names(), name@, i as int),
                None => !is_named(self.profile_names(), name@),
            },
    {
        let mut i: usize = 0;
        while i < self.profiles.len()
            invariant
                i <= self.profiles@.len(),
                forall|j: int| 0 <= j < i ==> self.profile_names()[j] != name@,
            decreases self.profiles@.len() - i,
        {
            if str_eq(self.profiles[i].name.as_str(), name) {
                return Some(i);
            }
            i += 1;
        }
        None
    }

    /// The place of the program called `name`: the first one, should several
    /// share the name. A name that no program has is an error.
    pub fn find_crate(&self, name: &str) -> (found: Result<usize, Error>)
        ensures
            match found {
                Ok(i) => is_first_at(self.crate_names(), name@, i as int),
                Err(e) => {
                    &&& !is_named(self.crate_names(), name@)
                    &&& e.deep_view() == (ErrorView::Lookup { name: name@ })
                },
            },
    {
        let mut i: usize = 0;
        while i < self.crates.len()
            invariant
                i <= self.crates@.len(),
                forall|j: int| 0 <= j < i ==> self.crate_names()[j] != name@,
            decreases self.crates@.len() - i,
        {
            if str_eq(self.crates[i].name.as_str(), name) {
                return Ok(i);
            }
            i += 1;
        }
        Err(Error::Lookup { name: String::from_str(name) })
    }

    /// Whether the program at place `i` is among those to build: all are,
    /// unless `only` names one, and then those of that name.
    pub open spec fn is_chosen(&self, only: Option<Seq<char>>, i: int) -> bool {
        match only {
            Some(name) => self.crates@[i].name@ == name,
            None => true,
        }
    }

    /// The places of the programs to build, in declared order.
    pub fn select_crates(&self, only: Option<&str>) -> (places: Vec<usize>)
        ensures
            forall|a: int, b: int| 0 <= a < b < places@.len() ==> places@[a] < places@[b],
            forall|a: int|
                0 <= a < places@.len() ==> (#[trigger] places@[a]) < self.crates@.len()
                    && self.is_chosen(only.deep_view(), places@[a] as int),
            forall|i: int|
                0 <= i < self.crates@.len() && self.is_chosen(only.deep_view(), i)
                    ==> places@.contains(i as usize),
    {
        let mut places: Vec<usize> = Vec::new();
        let mut i: usize = 0;
        while i < self.crates.len()
            invariant
                i <= self.crates@.len(),
                forall|a: int, b: int| 0 <= a < b < places@.len() ==> places@[a] < places@[b],
                forall|a: int|
                    0 <= a < places@.len() ==> (#[trigger] places@[a]) < i && self.is_chosen(
                        only.deep_view(),
                        places@[a] as int,
                    ),
                forall|k: int|
                    0 <= k < i && self.is_chosen(only.deep_view(), k) ==> places@.contains(
                        k as usize,
                    ),
            decreases self.crates@.len() - i,
        {
            let chosen = match only {
                Some(name) => str_eq(self.crates[i].name.as_str(), name),
                None => true,
            };
            if chosen {
                let ghost before = places@;
                places.push(i);
                assert(places@[before.len() as int] == i);
                assert forall|k: int|
                    0 <= k < i + 1 && self.is_chosen(
                        only.deep_view(),
                        k,
                    ) implies places@.contains(k as usize) by {
                    if k < i {
                        let at = choose|at: int| 0 <= at < before.len() && before[at] == k as usize;
                        assert(places@[at] == k as usize);
                    }
                }
            }
            i += 1;
        }
        places
    }

    /// The configuration with its project root settled: a root that is set
    /// stays, an empty one becomes `parent`, the directory that holds the
    /// configuration file.
    pub fn with_default_root(self, parent: &str) -> (config: Config)
        ensures
            config.global.project_root@ == if self.global.project_root@.len() == 0 {
                parent@
            } else {
                self.global.project_root@
            },
            parent@.len() > 0 ==> config.global.project_root@.len() > 0,
            config.global.rust_repo == self.global.rust_repo,
            config.global.rust_rev == self.global.rust_rev,
            config.global.toolchains_root == self.global.toolchains_root,
            config.global.patch_root == self.global.patch_root,
            config.global.build_root == self.global.build_root,
            config.toolchains == self.toolchains,
            config.profiles == self.profiles,
            config.crates == self.crates,
    {
        let mut config = self;
        if config.global.project_root.as_str().is_empty() {
            config.global.project_root = String::from_str(parent);
        }
        config
    }
}

/// Where `name` first occurs in `names`. Meaningful only if it occurs.
pub open spec fn first_place(names: Seq<Seq<char>>, name: Seq<char>) -> int {
    choose|i: int| is_first_at(names, name, i)
}

/// A name has at most one first place.
pub proof fn lemma_first_place(names: Seq<Seq<char>>, name: Seq<char>, i: int)
    requires
        is_first_at(names, name, i),
    ensures
        first_place(names, name) == i,
        is_named(names, name),
{
    let k = first_place(names, name);
    assert(is_first_at(names, name, k));
    if k < i {
        assert(names[k] == name);
    }
    if i < k {
        assert(names[i] == name);
    }
}

/// How many pairs of a toolchain and one of its profiles there are: the
/// lengths of the toolchains' profile lists, added up.
pub open spec fn pair_count(toolchains: Seq<ToolchainConfig>) -> nat
    decreases toolchains.len(),
{
    if toolchains.len() == 0 {
        0
    } else {
        pair_count(toolchains.drop_last()) + toolchains.last().profiles@.len()
    }
}

/// The pairs of a toolchain and one of its profiles, in declared order: the
/// toolchains in turn, and for each the entries of its profile list in turn.
/// A pair is the place of the toolchain and the place in its list; a name
/// listed twice makes two pairs.
pub open spec fn pairs(toolchains: Seq<ToolchainConfig>) -> Seq<(int, int)>
    decreases toolchains.len(),
{
    if toolchains.len() == 0 {
        Seq::empty()
    } else {
        pairs(toolchains.drop_last()) + Seq::new(
            toolchains.last().profiles@.len(),
            |j: int| (toolchains.len() - 1, j),
        )
    }
}

/// There are as many pairs as the profile lists have entries.
pub proof fn lemma_pairs_len(toolchains: Seq<ToolchainConfig>)
    ensures
        pairs(toolchains).len() == pair_count(toolchains),
    decreases toolchains.len(),
{
    if toolchains.len() > 0 {
        lemma_pairs_len(toolchains.drop_last());
    }
}

/// The pairs of the first `t + 1` toolchains are those of the first `t` and
/// one for each profile that toolchain `t` lists.
pub proof fn lemma_pair_count_step(toolchains: Seq<ToolchainConfig>, t: int)
    requires
        0 <= t < toolchains.len(),
    ensures
        pair_count(toolchains.take(t + 1)) == pair_count(toolchains.take(t))
            + toolchains[t].profiles@.len(),
{
    assert(toolchains.take(t + 1).drop_last() =~= toolchains.take(t));
    assert(toolchains.take(t + 1).last() == toolchains[t]);
}

/// Entry `j` of toolchain `t` is the pair that follows all pairs of the
/// toolchains before `t` and the `j` entries before it.
pub proof fn lemma_pairs_index(toolchains: Seq<ToolchainConfig>, t: int, j: int)
    requires
        0 <= t < toolchains.len(),
        0 <= j < toolchains[t].profiles@.len(),
    ensures
        pair_count(toolchains.take(t)) + j < pair_count(toolchains),
        pairs(toolchains)[pair_count(toolchains.take(t)) + j] == (t, j),
    decreases toolchains.len(),
{
    let rest = toolchains.drop_last();
    lemma_pairs_len(rest);
    if t == toolchains.len() - 1 {
        assert(toolchains.take(t) =~= rest);
    } else {
        lemma_pairs_index(rest, t, j);
        assert(rest.take(t) =~= toolchains.take(t));
        assert(rest[t] == toolchains[t]);
    }
}

/// Every pair names a toolchain and an entry of its profile list, and the
/// pairs stand in ascending order: by toolchain, then by entry.
pub proof fn lemma_pairs_ascending(toolchains: Seq<ToolchainConfig>, a: int, b: int)
    requires
        0 <= a < b < pairs(toolchains).len(),
    ensures
        0 <= pairs(toolchains)[a].0 < toolchains.len(),
        0 <= pairs(toolchains)[a].1 < toolchains[pairs(toolchains)[a].0].profiles@.len(),
        pairs(toolchains)[a].0 < pairs(toolchains)[b].0 || (pairs(toolchains)[a].0 == pairs(
            toolchains,
        )[b].0 && pairs(toolchains)[a].1 < pairs(toolchains)[b].1),
    decreases toolchains.len(),
{
    let rest = toolchains.drop_last();
    let n = pairs(rest).len() as int;
    if b < n {
        lemma_pairs_ascending(rest, a, b);
    } else if a < n {
        if a + 1 < n {
            lemma_pairs_ascending(rest, a, a + 1);
        } else {
            lemma_pairs_last(rest);
        }
    }
}

/// The last pair, if there is one, names a toolchain and an entry of its
/// list.
pub proof fn lemma_pairs_last(toolchains: Seq<ToolchainConfig>)
    requires
        pairs(toolchains).len() > 0,
    ensures
        0 <= pairs(toolchains).last().0 < toolchains.len(),
        0 <= pairs(toolchains).last().1 < toolchains[pairs(toolchains).last().0].profiles@.len(),
    decreases toolchains.len(),
{
    if toolchains.last().profiles@.len() == 0 {
        assert(pairs(toolchains) =~= pairs(toolchains.drop_last()));
        lemma_pairs_last(toolchains.drop_last());
    }
}

} // verus!
