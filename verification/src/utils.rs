//! Where the build of one program under one toolchain and profile lives.

use vstd::prelude::*;
use vstd::string::*;
use crate::config::{Config, CrateOpt, Profile, ToolchainConfig};
use crate::paths::{is_absolute, join, join_path, lemma_concat_cancel_left, lemma_join_injective};

verus! {

/// The name that a toolchain and a profile share a directory under:
/// `<toolchain>_<profile>`.
pub open spec fn pair_name(toolchain: Seq<char>, profile: Seq<char>) -> Seq<char> {
    toolchain.push('_') + profile
}

/// The target directory of a pair, relative to the program's workspace:
/// `target/<toolchain>_<profile>`.
pub open spec fn target_dir(toolchain: Seq<char>, profile: Seq<char>) -> Seq<char> {
    "target/"@ + pair_name(toolchain, profile)
}

/// The workspace of a program: `<build_root>/<name>`.
pub open spec fn crate_folder_path(k: &CrateOpt, config: &Config) -> Seq<char> {
    join(config.global.build_root_path(), k.name@)
}

/// The target directory of a program under a toolchain and a profile:
/// `<build_root>/<name>/target/<toolchain>_<profile>`.
pub open spec fn target_folder_path(
    k: &CrateOpt,
    profile: &Profile,
    toolchain: &ToolchainConfig,
    config: &Config,
) -> Seq<char> {
    join(crate_folder_path(k, config), target_dir(toolchain.name@, profile.name@))
}

/// A target directory is never absolute, whatever the names are.
pub proof fn lemma_target_dir_relative(toolchain: Seq<char>, profile: Seq<char>)
    ensures
        !is_absolute(target_dir(toolchain, profile)),
{
    reveal_strlit("target/");
    assert(target_dir(toolchain, profile)[0] == 't');
}

/// The target folder depends on nothing but the build root and the three
/// names: inputs that agree on those get the same folder.
pub proof fn lemma_target_folder_by_names(
    k1: &CrateOpt,
    profile1: &Profile,
    toolchain1: &ToolchainConfig,
    config1: &Config,
    k2: &CrateOpt,
    profile2: &Profile,
    toolchain2: &ToolchainConfig,
    config2: &Config,
)
    requires
        config1.global.build_root_path() == config2.global.build_root_path(),
        k1.name@ == k2.name@,
        toolchain1.name@ == toolchain2.name@,
        profile1.name@ == profile2.name@,
    ensures
        target_folder_path(k1, profile1, toolchain1, config1) == target_folder_path(
            k2,
            profile2,
            toolchain2,
            config2,
        ),
{
}

/// For one program, two pairs of toolchain and profile share a target folder
/// only if their names run together to the same `<toolchain>_<profile>`.
pub proof fn lemma_target_folder_distinct(
    k: &CrateOpt,
    profile1: &Profile,
    toolchain1: &ToolchainConfig,
    profile2: &Profile,
    toolchain2: &ToolchainConfig,
    config: &Config,
)
    requires
        pair_name(toolchain1.name@, profile1.name@) != pair_name(toolchain2.name@, profile2.name@),
    ensures
        target_folder_path(k, profile1, toolchain1, config) != target_folder_path(
            k,
            profile2,
            toolchain2,
            config,
        ),
{
    let d1 = target_dir(toolchain1.name@, profile1.name@);
    let d2 = target_dir(toolchain2.name@, profile2.name@);
    lemma_target_dir_relative(toolchain1.name@, profile1.name@);
    lemma_target_dir_relative(toolchain2.name@, profile2.name@);
    if join(crate_folder_path(k, config), d1) == join(crate_folder_path(k, config), d2) {
        lemma_join_injective(crate_folder_path(k, config), d1, d2);
        lemma_concat_cancel_left(
            "target/"@,
            pair_name(toolchain1.name@, profile1.name@),
            pair_name(toolchain2.name@, profile2.name@),
        );
    }
}

/// Where no toolchain name holds an underscore, `<toolchain>_<profile>`
/// tells the pair: different pairs have different names.
pub proof fn lemma_pair_name_injective(
    toolchain1: Seq<char>,
    profile1: Seq<char>,
    toolchain2: Seq<char>,
    profile2: Seq<char>,
)
    requires
        !toolchain1.contains('_'),
        !toolchain2.contains('_'),
        pair_name(toolchain1, profile1) == pair_name(toolchain2, profile2),
    ensures
        toolchain1 == toolchain2,
        profile1 == profile2,
{
    let n1 = toolchain1.len() as int;
    let n2 = toolchain2.len() as int;
    let name1 = pair_name(toolchain1, profile1);
    let name2 = pair_name(toolchain2, profile2);
    assert(name1[n1] == '_');
    assert(name2[n2] == '_');
    if n1 < n2 {
        assert(name2[n1] == toolchain2[n1]);
        assert(toolchain2.contains(toolchain2[n1]));
    }
    if n2 < n1 {
        assert(name1[n2] == toolchain1[n2]);
        assert(toolchain1.contains(toolchain1[n2]));
    }
    assert forall|i: int| 0 <= i < n1 implies toolchain1[i] == toolchain2[i] by {
        assert(name1[i] == toolchain1[i]);
        assert(name2[i] == toolchain2[i]);
    }
    assert(toolchain1 =~= toolchain2);
    lemma_concat_cancel_left(toolchain1.push('_'), profile1, profile2);
}

/// The workspace of a program: `<build_root>/<name>`.
pub fn crate_folder(k: &CrateOpt, config: &Config) -> (path: String)
    ensures
        path@ == crate_folder_path(k, config),
{
    let build_root = config.global.build_root();
    join_path(build_root.as_str(), k.name.as_str())
}

/// The target directory of a program under a toolchain and a profile.
pub fn target_folder(
    k: &CrateOpt,
    profile: &Profile,
    toolchain: &ToolchainConfig,
    config: &Config,
) -> (path: String)
    ensures
        path@ == target_folder_path(k, profile, toolchain, config),
{
    let folder = crate_folder(k, config);
    let mut dir = String::from_str("target/");
    dir.append(toolchain.name.as_str());
    proof {
        reveal_strlit("_");
    }
    dir.append("_");
    dir.append(profile.name.as_str());
    assert(dir@ == target_dir(toolchain.name@, profile.name@)) by {
        assert("_"@ == seq!['_']);
        assert(dir@ == "target/"@ + toolchain.name@ + "_"@ + profile.name@);
        assert(dir@ =~= "target/"@ + (toolchain.name@.push('_') + profile.name@));
    }
    join_path(folder.as_str(), dir.as_str())
}

} // verus!
