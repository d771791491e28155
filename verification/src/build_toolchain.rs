//! Building and registering one patched toolchain.
//!
//! A toolchain counts as built when its compiler binary is in its install
//! directory. Building it resets the shared source tree, so the plans of two
//! toolchains must never be carried out at the same time on one tree.

use vstd::prelude::*;
use vstd::string::*;
use crate::action::{Action, ActionView};
use crate::config::{GlobalConfig, ToolchainConfig};
use crate::paths::{join, join_path};
use crate::text::clone_strings;

verus! {

/// All that building one toolchain needs to know.
#[derive(Debug, Clone, PartialEq, Eq)]
pub struct ToolChainOpts {
    /// The toolchain's name.
    pub name: String,
    /// The revision to reset the source tree to.
    pub rust_rev: String,
    /// The patch files to apply, in this order.
    pub patches: Vec<String>,
    /// The directory that holds the patch files.
    pub patch_folder: String,
    /// The directory under which all toolchains are installed.
    pub toolchains_root: String,
    /// Whether to build even if the toolchain is installed.
    pub force: bool,
}

/// The revision a toolchain is built from: its own, else the global one.
pub open spec fn effective_rev(toolchain: &ToolchainConfig, global: &GlobalConfig) -> Seq<char> {
    match toolchain.rust_rev {
        Some(rev) => rev@,
        None => global.rust_rev@,
    }
}

/// The build configuration up to the install prefix.
pub open spec fn config_head() -> Seq<char> {
    "\n# Includes one of the default files in src/bootstrap/defaults\nprofile = \"user\"\nchangelog-seen = 2\n\n[install]\nprefix = \""@
}

/// The build configuration between the install prefix and the description.
pub open spec fn config_middle() -> Seq<char> {
    "\"\nsysconfdir = \"etc\"\n\n[build]\ndocs = false\nextended = true\ntools = [\"cargo\", \"src\"]\n\n[rust]\ndescription = \""@
}

/// The build configuration after the description.
pub open spec fn config_tail() -> Seq<char> {
    "\"\n"@
}

/// The build configuration of a toolchain: it installs to `prefix` and
/// describes itself as `<name>+<rev>`.
pub open spec fn config_text(prefix: Seq<char>, name: Seq<char>, rev: Seq<char>) -> Seq<char> {
    config_head() + prefix + config_middle() + name + "+"@ + rev + config_tail()
}

impl ToolChainOpts {
    /// The directory the toolchain is installed to: `<toolchains_root>/<name>`.
    pub open spec fn folder_path(&self) -> Seq<char> {
        join(self.toolchains_root@, self.name@)
    }

    /// The binary whose presence says that the toolchain is installed.
    pub open spec fn marker(&self) -> Seq<char> {
        join(self.folder_path(), "bin/rustc"@)
    }

    /// One action for each patch, in declared order: apply the patch file
    /// of that name in the patch directory.
    pub open spec fn patch_actions(&self, rust_repo: Seq<char>) -> Seq<ActionView> {
        Seq::new(
            self.patches@.len(),
            |i: int|
                ActionView::ApplyPatch {
                    repo: rust_repo,
                    file: join(self.patch_folder@, self.patches@[i]@),
                },
        )
    }

    /// What installing the toolchain takes, with the source tree at
    /// `rust_repo`: reset the tree to the toolchain's revision, apply the
    /// patches, write the build configuration into the tree, and install.
    pub open spec fn install_actions(&self, rust_repo: Seq<char>) -> Seq<ActionView> {
        seq![ActionView::Reset { repo: rust_repo, rev: self.rust_rev@ }] + self.patch_actions(
            rust_repo,
        ) + seq![
            ActionView::WriteFile {
                path: join(rust_repo, "config.toml"@),
                content: config_text(self.folder_path(), self.name@, self.rust_rev@),
            },
            ActionView::Install { repo: rust_repo },
        ]
    }

    /// The registration of the toolchain under its name.
    pub open spec fn link_action(&self) -> ActionView {
        ActionView::Link { name: self.name@, folder: self.folder_path() }
    }

    /// What building this toolchain comes to, given whether its marker is
    /// there: the install, if the marker is missing or a rebuild is forced,
    /// and the registration in any case.
    pub open spec fn actions(&self, rust_repo: Seq<char>, marker_exists: bool) -> Seq<ActionView> {
        if !marker_exists || self.force {
            self.install_actions(rust_repo).push(self.link_action())
        } else {
            seq![self.link_action()]
        }
    }

    /// The options for building `toolchain` under the settings `global`.
    pub fn new(toolchain: &ToolchainConfig, global: &GlobalConfig, force: bool) -> (opts: Self)
        ensures
            opts.name@ == toolchain.name@,
            opts.rust_rev@ == effective_rev(toolchain, global),
            opts.patches@ == toolchain.patches@,
            opts.patch_folder@ == global.patches_root_path(),
            opts.toolchains_root@ == global.toolchains_root_path(),
            opts.force == force,
    {
        let rust_rev = match &toolchain.rust_rev {
            Some(rev) => rev.clone(),
            None => global.rust_rev.clone(),
        };
        ToolChainOpts {
            name: toolchain.name.clone(),
            rust_rev,
            patches: clone_strings(&toolchain.patches),
            patch_folder: global.patches_root(),
            toolchains_root: global.toolchains_root(),
            force,
        }
    }

    /// The directory the toolchain is installed to.
    pub fn folder(&self) -> (path: String)
        ensures
            path@ == self.folder_path(),
    {
        join_path(self.toolchains_root.as_str(), self.name.as_str())
    }

    /// The binary whose presence says that the toolchain is installed.
    pub fn marker_path(&self) -> (path: String)
        ensures
            path@ == self.marker(),
    {
        let folder = self.folder();
        join_path(folder.as_str(), "bin/rustc")
    }
}

/// Plans the build of `toolchain` from the source tree at `rust_repo`.
///
/// `marker_exists` says whether the toolchain's marker binary is on disk.
pub fn build_toolchain(rust_repo: &str, toolchain: &ToolChainOpts, marker_exists: bool) -> (actions:
    Vec<Action>)
    ensures
        actions.deep_view() == toolchain.actions(rust_repo@, marker_exists),
{
    let folder = toolchain.folder();
    let mut actions: Vec<Action> = Vec::new();
    if !marker_exists || toolchain.force {
        actions.push(
            Action::Reset { repo: String::from_str(rust_repo), rev: toolchain.rust_rev.clone() },
        );
        let mut i: usize = 0;
        while i < toolchain.patches.len()
            invariant
                i <= toolchain.patches@.len(),
                actions@.len() == 1 + i,
                actions@[0].deep_view() == (ActionView::Reset {
                    repo: rust_repo@,
                    rev: toolchain.rust_rev@,
                }),
                forall|k: int|
                    0 <= k < i ==> (#[trigger] actions@[1 + k]).deep_view()
                        == toolchain.patch_actions(rust_repo@)[k],
            decreases toolchain.patches@.len() - i,
        {
            let file = join_path(toolchain.patch_folder.as_str(), toolchain.patches[i].as_str());
            actions.push(Action::ApplyPatch { repo: String::from_str(rust_repo), file });
            i += 1;
        }

        let mut content = String::from_str(
            "\n# Includes one of the default files in src/bootstrap/defaults\nprofile = \"user\"\nchangelog-seen = 2\n\n[install]\nprefix = \"",
        );
        content.append(folder.as_str());
        content.append(
            "\"\nsysconfdir = \"etc\"\n\n[build]\ndocs = false\nextended = true\ntools = [\"cargo\", \"src\"]\n\n[rust]\ndescription = \"",
        );
        content.append(toolchain.name.as_str());
        content.append("+");
        content.append(toolchain.rust_rev.as_str());
        content.append("\"\n");
        actions.push(Action::WriteFile { path: join_path(rust_repo, "config.toml"), content });
        actions.push(Action::Install { repo: String::from_str(rust_repo) });
        assert(actions.deep_view() =~= toolchain.install_actions(rust_repo@)) by {
            let n = toolchain.patches@.len() as int;
            assert forall|k: int| 0 <= k < n + 3 implies actions.deep_view()[k]
                == toolchain.install_actions(rust_repo@)[k] by {
                if 1 <= k < n + 1 {
                    assert(actions@[1 + (k - 1)].deep_view() == toolchain.patch_actions(
                        rust_repo@,
                    )[k - 1]);
                }
            }
        }
    }
    let ghost before = actions.deep_view();
    actions.push(Action::Link { name: toolchain.name.clone(), folder });
    assert(actions.deep_view() =~= before.push(toolchain.link_action()));
    actions
}

/// How many installs a plan holds.
pub open spec fn installs(actions: Seq<ActionView>) -> nat
    decreases actions.len(),
{
    if actions.len() == 0 {
        0
    } else {
        installs(actions.drop_last()) + if actions.last() is Install {
            1nat
        } else {
            0nat
        }
    }
}

/// Applying patches installs nothing.
proof fn lemma_no_install_in_patches(patches: Seq<ActionView>)
    requires
        forall|i: int| 0 <= i < patches.len() ==> #[trigger] patches[i] is ApplyPatch,
    ensures
        installs(patches) == 0,
    decreases patches.len(),
{
    if patches.len() > 0 {
        lemma_no_install_in_patches(patches.drop_last());
    }
}

/// The installs of two plans put end to end are those of both.
proof fn lemma_installs_concat(a: Seq<ActionView>, b: Seq<ActionView>)
    ensures
        installs(a + b) == installs(a) + installs(b),
    decreases b.len(),
{
    if b.len() == 0 {
        assert(a + b =~= a);
    } else {
        lemma_installs_concat(a, b.drop_last());
        assert((a + b).drop_last() =~= a + b.drop_last());
    }
}

/// Building a toolchain twice installs it once: unless a rebuild is forced,
/// the build that finds no marker holds one install, and the build that
/// finds the marker holds none and does nothing but register the toolchain,
/// as the first build did at its end.
pub proof fn lemma_build_toolchain_idempotent(rust_repo: Seq<char>, toolchain: &ToolChainOpts)
    requires
        !toolchain.force,
    ensures
        installs(toolchain.actions(rust_repo, false)) == 1,
        installs(toolchain.actions(rust_repo, true)) == 0,
        toolchain.actions(rust_repo, true) == seq![toolchain.link_action()],
        toolchain.actions(rust_repo, false).last() == toolchain.link_action(),
{
    let reset = seq![ActionView::Reset { repo: rust_repo, rev: toolchain.rust_rev@ }];
    let patches = toolchain.patch_actions(rust_repo);
    let write = seq![
        ActionView::WriteFile {
            path: join(rust_repo, "config.toml"@),
            content: config_text(toolchain.folder_path(), toolchain.name@, toolchain.rust_rev@),
        },
    ];
    let install = seq![ActionView::Install { repo: rust_repo }];
    let link = seq![toolchain.link_action()];
    reveal_with_fuel(installs, 2);
    assert(toolchain.actions(rust_repo, false) =~= reset + patches + write + install + link);
    lemma_installs_concat(reset + patches + write + install, link);
    lemma_installs_concat(reset + patches + write, install);
    lemma_installs_concat(reset + patches, write);
    lemma_installs_concat(reset, patches);
    lemma_no_install_in_patches(patches);
    assert(installs(reset) == 0) by {
        assert(reset.drop_last() =~= Seq::<ActionView>::empty());
    }
    assert(installs(write) == 0) by {
        assert(write.drop_last() =~= Seq::<ActionView>::empty());
    }
    assert(installs(install) == 1) by {
        assert(install.drop_last() =~= Seq::<ActionView>::empty());
    }
    assert(installs(link) == 0) by {
        assert(link.drop_last() =~= Seq::<ActionView>::empty());
    }
}

} // verus!
