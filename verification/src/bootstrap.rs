//! Getting the compiler's source tree in place.

use vstd::prelude::*;
use vstd::string::*;
use crate::action::{Action, ActionView};
use crate::config::Config;

verus! {

/// Where the compiler's sources are cloned from.
pub open spec fn rust_git_url() -> Seq<char> {
    "https://github.com/rust-lang/rust.git"@
}

/// What it takes to have the source tree of `config` ready: a clone, unless
/// the tree is there, and the submodules in any case.
pub open spec fn bootstrap_actions(config: &Config, repo_exists: bool) -> Seq<ActionView> {
    let repo = config.global.rust_repo_path();
    let update = ActionView::UpdateSubmodules { repo };
    if repo_exists {
        seq![update]
    } else {
        seq![ActionView::GitClone { from_dir: None, url: rust_git_url(), dest: repo }, update]
    }
}

/// Plans the setup of the source tree. `repo_exists` says whether the source
/// tree is on disk: one that is there is not cloned again.
pub fn bootstrap(config: &Config, repo_exists: bool) -> (actions: Vec<Action>)
    ensures
        actions.deep_view() == bootstrap_actions(config, repo_exists),
{
    let mut actions: Vec<Action> = Vec::new();
    if !repo_exists {
        actions.push(
            Action::GitClone {
                from_dir: None,
                url: String::from_str("https://github.com/rust-lang/rust.git"),
                dest: config.global.rust_repo(),
            },
        );
    }
    actions.push(Action::UpdateSubmodules { repo: config.global.rust_repo() });
    assert(actions.deep_view() =~= bootstrap_actions(config, repo_exists));
    actions
}

} // verus!
