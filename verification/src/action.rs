//! The steps that plans are made of.
//!
//! A plan is a list of actions to carry out in order. The library only says
//! what is to be done: whoever carries a plan out runs the commands, and
//! stops at the first action that fails.

use vstd::prelude::*;
use vstd::string::*;
use crate::config::EnvVar;

verus! {

/// One step of a plan.
#[derive(Debug, Clone, PartialEq, Eq)]
pub enum Action {
    /// Create the directory `path` and its parents, as far as they are
    /// missing.
    MakeDir { path: String },
    /// Clone the repository at `url` to `dest`. With `from_dir`, the clone
    /// is made from that directory, so a relative `dest` lies below it.
    GitClone { from_dir: Option<String>, url: String, dest: String },
    /// Copy the directory `path` to `dest`, both seen from the directory
    /// `cwd`.
    CopyDir { cwd: String, path: String, dest: String },
    /// Fetch all submodules of the checkout at `repo`.
    UpdateSubmodules { repo: String },
    /// Reset the checkout at `repo` to the revision `rev`. This throws away
    /// whatever was changed there.
    Reset { repo: String, rev: String },
    /// Apply the patch `file` to the checkout at `repo`.
    ApplyPatch { repo: String, file: String },
    /// Write `content` to the file at `path`.
    WriteFile { path: String, content: String },
    /// Build the toolchain from the checkout at `repo` and install it.
    Install { repo: String },
    /// Register the toolchain that is installed in `folder` under `name`.
    Link { name: String, folder: String },
    /// Run the shell command `cmd` in the directory `workspace`, with the
    /// variables `environ` set in this order.
    Build { workspace: String, environ: Vec<EnvVar>, cmd: String },
    /// Strip the debug symbols from the binary at `path`.
    Strip { path: String },
}

/// The mathematical value of an [`Action`].
pub enum ActionView {
    MakeDir { path: Seq<char> },
    GitClone { from_dir: Option<Seq<char>>, url: Seq<char>, dest: Seq<char> },
    CopyDir { cwd: Seq<char>, path: Seq<char>, dest: Seq<char> },
    UpdateSubmodules { repo: Seq<char> },
    Reset { repo: Seq<char>, rev: Seq<char> },
    ApplyPatch { repo: Seq<char>, file: Seq<char> },
    WriteFile { path: Seq<char>, content: Seq<char> },
    Install { repo: Seq<char> },
    Link { name: Seq<char>, folder: Seq<char> },
    Build { workspace: Seq<char>, environ: Seq<(Seq<char>, Seq<char>)>, cmd: Seq<char> },
    Strip { path: Seq<char> },
}

impl DeepView for Action {
    type V = ActionView;

    open spec fn deep_view(&self) -> ActionView {
        match self {
            Action::MakeDir { path } => ActionView::MakeDir { path: path@ },
            Action::GitClone { from_dir, url, dest } => ActionView::GitClone {
                from_dir: from_dir.deep_view(),
                url: url@,
                dest: dest@,
            },
            Action::CopyDir { cwd, path, dest } => ActionView::CopyDir {
                cwd: cwd@,
                path: path@,
                dest: dest@,
            },
            Action::UpdateSubmodules { repo } => ActionView::UpdateSubmodules { repo: repo@ },
            Action::Reset { repo, rev } => ActionView::Reset { repo: repo@, rev: rev@ },
            Action::ApplyPatch { repo, file } => ActionView::ApplyPatch { repo: repo@, file: file@ },
            Action::WriteFile { path, content } => ActionView::WriteFile {
                path: path@,
                content: content@,
            },
            Action::Install { repo } => ActionView::Install { repo: repo@ },
            Action::Link { name, folder } => ActionView::Link { name: name@, folder: folder@ },
            Action::Build { workspace, environ, cmd } => ActionView::Build {
                workspace: workspace@,
                environ: environ.deep_view(),
                cmd: cmd@,
            },
            Action::Strip { path } => ActionView::Strip { path: path@ },
        }
    }
}

impl ActionView {
    /// Whether the plan ends if the command of this action reports failure.
    /// Stripping is done as well as it can be: its outcome is not looked at.
    pub open spec fn must_succeed(self) -> bool {
        !(self is Strip)
    }
}

impl Action {
    /// Whether the plan ends if the command of this action reports failure.
    pub fn must_succeed(&self) -> (fatal: bool)
        ensures
            fatal == self.deep_view().must_succeed(),
    {
        match self {
            Action::Strip { .. } => false,
            _ => true,
        }
    }
}

} // verus!
