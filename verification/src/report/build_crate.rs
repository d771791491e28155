//! The report of a build: one row for each artifact.

use vstd::prelude::*;
use vstd::string::*;
use crate::build_crate::Artifact;

verus! {

/// One built binary and its size.
#[derive(Debug, Clone, PartialEq, Eq)]
pub struct BuildCrateReportRow {
    pub toolchain: String,
    pub profile: String,
    pub krate: String,
    pub binary_size: u64,
    pub path: String,
}

/// The mathematical value of a [`BuildCrateReportRow`].
pub struct BuildCrateReportRowView {
    pub toolchain: Seq<char>,
    pub profile: Seq<char>,
    pub krate: Seq<char>,
    pub binary_size: u64,
    pub path: Seq<char>,
}

impl DeepView for BuildCrateReportRow {
    type V = BuildCrateReportRowView;

    open spec fn deep_view(&self) -> BuildCrateReportRowView {
        BuildCrateReportRowView {
            toolchain: self.toolchain@,
            profile: self.profile@,
            krate: self.krate@,
            binary_size: self.binary_size,
            path: self.path@,
        }
    }
}

/// The row for an artifact whose binary has `binary_size` bytes.
pub open spec fn build_row_of(artifact: Artifact, binary_size: u64) -> BuildCrateReportRowView {
    BuildCrateReportRowView {
        toolchain: artifact.toolchain@,
        profile: artifact.profile@,
        krate: artifact.crate_name@,
        binary_size,
        path: artifact.output_path@,
    }
}

/// The rows for a list of artifacts, each given with the size of its binary:
/// one row for each artifact, in the same order.
pub fn report_artifacts(artifacts: &Vec<(Artifact, u64)>) -> (rows: Vec<BuildCrateReportRow>)
    ensures
        rows@.len() == artifacts@.len(),
        forall|i: int|
            0 <= i < rows@.len() ==> (#[trigger] rows@[i]).deep_view() == build_row_of(
                artifacts@[i].0,
                artifacts@[i].1,
            ),
{
    let mut rows: Vec<BuildCrateReportRow> = Vec::new();
    let mut i: usize = 0;
    while i < artifacts.len()
        invariant
            i <= artifacts@.len(),
            rows@.len() == i,
            forall|k: int|
                0 <= k < i ==> (#[trigger] rows@[k]).deep_view() == build_row_of(
                    artifacts@[k].0,
                    artifacts@[k].1,
                ),
        decreases artifacts@.len() - i,
    {
        let artifact = &artifacts[i].0;
        rows.push(
            BuildCrateReportRow {
                toolchain: artifact.toolchain.clone(),
                profile: artifact.profile.clone(),
                krate: artifact.crate_name.clone(),
                binary_size: artifacts[i].1,
                path: artifact.output_path.clone(),
            },
        );
        i += 1;
    }
    rows
}

} // verus!
