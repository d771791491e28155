//! Reports as flat rows: one for each built artifact, and one for each
//! command under each toolchain and profile that was timed.

pub mod build_crate;
pub mod run;

pub use build_crate::{report_artifacts, BuildCrateReportRow};
pub use run::{report_run_results, RunReportRow};
