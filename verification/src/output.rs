//! Where a report goes.

use vstd::prelude::*;
use vstd::string::*;
use crate::text::str_eq;

verus! {

/// The destination of a report.
#[derive(Debug, Clone, PartialEq, Eq)]
pub enum OutputTarget {
    /// The standard output.
    Stdout,
    /// The file at this path.
    File(String),
}

/// The mathematical value of an [`OutputTarget`].
pub enum OutputTargetView {
    Stdout,
    File(Seq<char>),
}

impl DeepView for OutputTarget {
    type V = OutputTargetView;

    open spec fn deep_view(&self) -> OutputTargetView {
        match self {
            OutputTarget::Stdout => OutputTargetView::Stdout,
            OutputTarget::File(path) => OutputTargetView::File(path@),
        }
    }
}

/// The destination that `output` names: `-` stands for the standard output,
/// anything else is the path of a file.
pub fn output_target(output: &str) -> (target: OutputTarget)
    ensures
        target.deep_view() == if output@ == "-"@ {
            OutputTargetView::Stdout
        } else {
            OutputTargetView::File(output@)
        },
{
    if str_eq(output, "-") {
        OutputTarget::Stdout
    } else {
        OutputTarget::File(String::from_str(output))
    }
}

} // verus!
