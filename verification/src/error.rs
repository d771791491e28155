//! What can go wrong while planning or aggregating.

use vstd::prelude::*;
use vstd::string::*;

verus! {

/// A fatal error. None is retried: the command that met it ends.
#[derive(Debug, Clone, PartialEq, Eq)]
pub enum Error {
    /// Configuration error: the program `krate` has to be fetched, but names
    /// neither a repository nor a local path.
    Config { krate: String },
    /// Lookup error: no profile or program is called `name`.
    Lookup { name: String },
    /// The file at `path` is already there and will not be overwritten.
    AlreadyExists { path: String },
    /// Aggregation error: statistics were asked of an empty set of samples.
    Aggregation,
}

/// The mathematical value of an [`Error`].
pub enum ErrorView {
    Config { krate: Seq<char> },
    Lookup { name: Seq<char> },
    AlreadyExists { path: Seq<char> },
    Aggregation,
}

impl DeepView for Error {
    type V = ErrorView;

    open spec fn deep_view(&self) -> ErrorView {
        match self {
            Error::Config { krate } => ErrorView::Config { krate: krate@ },
            Error::Lookup { name } => ErrorView::Lookup { name: name@ },
            Error::AlreadyExists { path } => ErrorView::AlreadyExists { path: path@ },
            Error::Aggregation => ErrorView::Aggregation,
        }
    }
}

impl ErrorView {
    /// The text shown to the user for this error.
    pub open spec fn message(self) -> Seq<char> {
        match self {
            ErrorView::Config { krate } => "neither git nor path provided for crate "@ + krate,
            ErrorView::Lookup { name } => "not able to find "@ + name,
            ErrorView::AlreadyExists { path } => "config file already exists: "@ + path,
            ErrorView::Aggregation => "no samples to aggregate"@,
        }
    }
}

impl Error {
    /// The text shown to the user for this error.
    pub fn message(&self) -> (text: String)
        ensures
            text@ == self.deep_view().message(),
    {
        match self {
            Error::Config { krate } => {
                String::from_str("neither git nor path provided for crate ").concat(krate.as_str())
            },
            Error::Lookup { name } => String::from_str("not able to find ").concat(name.as_str()),
            Error::AlreadyExists { path } => {
                String::from_str("config file already exists: ").concat(path.as_str())
            },
            Error::Aggregation => String::from_str("no samples to aggregate"),
        }
    }
}

} // verus!
