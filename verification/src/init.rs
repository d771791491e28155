//! Starting a new project with an example configuration.

use vstd::prelude::*;
use vstd::string::*;
use crate::error::{Error, ErrorView};
use crate::paths::{join, join_path};

verus! {

/// The configuration file of the project in `folder`: `<folder>/config.toml`.
pub open spec fn config_file_path(folder: Seq<char>) -> Seq<char> {
    join(folder, "config.toml"@)
}

/// The configuration file of the project in `folder`.
pub fn config_file(folder: &str) -> (path: String)
    ensures
        path@ == config_file_path(folder@),
{
    join_path(folder, "config.toml")
}

/// Says where to write the example configuration of a new project in
/// `folder`. `config_exists` says whether the configuration file is on disk:
/// one that is there is never overwritten.
pub fn init_project(folder: &str, config_exists: bool) -> (planned: Result<String, Error>)
    ensures
        planned is Err <==> config_exists,
        planned matches Err(e) ==> e.deep_view() == (ErrorView::AlreadyExists {
            path: config_file_path(folder@),
        }),
        planned matches Ok(path) ==> path@ == config_file_path(folder@),
{
    let path = config_file(folder);
    if config_exists {
        Err(Error::AlreadyExists { path })
    } else {
        Ok(path)
    }
}

} // verus!
