//! The commands of the wine-search command line.
use vstd::prelude::*;

verus! {

/// The parsed command line.
#[derive(Debug)]
pub struct Args {
    pub command: Command,
}

/// What the command line asks for. An index name that is not given means
/// the default index.
#[derive(Debug)]
pub enum Command {
    /// Create the wine index and update its settings.
    CreateIndex { index_name: Option<String> },
    /// Index the wine data, from the given path or the default one.
    IndexData { data_path: Option<String>, index_name: Option<String>, wait: bool },
    /// Perform a search, with an optional limit and sort order.
    Search {
        query: String,
        limit: Option<usize>,
        sort: Option<Vec<String>>,
        index_name: Option<String>,
    },
}

} // verus!
