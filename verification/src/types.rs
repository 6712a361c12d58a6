//! The queries that requests carry.

use vstd::prelude::*;

verus! {

/// The query of a request that names a directory; without a path it means
/// the root.
#[derive(Debug)]
pub struct ListQuery {
    pub path: Option<String>,
}

/// The query of a request that names one file or directory.
#[derive(Debug)]
pub struct FileQuery {
    pub path: String,
}

} // verus!
