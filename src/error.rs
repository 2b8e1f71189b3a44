use vstd::prelude::*;

verus! {

/// Why a download or a materialization did not complete.
#[derive(Debug, Clone, PartialEq, Eq)]
pub enum LoaderError {
    /// The hub refused or failed a metadata or fetch request.
    Registry(String),
    /// A directory could not be removed or created, or a link not made.
    Filesystem(String),
    /// A snapshot entry was not a symbolic link.
    UnexpectedEntry(String),
    /// A fetch did not report back before its deadline.
    Timeout,
}

} // verus!
