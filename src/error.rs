//! Failures of playlist acquisition.
use vstd::prelude::*;

verus! {

/// Why a playlist could not be obtained.
#[derive(Clone, Copy, Debug, PartialEq, Eq, Structural)]
pub enum ScrapeError {
    /// A rendered row does not have the shape the extractor relies on.
    MalformedRow,
    /// The scroll collection reached a ceiling before the list converged.
    ConvergenceTimeout,
}

} // verus!
