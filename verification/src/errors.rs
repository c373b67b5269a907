use vstd::prelude::*;

verus! {

/// Why a run fails.  Every error is fatal: it surfaces to the top level and
/// aborts the whole run, with no partial result.
#[derive(Debug, PartialEq, Eq)]
pub enum AnalyzerError {
    /// The user lookup answered with a failure status or an unreadable body.
    AuthenticationFailed,
    /// No usable repository argument or git remote URL.
    RepositoryResolutionFailed,
    /// A pull-request number that is not a positive decimal number in range.
    InvalidTargetFormat,
    /// A page fetch answered with a non-success status.
    RemoteRequestFailed { status: u16 },
    /// A response body that is not a JSON array of records.
    MalformedResponseBody,
    /// A page named the URL it was fetched from as its own successor.
    PaginationCycle,
    /// A pagination run asked for more pages than the defensive ceiling.
    PageLimitExceeded,
}

} // verus!
