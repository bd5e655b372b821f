//! The error taxonomy of the mirror: what can go wrong on the ingestion
//! path and on the query path.

use vstd::prelude::*;

verus! {

/// Every failure the mirror distinguishes.
///
/// `UpstreamFetchFailed` is a transport-level failure of a page fetch;
/// `UpstreamDecodeFailed` a payload that did not match the expected
/// schema, including the mandatory decimal-string-to-number coercion;
/// `StoreWriteFailed` and `StoreQueryFailed` are store-side failures.
/// Invalid caller query parameters are never surfaced: the normalizer
/// silently resolves them to defaults by design.
#[derive(Clone, Copy, Debug, PartialEq, Eq, Structural)]
pub enum HistoryError {
    UpstreamFetchFailed,
    UpstreamDecodeFailed,
    StoreWriteFailed,
    StoreQueryFailed,
}

impl HistoryError {
    /// A fixed description of the failure.
    pub fn describe(&self) -> (r: &'static str)
        ensures
            *self is UpstreamFetchFailed ==> r@ == "Failed to fetch data"@,
            *self is UpstreamDecodeFailed ==> r@ == "Failed to parse data"@,
            *self is StoreWriteFailed ==> r@ == "Failed to insert data into database"@,
            *self is StoreQueryFailed ==> r@ == "Failed to query data from database"@,
    {
        match self {
            HistoryError::UpstreamFetchFailed => "Failed to fetch data",
            HistoryError::UpstreamDecodeFailed => "Failed to parse data",
            HistoryError::StoreWriteFailed => "Failed to insert data into database",
            HistoryError::StoreQueryFailed => "Failed to query data from database",
        }
    }
}

} // verus!
