//! The failure taxonomy shared by the repositories and the handlers.
use vstd::prelude::*;

verus! {

/// Every failure a repository operation or a handler can report.
///
/// - `Parse`: a malformed path identifier or form field; the caller can
///   correct it, and storage is never touched.
/// - `Storage`: a write failed, here on a key constraint violation (a
///   duplicate identifier).
/// - `NotFound`: a lookup by identifier matched no row.
/// - `CorruptIdentifier`: a stored identifier failed to parse back to its
///   structured form; fatal for that single read only.
#[derive(Clone, Copy, Debug, PartialEq, Eq, Structural)]
pub enum AppError {
    Parse,
    Storage,
    NotFound,
    CorruptIdentifier,
}

/// How a failure is surfaced to a client.
#[derive(Clone, Copy, Debug, PartialEq, Eq, Structural)]
pub enum ResponseClass {
    /// A client-error response: the request itself was malformed.
    ClientError,
    /// A generic error page; the detail is logged, never surfaced.
    ServerError,
}

/// Maps each failure kind to the response it is surfaced as: parse
/// failures are the client's to correct; every repository failure
/// collapses to a generic error page.
pub fn response_class(e: &AppError) -> (r: ResponseClass)
    ensures
        r == (if e is Parse {
            ResponseClass::ClientError
        } else {
            ResponseClass::ServerError
        }),
{
    match e {
        AppError::Parse => ResponseClass::ClientError,
        _ => ResponseClass::ServerError,
    }
}

} // verus!
