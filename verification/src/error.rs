//! The errors the tool reports.
use vstd::prelude::*;

verus! {

/// Everything that can go wrong while uploading images or pruning upload refs.
///
/// Failures of the transport, of the local file system and of JSON decoding carry the
/// message of the underlying error.
#[derive(Debug, PartialEq, Eq)]
pub enum Error {
    AuthFailure,
    FileNotFound { path: String },
    ApiError { status: u16, message: String },
    IssueNotFound { repo: String, number: u32 },
    RateLimited { retry_after: Option<u64> },
    Network { message: String },
    Io { message: String },
    PartialUpload { stage: String },
    Serde { message: String },
    EmptyRepo,
}

pub type Result<T> = std::result::Result<T, Error>;

} // verus!
