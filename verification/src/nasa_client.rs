//! What surrounds a call of the dataset catalog's API: the address asked, and
//! the documents taken from the answer.
use vstd::prelude::*;
use vstd::string::*;

use crate::errors::{AppError, HttpStatus, STATUS_BAD_GATEWAY};
use crate::json::{array_items, array_member};

verus! {

/// Where a call of an upstream API failed.
#[derive(Clone, Copy, Debug, PartialEq, Eq, Structural)]
pub enum FetchStage {
    /// The request could not be sent, or no answer came.
    Send,
    /// The answer carried a failure status.
    Status,
    /// The answer's body could not be decoded.
    Decode,
}

/// The error reported for a failed upstream call. An unreachable source and
/// a failure status are client errors handed on as a bad gateway; a body
/// that cannot be decoded is a serialization error. `cause` is what the
/// HTTP client printed.
pub fn fetch_failure(stage: FetchStage, cause: String) -> (r: AppError)
    ensures
        match stage {
            FetchStage::Send => r == AppError::ClientError(
                cause,
                HttpStatus::of(STATUS_BAD_GATEWAY),
            ),
            FetchStage::Status => r == AppError::ClientError(
                cause,
                HttpStatus::of(STATUS_BAD_GATEWAY),
            ),
            FetchStage::Decode => r == AppError::SerializationError(cause),
        },
{
    match stage {
        FetchStage::Send => AppError::ClientError(cause, HttpStatus::bad_gateway()),
        FetchStage::Status => AppError::ClientError(cause, HttpStatus::bad_gateway()),
        FetchStage::Decode => AppError::SerializationError(cause),
    }
}

/// The address of a catalog request: the catalog's address with the API key
/// as a further query parameter.
pub fn osdr_request_url(url: &str, api_key: &str) -> (r: String)
    ensures
        r@ == url@ + "&api_key="@ + api_key@,
{
    let mut s = String::from_str(url);
    s.append("&api_key=");
    s.append(api_key);
    s
}

/// The documents in a catalog answer: the elements of its `results` array,
/// none where the answer has no such array.
pub fn osdr_results(body: &serde_json::Value) -> (r: Vec<serde_json::Value>)
    ensures
        r@ == match array_items(*body, "results"@) {
            Some(items) => items,
            None => Seq::empty(),
        },
{
    match array_member(body, "results") {
        Some(items) => items,
        None => Vec::new(),
    }
}

} // verus!
