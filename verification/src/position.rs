//! The current position: the fast store first, the upstream API on any
//! failure.
//!
//! Reading the store and calling upstream are the caller's work. The library
//! decides what a store answer is worth and which of the two answers is
//! returned.
use vstd::prelude::*;
use vstd::string::*;

use crate::errors::AppError;
use crate::json::{lookup, member, parse_document, parsed_text, Member, MemberView};
use crate::models::IssPosition;
use crate::text::{blank, joined, is_blank};

verus! {

/// What came of reading the fast store.
#[derive(Debug)]
pub enum StoreRead {
    /// The value stored under the key.
    Value(String),
    /// The store answered, but not with a value; the text is its complaint.
    Absent(String),
    /// The store could not be reached; the text is the connection's
    /// complaint.
    Unreachable(String),
}

/// What to do once the fast store has answered.
#[derive(Debug, PartialEq, Eq)]
pub enum NextStep {
    /// The store gave a position: return it.
    Return(IssPosition),
    /// The store gave none: ask upstream.
    FetchUpstream,
}

/// The position that three members denote: `timestamp` an integer, `latitude`
/// and `longitude` numbers.
pub open spec fn position_of_members(
    timestamp: Option<MemberView>,
    latitude: Option<MemberView>,
    longitude: Option<MemberView>,
) -> Option<IssPosition> {
    match (timestamp, latitude, longitude) {
        (
            Some(MemberView::Number { integer: Some(t), .. }),
            Some(MemberView::Number { float: Some(lat), .. }),
            Some(MemberView::Number { float: Some(lon), .. }),
        ) => Some(IssPosition { timestamp: t, latitude: lat, longitude: lon }),
        _ => None,
    }
}

/// The position that a document denotes: an object with an integer
/// `timestamp` and numbers `latitude` and `longitude`.
pub open spec fn position_of(doc: serde_json::Value) -> Option<IssPosition> {
    position_of_members(
        lookup(doc, "timestamp"@),
        lookup(doc, "latitude"@),
        lookup(doc, "longitude"@),
    )
}

/// The position that a store answer gives: the value must be there, hold more
/// than white space, be JSON and denote a position.
pub open spec fn store_position(read: StoreRead) -> Option<IssPosition> {
    match read {
        StoreRead::Value(text) => if blank(text@) {
            None
        } else {
            match parsed_text(text@) {
                Ok(doc) => position_of(doc),
                Err(_) => None,
            }
        },
        _ => None,
    }
}

/// The position that three members denote.
pub fn position_from_members(
    timestamp: &Option<Member>,
    latitude: &Option<Member>,
    longitude: &Option<Member>,
) -> (r: Option<IssPosition>)
    ensures
        r == position_of_members(
            crate::json_tools::view_of(*timestamp),
            crate::json_tools::view_of(*latitude),
            crate::json_tools::view_of(*longitude),
        ),
{
    match (timestamp, latitude, longitude) {
        (
            Some(Member::Number { integer: Some(t), .. }),
            Some(Member::Number { float: Some(lat), .. }),
            Some(Member::Number { float: Some(lon), .. }),
        ) => Some(IssPosition { timestamp: *t, latitude: *lat, longitude: *lon }),
        _ => None,
    }
}

/// Reads a position from a document: an object with an integer `timestamp`
/// and numbers `latitude` and `longitude`. Other members are ignored.
pub fn position_from_document(doc: &serde_json::Value) -> (r: Option<IssPosition>)
    ensures
        r == position_of(*doc),
{
    let timestamp = member(doc, "timestamp");
    let latitude = member(doc, "latitude");
    let longitude = member(doc, "longitude");
    position_from_members(&timestamp, &latitude, &longitude)
}

/// What a store answer is worth as telemetry: the document stored, or the
/// reason why there is none.
pub fn calculate_iss_position(read: &StoreRead) -> (r: Result<serde_json::Value, AppError>)
    ensures
        match *read {
            StoreRead::Unreachable(e) => r matches Err(AppError::ExternalServiceError(m)) && m@
                == "Redis connection failed: "@ + e@,
            StoreRead::Absent(e) => r matches Err(AppError::NotFound(m)) && m@
                == "Latest telemetry data not available in cache: "@ + e@,
            StoreRead::Value(text) => if blank(text@) {
                r matches Err(AppError::NotFound(m)) && m@ == "Empty telemetry data in cache."@
            } else {
                match parsed_text(text@) {
                    Ok(doc) => r matches Ok(d) && d == doc,
                    Err(e) => r matches Err(AppError::InternalError(m)) && m@
                        == "Failed to parse JSON from Redis: "@ + e,
                }
            },
        },
{
    match read {
        StoreRead::Unreachable(e) => Err(
            AppError::ExternalServiceError(joined("Redis connection failed: ", e.as_str())),
        ),
        StoreRead::Absent(e) => Err(
            AppError::NotFound(
                joined("Latest telemetry data not available in cache: ", e.as_str()),
            ),
        ),
        StoreRead::Value(text) => {
            if is_blank(text.as_str()) {
                return Err(AppError::NotFound("Empty telemetry data in cache.".to_string()));
            }
            match parse_document(text.as_str()) {
                Ok(doc) => Ok(doc),
                Err(e) => Err(
                    AppError::InternalError(
                        joined("Failed to parse JSON from Redis: ", e.as_str()),
                    ),
                ),
            }
        },
    }
}

/// The position that a store answer gives, if it gives one.
pub fn position_from_store(read: &StoreRead) -> (r: Option<IssPosition>)
    ensures
        r == store_position(*read),
{
    match calculate_iss_position(read) {
        Ok(doc) => position_from_document(&doc),
        Err(_) => None,
    }
}

/// What to do once the fast store has answered: return its position, or ask
/// upstream where it gave none.
pub fn after_store_read(read: &StoreRead) -> (r: NextStep)
    ensures
        r == match store_position(*read) {
            Some(p) => NextStep::Return(p),
            None => NextStep::FetchUpstream,
        },
{
    match position_from_store(read) {
        Some(p) => NextStep::Return(p),
        None => NextStep::FetchUpstream,
    }
}

/// The current position, given the store's answer and what upstream
/// returned. The store's position wins; where the store gave none, the
/// upstream answer is returned as it is, failure included. So an error comes
/// back only when both sources failed.
pub fn get_iss_position(read: &StoreRead, upstream: Result<IssPosition, AppError>) -> (r: Result<
    IssPosition,
    AppError,
>)
    ensures
        match store_position(*read) {
            Some(p) => r == Ok::<IssPosition, AppError>(p),
            None => r == upstream,
        },
        r is Err ==> store_position(*read) is None && upstream is Err,
{
    match position_from_store(read) {
        Some(p) => Ok(p),
        None => upstream,
    }
}

} // verus!
