//! The records that the stores keep and the values handed to consumers.
use vstd::prelude::*;

use crate::json::Real;
use crate::text::{clone_opt_text, opt_text};
use crate::time::Timestamp;

verus! {

/// The settings of the service: where the sources are, and how often each is
/// polled, in seconds.
#[derive(Clone, Debug)]
pub struct AppConfig {
    pub nasa_url: String,
    pub nasa_key: String,
    pub fallback_iss_url: String,
    pub redis_url: String,
    pub every_osdr: u64,
    pub every_iss: u64,
    pub every_apod: u64,
    pub every_neo: u64,
    pub every_donki: u64,
    pub every_spacex: u64,
}

/// One catalog entry with a stable identity.
#[derive(Debug)]
pub struct OsdrItem {
    /// The business key; a record without one was inserted unconditionally.
    pub dataset_id: Option<String>,
    pub title: Option<String>,
    pub status: Option<String>,
    pub updated_at: Option<Timestamp>,
    /// The time of first persistence; never changed afterwards.
    pub inserted_at: Timestamp,
    /// The full document as last ingested.
    pub raw: serde_json::Value,
}

pub struct OsdrItemView {
    pub dataset_id: Option<Seq<char>>,
    pub title: Option<Seq<char>>,
    pub status: Option<Seq<char>>,
    pub updated_at: Option<Timestamp>,
    pub inserted_at: Timestamp,
    pub raw: serde_json::Value,
}

impl View for OsdrItem {
    type V = OsdrItemView;

    open spec fn view(&self) -> OsdrItemView {
        OsdrItemView {
            dataset_id: opt_text(self.dataset_id),
            title: opt_text(self.title),
            status: opt_text(self.status),
            updated_at: self.updated_at,
            inserted_at: self.inserted_at,
            raw: self.raw,
        }
    }
}

impl Clone for OsdrItem {
    fn clone(&self) -> (r: OsdrItem)
        ensures
            r@ == self@,
    {
        OsdrItem {
            dataset_id: clone_opt_text(&self.dataset_id),
            title: clone_opt_text(&self.title),
            status: clone_opt_text(&self.status),
            updated_at: self.updated_at,
            inserted_at: self.inserted_at,
            raw: self.raw.clone(),
        }
    }
}

/// A position on the ground track: seconds since the epoch, and latitude and
/// longitude in degrees.
#[derive(Clone, Copy, Debug, PartialEq, Eq, Structural)]
pub struct IssPosition {
    pub timestamp: i64,
    pub latitude: Real,
    pub longitude: Real,
}

/// The answer to a liveness probe.
#[derive(Debug)]
pub struct Health {
    pub status: &'static str,
    pub now: Timestamp,
}

/// The liveness answer at a given time: the status is always `ok`.
pub fn health_check(now: Timestamp) -> (r: Health)
    ensures
        r.status@ == "ok"@,
        r.now == now,
{
    Health { status: "ok", now }
}

/// The envelope of a successful answer; `ok` is always `true`.
#[derive(Debug)]
pub struct ApiSuccessResponse<T> {
    pub ok: bool,
    pub data: T,
}

/// Values that can be sent as a successful answer.
pub trait ToSuccessResponse: Sized {
    /// Wraps the value in the envelope of a successful answer.
    fn to_success_response(self) -> (r: ApiSuccessResponse<Self>)
        ensures
            r.ok,
            r.data == self,
    {
        ApiSuccessResponse { ok: true, data: self }
    }
}

impl ToSuccessResponse for Health {

}

impl ToSuccessResponse for IssPosition {

}

impl ToSuccessResponse for Trend {

}

/// A position sample as the trend reads it: when it was stored, and the
/// readings that its payload gave. A reading that is missing or no number is
/// absent.
#[derive(Clone, Copy, Debug, PartialEq, Eq, Structural)]
pub struct PositionSample {
    pub fetched_at: Timestamp,
    pub latitude: Option<Real>,
    pub longitude: Option<Real>,
    pub velocity: Option<Real>,
}

/// Movement between the two most recent position samples. Derived on demand,
/// never stored.
#[derive(Debug)]
pub struct Trend {
    /// Whether the distance exceeds the noise threshold.
    pub movement: bool,
    /// Great-circle distance between the two positions, in kilometres.
    pub delta_km: Real,
    /// Time from the older sample to the newer one, in milliseconds.
    pub dt_ms: i64,
    /// The velocity that the newer sample reports.
    pub velocity_kmh: Option<Real>,
    pub from_time: Option<Timestamp>,
    pub to_time: Option<Timestamp>,
    pub from_lat: Option<Real>,
    pub from_lon: Option<Real>,
    pub to_lat: Option<Real>,
    pub to_lon: Option<Real>,
    pub status: String,
    pub message: String,
}

} // verus!
