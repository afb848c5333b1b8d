//! Probe results and the decision logic of each probe type. The network work
//! itself (sockets, HTTP, DNS) is done by the caller, which hands the
//! observations to the functions here.

pub mod border;
pub mod http;
pub mod icmp;
pub mod publicip;
pub mod tcp;
pub mod traceroute;

use vstd::prelude::*;

verus! {

/// The outcome of one probe of one monitor.
#[derive(Debug, Clone)]
pub struct ProbeResult {
    pub monitor_name: String,
    pub protocol: String,
    pub endpoint: String,
    /// `up` or `down`.
    pub status: String,
    pub response_time_ms: Option<u64>,
    pub failure_reason: Option<String>,
    /// Type-specific detail (an address, a fault class, a hop count).
    pub detail: Option<String>,
    /// When the probe completed.
    pub checked_at: Timestamp,
}

/// A point in time as the clock gives it: whole seconds since the Unix epoch
/// (UTC) and the nanoseconds past them.
#[derive(Debug, Clone, Copy, PartialEq, Eq)]
pub struct Timestamp {
    pub secs: i64,
    pub nanos: u32,
}

/// The milliseconds since the Unix epoch of `t`: its whole seconds × 1000
/// plus its whole milliseconds.
pub open spec fn epoch_ms_of(t: Timestamp) -> int {
    t.secs * 1000 + (t.nanos / 1_000_000) as int
}

impl Timestamp {
    /// `self` in milliseconds since the Unix epoch, as results are stored.
    pub fn epoch_ms(&self) -> (ms: i64)
        requires
            i64::MIN <= epoch_ms_of(*self) <= i64::MAX,
        ensures
            ms == epoch_ms_of(*self),
    {
        let ms: i128 = (self.secs as i128) * 1000 + ((self.nanos / 1_000_000) as i128);
        ms as i64
    }
}

/// The RFC 3339 text that `chrono` gives the UTC instant `secs` seconds and
/// `nanos` nanoseconds after the Unix epoch (the epoch itself when that is out
/// of `chrono`'s range).
pub uninterp spec fn rfc3339_of_timestamp(secs: i64, nanos: u32) -> Seq<char>;

/// Formats a timestamp as RFC 3339 through `chrono::DateTime::<Utc>::from_timestamp`
/// and `to_rfc3339` (fraction digits only as many as needed); an instant out
/// of range gives the epoch, as `unwrap_or_default` does. The text is named,
/// not stated: it is a function of `secs` and `nanos` alone.
#[verifier::external_body]
pub(crate) fn timestamp_to_rfc3339(secs: i64, nanos: u32) -> (s: String)
    ensures
        s@ == rfc3339_of_timestamp(secs, nanos),
{
    chrono::DateTime::<chrono::Utc>::from_timestamp(secs, nanos).unwrap_or_default().to_rfc3339()
}

/// The text of an optional string.
pub open spec fn text_of(o: Option<String>) -> Option<Seq<char>> {
    match o {
        Some(s) => Some(s@),
        None => None,
    }
}

/// `r` reports `name`/`protocol`/`endpoint` as up after `rtt` ms, with no
/// reason and no detail.
pub open spec fn is_up_result(
    r: ProbeResult,
    name: Seq<char>,
    protocol: Seq<char>,
    endpoint: Seq<char>,
    rtt: u64,
) -> bool {
    &&& r.monitor_name@ == name
    &&& r.protocol@ == protocol
    &&& r.endpoint@ == endpoint
    &&& r.status@ == "up"@
    &&& r.response_time_ms == Some(rtt)
}

/// `r` reports `name`/`protocol`/`endpoint` as down for `reason`.
pub open spec fn is_down_result(
    r: ProbeResult,
    name: Seq<char>,
    protocol: Seq<char>,
    endpoint: Seq<char>,
    reason: Seq<char>,
) -> bool {
    &&& r.monitor_name@ == name
    &&& r.protocol@ == protocol
    &&& r.endpoint@ == endpoint
    &&& r.status@ == "down"@
    &&& r.response_time_ms is None
    &&& text_of(r.failure_reason) == Some(reason)
}

/// The current time from `chrono::Utc::now`, as its `timestamp` and
/// `timestamp_subsec_nanos`. Nothing is stated of the value: it is the wall
/// clock.
#[verifier::external_body]
fn now_timestamp() -> Timestamp {
    let now = chrono::Utc::now();
    Timestamp { secs: now.timestamp(), nanos: now.timestamp_subsec_nanos() }
}

impl ProbeResult {
    pub fn up(monitor_name: &str, protocol: &str, endpoint: &str, response_time_ms: u64) -> (r:
        Self)
        ensures
            is_up_result(r, monitor_name@, protocol@, endpoint@, response_time_ms),
            r.failure_reason is None,
            r.detail is None,
    {
        ProbeResult {
            monitor_name: monitor_name.to_owned(),
            protocol: protocol.to_owned(),
            endpoint: endpoint.to_owned(),
            status: "up".to_owned(),
            response_time_ms: Some(response_time_ms),
            failure_reason: None,
            detail: None,
            checked_at: now_timestamp(),
        }
    }

    pub fn down(monitor_name: &str, protocol: &str, endpoint: &str, reason: &str) -> (r: Self)
        ensures
            is_down_result(r, monitor_name@, protocol@, endpoint@, reason@),
            r.detail is None,
    {
        ProbeResult {
            monitor_name: monitor_name.to_owned(),
            protocol: protocol.to_owned(),
            endpoint: endpoint.to_owned(),
            status: "down".to_owned(),
            response_time_ms: None,
            failure_reason: Some(reason.to_owned()),
            detail: None,
            checked_at: now_timestamp(),
        }
    }

    /// The same result carrying `detail`.
    pub fn with_detail(self, detail: &str) -> (r: Self)
        ensures
            r.monitor_name == self.monitor_name,
            r.protocol == self.protocol,
            r.endpoint == self.endpoint,
            r.status == self.status,
            r.response_time_ms == self.response_time_ms,
            r.failure_reason == self.failure_reason,
            r.checked_at == self.checked_at,
            text_of(r.detail) == Some(detail@),
    {
        ProbeResult { detail: Some(detail.to_owned()), ..self }
    }
}

} // verus!
