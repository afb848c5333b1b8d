//! Public-IP monitors query an IP-echo service and record the host's external
//! address; a change from the previous reading is noted in the detail.

use vstd::prelude::*;
use crate::monitors::{MonitorConfig, PublicIpMonitorConfig, DEFAULT_PUBLICIP_URL, FALLBACK_PUBLICIP_URL};
use crate::probe::{is_down_result, is_up_result, text_of, ProbeResult};
use crate::text::{decimal, first_token, first_token_of, push_decimal, str_eq};

verus! {

/// The detail of a fresh reading: the address, with a change note carrying
/// the previous value when it differs.
pub open spec fn ip_detail(new_ip: Seq<char>, prev_ip: Option<Seq<char>>) -> Seq<char> {
    match prev_ip {
        Some(prev) if prev != new_ip => new_ip + " (changed from "@ + prev + ")"@,
        _ => new_ip,
    }
}

/// The detail string for a fresh reading: just the IP, or a change note carrying
/// the previous value when the address differs.
pub fn detail_for_ip(new_ip: &str, prev_ip: Option<&str>) -> (d: String)
    ensures
        d@ == ip_detail(
            new_ip@,
            match prev_ip {
                Some(p) => Some(p@),
                None => None,
            },
        ),
{
    match prev_ip {
        Some(prev) => if !str_eq(prev, new_ip) {
            let mut d = new_ip.to_owned();
            d.append(" (changed from ");
            d.append(prev);
            d.append(")");
            d
        } else {
            new_ip.to_owned()
        },
        None => new_ip.to_owned(),
    }
}

/// The most recently recorded IP: the leading token of the prior probe's
/// detail (which may also carry a "(changed from …)" suffix).
pub fn prior_ip(latest_detail: &Option<String>) -> (ip: Option<String>)
    ensures
        text_of(ip) == match latest_detail {
            Some(d) => first_token(d@),
            None => None,
        },
{
    match latest_detail {
        Some(d) => first_token_of(d.as_str()),
        None => None,
    }
}

/// The endpoint a public-IP monitor reports: its URL, else the default service.
pub fn publicip_endpoint(cfg: &PublicIpMonitorConfig) -> (e: String)
    ensures
        e@ == match cfg.url {
            Some(u) => u@,
            None => DEFAULT_PUBLICIP_URL@,
        },
{
    match &cfg.url {
        Some(u) => u.clone(),
        None => DEFAULT_PUBLICIP_URL.to_owned(),
    }
}

/// The services to ask, in order: a configured URL alone; otherwise the
/// default then the fallback.
pub fn candidates(cfg: &PublicIpMonitorConfig) -> (urls: Vec<String>)
    ensures
        cfg.url matches Some(u) ==> urls@.len() == 1 && urls@[0]@ == u@,
        cfg.url is None ==> urls@.len() == 2 && urls@[0]@ == DEFAULT_PUBLICIP_URL@ && urls@[1]@
            == FALLBACK_PUBLICIP_URL@,
{
    let mut urls: Vec<String> = Vec::new();
    match &cfg.url {
        Some(u) => urls.push(u.clone()),
        None => {
            urls.push(DEFAULT_PUBLICIP_URL.to_owned());
            urls.push(FALLBACK_PUBLICIP_URL.to_owned());
        },
    }
    urls
}

/// Whether an HTTP status is a success (2xx).
pub fn is_success(status: u16) -> (ok: bool)
    ensures
        ok == (200 <= status && status <= 299),
{
    200 <= status && status <= 299
}

/// What asking one service gave.
#[derive(Debug, Clone)]
pub enum IpFetch {
    /// The service answered with a non-success status.
    Unsuccessful(u16),
    /// The service answered with a success status and a body that reads, once
    /// trimmed, as an IP address; this is the address's text.
    Address(String),
    /// The service answered with a success status and a body that is no address.
    Unparseable,
    /// The body of a successful answer could not be read.
    ReadError(String),
    /// The request timed out.
    Timeout,
    /// The request failed otherwise.
    RequestError(String),
}

/// The address a fetch yields, or the reason it yields none.
pub open spec fn fetch_outcome(f: IpFetch) -> Result<Seq<char>, Seq<char>> {
    match f {
        IpFetch::Unsuccessful(code) => Err("unexpected_status:"@ + decimal(code as nat)),
        IpFetch::Address(a) => Ok(a@),
        IpFetch::Unparseable => Err("unparseable_ip"@),
        IpFetch::ReadError(m) => Err("read_error: "@ + m@),
        IpFetch::Timeout => Err("timeout"@),
        IpFetch::RequestError(m) => Err("request_error: "@ + m@),
    }
}

pub fn fetch_result(f: &IpFetch) -> (r: Result<String, String>)
    ensures
        match (r, fetch_outcome(*f)) {
            (Ok(a), Ok(b)) => a@ == b,
            (Err(a), Err(b)) => a@ == b,
            _ => false,
        },
{
    match f {
        IpFetch::Unsuccessful(code) => {
            let mut s = "unexpected_status:".to_owned();
            push_decimal(&mut s, *code as u64);
            Err(s)
        },
        IpFetch::Address(a) => Ok(a.clone()),
        IpFetch::Unparseable => Err("unparseable_ip".to_owned()),
        IpFetch::ReadError(m) => {
            let mut s = "read_error: ".to_owned();
            s.append(m.as_str());
            Err(s)
        },
        IpFetch::Timeout => Err("timeout".to_owned()),
        IpFetch::RequestError(m) => {
            let mut s = "request_error: ".to_owned();
            s.append(m.as_str());
            Err(s)
        },
    }
}

/// The reason a cycle reports when no service was asked.
pub fn no_service_reason() -> (s: String)
    ensures
        s@ == "no_ip_service"@,
{
    "no_ip_service".to_owned()
}

/// An up reading of the address `ip` after `elapsed` ms, its detail noting a
/// change from `prev` (the previously recorded address).
pub fn reading_result(
    cfg: &PublicIpMonitorConfig,
    elapsed: u64,
    ip: &str,
    prev: &Option<String>,
) -> (r: ProbeResult)
    ensures
        is_up_result(r, cfg.name@, "publicip"@, MonitorConfig::PublicIp(*cfg).endpoint_view(), elapsed),
        r.failure_reason is None,
        text_of(r.detail) == Some(ip_detail(ip@, text_of(*prev))),
{
    let endpoint = publicip_endpoint(cfg);
    let detail = match prev {
        Some(p) => detail_for_ip(ip, Some(p.as_str())),
        None => detail_for_ip(ip, None),
    };
    ProbeResult::up(cfg.name.as_str(), "publicip", endpoint.as_str(), elapsed).with_detail(
        detail.as_str(),
    )
}

/// The down result of a cycle in which no service yielded an address, with
/// the reason the last attempt gave.
pub fn no_reading_result(cfg: &PublicIpMonitorConfig, last_reason: &str) -> (r: ProbeResult)
    ensures
        is_down_result(
            r,
            cfg.name@,
            "publicip"@,
            MonitorConfig::PublicIp(*cfg).endpoint_view(),
            last_reason@,
        ),
{
    let endpoint = publicip_endpoint(cfg);
    ProbeResult::down(cfg.name.as_str(), "publicip", endpoint.as_str(), last_reason)
}

} // verus!
