//! HTTP monitors: a request whose answer must carry the expected status
//! (any 2xx when none is configured).

use vstd::prelude::*;
use crate::monitors::{HttpMonitorConfig, MonitorConfig};
use crate::probe::{is_down_result, is_up_result, text_of, ProbeResult};
use crate::text::{contains_seq, contains_str, decimal, push_decimal};

verus! {

/// How a request ended.
#[derive(Debug, Clone)]
pub enum HttpOutcome {
    /// An answer with this status after this many milliseconds.
    Response { status: u16, elapsed_ms: u64 },
    /// The request failed; the flags classify the error, `message` is its text.
    Failed { timeout: bool, connect: bool, request: bool, message: String },
}

/// Whether an answer with `status` fails the monitor: it must equal the
/// expected status when one is set, else be a success (2xx).
pub open spec fn status_fails(expected: Option<u16>, status: u16) -> bool {
    match expected {
        Some(e) => status != e,
        None => !(200 <= status && status <= 299),
    }
}

/// With no expected status an answer passes exactly on 200..=299; with one,
/// exactly on that status.
pub proof fn lemma_status_fails_by_range(expected: Option<u16>, status: u16)
    ensures
        expected is None ==> (status_fails(expected, status) <==> (status < 200 || status > 299)),
        expected matches Some(e) ==> (status_fails(expected, status) <==> status != e),
{
}

pub fn http_status_fails(expected: Option<u16>, status: u16) -> (f: bool)
    ensures
        f == status_fails(expected, status),
        expected is None ==> (f <==> (status < 200 || status > 299)),
        expected matches Some(e) ==> (f <==> status != e),
{
    match expected {
        Some(e) => status != e,
        None => !(200 <= status && status <= 299),
    }
}

/// The failure reason of a failed request.
pub open spec fn http_failure(
    timeout: bool,
    connect: bool,
    request: bool,
    message: Seq<char>,
) -> Seq<char> {
    if timeout {
        "timeout"@
    } else if connect {
        "connection_refused"@
    } else if request {
        "request_error: "@ + message
    } else if contains_seq(message, "tls"@) || contains_seq(message, "TLS"@) || contains_seq(
        message,
        "certificate"@,
    ) {
        "tls_error"@
    } else if contains_seq(message, "dns"@) || contains_seq(message, "resolve"@) {
        "dns_error"@
    } else {
        "error: "@ + message
    }
}

pub fn http_failure_reason(timeout: bool, connect: bool, request: bool, message: &str) -> (r:
    String)
    ensures
        r@ == http_failure(timeout, connect, request, message@),
{
    if timeout {
        "timeout".to_owned()
    } else if connect {
        "connection_refused".to_owned()
    } else if request {
        let mut r = "request_error: ".to_owned();
        r.append(message);
        r
    } else if contains_str(message, "tls") || contains_str(message, "TLS") || contains_str(
        message,
        "certificate",
    ) {
        "tls_error".to_owned()
    } else if contains_str(message, "dns") || contains_str(message, "resolve") {
        "dns_error".to_owned()
    } else {
        let mut r = "error: ".to_owned();
        r.append(message);
        r
    }
}

/// The result of an HTTP probe from how its request ended.
pub fn http_result(cfg: &HttpMonitorConfig, outcome: &HttpOutcome) -> (r: ProbeResult)
    ensures
        *outcome matches HttpOutcome::Response { status, elapsed_ms } ==> (!status_fails(
            cfg.expected_status,
            status,
        ) ==> is_up_result(r, cfg.name@, "http"@, cfg.url@, elapsed_ms)
            && r.failure_reason is None),
        *outcome matches HttpOutcome::Response { status, elapsed_ms } ==> (status_fails(
            cfg.expected_status,
            status,
        ) ==> is_down_result(
            r,
            cfg.name@,
            "http"@,
            cfg.url@,
            "unexpected_status:"@ + decimal(status as nat),
        )),
        *outcome matches HttpOutcome::Failed { timeout, connect, request, message }
            ==> is_down_result(
            r,
            cfg.name@,
            "http"@,
            cfg.url@,
            http_failure(timeout, connect, request, message@),
        ),
        r.detail is None,
        r.endpoint@ == MonitorConfig::Http(*cfg).endpoint_view(),
        *outcome matches HttpOutcome::Response { status, elapsed_ms } ==> (cfg.expected_status
            is None ==> (if 200 <= status <= 299 {
            r.status@ == "up"@ && r.response_time_ms == Some(elapsed_ms) && r.failure_reason is None
        } else {
            r.status@ == "down"@ && r.response_time_ms is None && text_of(r.failure_reason) == Some(
                "unexpected_status:"@ + decimal(status as nat),
            )
        })),
        *outcome matches HttpOutcome::Response { status, elapsed_ms } ==> (cfg.expected_status
            matches Some(e) ==> (if status == e {
            r.status@ == "up"@ && r.response_time_ms == Some(elapsed_ms) && r.failure_reason is None
        } else {
            r.status@ == "down"@ && r.response_time_ms is None && text_of(r.failure_reason) == Some(
                "unexpected_status:"@ + decimal(status as nat),
            )
        })),
{
    match outcome {
        HttpOutcome::Response { status, elapsed_ms } => {
            if http_status_fails(cfg.expected_status, *status) {
                let mut reason = "unexpected_status:".to_owned();
                push_decimal(&mut reason, *status as u64);
                ProbeResult::down(cfg.name.as_str(), "http", cfg.url.as_str(), reason.as_str())
            } else {
                ProbeResult::up(cfg.name.as_str(), "http", cfg.url.as_str(), *elapsed_ms)
            }
        },
        HttpOutcome::Failed { timeout, connect, request, message } => {
            let reason = http_failure_reason(*timeout, *connect, *request, message.as_str());
            ProbeResult::down(cfg.name.as_str(), "http", cfg.url.as_str(), reason.as_str())
        },
    }
}

} // verus!
