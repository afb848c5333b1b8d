//! TCP monitors: a connection attempt to `host:port` within the timeout.

use vstd::prelude::*;
use crate::monitors::{port_text, MonitorConfig, TcpMonitorConfig};
use crate::probe::{is_down_result, is_up_result, ProbeResult};
use crate::text::{contains_seq, contains_str, push_decimal};

verus! {

/// How a connection attempt ended.
#[derive(Debug, Clone)]
pub enum TcpOutcome {
    /// Connected after this many milliseconds.
    Connected(u64),
    /// The attempt failed: `refused` when the peer refused the connection,
    /// with the error's text.
    Failed { refused: bool, message: String },
    /// No answer within the timeout.
    TimedOut,
}

/// `host:port`, the address a TCP monitor connects to.
pub fn tcp_address(cfg: &TcpMonitorConfig) -> (a: String)
    ensures
        a@ == cfg.host@ + ":"@ + port_text(cfg.port),
{
    let mut a = cfg.host.clone();
    a.append(":");
    push_decimal(&mut a, cfg.port as u64);
    a
}

/// The failure reason of a failed connection attempt.
pub open spec fn tcp_failure(refused: bool, message: Seq<char>) -> Seq<char> {
    if refused {
        "connection_refused"@
    } else if contains_seq(message, "resolve"@) || contains_seq(message, "dns"@) || contains_seq(
        message,
        "Name or service not known"@,
    ) {
        "dns_error"@
    } else {
        "error: "@ + message
    }
}

pub fn tcp_failure_reason(refused: bool, message: &str) -> (r: String)
    ensures
        r@ == tcp_failure(refused, message@),
{
    if refused {
        "connection_refused".to_owned()
    } else if contains_str(message, "resolve") || contains_str(message, "dns") || contains_str(
        message,
        "Name or service not known",
    ) {
        "dns_error".to_owned()
    } else {
        let mut r = "error: ".to_owned();
        r.append(message);
        r
    }
}

/// The result of a TCP probe from how its connection attempt ended.
pub fn tcp_result(cfg: &TcpMonitorConfig, outcome: &TcpOutcome) -> (r: ProbeResult)
    ensures
        *outcome matches TcpOutcome::Connected(ms) ==> is_up_result(
            r,
            cfg.name@,
            "tcp"@,
            cfg.host@ + ":"@ + port_text(cfg.port),
            ms,
        ) && r.failure_reason is None,
        *outcome matches TcpOutcome::Failed { refused, message } ==> is_down_result(
            r,
            cfg.name@,
            "tcp"@,
            cfg.host@ + ":"@ + port_text(cfg.port),
            tcp_failure(refused, message@),
        ),
        outcome is TimedOut ==> is_down_result(
            r,
            cfg.name@,
            "tcp"@,
            cfg.host@ + ":"@ + port_text(cfg.port),
            "timeout"@,
        ),
        r.detail is None,
        r.endpoint@ == MonitorConfig::Tcp(*cfg).endpoint_view(),
{
    let addr = tcp_address(cfg);
    match outcome {
        TcpOutcome::Connected(ms) => ProbeResult::up(cfg.name.as_str(), "tcp", addr.as_str(), *ms),
        TcpOutcome::Failed { refused, message } => {
            let reason = tcp_failure_reason(*refused, message.as_str());
            ProbeResult::down(cfg.name.as_str(), "tcp", addr.as_str(), reason.as_str())
        },
        TcpOutcome::TimedOut => ProbeResult::down(
            cfg.name.as_str(),
            "tcp",
            addr.as_str(),
            "timeout",
        ),
    }
}

} // verus!
