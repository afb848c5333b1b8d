//! ICMP echo monitors: a cycle sends `count` echoes; the monitor is up when at
//! least one reply arrives, with the best round-trip time, and down only when
//! every echo is lost.

use vstd::prelude::*;
use crate::monitors::{IcmpMonitorConfig, MonitorConfig};
use crate::probe::{is_down_result, is_up_result, text_of, ProbeResult};
use crate::text::{decimal, push_decimal};

verus! {

/// Failure modes of a single ICMP echo.
#[derive(Debug, Clone)]
pub enum PingError {
    /// The host could not be resolved.
    Dns,
    /// A raw socket could not be created (missing CAP_NET_RAW / root).
    Privilege,
    /// No reply within the timeout (the echo was lost).
    NoReply,
    /// Any other error from the ICMP stack.
    Other(String),
}

/// `partial_loss (r/c replies)` or `no_reply (r/c replies)`, by `head`.
pub open spec fn tally_text(head: Seq<char>, received: u32, count: u32) -> Seq<char> {
    head + " ("@ + decimal(received as nat) + "/"@ + decimal(count as nat) + " replies)"@
}

fn tally_string(head: &str, received: u32, count: u32) -> (s: String)
    ensures
        s@ == tally_text(head@, received, count),
{
    let mut s = head.to_owned();
    s.append(" (");
    push_decimal(&mut s, received as u64);
    s.append("/");
    push_decimal(&mut s, count as u64);
    s.append(" replies)");
    s
}

/// The outcome of one ICMP cycle from its tally:
///
/// - `received >= 1` → `up` with the best RTT; a partial loss is noted in the
///   reason while the status stays `up`.
/// - `received == 0` → `down` with the preserved non-timeout error if every echo
///   errored that way, otherwise `no_reply` with the replies/sent counts.
pub fn decide_icmp_result(
    name: &str,
    endpoint: &str,
    count: u32,
    received: u32,
    min_rtt: Option<u64>,
    preserved_error: Option<String>,
) -> (r: ProbeResult)
    ensures
        received >= 1 ==> is_up_result(
            r,
            name@,
            "icmp"@,
            endpoint@,
            match min_rtt {
                Some(v) => v,
                None => 0,
            },
        ),
        received >= 1 && received < count ==> text_of(r.failure_reason) == Some(
            tally_text("partial_loss"@, received, count),
        ),
        received >= 1 && received >= count ==> r.failure_reason is None,
        received == 0 ==> is_down_result(
            r,
            name@,
            "icmp"@,
            endpoint@,
            match preserved_error {
                Some(e) => e@,
                None => tally_text("no_reply"@, received, count),
            },
        ),
        r.detail is None,
{
    if received >= 1 {
        let rtt = match min_rtt {
            Some(v) => v,
            None => 0,
        };
        let mut result = ProbeResult::up(name, "icmp", endpoint, rtt);
        if received < count {
            result.failure_reason = Some(tally_string("partial_loss", received, count));
        }
        result
    } else {
        let reason = match preserved_error {
            Some(e) => e,
            None => tally_string("no_reply", received, count),
        };
        ProbeResult::down(name, "icmp", endpoint, reason.as_str())
    }
}

// ── A whole cycle ────────────────────────────────────────────────────────────

/// Number of replies among the outcomes.
pub open spec fn replies(s: Seq<Result<u64, PingError>>) -> nat
    decreases s.len(),
{
    if s.len() == 0 {
        0
    } else {
        replies(s.drop_last()) + if s.last() is Ok {
            1nat
        } else {
            0nat
        }
    }
}

/// The lowest round-trip time among the replies.
pub open spec fn best_rtt(s: Seq<Result<u64, PingError>>) -> Option<u64>
    decreases s.len(),
{
    if s.len() == 0 {
        None
    } else {
        match s.last() {
            Ok(rtt) => match best_rtt(s.drop_last()) {
                Some(m) => Some(
                    if rtt < m {
                        rtt
                    } else {
                        m
                    },
                ),
                None => Some(rtt),
            },
            Err(_) => best_rtt(s.drop_last()),
        }
    }
}

/// The best round-trip time is the minimum over the replies: there is one
/// exactly when some echo was answered, it is no greater than the time of any
/// reply, and it is the time of one of them.
pub proof fn lemma_best_rtt_is_minimum(s: Seq<Result<u64, PingError>>)
    ensures
        (best_rtt(s) is Some) <==> (exists|i: int| 0 <= i < s.len() && #[trigger] s[i] is Ok),
        (replies(s) >= 1) <==> (exists|i: int| 0 <= i < s.len() && #[trigger] s[i] is Ok),
        best_rtt(s) matches Some(m) ==> (forall|i: int|
            0 <= i < s.len() ==> (#[trigger] s[i] matches Ok(x) ==> m <= x)),
        best_rtt(s) matches Some(m) ==> exists|i: int|
            0 <= i < s.len() && #[trigger] s[i] == Ok::<u64, PingError>(m),
    decreases s.len(),
{
    if s.len() > 0 {
        let p = s.drop_last();
        lemma_best_rtt_is_minimum(p);
        assert forall|i: int| 0 <= i < p.len() implies #[trigger] p[i] == s[i] by {}
        let l = s.len() - 1;
        assert(s[l] == s.last());
        if exists|i: int| 0 <= i < s.len() && #[trigger] s[i] is Ok {
            let w = choose|i: int| 0 <= i < s.len() && #[trigger] s[i] is Ok;
            if w < l {
                assert(p[w] is Ok);
            }
        }
        if exists|i: int| 0 <= i < p.len() && #[trigger] p[i] is Ok {
            let w = choose|i: int| 0 <= i < p.len() && #[trigger] p[i] is Ok;
            assert(s[w] is Ok);
        }
        match best_rtt(p) {
            Some(m) => {
                let w = choose|i: int| 0 <= i < p.len() && #[trigger] p[i] == Ok::<u64, PingError>(m);
                assert(s[w] == Ok::<u64, PingError>(m));
            },
            None => {},
        }
        match best_rtt(s) {
            Some(m) => {
                assert forall|i: int| 0 <= i < s.len() implies (#[trigger] s[i] matches Ok(x) ==> m
                    <= x) by {
                    if i < l {
                        assert(s[i] == p[i]);
                    }
                }
            },
            None => {},
        }
    }
}

/// Number of errors other than a lost echo.
pub open spec fn other_errors(s: Seq<Result<u64, PingError>>) -> nat
    decreases s.len(),
{
    if s.len() == 0 {
        0
    } else {
        other_errors(s.drop_last()) + if s.last() matches Err(PingError::Other(_)) {
            1nat
        } else {
            0nat
        }
    }
}

/// The message of the last error other than a lost echo.
pub open spec fn last_other_error(s: Seq<Result<u64, PingError>>) -> Option<String>
    decreases s.len(),
{
    if s.len() == 0 {
        None
    } else {
        match s.last() {
            Err(PingError::Other(m)) => Some(m),
            _ => last_other_error(s.drop_last()),
        }
    }
}

/// The tallies of a cycle count outcomes: `replies` counts the answered
/// echoes and `other_errors` the errors other than a lost echo.
pub proof fn lemma_tallies_count(s: Seq<Result<u64, PingError>>)
    ensures
        replies(s) == s.filter(|o: Result<u64, PingError>| o is Ok).len(),
        other_errors(s) == s.filter(|o: Result<u64, PingError>| o matches Err(PingError::Other(_))).len(),
    decreases s.len(),
{
    let f = |o: Result<u64, PingError>| o is Ok;
    let g = |o: Result<u64, PingError>| o matches Err(PingError::Other(_));
    reveal(Seq::filter);
    if s.len() > 0 {
        lemma_tallies_count(s.drop_last());
        assert(s.filter(f).len() == s.drop_last().filter(f).len() + if f(s.last()) {
            1int
        } else {
            0int
        });
        assert(s.filter(g).len() == s.drop_last().filter(g).len() + if g(s.last()) {
            1int
        } else {
            0int
        });
    }
}

/// The preserved message is that of the last error other than a lost echo:
/// there is none exactly when no such error occurred.
pub proof fn lemma_last_other_error_is_last(s: Seq<Result<u64, PingError>>)
    ensures
        (last_other_error(s) is None) <==> (forall|i: int|
            0 <= i < s.len() ==> !(#[trigger] s[i] matches Err(PingError::Other(_)))),
        last_other_error(s) matches Some(m) ==> exists|i: int|
            0 <= i < s.len() && #[trigger] s[i] == Err::<u64, PingError>(PingError::Other(m))
                && forall|j: int| i < j < s.len() ==> !(#[trigger] s[j] matches Err(PingError::Other(_))),
    decreases s.len(),
{
    if s.len() > 0 {
        let p = s.drop_last();
        let l = s.len() - 1;
        lemma_last_other_error_is_last(p);
        assert(s[l] == s.last());
        assert forall|i: int| 0 <= i < p.len() implies #[trigger] p[i] == s[i] by {}
        match s.last() {
            Err(PingError::Other(m)) => {
                assert(s[l] == Err::<u64, PingError>(PingError::Other(m)));
            },
            _ => {
                if let Some(m) = last_other_error(p) {
                    let i = choose|i: int|
                        0 <= i < p.len() && #[trigger] p[i] == Err::<u64, PingError>(PingError::Other(m))
                            && forall|j: int| i < j < p.len() ==> !(#[trigger] p[j] matches Err(PingError::Other(_)));
                    assert(s[i] == p[i]);
                    assert forall|j: int| i < j < s.len() implies !(#[trigger] s[j] matches Err(PingError::Other(_))) by {
                        if j < l {
                            assert(s[j] == p[j]);
                        }
                    }
                } else {
                    assert forall|i: int| 0 <= i < s.len() implies !(#[trigger] s[i] matches Err(PingError::Other(_))) by {
                        if i < l {
                            assert(s[i] == p[i]);
                        }
                    }
                }
            },
        }
    }
}

/// The first `n` outcomes.
pub open spec fn prefix(s: Seq<Result<u64, PingError>>, n: usize) -> Seq<Result<u64, PingError>> {
    s.take(n as int)
}

/// The outcome at position `i`.
pub open spec fn nth(s: Seq<Result<u64, PingError>>, i: usize) -> Result<u64, PingError> {
    s[i as int]
}

/// The number of replies, as the tally counts them.
pub open spec fn reply_count(s: Seq<Result<u64, PingError>>) -> u32 {
    replies(s) as u32
}

/// Some echo failed for want of raw-socket privilege.
pub open spec fn lacks_privilege(s: Seq<Result<u64, PingError>>) -> bool {
    exists|i: int| 0 <= i < s.len() && #[trigger] s[i] matches Err(PingError::Privilege)
}

/// The error kept for a cycle: the last non-timeout error, when every one of
/// the `count` echoes failed that way.
pub open spec fn preserved(s: Seq<Result<u64, PingError>>, count: u32) -> Option<String> {
    if replies(s) == 0 && other_errors(s) == count {
        last_other_error(s)
    } else {
        None
    }
}

/// Whether the cycle stops after this outcome: a privilege failure is stable,
/// so the remaining echoes are not sent.
pub fn ends_cycle(outcome: &Result<u64, PingError>) -> (stop: bool)
    ensures
        stop == (*outcome matches Err(PingError::Privilege)),
{
    match outcome {
        Err(PingError::Privilege) => true,
        _ => false,
    }
}

/// The result of an ICMP cycle from the outcomes of its echoes, in the order
/// they were sent: `privilege_error` when an echo lacked privilege; otherwise
/// the tally of replies, best RTT and preserved error decided by
/// [`decide_icmp_result`].
pub fn cycle_result(cfg: &IcmpMonitorConfig, outcomes: &Vec<Result<u64, PingError>>) -> (r:
    ProbeResult)
    requires
        forall|i: int| 0 <= i < outcomes@.len() ==> !(#[trigger] outcomes@[i] matches Err(
            PingError::Dns,
        )),
        outcomes@.len() <= u32::MAX,
    ensures
        lacks_privilege(outcomes@) ==> is_down_result(
            r,
            cfg.name@,
            "icmp"@,
            cfg.host@,
            "privilege_error"@,
        ),
        !lacks_privilege(outcomes@) && replies(outcomes@) >= 1 ==> is_up_result(
            r,
            cfg.name@,
            "icmp"@,
            cfg.host@,
            best_rtt(outcomes@)->0,
        ),
        !lacks_privilege(outcomes@) && 1 <= replies(outcomes@) < cfg.count ==> text_of(
            r.failure_reason,
        ) == Some(tally_text("partial_loss"@, reply_count(outcomes@), cfg.count)),
        !lacks_privilege(outcomes@) && replies(outcomes@) >= 1 && replies(outcomes@) >= cfg.count
            ==> r.failure_reason is None,
        !lacks_privilege(outcomes@) && replies(outcomes@) == 0 ==> is_down_result(
            r,
            cfg.name@,
            "icmp"@,
            cfg.host@,
            match preserved(outcomes@, cfg.count) {
                Some(e) => e@,
                None => tally_text("no_reply"@, 0, cfg.count),
            },
        ),
        r.endpoint@ == MonitorConfig::Icmp(*cfg).endpoint_view(),
        !lacks_privilege(outcomes@) && (exists|i: int|
            0 <= i < outcomes@.len() && #[trigger] outcomes@[i] is Ok) ==> (r.response_time_ms matches Some(
            v,
        ) && (forall|i: int|
            0 <= i < outcomes@.len() ==> (#[trigger] outcomes@[i] matches Ok(x) ==> v <= x)) && (
        exists|i: int| 0 <= i < outcomes@.len() && #[trigger] outcomes@[i] == Ok::<u64, PingError>(v))),
{
    proof {
        lemma_best_rtt_is_minimum(outcomes@);
    }
    let mut received: u32 = 0;
    let mut min_rtt: Option<u64> = None;
    let mut non_timeout_errors: u32 = 0;
    let mut last_error: Option<String> = None;
    let mut i: usize = 0;
    while i < outcomes.len()
        invariant
            i <= outcomes@.len(),
            outcomes@.len() <= u32::MAX,
            forall|k: int| 0 <= k < outcomes@.len() ==> !(#[trigger] outcomes@[k] matches Err(
                PingError::Dns,
            )),
            forall|k: int| 0 <= k < i ==> !(#[trigger] outcomes@[k] matches Err(
                PingError::Privilege,
            )),
            received == replies(prefix(outcomes@, i)),
            received <= i,
            non_timeout_errors == other_errors(prefix(outcomes@, i)),
            non_timeout_errors <= i,
            min_rtt == best_rtt(prefix(outcomes@, i)),
            (min_rtt is Some) == (received >= 1),
            text_of(last_error) == text_of(last_other_error(prefix(outcomes@, i))),
        decreases outcomes@.len() - i,
    {
        proof {
            assert(outcomes@.take(i + 1).drop_last() =~= prefix(outcomes@, i));
            assert(outcomes@.take(i + 1).last() == nth(outcomes@, i));
        }
        match &outcomes[i] {
            Ok(rtt) => {
                received = received + 1;
                min_rtt = match min_rtt {
                    Some(m) => Some(
                        if *rtt < m {
                            *rtt
                        } else {
                            m
                        },
                    ),
                    None => Some(*rtt),
                };
            },
            Err(PingError::Privilege) => {
                proof {
                    assert(lacks_privilege(outcomes@)) by {
                        assert(nth(outcomes@, i) matches Err(PingError::Privilege));
                    }
                }
                return ProbeResult::down(cfg.name.as_str(), "icmp", cfg.host.as_str(), "privilege_error");
            },
            Err(PingError::NoReply) => {},
            Err(PingError::Other(msg)) => {
                non_timeout_errors = non_timeout_errors + 1;
                last_error = Some(msg.clone());
            },
            Err(PingError::Dns) => {
                proof {
                    assert(false);
                }
            },
        }
        i = i + 1;
    }
    proof {
        assert(prefix(outcomes@, i) =~= outcomes@);
    }
    let preserved_error = if received == 0 && non_timeout_errors == cfg.count {
        last_error
    } else {
        None
    };
    decide_icmp_result(cfg.name.as_str(), cfg.host.as_str(), cfg.count, received, min_rtt, preserved_error)
}

/// The result of a cycle whose host could not be resolved.
pub fn unresolved_result(cfg: &IcmpMonitorConfig) -> (r: ProbeResult)
    ensures
        is_down_result(r, cfg.name@, "icmp"@, cfg.host@, "dns_error"@),
        r.endpoint@ == MonitorConfig::Icmp(*cfg).endpoint_view(),
{
    ProbeResult::down(cfg.name.as_str(), "icmp", cfg.host.as_str(), "dns_error")
}

} // verus!
