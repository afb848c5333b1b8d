//! Border monitors localize a connectivity fault ("is it me or them?") by
//! pinging the local gateway, the ISP gateway and an upstream reference, then
//! classifying the outcome. Gateways are found by a walk toward a public
//! destination: the last private hop is the local gateway, the first public
//! hop the ISP's.

use vstd::prelude::*;
use crate::monitors::{border_path, border_path_string, BorderMonitorConfig, MonitorConfig};
use crate::probe::icmp::PingError;
use crate::probe::{is_down_result, is_up_result, text_of, ProbeResult};
use crate::probe::traceroute::{echo_reply_fields, read_echo_reply};
use crate::text::{
    decimal,
    hex_to_u32,
    ipv4_text,
    ipv4_to_string,
    lines,
    lines_of,
    parse_hex_u32,
    push_decimal,
    starts_with_seq,
    starts_with_str,
    str_eq,
    texts_of,
    trim,
    trimmed,
    words,
    words_of,
};

verus! {

/// Known-public destination used only for gateway discovery (never monitored).
pub const TRACE_TARGET: [u8; 4] = [8, 8, 8, 8];

/// Stop the discovery walk after this many hops. Home networks reach the ISP in
/// 2–3 hops, but a virtualized egress plus double-NAT/CGNAT can add a few
/// private hops before the first public one.
pub const TRACE_MAX_HOPS: u8 = 8;

/// Per-hop read timeout for the discovery walk, in milliseconds.
pub const WALK_PER_HOP_MS: u64 = 200;

// ── Private address space ────────────────────────────────────────────────────

/// RFC 1918 private, RFC 3927 link-local, and RFC 6598 CGNAT (100.64.0.0/10).
pub open spec fn private_ipv4(o: Seq<u8>) -> bool {
    let a = o[0];
    let b = o[1];
    ||| a == 10
    ||| (a == 172 && 16 <= b && b <= 31)
    ||| (a == 192 && b == 168)
    ||| (a == 169 && b == 254)
    ||| (a == 100 && 64 <= b && b <= 127)
}

/// Returns `true` for RFC 1918 private, RFC 3927 link-local, and RFC 6598
/// CGNAT (100.64.0.0/10) addresses. The walk treats CGNAT hops as private so it
/// keeps walking past the ISP's shared-address layer to the first truly public IP.
pub fn is_private_ipv4(addr: [u8; 4]) -> (p: bool)
    ensures
        p == private_ipv4(addr@),
{
    let a = addr[0];
    let b = addr[1];
    a == 10 || (a == 172 && 16 <= b && b <= 31) || (a == 192 && b == 168) || (a == 169 && b
        == 254) || (a == 100 && 64 <= b && b <= 127)
}

// ── Gateway discovery ────────────────────────────────────────────────────────

/// Gateways discovered by a walk toward a public endpoint.
#[derive(Debug, Clone)]
pub struct DetectedGateways {
    /// Last private hop before traffic exits to the public internet.
    pub local_gw: String,
    /// First public hop (the ISP's edge router), when one responded.
    pub isp_gw: Option<String>,
}

/// Hop selection of a discovery walk: the last private hop seen, the first
/// public one, at which the walk stops, and the TTL to probe next. TTLs are
/// probed 1, 2, … in order, at most [`TRACE_MAX_HOPS`] of them.
#[derive(Debug, Clone, Copy)]
pub struct GatewayWalk {
    pub last_private: Option<[u8; 4]>,
    pub first_public: Option<[u8; 4]>,
    pub next_ttl: u8,
}

impl GatewayWalk {
    pub fn new() -> (w: Self)
        ensures
            w.last_private is None,
            w.first_public is None,
            w.next_ttl == 1,
    {
        GatewayWalk { last_private: None, first_public: None, next_ttl: 1 }
    }

    /// The TTL to probe next: none once a public hop was seen or the hop
    /// budget is spent.
    pub fn next_probe(&self) -> (ttl: Option<u8>)
        ensures
            ttl == (if self.first_public is None && self.next_ttl <= TRACE_MAX_HOPS {
                Some(self.next_ttl)
            } else {
                None::<u8>
            }),
    {
        if self.first_public.is_none() && self.next_ttl <= TRACE_MAX_HOPS {
            Some(self.next_ttl)
        } else {
            None
        }
    }

    /// Takes the responder of TTL `next_ttl` (none when the hop did not
    /// answer: a router may drop Time-Exceeded while the next hop still
    /// answers) and moves on to the next TTL. Returns whether the walk goes on
    /// past this hop: it stops at the first public hop.
    pub fn observe(&mut self, hop: Option<[u8; 4]>) -> (more: bool)
        requires
            old(self).first_public is None,
            old(self).next_ttl <= TRACE_MAX_HOPS,
        ensures
            final(self).next_ttl == old(self).next_ttl + 1,
            hop matches Some(ip) ==> (private_ipv4(ip@) ==> final(self).last_private == Some(ip)
                && final(self).first_public is None && more),
            hop matches Some(ip) ==> (!private_ipv4(ip@) ==> final(self).last_private == old(
                self,
            ).last_private && final(self).first_public == Some(ip) && !more),
            hop is None ==> final(self).last_private == old(self).last_private
                && final(self).first_public == old(self).first_public && more,
    {
        self.next_ttl = self.next_ttl + 1;
        match hop {
            Some(ip) => {
                if is_private_ipv4(ip) {
                    self.last_private = Some(ip);
                    true
                } else {
                    self.first_public = Some(ip);
                    false
                }
            },
            None => true,
        }
    }

    /// The gateways found: none when no private hop was seen (the host is
    /// already on a public address, or nothing answered).
    pub fn finish(&self) -> (g: Option<DetectedGateways>)
        ensures
            self.last_private is None ==> g is None,
            self.last_private matches Some(lp) ==> g matches Some(d) && d.local_gw@ == ipv4_text(
                lp@,
            ) && text_of(d.isp_gw) == match self.first_public {
                Some(fp) => Some(ipv4_text(fp@)),
                None => None,
            },
    {
        match self.last_private {
            None => None,
            Some(lp) => Some(
                DetectedGateways {
                    local_gw: ipv4_to_string(lp),
                    isp_gw: match self.first_public {
                        Some(fp) => Some(ipv4_to_string(fp)),
                        None => None,
                    },
                },
            ),
        }
    }
}

/// The gateways a probe uses: an explicit `gateway` is trusted and skips
/// detection (the ISP gateway then being only the configured one); otherwise
/// the walk's last private hop, else `fallback` (the routing table's default
/// gateway), and the configured ISP gateway, else the walk's first public hop.
pub fn choose_gateways(
    cfg: &BorderMonitorConfig,
    detected: &Option<DetectedGateways>,
    fallback: Option<String>,
) -> (g: (Option<String>, Option<String>))
    ensures
        cfg.gateway is Some ==> text_of(g.0) == text_of(cfg.gateway) && text_of(g.1) == text_of(
            cfg.isp_gateway,
        ),
        cfg.gateway is None ==> text_of(g.0) == match detected {
            Some(d) => Some(d.local_gw@),
            None => text_of(fallback),
        } && text_of(g.1) == match cfg.isp_gateway {
            Some(i) => Some(i@),
            None => match detected {
                Some(d) => text_of(d.isp_gw),
                None => None,
            },
        },
{
    if let Some(gw) = &cfg.gateway {
        return (Some(gw.clone()), cfg.isp_gateway.clone());
    }
    let local_gw = match detected {
        Some(d) => Some(d.local_gw.clone()),
        None => fallback,
    };
    let isp_gw = match &cfg.isp_gateway {
        Some(i) => Some(i.clone()),
        None => match detected {
            Some(d) => d.isp_gw.clone(),
            None => None,
        },
    };
    (local_gw, isp_gw)
}

/// Parse a raw IPv4 packet, returning `(icmp_type, id, seq)` for an echo we sent.
/// Echo-Reply: id/seq in the outer ICMP header. Time-Exceeded / Dest-Unreachable:
/// id/seq in the embedded original datagram (at least 20 inner IP + 8 inner ICMP
/// bytes).
pub fn parse_icmp(buf: &[u8]) -> (r: Option<(u8, u16, u16)>)
    ensures
        r == echo_reply_fields(buf@, 28),
{
    read_echo_reply(buf, 28)
}

// ── Classification ───────────────────────────────────────────────────────────

/// `Nms`, or a dash when the target did not answer.
pub open spec fn rtt_text(rtt: Option<u64>) -> Seq<char> {
    match rtt {
        Some(r) => decimal(r as nat) + "ms"@,
        None => "\u{2014}"@,
    }
}

/// The round-trip times of a cycle, for the detail.
pub open spec fn rtts_text(
    isp_probed: bool,
    gw_rtt: Option<u64>,
    isp_rtt: Option<u64>,
    up_rtt: Option<u64>,
) -> Seq<char> {
    if isp_probed {
        "local "@ + rtt_text(gw_rtt) + ", isp "@ + rtt_text(isp_rtt) + ", upstream "@ + rtt_text(
            up_rtt,
        )
    } else {
        "local "@ + rtt_text(gw_rtt) + ", upstream "@ + rtt_text(up_rtt)
    }
}

/// The fault class of a cycle, checked outside-in: a reachable upstream means
/// the path works (gateways commonly drop ICMP echo while forwarding traffic);
/// otherwise a down local gateway puts the fault in the LAN, a down ISP
/// gateway behind a working local one puts it at the ISP edge, and else the
/// internet beyond is down.
pub open spec fn border_fault(local_gw_ok: bool, isp_gw_ok: Option<bool>, upstream_ok: bool) -> Seq<
    char,
> {
    if upstream_ok {
        "ok"@
    } else if !local_gw_ok {
        "lan_down"@
    } else if isp_gw_ok == Some(false) {
        "isp_gw_down"@
    } else {
        "isp_down"@
    }
}

/// The explanation following a fault class in the detail.
pub open spec fn fault_note(fault: Seq<char>) -> Seq<char> {
    if fault == "isp_down"@ {
        " \u{2014} upstream unreachable"@
    } else if fault == "isp_gw_down"@ {
        " \u{2014} ISP gateway unreachable"@
    } else {
        " \u{2014} local gateway unreachable"@
    }
}

fn push_rtt(s: &mut String, rtt: Option<u64>)
    ensures
        final(s)@ == old(s)@ + rtt_text(rtt),
{
    match rtt {
        Some(r) => {
            push_decimal(s, r);
            s.append("ms");
        },
        None => s.append("\u{2014}"),
    }
}

fn rtts_string(isp_probed: bool, gw_rtt: Option<u64>, isp_rtt: Option<u64>, up_rtt: Option<u64>) -> (s:
    String)
    ensures
        s@ == rtts_text(isp_probed, gw_rtt, isp_rtt, up_rtt),
{
    let mut s = "local ".to_owned();
    push_rtt(&mut s, gw_rtt);
    if isp_probed {
        s.append(", isp ");
        push_rtt(&mut s, isp_rtt);
    }
    s.append(", upstream ");
    push_rtt(&mut s, up_rtt);
    proof {
        assert(s@ =~= rtts_text(isp_probed, gw_rtt, isp_rtt, up_rtt));
    }
    s
}

fn detail_string(head: &str, note: &str, rtts: &str) -> (s: String)
    ensures
        s@ == head@ + note@ + " ("@ + rtts@ + ")"@,
{
    let mut s = head.to_owned();
    s.append(note);
    s.append(" (");
    s.append(rtts);
    s.append(")");
    s
}

/// Classification of a border cycle:
///
/// | local gw | ISP gw | upstream | outcome |
/// |---|---|---|---|
/// | any | any | reachable | up, `ok`, upstream RTT |
/// | unreachable | any | unreachable | down, `lan_down` |
/// | reachable | unreachable | unreachable | down, `isp_gw_down` |
/// | reachable | reachable / not probed | unreachable | down, `isp_down` |
pub fn classify_border(
    name: &str,
    endpoint: &str,
    local_gw_ok: bool,
    isp_gw_ok: Option<bool>,
    upstream_ok: bool,
    gw_rtt: Option<u64>,
    isp_rtt: Option<u64>,
    up_rtt: Option<u64>,
) -> (r: ProbeResult)
    ensures
        upstream_ok ==> is_up_result(
            r,
            name@,
            "border"@,
            endpoint@,
            match up_rtt {
                Some(v) => v,
                None => 0,
            },
        ) && r.failure_reason is None && text_of(r.detail) == Some(
            "ok ("@ + rtts_text(isp_gw_ok is Some, gw_rtt, isp_rtt, up_rtt) + ")"@,
        ),
        !upstream_ok ==> is_down_result(
            r,
            name@,
            "border"@,
            endpoint@,
            border_fault(local_gw_ok, isp_gw_ok, upstream_ok),
        ) && text_of(r.detail) == Some(
            border_fault(local_gw_ok, isp_gw_ok, upstream_ok) + fault_note(
                border_fault(local_gw_ok, isp_gw_ok, upstream_ok),
            ) + " ("@ + rtts_text(isp_gw_ok is Some, gw_rtt, isp_rtt, up_rtt) + ")"@,
        ),
        upstream_ok ==> r.status@ == "up"@,
        !upstream_ok ==> r.status@ == "down"@,
        !upstream_ok && !local_gw_ok ==> text_of(r.failure_reason) == Some("lan_down"@),
        !upstream_ok && local_gw_ok && isp_gw_ok == Some(false) ==> text_of(r.failure_reason)
            == Some("isp_gw_down"@),
        !upstream_ok && local_gw_ok && isp_gw_ok != Some(false) ==> text_of(r.failure_reason)
            == Some("isp_down"@),
{
    let rtts = rtts_string(isp_gw_ok.is_some(), gw_rtt, isp_rtt, up_rtt);
    proof {
        reveal_strlit("isp_down");
        reveal_strlit("isp_gw_down");
        reveal_strlit("lan_down");
        assert("lan_down"@[0] != "isp_down"@[0]);
    }
    if upstream_ok {
        let rtt = match up_rtt {
            Some(v) => v,
            None => 0,
        };
        let mut detail = "ok (".to_owned();
        detail.append(rtts.as_str());
        detail.append(")");
        return ProbeResult::up(name, "border", endpoint, rtt).with_detail(detail.as_str());
    }
    if !local_gw_ok {
        let detail = detail_string("lan_down", " \u{2014} local gateway unreachable", rtts.as_str());
        return ProbeResult::down(name, "border", endpoint, "lan_down").with_detail(detail.as_str());
    }
    let is_isp_down = match isp_gw_ok {
        Some(b) => !b,
        None => false,
    };
    if is_isp_down {
        let detail = detail_string(
            "isp_gw_down",
            " \u{2014} ISP gateway unreachable",
            rtts.as_str(),
        );
        return ProbeResult::down(name, "border", endpoint, "isp_gw_down").with_detail(
            detail.as_str(),
        );
    }
    let detail = detail_string("isp_down", " \u{2014} upstream unreachable", rtts.as_str());
    ProbeResult::down(name, "border", endpoint, "isp_down").with_detail(detail.as_str())
}

/// Whether a ping failed for want of raw-socket privilege.
pub open spec fn privilege_failure(r: Result<u64, PingError>) -> bool {
    r matches Err(PingError::Privilege)
}

pub open spec fn rtt_of(r: Result<u64, PingError>) -> Option<u64> {
    match r {
        Ok(v) => Some(v),
        Err(_) => None,
    }
}

fn rtt_from(r: &Result<u64, PingError>) -> (v: Option<u64>)
    ensures
        v == rtt_of(*r),
{
    match r {
        Ok(v) => Some(*v),
        Err(_) => None,
    }
}

fn lacks_privilege(r: &Result<u64, PingError>) -> (b: bool)
    ensures
        b == privilege_failure(*r),
{
    match r {
        Err(PingError::Privilege) => true,
        _ => false,
    }
}

/// The result of a border cycle from the gateways used and the pings made:
/// no local gateway → down `gateway_not_detected`; a privilege failure of any
/// ping → down `privilege_error`; otherwise [`classify_border`] over the path
/// `gw → isp → upstream`.
pub fn border_outcome(
    cfg: &BorderMonitorConfig,
    local_gw: Option<String>,
    isp_gw: Option<String>,
    gw_result: Result<u64, PingError>,
    isp_result: Option<Result<u64, PingError>>,
    up_result: Result<u64, PingError>,
) -> (r: ProbeResult)
    ensures
        local_gw is None ==> is_down_result(
            r,
            cfg.name@,
            "border"@,
            "auto \u{2192} "@ + cfg.upstream@,
            "gateway_not_detected"@,
        ) && text_of(r.detail) == Some(
            "local gateway could not be detected \u{2014} check network or configure gateway explicitly"@,
        ),
        local_gw is Some && (privilege_failure(gw_result) || (isp_result matches Some(i)
            && privilege_failure(i)) || privilege_failure(up_result)) ==> is_down_result(
            r,
            cfg.name@,
            "border"@,
            border_path(local_gw, isp_gw, cfg.upstream@),
            "privilege_error"@,
        ),
        local_gw is Some && !(privilege_failure(gw_result) || (isp_result matches Some(i)
            && privilege_failure(i)) || privilege_failure(up_result)) ==> ({
            let isp_ok = match isp_result {
                Some(i) => Some(i is Ok),
                None => None,
            };
            let isp_rtt = match isp_result {
                Some(i) => rtt_of(i),
                None => None,
            };
            let path = border_path(local_gw, isp_gw, cfg.upstream@);
            &&& up_result is Ok ==> is_up_result(
                r,
                cfg.name@,
                "border"@,
                path,
                rtt_of(up_result)->0,
            ) && text_of(r.detail) == Some(
                "ok ("@ + rtts_text(isp_ok is Some, rtt_of(gw_result), isp_rtt, rtt_of(up_result))
                    + ")"@,
            )
            &&& up_result is Err ==> is_down_result(
                r,
                cfg.name@,
                "border"@,
                path,
                border_fault(gw_result is Ok, isp_ok, false),
            ) && text_of(r.detail) == Some(
                border_fault(gw_result is Ok, isp_ok, false) + fault_note(
                    border_fault(gw_result is Ok, isp_ok, false),
                ) + " ("@ + rtts_text(isp_ok is Some, rtt_of(gw_result), isp_rtt, None) + ")"@,
            )
        }),
        local_gw is Some && text_of(local_gw) == text_of(cfg.gateway) && text_of(isp_gw) == text_of(
            cfg.isp_gateway,
        ) ==> r.endpoint@ == MonitorConfig::Border(*cfg).endpoint_view(),
{
    if local_gw.is_none() {
        let mut endpoint = "auto \u{2192} ".to_owned();
        endpoint.append(cfg.upstream.as_str());
        return ProbeResult::down(
            cfg.name.as_str(),
            "border",
            endpoint.as_str(),
            "gateway_not_detected",
        ).with_detail(
            "local gateway could not be detected \u{2014} check network or configure gateway explicitly",
        );
    }
    // Path: local gw (LAN edge, last private hop) → ISP gw (first public hop) → upstream.
    let endpoint = border_path_string(&local_gw, &isp_gw, cfg.upstream.as_str());
    let isp_privilege = match &isp_result {
        Some(i) => lacks_privilege(i),
        None => false,
    };
    if lacks_privilege(&gw_result) || isp_privilege || lacks_privilege(&up_result) {
        return ProbeResult::down(
            cfg.name.as_str(),
            "border",
            endpoint.as_str(),
            "privilege_error",
        );
    }
    let isp_ok = match &isp_result {
        Some(i) => Some(i.is_ok()),
        None => None,
    };
    let isp_rtt = match &isp_result {
        Some(i) => rtt_from(i),
        None => None,
    };
    classify_border(
        cfg.name.as_str(),
        endpoint.as_str(),
        gw_result.is_ok(),
        isp_ok,
        up_result.is_ok(),
        rtt_from(&gw_result),
        isp_rtt,
        rtt_from(&up_result),
    )
}

// ── Routing-table fallback ───────────────────────────────────────────────────

/// The octets of `v` in little-endian order, as `/proc/net/route` stores an
/// IPv4 address.
pub open spec fn le_octets(v: u32) -> Seq<u8> {
    seq![
        (v % 256) as u8,
        ((v / 256) % 256) as u8,
        ((v / 65536) % 256) as u8,
        (v / 16777216) as u8,
    ]
}

/// The default gateway among the data lines of a Linux routing table: the
/// gateway column of the first line whose destination is `00000000`. A line
/// with fewer than three columns, or a gateway that is not hexadecimal, ends
/// the search with none.
pub open spec fn route_default(ls: Seq<Seq<char>>) -> Option<Seq<char>>
    decreases ls.len(),
{
    if ls.len() == 0 {
        None
    } else {
        let w = words(ls[0]);
        if w.len() < 3 {
            None
        } else if w[1] == "00000000"@ {
            match parse_hex_u32(w[2]) {
                Some(v) => Some(ipv4_text(le_octets(v))),
                None => None,
            }
        } else {
            route_default(ls.drop_first())
        }
    }
}

/// The routing table entries yield the gateway of the first default entry
/// (destination `00000000`), as long as every entry before it is complete
/// (at least three fields) and not a default one; entries that are all
/// complete and not default yield none.
pub proof fn lemma_route_default_first(ls: Seq<Seq<char>>, i: int)
    requires
        0 <= i <= ls.len(),
        forall|j: int|
            0 <= j < i ==> words(#[trigger] ls[j]).len() >= 3 && words(ls[j])[1] != "00000000"@,
    ensures
        i == ls.len() ==> route_default(ls) is None,
        (i < ls.len() && words(ls[i]).len() >= 3 && words(ls[i])[1] == "00000000"@)
            ==> route_default(ls) == match parse_hex_u32(words(ls[i])[2]) {
            Some(v) => Some(ipv4_text(le_octets(v))),
            None => None,
        },
    decreases i,
{
    if i > 0 {
        let rest = ls.drop_first();
        assert(words(ls[0]).len() >= 3 && words(ls[0])[1] != "00000000"@);
        assert forall|j: int| 0 <= j < i - 1 implies words(#[trigger] rest[j]).len() >= 3
            && words(rest[j])[1] != "00000000"@ by {
            assert(rest[j] == ls[j + 1]);
        }
        lemma_route_default_first(rest, i - 1);
        if i < ls.len() {
            assert(rest[i - 1] == ls[i]);
        }
    }
}

/// The default gateway of the Linux routing table `content` (the text of
/// `/proc/net/route`, whose first line is a header).
pub open spec fn route_table_gateway(content: Seq<char>) -> Option<Seq<char>> {
    let ls = lines(content);
    if ls.len() == 0 {
        None
    } else {
        route_default(ls.drop_first())
    }
}

fn le_octets_of(v: u32) -> (o: [u8; 4])
    ensures
        o@ == le_octets(v),
{
    let o: [u8; 4] = [
        (v % 256) as u8,
        ((v / 256) % 256) as u8,
        ((v / 65536) % 256) as u8,
        (v / 16777216) as u8,
    ];
    proof {
        assert(o@ =~= le_octets(v));
    }
    o
}

/// Reads the default gateway from the Linux routing table text.
pub fn gateway_from_route_table(content: &str) -> (gw: Option<String>)
    ensures
        text_of(gw) == route_table_gateway(content@),
{
    let ls = lines_of(content);
    let ghost lv = texts_of(ls@);
    if ls.len() == 0 {
        return None;
    }
    let mut i: usize = 1;
    proof {
        assert(lv.drop_first() =~= lv.skip(1));
    }
    while i < ls.len()
        invariant
            lv == texts_of(ls@),
            lv == lines(content@),
            1 <= i <= ls@.len(),
            route_table_gateway(content@) == route_default(lv.skip(i as int)),
        decreases ls@.len() - i,
    {
        let fields = words_of(ls[i].as_str());
        proof {
            assert(lv.skip(i as int)[0] == ls@[i as int]@);
            assert(lv.skip(i as int).drop_first() =~= lv.skip(i + 1));
            assert(texts_of(fields@).len() == fields@.len());
        }
        if fields.len() < 3 {
            return None;
        }
        proof {
            assert(texts_of(fields@)[1] == fields@[1]@);
            assert(texts_of(fields@)[2] == fields@[2]@);
        }
        if str_eq(fields[1].as_str(), "00000000") {
            return match hex_to_u32(fields[2].as_str()) {
                Some(raw) => Some(ipv4_to_string(le_octets_of(raw))),
                None => None,
            };
        }
        i = i + 1;
    }
    proof {
        assert(lv.skip(i as int) =~= Seq::<Seq<char>>::empty());
    }
    None
}

/// The gateway reported by `route -n get default` output: the trimmed text
/// after `gateway:` on the first line (trimmed) carrying a non-empty one.
pub open spec fn route_get_gateway(ls: Seq<Seq<char>>) -> Option<Seq<char>>
    decreases ls.len(),
{
    if ls.len() == 0 {
        None
    } else {
        let t = trimmed(ls[0]);
        if starts_with_seq(t, "gateway:"@) && trimmed(t.skip(8)).len() > 0 {
            Some(trimmed(t.skip(8)))
        } else {
            route_get_gateway(ls.drop_first())
        }
    }
}

/// `route -n get default` output yields the gateway of its first line
/// carrying a non-empty `gateway:` value; output with no such line yields none.
pub proof fn lemma_route_get_gateway_first(ls: Seq<Seq<char>>, i: int)
    requires
        0 <= i <= ls.len(),
        forall|j: int|
            0 <= j < i ==> !(starts_with_seq(trimmed(#[trigger] ls[j]), "gateway:"@) && trimmed(
                trimmed(ls[j]).skip(8),
            ).len() > 0),
    ensures
        i == ls.len() ==> route_get_gateway(ls) is None,
        (i < ls.len() && starts_with_seq(trimmed(ls[i]), "gateway:"@) && trimmed(
            trimmed(ls[i]).skip(8),
        ).len() > 0) ==> route_get_gateway(ls) == Some(trimmed(trimmed(ls[i]).skip(8))),
    decreases i,
{
    if i > 0 {
        let rest = ls.drop_first();
        assert forall|j: int| 0 <= j < i - 1 implies !(starts_with_seq(
            trimmed(#[trigger] rest[j]),
            "gateway:"@,
        ) && trimmed(trimmed(rest[j]).skip(8)).len() > 0) by {
            assert(rest[j] == ls[j + 1]);
        }
        lemma_route_get_gateway_first(rest, i - 1);
        if i < ls.len() {
            assert(rest[i - 1] == ls[i]);
        }
    }
}

/// Reads the default gateway from `route -n get default` output.
pub fn gateway_from_route_get(output: &str) -> (gw: Option<String>)
    ensures
        text_of(gw) == route_get_gateway(lines(output@)),
{
    let ls = lines_of(output);
    let ghost lv = texts_of(ls@);
    let mut i: usize = 0;
    proof {
        reveal_strlit("gateway:");
        assert(lv.skip(0) =~= lv);
    }
    while i < ls.len()
        invariant
            lv == texts_of(ls@),
            lv == lines(output@),
            i <= ls@.len(),
            route_get_gateway(lv) == route_get_gateway(lv.skip(i as int)),
        decreases ls@.len() - i,
    {
        proof {
            assert(lv.skip(i as int)[0] == ls@[i as int]@);
            assert(lv.skip(i as int).drop_first() =~= lv.skip(i + 1));
        }
        let t = trim(ls[i].as_str());
        if starts_with_str(t.as_str(), "gateway:") {
            proof {
                reveal_strlit("gateway:");
            }
            let n = t.as_str().unicode_len();
            let rest = t.as_str().substring_char(8, n);
            let gw = trim(rest);
            if !gw.as_str().is_empty() {
                return Some(gw);
            }
        }
        i = i + 1;
    }
    proof {
        assert(lv.skip(i as int) =~= Seq::<Seq<char>>::empty());
    }
    None
}

} // verus!
