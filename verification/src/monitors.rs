//! Monitor definitions: the six monitor types, their accessors, the
//! backward-compatible resolution of raw (deserialized) settings, the
//! application of global `[defaults]`, and the list operations of the
//! monitor store.

use std::collections::HashMap;
use vstd::prelude::*;
use crate::config::Defaults;
use crate::text::{
    decimal,
    is_blank,
    is_blank_str,
    join_lines,
    join_with_newlines,
    lines,
    lines_of,
    push_decimal,
    starts_with_seq,
    starts_with_str,
    str_eq,
    texts_of,
    trim,
    trimmed,
};

verus! {

/// Commented template written for users who keep monitors in a file.
pub const DEFAULT_MONITORS_CONFIG: &'static str = "# rusty-pingus monitors configuration
# Add monitors here, or use the web UI at http://localhost:3000
# Changes made via the UI are saved here automatically.

# Timing fields are in milliseconds: interval_ms and timeout_ms.
# Any monitor may set `enabled = false` to pause it (kept in config + history,
# but not probed). Omit the key for the default (enabled).
# Any monitor may set `retention_hours` to control how long its data is kept
# (default: the global retention_days \u{d7} 24, e.g. 2160 h for the 90-day default).

# HTTP monitor example:
# [[monitors]]
# protocol = \"http\"
# name = \"my-site\"
# url = \"https://example.com\"
# interval_ms = 60000
# timeout_ms = 10000
# expected_status = 200  # optional; any 2xx accepted if omitted
# retention_hours = 2160 # optional; default is the global 90-day setting

# TCP monitor example:
# [[monitors]]
# protocol = \"tcp\"
# name = \"my-server\"
# host = \"example.com\"
# port = 443
# interval_ms = 30000

# ICMP monitor example (requires elevated privileges):
# [[monitors]]
# protocol = \"icmp\"
# name = \"gateway\"
# host = \"1.1.1.1\"
# interval_ms = 30000
# count = 3  # echo requests per cycle; up if any reply (default 3, min 1)

# Public-IP monitor example (tracks your external IP, flags changes):
# [[monitors]]
# protocol = \"publicip\"
# name = \"my-public-ip\"
# interval_ms = 300000
# url = \"https://checkip.amazonaws.com\"  # optional; default has a built-in fallback

# Border monitor example (localizes LAN vs ISP faults; requires ICMP privileges):
# [[monitors]]
# protocol = \"border\"
# name = \"home-border\"
# interval_ms = 30000
# gateway = \"192.168.1.1\"    # optional; auto-detected via traceroute to 8.8.8.8 when omitted
# isp_gateway = \"74.0.0.1\"   # optional; auto-detected (first public hop after last private hop)
# upstream = \"1.1.1.1\"       # internet reference (default 1.1.1.1)

# Traceroute monitor example (per-hop path latency; requires ICMP privileges):
# [[monitors]]
# protocol = \"traceroute\"
# name = \"path-to-cloudflare\"
# host = \"1.1.1.1\"
# interval_ms = 5000        # minimum 500 ms is enforced for this type
# timeout_ms = 1000         # per-hop reply wait
# max_hops = 30             # optional (default 30)
# queries_per_hop = 3       # optional (default 3)
# retention_hours = 24      # optional (default 24 h); bounds stored per-hop data
";

/// Default service for the public-IP monitor; `icanhazip.com` is the fallback.
pub const DEFAULT_PUBLICIP_URL: &'static str = "https://checkip.amazonaws.com";

pub const FALLBACK_PUBLICIP_URL: &'static str = "https://icanhazip.com";

/// Default upstream reference for the border monitor.
pub const DEFAULT_BORDER_UPSTREAM: &'static str = "1.1.1.1";

/// Minimum scheduling interval for a traceroute monitor: a run is expensive and
/// high-volume, so the interval is clamped to this floor rather than rejected.
pub const TRACEROUTE_MIN_INTERVAL_MS: u64 = 500;

// ── Monitor config types ─────────────────────────────────────────────────────

#[derive(Debug, Clone)]
pub enum MonitorConfig {
    Http(HttpMonitorConfig),
    Tcp(TcpMonitorConfig),
    Icmp(IcmpMonitorConfig),
    PublicIp(PublicIpMonitorConfig),
    Border(BorderMonitorConfig),
    Traceroute(TracerouteMonitorConfig),
}

#[derive(Debug, Clone)]
pub struct HttpMonitorConfig {
    pub name: String,
    pub url: String,
    pub interval_ms: u64,
    pub timeout_ms: u64,
    pub method: String,
    pub expected_status: Option<u16>,
    pub headers: HashMap<String, String>,
    pub body: Option<String>,
    pub retention_hours: Option<u64>,
    pub enabled: bool,
}

#[derive(Debug, Clone)]
pub struct TcpMonitorConfig {
    pub name: String,
    pub host: String,
    pub port: u16,
    pub interval_ms: u64,
    pub timeout_ms: u64,
    pub retention_hours: Option<u64>,
    pub enabled: bool,
}

#[derive(Debug, Clone)]
pub struct IcmpMonitorConfig {
    pub name: String,
    pub host: String,
    pub interval_ms: u64,
    pub timeout_ms: u64,
    /// Number of ICMP echo requests sent per probe cycle. The monitor is up if
    /// at least one reply is received; defaults to 3, clamped to a minimum of 1.
    pub count: u32,
    pub retention_hours: Option<u64>,
    pub enabled: bool,
}

#[derive(Debug, Clone)]
pub struct PublicIpMonitorConfig {
    pub name: String,
    /// IP-echo service to query; the default service (with its fallback) when unset.
    pub url: Option<String>,
    pub interval_ms: u64,
    pub timeout_ms: u64,
    pub retention_hours: Option<u64>,
    pub enabled: bool,
}

#[derive(Debug, Clone)]
pub struct BorderMonitorConfig {
    pub name: String,
    /// Local (egress) gateway; auto-detected when unset.
    pub gateway: Option<String>,
    /// ISP-side gateway (first public hop); auto-detected when unset.
    pub isp_gateway: Option<String>,
    /// Upstream internet reference.
    pub upstream: String,
    pub interval_ms: u64,
    pub timeout_ms: u64,
    pub retention_hours: Option<u64>,
    pub enabled: bool,
}

#[derive(Debug, Clone)]
pub struct TracerouteMonitorConfig {
    pub name: String,
    /// Target host (IP or hostname) to trace the route to.
    pub host: String,
    pub interval_ms: u64,
    pub timeout_ms: u64,
    /// Maximum number of hops (TTL) to probe before giving up.
    pub max_hops: u32,
    /// ICMP echoes sent per hop per run.
    pub queries_per_hop: u32,
    /// How long to retain this monitor's data, in hours.
    pub retention_hours: Option<u64>,
    pub enabled: bool,
}

// ── Views of a monitor ───────────────────────────────────────────────────────

impl MonitorConfig {
    pub open spec fn name_view(self) -> Seq<char> {
        match self {
            MonitorConfig::Http(c) => c.name@,
            MonitorConfig::Tcp(c) => c.name@,
            MonitorConfig::Icmp(c) => c.name@,
            MonitorConfig::PublicIp(c) => c.name@,
            MonitorConfig::Border(c) => c.name@,
            MonitorConfig::Traceroute(c) => c.name@,
        }
    }

    pub open spec fn interval_of(self) -> u64 {
        match self {
            MonitorConfig::Http(c) => c.interval_ms,
            MonitorConfig::Tcp(c) => c.interval_ms,
            MonitorConfig::Icmp(c) => c.interval_ms,
            MonitorConfig::PublicIp(c) => c.interval_ms,
            MonitorConfig::Border(c) => c.interval_ms,
            MonitorConfig::Traceroute(c) => c.interval_ms,
        }
    }

    pub open spec fn timeout_of(self) -> u64 {
        match self {
            MonitorConfig::Http(c) => c.timeout_ms,
            MonitorConfig::Tcp(c) => c.timeout_ms,
            MonitorConfig::Icmp(c) => c.timeout_ms,
            MonitorConfig::PublicIp(c) => c.timeout_ms,
            MonitorConfig::Border(c) => c.timeout_ms,
            MonitorConfig::Traceroute(c) => c.timeout_ms,
        }
    }

    pub open spec fn is_enabled(self) -> bool {
        match self {
            MonitorConfig::Http(c) => c.enabled,
            MonitorConfig::Tcp(c) => c.enabled,
            MonitorConfig::Icmp(c) => c.enabled,
            MonitorConfig::PublicIp(c) => c.enabled,
            MonitorConfig::Border(c) => c.enabled,
            MonitorConfig::Traceroute(c) => c.enabled,
        }
    }

    pub open spec fn retention_setting(self) -> Option<u64> {
        match self {
            MonitorConfig::Http(c) => c.retention_hours,
            MonitorConfig::Tcp(c) => c.retention_hours,
            MonitorConfig::Icmp(c) => c.retention_hours,
            MonitorConfig::PublicIp(c) => c.retention_hours,
            MonitorConfig::Border(c) => c.retention_hours,
            MonitorConfig::Traceroute(c) => c.retention_hours,
        }
    }

    pub open spec fn protocol_view(self) -> Seq<char> {
        match self {
            MonitorConfig::Http(_) => "http"@,
            MonitorConfig::Tcp(_) => "tcp"@,
            MonitorConfig::Icmp(_) => "icmp"@,
            MonitorConfig::PublicIp(_) => "publicip"@,
            MonitorConfig::Border(_) => "border"@,
            MonitorConfig::Traceroute(_) => "traceroute"@,
        }
    }

    /// The display endpoint, matching what the probe records.
    pub open spec fn endpoint_view(self) -> Seq<char> {
        match self {
            MonitorConfig::Http(c) => c.url@,
            MonitorConfig::Tcp(c) => c.host@ + ":"@ + port_text(c.port),
            MonitorConfig::Icmp(c) => c.host@,
            MonitorConfig::PublicIp(c) => match c.url {
                Some(u) => u@,
                None => DEFAULT_PUBLICIP_URL@,
            },
            MonitorConfig::Border(c) => border_path(c.gateway, c.isp_gateway, c.upstream@),
            MonitorConfig::Traceroute(c) => c.host@,
        }
    }

    /// Effective retention in hours for a global retention of `days`.
    pub open spec fn retention_for(self, days: u64) -> u64 {
        match self.retention_setting() {
            Some(h) if h > 0 => h,
            _ => saturating_mul(days, 24),
        }
    }

    pub fn name(&self) -> (n: &str)
        ensures
            n@ == self.name_view(),
    {
        match self {
            MonitorConfig::Http(c) => c.name.as_str(),
            MonitorConfig::Tcp(c) => c.name.as_str(),
            MonitorConfig::Icmp(c) => c.name.as_str(),
            MonitorConfig::PublicIp(c) => c.name.as_str(),
            MonitorConfig::Border(c) => c.name.as_str(),
            MonitorConfig::Traceroute(c) => c.name.as_str(),
        }
    }

    pub fn interval_ms(&self) -> (i: u64)
        ensures
            i == self.interval_of(),
    {
        match self {
            MonitorConfig::Http(c) => c.interval_ms,
            MonitorConfig::Tcp(c) => c.interval_ms,
            MonitorConfig::Icmp(c) => c.interval_ms,
            MonitorConfig::PublicIp(c) => c.interval_ms,
            MonitorConfig::Border(c) => c.interval_ms,
            MonitorConfig::Traceroute(c) => c.interval_ms,
        }
    }

    pub fn protocol(&self) -> (p: &'static str)
        ensures
            p@ == self.protocol_view(),
    {
        match self {
            MonitorConfig::Http(_) => "http",
            MonitorConfig::Tcp(_) => "tcp",
            MonitorConfig::Icmp(_) => "icmp",
            MonitorConfig::PublicIp(_) => "publicip",
            MonitorConfig::Border(_) => "border",
            MonitorConfig::Traceroute(_) => "traceroute",
        }
    }

    /// The display endpoint, matching what the probe records in `probe_results`.
    pub fn endpoint(&self) -> (e: String)
        ensures
            e@ == self.endpoint_view(),
    {
        match self {
            MonitorConfig::Http(c) => c.url.clone(),
            MonitorConfig::Tcp(c) => host_port(c.host.as_str(), c.port),
            MonitorConfig::Icmp(c) => c.host.clone(),
            MonitorConfig::PublicIp(c) => match &c.url {
                Some(u) => u.clone(),
                None => DEFAULT_PUBLICIP_URL.to_owned(),
            },
            MonitorConfig::Border(c) => border_path_string(
                &c.gateway,
                &c.isp_gateway,
                c.upstream.as_str(),
            ),
            MonitorConfig::Traceroute(c) => c.host.clone(),
        }
    }

    /// Whether this monitor should be probed. Disabled monitors are retained
    /// (and keep their history) but are not scheduled.
    pub fn enabled(&self) -> (e: bool)
        ensures
            e == self.is_enabled(),
    {
        match self {
            MonitorConfig::Http(c) => c.enabled,
            MonitorConfig::Tcp(c) => c.enabled,
            MonitorConfig::Icmp(c) => c.enabled,
            MonitorConfig::PublicIp(c) => c.enabled,
            MonitorConfig::Border(c) => c.enabled,
            MonitorConfig::Traceroute(c) => c.enabled,
        }
    }

    /// How many hours to retain this monitor's stored data: its own positive
    /// `retention_hours`, else `global_retention_days × 24` (saturating).
    pub fn retention_hours(&self, global_retention_days: u64) -> (h: u64)
        ensures
            h == self.retention_for(global_retention_days),
            positive(self.retention_setting()) matches Some(r) ==> h == r,
            positive(self.retention_setting()) is None ==> h == saturating_mul(
                global_retention_days,
                24,
            ),
    {
        let raw = match self {
            MonitorConfig::Http(c) => c.retention_hours,
            MonitorConfig::Tcp(c) => c.retention_hours,
            MonitorConfig::Icmp(c) => c.retention_hours,
            MonitorConfig::PublicIp(c) => c.retention_hours,
            MonitorConfig::Border(c) => c.retention_hours,
            MonitorConfig::Traceroute(c) => c.retention_hours,
        };
        match raw {
            Some(h) => if h > 0 {
                h
            } else {
                saturating_mul_u64(global_retention_days, 24)
            },
            None => saturating_mul_u64(global_retention_days, 24),
        }
    }

    /// Sets the enabled flag on this monitor (any variant).
    pub fn set_enabled(&mut self, enabled: bool)
        ensures
            *final(self) == with_enabled(*old(self), enabled),
    {
        match self {
            MonitorConfig::Http(c) => c.enabled = enabled,
            MonitorConfig::Tcp(c) => c.enabled = enabled,
            MonitorConfig::Icmp(c) => c.enabled = enabled,
            MonitorConfig::PublicIp(c) => c.enabled = enabled,
            MonitorConfig::Border(c) => c.enabled = enabled,
            MonitorConfig::Traceroute(c) => c.enabled = enabled,
        }
    }
}

/// `m` with its enabled flag set to `e`, all else unchanged.
pub open spec fn with_enabled(m: MonitorConfig, e: bool) -> MonitorConfig {
    match m {
        MonitorConfig::Http(c) => MonitorConfig::Http(HttpMonitorConfig { enabled: e, ..c }),
        MonitorConfig::Tcp(c) => MonitorConfig::Tcp(TcpMonitorConfig { enabled: e, ..c }),
        MonitorConfig::Icmp(c) => MonitorConfig::Icmp(IcmpMonitorConfig { enabled: e, ..c }),
        MonitorConfig::PublicIp(c) => MonitorConfig::PublicIp(
            PublicIpMonitorConfig { enabled: e, ..c },
        ),
        MonitorConfig::Border(c) => MonitorConfig::Border(BorderMonitorConfig { enabled: e, ..c }),
        MonitorConfig::Traceroute(c) => MonitorConfig::Traceroute(
            TracerouteMonitorConfig { enabled: e, ..c },
        ),
    }
}

/// `gw → isp → upstream`, with `auto` for an undetected gateway and the ISP
/// hop left out when unknown.
pub open spec fn border_path(gw: Option<String>, isp: Option<String>, up: Seq<char>) -> Seq<char> {
    let head = match gw {
        Some(g) => g@,
        None => "auto"@,
    };
    match isp {
        Some(i) => head + " \u{2192} "@ + i@ + " \u{2192} "@ + up,
        None => head + " \u{2192} "@ + up,
    }
}

/// The decimal text of a port number.
pub open spec fn port_text(port: u16) -> Seq<char> {
    decimal(port as nat)
}

fn host_port(host: &str, port: u16) -> (s: String)
    ensures
        s@ == host@ + ":"@ + port_text(port),
{
    let mut s = host.to_owned();
    s.append(":");
    push_decimal(&mut s, port as u64);
    s
}

pub fn border_path_string(gw: &Option<String>, isp: &Option<String>, up: &str) -> (s: String)
    ensures
        s@ == border_path(*gw, *isp, up@),
{
    let mut s = match gw {
        Some(g) => g.clone(),
        None => "auto".to_owned(),
    };
    match isp {
        Some(i) => {
            s.append(" \u{2192} ");
            s.append(i.as_str());
        },
        None => {},
    }
    s.append(" \u{2192} ");
    s.append(up);
    s
}

// ── Arithmetic helpers ───────────────────────────────────────────────────────

pub open spec fn saturating_mul(a: u64, b: u64) -> u64 {
    if a * b > u64::MAX {
        u64::MAX
    } else {
        (a * b) as u64
    }
}

pub fn saturating_mul_u64(a: u64, b: u64) -> (p: u64)
    ensures
        p == saturating_mul(a, b),
{
    match a.checked_mul(b) {
        Some(p) => p,
        None => u64::MAX,
    }
}

// ── Defaults ─────────────────────────────────────────────────────────────────

pub fn default_interval_ms() -> (ms: u64)
    ensures
        ms == 60_000,
{
    60_000
}

pub fn default_timeout_ms() -> (ms: u64)
    ensures
        ms == 10_000,
{
    10_000
}

/// Monitors default to enabled; the key is omitted from the config when true.
pub fn default_true() -> (b: bool)
    ensures
        b,
{
    true
}

pub fn is_true(b: &bool) -> (r: bool)
    ensures
        r == *b,
{
    *b
}

pub fn default_traceroute_max_hops() -> (n: u32)
    ensures
        n == 30,
{
    30
}

pub fn default_traceroute_queries() -> (n: u32)
    ensures
        n == 3,
{
    3
}

pub fn default_icmp_count() -> (n: u32)
    ensures
        n == 3,
{
    3
}

pub fn default_border_upstream() -> (s: String)
    ensures
        s@ == DEFAULT_BORDER_UPSTREAM@,
{
    DEFAULT_BORDER_UPSTREAM.to_owned()
}

pub fn default_http_method() -> (s: String)
    ensures
        s@ == "GET"@,
{
    "GET".to_owned()
}

// ── Backward-compatible resolution ───────────────────────────────────────────
// Both the `*_ms` keys and the legacy `*_secs` keys are accepted. A legacy second
// value is converted to milliseconds (×1000, saturating). The `*_ms` form wins
// when both are present.

pub open spec fn resolved_ms(ms: Option<u64>, secs: Option<u64>, default: u64) -> u64 {
    match ms {
        Some(v) => v,
        None => match secs {
            Some(s) => saturating_mul(s, 1000),
            None => default,
        },
    }
}

pub fn resolve_ms(ms: Option<u64>, secs: Option<u64>, default: u64) -> (r: u64)
    ensures
        r == resolved_ms(ms, secs, default),
        ms matches Some(v) ==> r == v,
        ms is None && secs is Some ==> r == saturating_mul(secs->0, 1000),
        ms is None && secs is None ==> r == default,
{
    match ms {
        Some(v) => v,
        None => match secs {
            Some(s) => saturating_mul_u64(s, 1000),
            None => default,
        },
    }
}

/// The interval/timeout pair with legacy fallback and built-in defaults.
pub fn resolve_timing(
    interval_ms: Option<u64>,
    interval_secs: Option<u64>,
    timeout_ms: Option<u64>,
    timeout_secs: Option<u64>,
) -> (r: (u64, u64))
    ensures
        r.0 == resolved_ms(interval_ms, interval_secs, 60_000),
        r.1 == resolved_ms(timeout_ms, timeout_secs, 10_000),
{
    (
        resolve_ms(interval_ms, interval_secs, default_interval_ms()),
        resolve_ms(timeout_ms, timeout_secs, default_timeout_ms()),
    )
}

/// A positive setting, or none.
pub open spec fn positive(o: Option<u64>) -> Option<u64> {
    match o {
        Some(h) if h > 0 => Some(h),
        _ => None,
    }
}

fn positive_of(o: Option<u64>) -> (r: Option<u64>)
    ensures
        r == positive(o),
{
    match o {
        Some(h) => if h > 0 {
            Some(h)
        } else {
            None
        },
        None => None,
    }
}

/// A setting whose text is not blank, or none.
pub open spec fn non_blank(o: Option<String>) -> Option<String> {
    match o {
        Some(u) if !is_blank(u@) => Some(u),
        _ => None,
    }
}

fn non_blank_of(o: Option<String>) -> (r: Option<String>)
    ensures
        r == non_blank(o),
{
    match o {
        Some(u) => if is_blank_str(u.as_str()) {
            None
        } else {
            Some(u)
        },
        None => None,
    }
}

/// Settings of an HTTP monitor as read, before resolution.
#[derive(Debug)]
pub struct RawHttpMonitorConfig {
    pub name: String,
    pub url: String,
    pub interval_ms: Option<u64>,
    pub interval_secs: Option<u64>,
    pub timeout_ms: Option<u64>,
    pub timeout_secs: Option<u64>,
    pub method: String,
    pub expected_status: Option<u16>,
    pub headers: HashMap<String, String>,
    pub body: Option<String>,
    pub retention_hours: Option<u64>,
    pub enabled: bool,
}

#[derive(Debug)]
pub struct RawTcpMonitorConfig {
    pub name: String,
    pub host: String,
    pub port: u16,
    pub interval_ms: Option<u64>,
    pub interval_secs: Option<u64>,
    pub timeout_ms: Option<u64>,
    pub timeout_secs: Option<u64>,
    pub retention_hours: Option<u64>,
    pub enabled: bool,
}

#[derive(Debug)]
pub struct RawIcmpMonitorConfig {
    pub name: String,
    pub host: String,
    pub interval_ms: Option<u64>,
    pub interval_secs: Option<u64>,
    pub timeout_ms: Option<u64>,
    pub timeout_secs: Option<u64>,
    pub count: Option<u32>,
    pub retention_hours: Option<u64>,
    pub enabled: bool,
}

#[derive(Debug)]
pub struct RawPublicIpMonitorConfig {
    pub name: String,
    pub url: Option<String>,
    pub interval_ms: Option<u64>,
    pub interval_secs: Option<u64>,
    pub timeout_ms: Option<u64>,
    pub timeout_secs: Option<u64>,
    pub retention_hours: Option<u64>,
    pub enabled: bool,
}

#[derive(Debug)]
pub struct RawBorderMonitorConfig {
    pub name: String,
    pub gateway: Option<String>,
    pub isp_gateway: Option<String>,
    pub upstream: Option<String>,
    pub interval_ms: Option<u64>,
    pub interval_secs: Option<u64>,
    pub timeout_ms: Option<u64>,
    pub timeout_secs: Option<u64>,
    pub retention_hours: Option<u64>,
    pub enabled: bool,
}

#[derive(Debug)]
pub struct RawTracerouteMonitorConfig {
    pub name: String,
    pub host: String,
    pub interval_ms: Option<u64>,
    pub interval_secs: Option<u64>,
    pub timeout_ms: Option<u64>,
    pub timeout_secs: Option<u64>,
    pub max_hops: Option<u32>,
    pub queries_per_hop: Option<u32>,
    /// Legacy retention settings, converted to hours.
    pub retention_ms: Option<u64>,
    pub retention_secs: Option<u64>,
    /// Wins over the legacy settings when positive.
    pub retention_hours: Option<u64>,
    pub enabled: bool,
}

impl HttpMonitorConfig {
    pub fn from_raw(r: RawHttpMonitorConfig) -> (c: Self)
        ensures
            c.name == r.name,
            c.url == r.url,
            c.interval_ms == resolved_ms(r.interval_ms, r.interval_secs, 60_000),
            c.timeout_ms == resolved_ms(r.timeout_ms, r.timeout_secs, 10_000),
            c.method == r.method,
            c.expected_status == r.expected_status,
            c.headers == r.headers,
            c.body == r.body,
            c.retention_hours == positive(r.retention_hours),
            c.enabled == r.enabled,
    {
        let (interval_ms, timeout_ms) = resolve_timing(
            r.interval_ms,
            r.interval_secs,
            r.timeout_ms,
            r.timeout_secs,
        );
        HttpMonitorConfig {
            name: r.name,
            url: r.url,
            interval_ms,
            timeout_ms,
            method: r.method,
            expected_status: r.expected_status,
            headers: r.headers,
            body: r.body,
            retention_hours: positive_of(r.retention_hours),
            enabled: r.enabled,
        }
    }
}

impl TcpMonitorConfig {
    pub fn from_raw(r: RawTcpMonitorConfig) -> (c: Self)
        ensures
            c.name == r.name,
            c.host == r.host,
            c.port == r.port,
            c.interval_ms == resolved_ms(r.interval_ms, r.interval_secs, 60_000),
            c.timeout_ms == resolved_ms(r.timeout_ms, r.timeout_secs, 10_000),
            c.retention_hours == positive(r.retention_hours),
            c.enabled == r.enabled,
    {
        let (interval_ms, timeout_ms) = resolve_timing(
            r.interval_ms,
            r.interval_secs,
            r.timeout_ms,
            r.timeout_secs,
        );
        TcpMonitorConfig {
            name: r.name,
            host: r.host,
            port: r.port,
            interval_ms,
            timeout_ms,
            retention_hours: positive_of(r.retention_hours),
            enabled: r.enabled,
        }
    }
}

/// ICMP echo count: 3 when unset, at least 1.
pub open spec fn icmp_count(count: Option<u32>) -> u32 {
    match count {
        Some(n) => if n < 1 {
            1
        } else {
            n
        },
        None => 3,
    }
}

impl IcmpMonitorConfig {
    pub fn from_raw(r: RawIcmpMonitorConfig) -> (c: Self)
        ensures
            c.name == r.name,
            c.host == r.host,
            c.interval_ms == resolved_ms(r.interval_ms, r.interval_secs, 60_000),
            c.timeout_ms == resolved_ms(r.timeout_ms, r.timeout_secs, 10_000),
            c.count == icmp_count(r.count),
            c.count >= 1,
            c.retention_hours == positive(r.retention_hours),
            c.enabled == r.enabled,
    {
        let (interval_ms, timeout_ms) = resolve_timing(
            r.interval_ms,
            r.interval_secs,
            r.timeout_ms,
            r.timeout_secs,
        );
        let requested = match r.count {
            Some(n) => n,
            None => default_icmp_count(),
        };
        IcmpMonitorConfig {
            enabled: r.enabled,
            name: r.name,
            host: r.host,
            interval_ms,
            timeout_ms,
            count: if requested < 1 {
                1
            } else {
                requested
            },
            retention_hours: positive_of(r.retention_hours),
        }
    }
}

impl PublicIpMonitorConfig {
    pub fn from_raw(r: RawPublicIpMonitorConfig) -> (c: Self)
        ensures
            c.name == r.name,
            c.url == non_blank(r.url),
            c.interval_ms == resolved_ms(r.interval_ms, r.interval_secs, 60_000),
            c.timeout_ms == resolved_ms(r.timeout_ms, r.timeout_secs, 10_000),
            c.retention_hours == positive(r.retention_hours),
            c.enabled == r.enabled,
    {
        let (interval_ms, timeout_ms) = resolve_timing(
            r.interval_ms,
            r.interval_secs,
            r.timeout_ms,
            r.timeout_secs,
        );
        PublicIpMonitorConfig {
            name: r.name,
            // An empty URL counts as unset so the default/fallback applies.
            url: non_blank_of(r.url),
            interval_ms,
            timeout_ms,
            retention_hours: positive_of(r.retention_hours),
            enabled: r.enabled,
        }
    }
}

impl BorderMonitorConfig {
    pub fn from_raw(r: RawBorderMonitorConfig) -> (c: Self)
        ensures
            c.name == r.name,
            c.gateway == non_blank(r.gateway),
            c.isp_gateway == non_blank(r.isp_gateway),
            non_blank(r.upstream) matches Some(u) ==> c.upstream == u,
            non_blank(r.upstream) is None ==> c.upstream@ == DEFAULT_BORDER_UPSTREAM@,
            c.interval_ms == resolved_ms(r.interval_ms, r.interval_secs, 60_000),
            c.timeout_ms == resolved_ms(r.timeout_ms, r.timeout_secs, 10_000),
            c.retention_hours == positive(r.retention_hours),
            c.enabled == r.enabled,
    {
        let (interval_ms, timeout_ms) = resolve_timing(
            r.interval_ms,
            r.interval_secs,
            r.timeout_ms,
            r.timeout_secs,
        );
        let upstream = match non_blank_of(r.upstream) {
            Some(u) => u,
            None => default_border_upstream(),
        };
        BorderMonitorConfig {
            name: r.name,
            gateway: non_blank_of(r.gateway),
            isp_gateway: non_blank_of(r.isp_gateway),
            upstream,
            interval_ms,
            timeout_ms,
            retention_hours: positive_of(r.retention_hours),
            enabled: r.enabled,
        }
    }
}

/// Legacy retention in milliseconds: `retention_ms`, else `retention_secs × 1000`.
pub open spec fn legacy_retention_ms(ms: Option<u64>, secs: Option<u64>) -> Option<u64> {
    match ms {
        Some(v) => Some(v),
        None => match secs {
            Some(s) => Some(saturating_mul(s, 1000)),
            None => None,
        },
    }
}

/// Traceroute retention: a positive `retention_hours` wins; otherwise the legacy
/// milliseconds converted to whole hours, at least 1.
pub open spec fn traceroute_retention(
    hours: Option<u64>,
    ms: Option<u64>,
    secs: Option<u64>,
) -> Option<u64> {
    match positive(hours) {
        Some(h) => Some(h),
        None => match legacy_retention_ms(ms, secs) {
            Some(v) => Some(if v / 3_600_000 < 1 {
                1
            } else {
                v / 3_600_000
            }),
            None => None,
        },
    }
}

pub open spec fn clamp_u32(v: u32, lo: u32, hi: u32) -> u32 {
    if v < lo {
        lo
    } else if v > hi {
        hi
    } else {
        v
    }
}

pub open spec fn max_u64(a: u64, b: u64) -> u64 {
    if a < b {
        b
    } else {
        a
    }
}

impl TracerouteMonitorConfig {
    pub fn from_raw(r: RawTracerouteMonitorConfig) -> (c: Self)
        ensures
            c.name == r.name,
            c.host == r.host,
            c.interval_ms == max_u64(
                resolved_ms(r.interval_ms, r.interval_secs, 60_000),
                TRACEROUTE_MIN_INTERVAL_MS,
            ),
            c.interval_ms >= TRACEROUTE_MIN_INTERVAL_MS,
            c.timeout_ms == resolved_ms(r.timeout_ms, r.timeout_secs, 10_000),
            c.max_hops == clamp_u32(
                match r.max_hops {
                    Some(n) => n,
                    None => 30,
                },
                1,
                64,
            ),
            1 <= c.max_hops <= 64,
            c.queries_per_hop == icmp_count(r.queries_per_hop),
            c.queries_per_hop >= 1,
            c.retention_hours == traceroute_retention(
                r.retention_hours,
                r.retention_ms,
                r.retention_secs,
            ),
            c.enabled == r.enabled,
    {
        let (interval_ms, timeout_ms) = resolve_timing(
            r.interval_ms,
            r.interval_secs,
            r.timeout_ms,
            r.timeout_secs,
        );
        let legacy_ms = match r.retention_ms {
            Some(v) => Some(v),
            None => match r.retention_secs {
                Some(s) => Some(saturating_mul_u64(s, 1000)),
                None => None,
            },
        };
        let retention_hours = match positive_of(r.retention_hours) {
            Some(h) => Some(h),
            None => match legacy_ms {
                Some(v) => {
                    let h = v / 3_600_000;
                    Some(
                        if h < 1 {
                            1
                        } else {
                            h
                        },
                    )
                },
                None => None,
            },
        };
        let hops = match r.max_hops {
            Some(n) => n,
            None => default_traceroute_max_hops(),
        };
        let queries = match r.queries_per_hop {
            Some(n) => n,
            None => default_traceroute_queries(),
        };
        TracerouteMonitorConfig {
            name: r.name,
            host: r.host,
            // The 500 ms floor holds on every path that builds a traceroute monitor.
            interval_ms: if interval_ms < TRACEROUTE_MIN_INTERVAL_MS {
                TRACEROUTE_MIN_INTERVAL_MS
            } else {
                interval_ms
            },
            timeout_ms,
            max_hops: if hops < 1 {
                1
            } else if hops > 64 {
                64
            } else {
                hops
            },
            queries_per_hop: if queries < 1 {
                1
            } else {
                queries
            },
            retention_hours,
            enabled: r.enabled,
        }
    }
}

// ── Global defaults ──────────────────────────────────────────────────────────

/// A per-monitor value still at its built-in default takes the configured one.
pub open spec fn overridden(value: u64, builtin: u64, configured: Option<u64>) -> u64 {
    match configured {
        Some(v) if value == builtin => v,
        _ => value,
    }
}

/// `m` after `[defaults]`: interval and timeout still at their built-in values
/// take the configured defaults; a traceroute interval keeps its 500 ms floor.
pub open spec fn with_timing_defaults(m: MonitorConfig, d: Defaults) -> MonitorConfig {
    match m {
        MonitorConfig::Http(c) => MonitorConfig::Http(
            HttpMonitorConfig {
                interval_ms: overridden(c.interval_ms, 60_000, d.interval_ms),
                timeout_ms: overridden(c.timeout_ms, 10_000, d.timeout_ms),
                ..c
            },
        ),
        MonitorConfig::Tcp(c) => MonitorConfig::Tcp(
            TcpMonitorConfig {
                interval_ms: overridden(c.interval_ms, 60_000, d.interval_ms),
                timeout_ms: overridden(c.timeout_ms, 10_000, d.timeout_ms),
                ..c
            },
        ),
        MonitorConfig::Icmp(c) => MonitorConfig::Icmp(
            IcmpMonitorConfig {
                interval_ms: overridden(c.interval_ms, 60_000, d.interval_ms),
                timeout_ms: overridden(c.timeout_ms, 10_000, d.timeout_ms),
                ..c
            },
        ),
        MonitorConfig::PublicIp(c) => MonitorConfig::PublicIp(
            PublicIpMonitorConfig {
                interval_ms: overridden(c.interval_ms, 60_000, d.interval_ms),
                timeout_ms: overridden(c.timeout_ms, 10_000, d.timeout_ms),
                ..c
            },
        ),
        MonitorConfig::Border(c) => MonitorConfig::Border(
            BorderMonitorConfig {
                interval_ms: overridden(c.interval_ms, 60_000, d.interval_ms),
                timeout_ms: overridden(c.timeout_ms, 10_000, d.timeout_ms),
                ..c
            },
        ),
        MonitorConfig::Traceroute(c) => MonitorConfig::Traceroute(
            TracerouteMonitorConfig {
                interval_ms: max_u64(
                    overridden(c.interval_ms, 60_000, d.interval_ms),
                    TRACEROUTE_MIN_INTERVAL_MS,
                ),
                timeout_ms: overridden(c.timeout_ms, 10_000, d.timeout_ms),
                ..c
            },
        ),
    }
}

fn overridden_value(value: u64, builtin: u64, configured: Option<u64>) -> (v: u64)
    ensures
        v == overridden(value, builtin, configured),
{
    match configured {
        Some(t) => if value == builtin {
            t
        } else {
            value
        },
        None => value,
    }
}

/// Apply global `[defaults]` to a monitor's interval/timeout.
fn apply_timing_defaults(interval_ms: &mut u64, timeout_ms: &mut u64, defaults: &Defaults)
    ensures
        *final(interval_ms) == overridden(*old(interval_ms), 60_000, defaults.interval_ms),
        *final(timeout_ms) == overridden(*old(timeout_ms), 10_000, defaults.timeout_ms),
{
    *timeout_ms = overridden_value(*timeout_ms, default_timeout_ms(), defaults.timeout_ms);
    *interval_ms = overridden_value(*interval_ms, default_interval_ms(), defaults.interval_ms);
}

fn apply_defaults_to(m: &mut MonitorConfig, defaults: &Defaults)
    ensures
        *final(m) == with_timing_defaults(*old(m), *defaults),
{
    match m {
        MonitorConfig::Http(c) => apply_timing_defaults(
            &mut c.interval_ms,
            &mut c.timeout_ms,
            defaults,
        ),
        MonitorConfig::Tcp(c) => apply_timing_defaults(
            &mut c.interval_ms,
            &mut c.timeout_ms,
            defaults,
        ),
        MonitorConfig::Icmp(c) => apply_timing_defaults(
            &mut c.interval_ms,
            &mut c.timeout_ms,
            defaults,
        ),
        MonitorConfig::PublicIp(c) => apply_timing_defaults(
            &mut c.interval_ms,
            &mut c.timeout_ms,
            defaults,
        ),
        MonitorConfig::Border(c) => apply_timing_defaults(
            &mut c.interval_ms,
            &mut c.timeout_ms,
            defaults,
        ),
        MonitorConfig::Traceroute(c) => {
            apply_timing_defaults(&mut c.interval_ms, &mut c.timeout_ms, defaults);
            // Re-apply the floor in case a global default lowered the interval.
            if c.interval_ms < TRACEROUTE_MIN_INTERVAL_MS {
                c.interval_ms = TRACEROUTE_MIN_INTERVAL_MS;
            }
        },
    }
}

/// Applies `[defaults]` to every monitor of the list, in place.
pub fn apply_defaults(monitors: &mut Vec<MonitorConfig>, defaults: &Defaults)
    ensures
        final(monitors)@.len() == old(monitors)@.len(),
        forall|i: int|
            0 <= i < old(monitors)@.len() ==> #[trigger] final(monitors)@[i]
                == with_timing_defaults(old(monitors)@[i], *defaults),
        forall|i: int|
            #![trigger final(monitors)@[i]]
            0 <= i < old(monitors)@.len() ==> final(monitors)@[i].protocol_view()
                == old(monitors)@[i].protocol_view(),
        forall|i: int|
            #![trigger final(monitors)@[i]]
            0 <= i < old(monitors)@.len() ==> final(monitors)@[i].timeout_of() == (
            if old(monitors)@[i].timeout_of() == 10_000 && defaults.timeout_ms is Some {
                defaults.timeout_ms->0
            } else {
                old(monitors)@[i].timeout_of()
            }),
        forall|i: int|
            #![trigger final(monitors)@[i]]
            0 <= i < old(monitors)@.len() && !(old(monitors)@[i] is Traceroute)
                ==> final(monitors)@[i].interval_of() == (
            if old(monitors)@[i].interval_of() == 60_000 && defaults.interval_ms is Some {
                defaults.interval_ms->0
            } else {
                old(monitors)@[i].interval_of()
            }),
{
    let n = monitors.len();
    let mut i: usize = 0;
    while i < n
        invariant
            n == monitors@.len(),
            n == old(monitors)@.len(),
            i <= n,
            forall|k: int|
                0 <= k < i ==> #[trigger] monitors@[k] == with_timing_defaults(
                    old(monitors)@[k],
                    *defaults,
                ),
            forall|k: int| i <= k < n ==> #[trigger] monitors@[k] == old(monitors)@[k],
        decreases n - i,
    {
        apply_defaults_to(&mut monitors[i], defaults);
        i = i + 1;
    }
    proof {
        assert forall|i: int| 0 <= i < old(monitors)@.len() implies {
            &&& monitors@[i].protocol_view() == old(monitors)@[i].protocol_view()
            &&& monitors@[i].timeout_of() == (if old(monitors)@[i].timeout_of() == 10_000
                && defaults.timeout_ms is Some {
                defaults.timeout_ms->0
            } else {
                old(monitors)@[i].timeout_of()
            })
            &&& !(old(monitors)@[i] is Traceroute) ==> monitors@[i].interval_of() == (
            if old(monitors)@[i].interval_of() == 60_000 && defaults.interval_ms is Some {
                defaults.interval_ms->0
            } else {
                old(monitors)@[i].interval_of()
            })
        } by {
            lemma_timing_defaults_fields(old(monitors)@[i], *defaults);
        }
    }
}

/// Whatever its kind, a monitor keeps its kind, name and endpoint under
/// `[defaults]`; an interval still at 60000 ms takes the configured default
/// interval and a timeout still at 10000 ms the configured default timeout,
/// when those are set; any other value stays. A traceroute interval is then
/// raised to its 500 ms floor.
pub proof fn lemma_timing_defaults_fields(m: MonitorConfig, d: Defaults)
    ensures
        with_timing_defaults(m, d).protocol_view() == m.protocol_view(),
        with_timing_defaults(m, d).name_view() == m.name_view(),
        with_timing_defaults(m, d).endpoint_view() == m.endpoint_view(),
        with_timing_defaults(m, d).is_enabled() == m.is_enabled(),
        with_timing_defaults(m, d).timeout_of() == (if m.timeout_of() == 10_000
            && d.timeout_ms is Some {
            d.timeout_ms->0
        } else {
            m.timeout_of()
        }),
        !(m is Traceroute) ==> with_timing_defaults(m, d).interval_of() == (if m.interval_of()
            == 60_000 && d.interval_ms is Some {
            d.interval_ms->0
        } else {
            m.interval_of()
        }),
        m is Traceroute ==> with_timing_defaults(m, d).interval_of() == max_u64(
            if m.interval_of() == 60_000 && d.interval_ms is Some {
                d.interval_ms->0
            } else {
                m.interval_of()
            },
            500,
        ),
{
}

/// Applying `[defaults]` a second time changes nothing.
pub proof fn lemma_timing_defaults_idempotent(m: MonitorConfig, d: Defaults)
    ensures
        with_timing_defaults(with_timing_defaults(m, d), d) == with_timing_defaults(m, d),
{
}

/// `[defaults]` never take a traceroute interval below its 500 ms floor.
pub proof fn lemma_timing_defaults_keep_floor(m: MonitorConfig, d: Defaults)
    ensures
        with_timing_defaults(m, d) is Traceroute ==> with_timing_defaults(m, d).interval_of()
            >= TRACEROUTE_MIN_INTERVAL_MS,
{
}

/// After `set_enabled(e)`, `enabled()` reports `e`, and name, timing,
/// retention and endpoint are untouched.
pub proof fn lemma_set_enabled_reads_back(m: MonitorConfig, e: bool)
    ensures
        with_enabled(m, e).is_enabled() == e,
        with_enabled(m, e).name_view() == m.name_view(),
        with_enabled(m, e).interval_of() == m.interval_of(),
        with_enabled(m, e).timeout_of() == m.timeout_of(),
        with_enabled(m, e).retention_setting() == m.retention_setting(),
        with_enabled(m, e).endpoint_view() == m.endpoint_view(),
        with_enabled(m, e).protocol_view() == m.protocol_view(),
{
}

// ── Stored monitors ──────────────────────────────────────────────────────────

/// A configured monitor with its stable database id. The id keys all stored
/// history, so a monitor can be renamed freely.
#[derive(Debug, Clone)]
pub struct StoredMonitor {
    pub id: i64,
    pub config: MonitorConfig,
}

/// The position of the monitor with `id`, if any (the first, ids being unique).
pub fn position_of(list: &Vec<StoredMonitor>, id: i64) -> (pos: Option<usize>)
    ensures
        pos matches Some(i) ==> i < list@.len() && list@[i as int].id == id && forall|k: int|
            0 <= k < i ==> list@[k].id != id,
        pos is None ==> forall|k: int| 0 <= k < list@.len() ==> list@[k].id != id,
{
    let mut i: usize = 0;
    while i < list.len()
        invariant
            i <= list@.len(),
            forall|k: int| 0 <= k < i ==> list@[k].id != id,
        decreases list@.len() - i,
    {
        if list[i].id == id {
            return Some(i);
        }
        i = i + 1;
    }
    None
}

/// Whether some monitor of the list is named `name`.
pub fn name_in_use(list: &Vec<StoredMonitor>, name: &str) -> (used: bool)
    ensures
        used == exists|k: int| 0 <= k < list@.len() && #[trigger] list@[k].config.name_view() == name@,
{
    let mut i: usize = 0;
    while i < list.len()
        invariant
            i <= list@.len(),
            forall|k: int| 0 <= k < i ==> #[trigger] list@[k].config.name_view() != name@,
        decreases list@.len() - i,
    {
        if str_eq(list[i].config.name(), name) {
            return true;
        }
        i = i + 1;
    }
    false
}

/// Replaces the configuration of the (first) monitor with `id`, keeping its id
/// and position, and every other monitor as it was: an edit may rename the
/// monitor. Returns `false`, leaving the list as it was, when no monitor has
/// that id.
pub fn replace_config(list: &mut Vec<StoredMonitor>, id: i64, config: MonitorConfig) -> (found: bool)
    ensures
        found == exists|k: int| 0 <= k < old(list)@.len() && #[trigger] old(list)@[k].id == id,
        !found ==> final(list)@ == old(list)@,
        found ==> final(list)@.len() == old(list)@.len() && exists|i: int|
            0 <= i < old(list)@.len() && old(list)@[i].id == id && (forall|k: int|
                0 <= k < i ==> old(list)@[k].id != id) && final(list)@ == old(list)@.update(
                i,
                StoredMonitor { id, config },
            ),
{
    match position_of(list, id) {
        None => false,
        Some(i) => {
            list.set(i, StoredMonitor { id, config });
            true
        },
    }
}

/// What setting the enabled flag of one monitor did.
#[derive(Debug, Clone, Copy, PartialEq, Eq)]
pub enum EnabledChange {
    /// No monitor has the id.
    NotFound,
    /// The flag already had the requested value; nothing changed.
    Unchanged,
    /// The flag was changed; the monitor must be persisted and watchers told.
    Changed,
}

/// Sets the enabled flag of the monitor with `id`.
pub fn set_enabled_in(list: &mut Vec<StoredMonitor>, id: i64, enabled: bool) -> (change:
    EnabledChange)
    ensures
        change == EnabledChange::NotFound <==> forall|k: int|
            0 <= k < old(list)@.len() ==> #[trigger] old(list)@[k].id != id,
        change != EnabledChange::Changed ==> final(list)@ == old(list)@,
        change == EnabledChange::Changed ==> exists|i: int|
            0 <= i < old(list)@.len() && old(list)@[i].id == id
                && old(list)@[i].config.is_enabled() != enabled && final(list)@ == old(
                list,
            )@.update(i, StoredMonitor { id, config: with_enabled(old(list)@[i].config, enabled) }),
        change == EnabledChange::Unchanged ==> exists|i: int|
            0 <= i < old(list)@.len() && old(list)@[i].id == id
                && old(list)@[i].config.is_enabled() == enabled,
{
    match position_of(list, id) {
        None => EnabledChange::NotFound,
        Some(i) => {
            if list[i].config.enabled() == enabled {
                EnabledChange::Unchanged
            } else {
                let slot = &mut list[i];
                slot.config.set_enabled(enabled);
                EnabledChange::Changed
            }
        },
    }
}

/// Removes the monitor with `id`. Returns whether one was removed.
pub fn remove_monitor(list: &mut Vec<StoredMonitor>, id: i64) -> (removed: bool)
    ensures
        final(list)@ == old(list)@.filter(|m: StoredMonitor| m.id != id),
        removed == (final(list)@.len() < old(list)@.len()),
        removed == exists|k: int| 0 <= k < old(list)@.len() && #[trigger] old(list)@[k].id == id,
{
    let ghost src = list@;
    let ghost keep = |m: StoredMonitor| m.id != id;
    let mut kept: Vec<StoredMonitor> = Vec::new();
    let mut dropped = false;
    proof {
        reveal(Seq::filter);
        assert(src.take(0) =~= Seq::<StoredMonitor>::empty());
        assert(src.skip(0) =~= src);
    }
    while list.len() > 0
        invariant
            src == old(list)@,
            keep == (|m: StoredMonitor| m.id != id),
            list@.len() <= src.len(),
            list@ == src.skip(src.len() - list@.len()),
            kept@ == src.take(src.len() - list@.len()).filter(keep),
            kept@.len() <= src.len() - list@.len(),
            !dropped ==> kept@.len() == src.len() - list@.len(),
            dropped ==> kept@.len() < src.len() - list@.len(),
            dropped == exists|k: int| 0 <= k < src.len() - list@.len() && #[trigger] src[k].id == id,
        decreases list@.len(),
    {
        let ghost j = src.len() - list@.len();
        let m = list.remove(0);
        proof {
            reveal(Seq::filter);
            assert(src.take(j + 1).drop_last() =~= src.take(j));
            assert(src.take(j + 1).last() == src[j]);
            assert(src.skip(j).remove(0) =~= src.skip(j + 1));
            assert(m == src[j]);
        }
        if m.id != id {
            kept.push(m);
        } else {
            dropped = true;
        }
    }
    proof {
        assert(src.take(src.len() as int) =~= src);
    }
    *list = kept;
    dropped
}

// ── Legacy monitor entries in config.toml ────────────────────────────────────

/// The lines kept when `[[monitors]]` tables are removed, and whether the last
/// line seen was inside one: a `[[monitors]]` header opens a block, which any
/// other table header (`[`…) closes; lines inside a block are dropped.
/// A (trimmed) line that ends a `[[monitors]]` entry: a table header outside
/// the entry's own `monitors.` sub-tables.
pub open spec fn ends_monitors_block(t: Seq<char>) -> bool {
    &&& starts_with_seq(t, "["@)
    &&& !starts_with_seq(t, "[monitors."@)
    &&& !starts_with_seq(t, "[[monitors."@)
}

/// Whether a trimmed line ends a `[[monitors]]` entry.
fn is_monitors_block_end(t: &str) -> (b: bool)
    ensures
        b == ends_monitors_block(t@),
{
    starts_with_str(t, "[") && !starts_with_str(t, "[monitors.") && !starts_with_str(t, "[[monitors.")
}

pub open spec fn strip_state(ls: Seq<Seq<char>>) -> (Seq<Seq<char>>, bool)
    decreases ls.len(),
{
    if ls.len() == 0 {
        (Seq::empty(), false)
    } else {
        let (out, in_monitors) = strip_state(ls.drop_last());
        let line = ls.last();
        let t = trimmed(line);
        if starts_with_seq(t, "[[monitors]]"@) {
            (out, true)
        } else if in_monitors {
            if ends_monitors_block(t) {
                (out.push(line), false)
            } else {
                (out, true)
            }
        } else {
            (out.push(line), false)
        }
    }
}

/// TOML text without its `[[monitors]]` tables, ending in a newline.
pub open spec fn stripped_toml(input: Seq<char>) -> Seq<char> {
    let j = join_lines(strip_state(lines(input)).0);
    if j.len() > 0 && j.last() == '\n' {
        j
    } else {
        j.push('\n')
    }
}

/// Stripping leaves no `[[monitors]]` header: no kept line starts, once
/// trimmed, with `[[monitors]]`.
pub proof fn lemma_strip_removes_monitor_headers(ls: Seq<Seq<char>>)
    ensures
        forall|k: int|
            0 <= k < strip_state(ls).0.len() ==> !starts_with_seq(
                trimmed(#[trigger] strip_state(ls).0[k]),
                "[[monitors]]"@,
            ),
    decreases ls.len(),
{
    if ls.len() > 0 {
        lemma_strip_removes_monitor_headers(ls.drop_last());
        let prev = strip_state(ls.drop_last()).0;
        let out = strip_state(ls).0;
        assert forall|k: int| 0 <= k < out.len() implies !starts_with_seq(
            trimmed(#[trigger] out[k]),
            "[[monitors]]"@,
        ) by {
            if k < prev.len() {
                assert(out[k] == prev[k]);
            } else {
                assert(out[k] == ls.last());
            }
        }
    }
}

/// Text without `[[monitors]]` headers loses no line to stripping.
pub proof fn lemma_strip_keeps_monitorless(ls: Seq<Seq<char>>)
    requires
        forall|k: int| 0 <= k < ls.len() ==> !starts_with_seq(trimmed(#[trigger] ls[k]), "[[monitors]]"@),
    ensures
        strip_state(ls) == (ls, false),
    decreases ls.len(),
{
    if ls.len() > 0 {
        assert forall|k: int| 0 <= k < ls.drop_last().len() implies !starts_with_seq(
            trimmed(#[trigger] ls.drop_last()[k]),
            "[[monitors]]"@,
        ) by {
            assert(ls.drop_last()[k] == ls[k]);
        }
        lemma_strip_keeps_monitorless(ls.drop_last());
        assert(!starts_with_seq(trimmed(ls[ls.len() - 1]), "[[monitors]]"@));
        assert(ls.drop_last().push(ls.last()) =~= ls);
    }
}

/// Remove all `[[monitors]]` table entries, with their `monitors.` sub-tables,
/// from TOML text.
pub fn strip_monitors_from_toml(input: &str) -> (out: String)
    ensures
        out@ == stripped_toml(input@),
{
    let ls = lines_of(input);
    let ghost lv = texts_of(ls@);
    let mut output: Vec<String> = Vec::new();
    let mut in_monitors = false;
    let mut i: usize = 0;
    proof {
        assert(lv.take(0) =~= Seq::<Seq<char>>::empty());
        assert(texts_of(output@) =~= Seq::<Seq<char>>::empty());
    }
    while i < ls.len()
        invariant
            lv == texts_of(ls@),
            lv == lines(input@),
            i <= ls@.len(),
            (texts_of(output@), in_monitors) == strip_state(lv.take(i as int)),
        decreases ls@.len() - i,
    {
        proof {
            assert(lv.take(i + 1).drop_last() =~= lv.take(i as int));
            assert(lv.take(i + 1).last() == ls@[i as int]@);
        }
        let line = &ls[i];
        let t = trim(line.as_str());
        if starts_with_str(t.as_str(), "[[monitors]]") {
            in_monitors = true;
        } else if in_monitors {
            // A table header outside the entry's sub-tables ends the block.
            if is_monitors_block_end(t.as_str()) {
                in_monitors = false;
                output.push(line.clone());
                proof {
                    assert(texts_of(output@) =~= texts_of(output@.drop_last()).push(line@));
                }
            }
        } else {
            output.push(line.clone());
            proof {
                assert(texts_of(output@) =~= texts_of(output@.drop_last()).push(line@));
            }
        }
        i = i + 1;
    }
    proof {
        assert(lv.take(ls@.len() as int) =~= lv);
    }
    let mut result = join_with_newlines(&output);
    let n = result.as_str().unicode_len();
    let ends_with_newline = n > 0 && result.as_str().get_char(n - 1) == '\n';
    if !ends_with_newline {
        result.append("\n");
        proof {
            reveal_strlit("\n");
        }
    }
    result
}

} // verus!
