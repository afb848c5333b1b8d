//! The decisions behind the JSON API: validation of submitted monitors, the
//! live status payload, and the defaults and bounds of query parameters.

use vstd::prelude::*;
use crate::db::CurrentStatus;
use crate::monitors::{saturating_mul, saturating_mul_u64, MonitorConfig, StoredMonitor};
use crate::probe::{rfc3339_of_timestamp, text_of, timestamp_to_rfc3339, ProbeResult};
use crate::text::{
    char_is_ascii_alphanumeric,
    chars_of,
    contains_seq,
    contains_str,
    is_ascii_alphanumeric,
    is_control,
    is_white_space,
    starts_with_seq,
    starts_with_str,
    str_eq,
};

verus! {

// ── Live status updates ──────────────────────────────────────────────────────

/// A lightweight, push-on-probe status payload, built directly from a probe
/// result and broadcast to connected dashboards.
#[derive(Clone, Debug)]
pub struct StatusUpdate {
    pub name: String,
    pub protocol: String,
    pub endpoint: String,
    pub status: String,
    pub response_time_ms: Option<u64>,
    pub failure_reason: Option<String>,
    pub detail: Option<String>,
    pub last_checked_at: String,
}

impl StatusUpdate {
    pub fn from_result(r: &ProbeResult) -> (u: Self)
        ensures
            u.name == r.monitor_name,
            u.protocol == r.protocol,
            u.endpoint == r.endpoint,
            u.status == r.status,
            u.response_time_ms == r.response_time_ms,
            u.failure_reason == r.failure_reason,
            u.detail == r.detail,
            u.last_checked_at@ == rfc3339_of_timestamp(r.checked_at.secs, r.checked_at.nanos),
    {
        StatusUpdate {
            name: r.monitor_name.clone(),
            protocol: r.protocol.clone(),
            endpoint: r.endpoint.clone(),
            status: r.status.clone(),
            response_time_ms: r.response_time_ms,
            failure_reason: r.failure_reason.clone(),
            detail: r.detail.clone(),
            last_checked_at: timestamp_to_rfc3339(r.checked_at.secs, r.checked_at.nanos),
        }
    }
}

/// Body of `POST /api/monitors/:id/enabled`.
#[derive(Clone, Copy, Debug)]
pub struct EnabledBody {
    pub enabled: bool,
}

// ── Query parameters ─────────────────────────────────────────────────────────

/// `t - span`, saturated to the `i64` range.
pub open spec fn saturating_back(t: i64, span: i64) -> i64 {
    if t - span < i64::MIN {
        i64::MIN
    } else if t - span > i64::MAX {
        i64::MAX
    } else {
        (t - span) as i64
    }
}

/// The window `[from, to]` (epoch ms) of a range query: `to` defaults to
/// `now_ms`, and `from` to `span_ms` before `to`.
pub fn query_window(from: Option<i64>, to: Option<i64>, now_ms: i64, span_ms: i64) -> (w: (
    i64,
    i64,
))
    ensures
        w.1 == match to {
            Some(t) => t,
            None => now_ms,
        },
        w.0 == match from {
            Some(f) => f,
            None => saturating_back(w.1, span_ms),
        },
{
    let end = match to {
        Some(t) => t,
        None => now_ms,
    };
    let start = match from {
        Some(f) => f,
        None => if span_ms >= 0 {
            if end < i64::MIN + span_ms {
                i64::MIN
            } else {
                end - span_ms
            }
        } else {
            if end > i64::MAX + span_ms {
                i64::MAX
            } else {
                end - span_ms
            }
        },
    };
    (start, end)
}

/// Rows of a history query: 100 by default, at most 1000.
pub fn history_limit(limit: Option<i64>) -> (n: i64)
    ensures
        n == match limit {
            Some(l) => if l < 1000 {
                l
            } else {
                1000
            },
            None => 100,
        },
{
    let l = match limit {
        Some(l) => l,
        None => 100,
    };
    if l < 1000 {
        l
    } else {
        1000
    }
}

/// Buckets of a series query: 300 by default, clamped to 50..=1000.
pub fn series_buckets(buckets: Option<i64>) -> (n: i64)
    ensures
        n == crate::db::clamp_i64(
            match buckets {
                Some(b) => b,
                None => 300,
            },
            50,
            1000,
        ),
        50 <= n <= 1000,
{
    let b = match buckets {
        Some(b) => b,
        None => 300,
    };
    if b < 50 {
        50
    } else if b > 1000 {
        1000
    } else {
        b
    }
}

/// The position of the first configured monitor named `name`.
pub fn position_by_name(monitors: &Vec<StoredMonitor>, name: &str) -> (pos: Option<usize>)
    ensures
        pos matches Some(i) ==> i < monitors@.len() && monitors@[i as int].config.name_view()
            == name@ && forall|k: int| 0 <= k < i ==> monitors@[k].config.name_view() != name@,
        pos is None ==> forall|k: int|
            0 <= k < monitors@.len() ==> monitors@[k].config.name_view() != name@,
{
    let mut i: usize = 0;
    while i < monitors.len()
        invariant
            i <= monitors@.len(),
            forall|k: int| 0 <= k < i ==> monitors@[k].config.name_view() != name@,
        decreases monitors@.len() - i,
    {
        if str_eq(monitors[i].config.name(), name) {
            return Some(i);
        }
        i = i + 1;
    }
    None
}

/// A monitor's protocol and endpoint from the current config, or `unknown`
/// and an empty endpoint when it is no longer configured.
pub fn monitor_identity(monitors: &Vec<StoredMonitor>, name: &str) -> (id: (String, String))
    ensures
        match position_of_name(monitors@, name@) {
            Some(i) => id.0@ == monitors@[i].config.protocol_view() && id.1@
                == monitors@[i].config.endpoint_view(),
            None => id.0@ == "unknown"@ && id.1@ == Seq::<char>::empty(),
        },
{
    match position_by_name(monitors, name) {
        Some(i) => {
            proof {
                lemma_position_of_name(monitors@, name@, i as int);
            }
            (monitors[i].config.protocol().to_owned(), monitors[i].config.endpoint())
        },
        None => {
            proof {
                lemma_position_of_name_none(monitors@, name@);
            }
            ("unknown".to_owned(), String::new())
        },
    }
}

/// The first position of a monitor named `name`.
pub open spec fn position_of_name(monitors: Seq<StoredMonitor>, name: Seq<char>) -> Option<int> {
    if exists|i: int| 0 <= i < monitors.len() && monitors[i].config.name_view() == name {
        Some(
            choose|i: int|
                0 <= i < monitors.len() && monitors[i].config.name_view() == name && forall|k: int|
                    0 <= k < i ==> monitors[k].config.name_view() != name,
        )
    } else {
        None
    }
}

proof fn lemma_position_of_name(monitors: Seq<StoredMonitor>, name: Seq<char>, i: int)
    requires
        0 <= i < monitors.len(),
        monitors[i].config.name_view() == name,
        forall|k: int| 0 <= k < i ==> monitors[k].config.name_view() != name,
    ensures
        position_of_name(monitors, name) == Some(i),
{
    let j = choose|j: int|
        0 <= j < monitors.len() && monitors[j].config.name_view() == name && forall|k: int|
            0 <= k < j ==> monitors[k].config.name_view() != name;
    assert(0 <= j < monitors.len() && monitors[j].config.name_view() == name && forall|k: int|
        0 <= k < j ==> monitors[k].config.name_view() != name);
    if j < i {
        assert(monitors[j].config.name_view() != name);
    }
    if i < j {
        assert(monitors[i].config.name_view() != name);
    }
}

proof fn lemma_position_of_name_none(monitors: Seq<StoredMonitor>, name: Seq<char>)
    requires
        forall|k: int| 0 <= k < monitors.len() ==> monitors[k].config.name_view() != name,
    ensures
        position_of_name(monitors, name) is None,
{
}

/// The retention (hours) an extent query reports: the named monitor's
/// effective retention, else the global retention × 24 (saturating).
pub fn extent_retention_hours(monitors: &Vec<StoredMonitor>, name: &str, global_days: u64) -> (h:
    u64)
    ensures
        h == match position_of_name(monitors@, name@) {
            Some(i) => monitors@[i].config.retention_for(global_days),
            None => saturating_mul(global_days, 24),
        },
{
    match position_by_name(monitors, name) {
        Some(i) => {
            proof {
                lemma_position_of_name(monitors@, name@, i as int);
            }
            monitors[i].config.retention_hours(global_days)
        },
        None => {
            proof {
                lemma_position_of_name_none(monitors@, name@);
            }
            saturating_mul_u64(global_days, 24)
        },
    }
}

// ── Dashboard rows ───────────────────────────────────────────────────────────

/// One row of the dashboard: a configured monitor joined with its latest
/// probe, or `pending` when it has not been probed yet. (The 24-hour uptime is
/// attached by the caller.)
#[derive(Debug, Clone)]
pub struct MonitorRow {
    pub name: String,
    pub protocol: String,
    pub endpoint: String,
    pub enabled: bool,
    /// The monitor's own retention setting (the global default applies when unset).
    pub retention_hours: Option<u64>,
    pub status: String,
    pub last_checked_at: Option<String>,
    pub response_time_ms: Option<i64>,
    pub failure_reason: Option<String>,
    pub detail: Option<String>,
}

/// The index of the status of the monitor `name` among the latest statuses:
/// the last one carrying that name, as a map collected from them keeps it.
pub open spec fn status_index(latest: Seq<CurrentStatus>, name: Seq<char>) -> Option<int>
    decreases latest.len(),
{
    if latest.len() == 0 {
        None
    } else if latest.last().monitor_name@ == name {
        Some(latest.len() - 1)
    } else {
        status_index(latest.drop_last(), name)
    }
}

/// `row` is the dashboard row of `m` given the latest statuses.
pub open spec fn is_row_of(row: MonitorRow, m: MonitorConfig, latest: Seq<CurrentStatus>) -> bool {
    &&& row.name@ == m.name_view()
    &&& row.protocol@ == m.protocol_view()
    &&& row.endpoint@ == m.endpoint_view()
    &&& row.enabled == m.is_enabled()
    &&& row.retention_hours == m.retention_setting()
    &&& match status_index(latest, m.name_view()) {
        Some(k) => {
            &&& row.status == latest[k].status
            &&& row.last_checked_at == Some(latest[k].checked_at)
            &&& row.response_time_ms == latest[k].response_time_ms
            &&& row.failure_reason == latest[k].failure_reason
            &&& row.detail == latest[k].detail
        },
        None => {
            &&& row.status@ == "pending"@
            &&& row.last_checked_at is None
            &&& row.response_time_ms is None
            &&& row.failure_reason is None
            &&& row.detail is None
        },
    }
}

/// A monitor's status is found exactly when some latest status carries its
/// name, and it is then the last one that does.
pub proof fn lemma_status_index_bounds(latest: Seq<CurrentStatus>, name: Seq<char>)
    ensures
        status_index(latest, name) matches Some(k) ==> 0 <= k < latest.len()
            && latest[k].monitor_name@ == name && forall|j: int|
            k < j < latest.len() ==> (#[trigger] latest[j]).monitor_name@ != name,
        status_index(latest, name) is None <==> forall|j: int|
            0 <= j < latest.len() ==> (#[trigger] latest[j]).monitor_name@ != name,
    decreases latest.len(),
{
    if latest.len() > 0 {
        let p = latest.drop_last();
        lemma_status_index_bounds(p, name);
        let n = latest.len() - 1;
        assert(latest[n] == latest.last());
        if latest.last().monitor_name@ != name {
            assert(status_index(latest, name) == status_index(p, name));
            if status_index(p, name) is Some {
                let k = status_index(p, name)->0;
                assert(latest[k] == p[k]);
                assert forall|j: int| k < j < latest.len() implies (#[trigger] latest[j]).monitor_name@
                    != name by {
                    if j < n {
                        assert(latest[j] == p[j]);
                    }
                }
            } else {
                assert forall|j: int| 0 <= j < latest.len() implies (
                #[trigger] latest[j]).monitor_name@ != name by {
                    if j < n {
                        assert(latest[j] == p[j]);
                    }
                }
            }
        }
    }
}

fn find_status(latest: &Vec<CurrentStatus>, name: &str) -> (k: Option<usize>)
    ensures
        match (k, status_index(latest@, name@)) {
            (Some(a), Some(b)) => a == b,
            (None, None) => true,
            _ => false,
        },
{
    let mut i = latest.len();
    proof {
        assert(latest@.take(i as int) =~= latest@);
    }
    while i > 0
        invariant
            i <= latest@.len(),
            status_index(latest@, name@) == status_index(latest@.take(i as int), name@),
        decreases i,
    {
        proof {
            assert(latest@.take(i as int).drop_last() =~= latest@.take(i - 1));
            assert(latest@.take(i as int).last() == latest@[i - 1]);
        }
        if str_eq(latest[i - 1].monitor_name.as_str(), name) {
            return Some(i - 1);
        }
        i = i - 1;
    }
    None
}

fn retention_setting_of(m: &MonitorConfig) -> (r: Option<u64>)
    ensures
        r == m.retention_setting(),
{
    match m {
        MonitorConfig::Http(c) => c.retention_hours,
        MonitorConfig::Tcp(c) => c.retention_hours,
        MonitorConfig::Icmp(c) => c.retention_hours,
        MonitorConfig::PublicIp(c) => c.retention_hours,
        MonitorConfig::Border(c) => c.retention_hours,
        MonitorConfig::Traceroute(c) => c.retention_hours,
    }
}

/// The dashboard rows of the configured monitors, in configuration order,
/// each joined by name with its latest status.
pub fn monitor_rows(configured: &Vec<MonitorConfig>, latest: &Vec<CurrentStatus>) -> (rows: Vec<
    MonitorRow,
>)
    ensures
        rows@.len() == configured@.len(),
        forall|i: int|
            0 <= i < configured@.len() ==> is_row_of(#[trigger] rows@[i], configured@[i], latest@),
{
    let mut rows: Vec<MonitorRow> = Vec::new();
    let mut i: usize = 0;
    while i < configured.len()
        invariant
            i <= configured@.len(),
            rows@.len() == i,
            forall|j: int| 0 <= j < i ==> is_row_of(#[trigger] rows@[j], configured@[j], latest@),
        decreases configured@.len() - i,
    {
        let m = &configured[i];
        let name = m.name();
        let row = match find_status(latest, name) {
            Some(k) => {
                proof {
                    lemma_status_index_bounds(latest@, name@);
                }
                let s = &latest[k];
                MonitorRow {
                    name: name.to_owned(),
                    protocol: m.protocol().to_owned(),
                    endpoint: m.endpoint(),
                    enabled: m.enabled(),
                    retention_hours: retention_setting_of(m),
                    status: s.status.clone(),
                    last_checked_at: Some(s.checked_at.clone()),
                    response_time_ms: s.response_time_ms,
                    failure_reason: s.failure_reason.clone(),
                    detail: s.detail.clone(),
                }
            },
            None => MonitorRow {
                name: name.to_owned(),
                protocol: m.protocol().to_owned(),
                endpoint: m.endpoint(),
                enabled: m.enabled(),
                retention_hours: retention_setting_of(m),
                status: "pending".to_owned(),
                last_checked_at: None,
                response_time_ms: None,
                failure_reason: None,
                detail: None,
            },
        };
        rows.push(row);
        i = i + 1;
    }
    rows
}

// ── Validation ───────────────────────────────────────────────────────────────

pub open spec fn is_http_url_text(u: Seq<char>) -> bool {
    starts_with_seq(u, "http://"@) || starts_with_seq(u, "https://"@)
}

pub fn is_http_url(u: &str) -> (b: bool)
    ensures
        b == is_http_url_text(u@),
{
    starts_with_str(u, "http://") || starts_with_str(u, "https://")
}

/// A character allowed in a host name or address literal.
pub open spec fn is_host_char(c: char) -> bool {
    is_ascii_alphanumeric(c) || c == '.' || c == '-' || c == ':'
}

/// A pragmatic IP-or-hostname check: a non-empty token with no white space or
/// control characters and only host-legal characters. Every address the
/// standard library parses as an IP (IPv4 dotted decimal, IPv6 hex groups,
/// `::`, embedded dotted IPv4) is made of such characters, so this also admits
/// every IP literal.
pub open spec fn valid_host(s: Seq<char>) -> bool {
    &&& s.len() > 0
    &&& forall|i: int| 0 <= i < s.len() ==> !is_white_space(#[trigger] s[i]) && !is_control(s[i])
    &&& forall|i: int| 0 <= i < s.len() ==> is_host_char(#[trigger] s[i])
}

pub fn is_valid_host(s: &str) -> (b: bool)
    ensures
        b == valid_host(s@),
{
    let cs = chars_of(s);
    if cs.len() == 0 {
        return false;
    }
    let mut i: usize = 0;
    while i < cs.len()
        invariant
            cs@ == s@,
            i <= cs@.len(),
            forall|k: int| 0 <= k < i ==> is_host_char(#[trigger] cs@[k]),
        decreases cs@.len() - i,
    {
        let c = cs[i];
        if !(char_is_ascii_alphanumeric(c) || c == '.' || c == '-' || c == ':') {
            return false;
        }
        i = i + 1;
    }
    true
}

/// Bytes of the UTF-8 encoding of `c`.
pub open spec fn utf8_width(c: char) -> nat {
    if c <= '\u{7f}' {
        1
    } else if c <= '\u{7ff}' {
        2
    } else if c <= '\u{ffff}' {
        3
    } else {
        4
    }
}

/// Byte length of the UTF-8 encoding of `s`.
pub open spec fn utf8_len(s: Seq<char>) -> nat
    decreases s.len(),
{
    if s.len() == 0 {
        0
    } else {
        utf8_len(s.drop_last()) + utf8_width(s.last())
    }
}

proof fn lemma_utf8_len_grows(s: Seq<char>, i: int)
    requires
        0 <= i <= s.len(),
    ensures
        utf8_len(s.take(i)) <= utf8_len(s),
    decreases s.len() - i,
{
    if i < s.len() {
        lemma_utf8_len_grows(s, i + 1);
        assert(s.take(i + 1).drop_last() =~= s.take(i));
    } else {
        assert(s.take(i) =~= s);
    }
}

/// Whether the UTF-8 encoding of `s` is longer than `limit` bytes.
pub fn utf8_longer_than(s: &str, limit: u64) -> (b: bool)
    requires
        limit < u64::MAX - 4,
    ensures
        b == (utf8_len(s@) > limit),
{
    let cs = chars_of(s);
    let mut total: u64 = 0;
    let mut i: usize = 0;
    while i < cs.len()
        invariant
            cs@ == s@,
            i <= cs@.len(),
            limit < u64::MAX - 4,
            total == utf8_len(cs@.take(i as int)),
            total <= limit,
        decreases cs@.len() - i,
    {
        proof {
            assert(cs@.take(i + 1).drop_last() =~= cs@.take(i as int));
        }
        let c = cs[i];
        let w: u64 = if c <= '\u{7f}' {
            1
        } else if c <= '\u{7ff}' {
            2
        } else if c <= '\u{ffff}' {
            3
        } else {
            4
        };
        total = total + w;
        i = i + 1;
        if total > limit {
            proof {
                lemma_utf8_len_grows(cs@, i as int);
            }
            return true;
        }
    }
    proof {
        assert(cs@.take(i as int) =~= cs@);
    }
    false
}

/// The name errors of a submitted monitor, against the existing ones.
pub open spec fn name_errors(name: Seq<char>, existing: Seq<MonitorConfig>) -> Seq<Seq<char>> {
    if name.len() == 0 {
        seq!["name is required"@]
    } else if utf8_len(name) > 100 {
        seq!["name must be 100 characters or fewer"@]
    } else if contains_seq(name, "/"@) || contains_seq(name, "\\"@) {
        seq!["name must not contain / or \\"@]
    } else if exists|k: int| 0 <= k < existing.len() && #[trigger] existing[k].name_view() == name {
        seq!["a monitor named '"@ + name + "' already exists"@]
    } else {
        Seq::empty()
    }
}

pub open spec fn host_required(host: Seq<char>) -> Seq<Seq<char>> {
    if host.len() == 0 {
        seq!["host is required"@]
    } else {
        Seq::empty()
    }
}

/// The errors of the type-specific fields.
pub open spec fn field_errors(m: MonitorConfig) -> Seq<Seq<char>> {
    match m {
        MonitorConfig::Http(c) => if c.url@.len() == 0 {
            seq!["url is required"@]
        } else if !is_http_url_text(c.url@) {
            seq!["url must be a valid http or https URL"@]
        } else {
            Seq::empty()
        },
        MonitorConfig::Tcp(c) => host_required(c.host@) + if c.port == 0 {
            seq!["port must be between 1 and 65535"@]
        } else {
            Seq::empty()
        },
        MonitorConfig::Icmp(c) => host_required(c.host@),
        MonitorConfig::PublicIp(c) => match c.url {
            Some(u) if !is_http_url_text(u@) => seq!["url must be a valid http or https URL"@],
            _ => Seq::empty(),
        },
        MonitorConfig::Border(c) => (match c.gateway {
            Some(g) if !valid_host(g@) => seq!["gateway must be a valid IP or host"@],
            _ => Seq::empty(),
        }) + if !valid_host(c.upstream@) {
            seq!["upstream must be a valid IP or host"@]
        } else {
            Seq::empty()
        },
        MonitorConfig::Traceroute(c) => if c.host@.len() == 0 {
            host_required(c.host@)
        } else if !valid_host(c.host@) {
            seq!["host must be a valid IP or host"@]
        } else {
            Seq::empty()
        },
    }
}

/// The timing rules of a submitted monitor: an interval of at least 5000 ms,
/// a timeout of at least 1000 ms, and a timeout below the interval. A
/// traceroute monitor is exempt: its interval floor and per-hop wait are
/// clamped when it is scheduled, not rejected.
pub open spec fn timing_errors(m: MonitorConfig) -> Seq<Seq<char>> {
    if m is Traceroute {
        Seq::empty()
    } else {
        (if m.interval_of() < 5000 {
            seq!["interval_ms must be at least 5000"@]
        } else {
            Seq::empty()
        }) + (if m.timeout_of() < 1000 {
            seq!["timeout_ms must be at least 1000"@]
        } else {
            Seq::empty()
        }) + (if m.timeout_of() >= m.interval_of() {
            seq!["timeout_ms must be less than interval_ms"@]
        } else {
            Seq::empty()
        })
    }
}

/// All errors of a submitted monitor: name errors, then those of its fields,
/// then those of its timing.
pub open spec fn validation_errors(m: MonitorConfig, existing: Seq<MonitorConfig>) -> Seq<
    Seq<char>,
> {
    name_errors(m.name_view(), existing) + field_errors(m) + timing_errors(m)
}

/// A name that may be submitted: present, at most 100 bytes of UTF-8, free of
/// `/` and `\`, and used by no existing monitor.
pub open spec fn name_acceptable(name: Seq<char>, existing: Seq<MonitorConfig>) -> bool {
    &&& name.len() > 0
    &&& utf8_len(name) <= 100
    &&& !contains_seq(name, "/"@)
    &&& !contains_seq(name, "\\"@)
    &&& forall|k: int| 0 <= k < existing.len() ==> #[trigger] existing[k].name_view() != name
}

/// The type-specific rules: an http(s) URL for HTTP (and for a public-IP
/// service when one is given), a host and a non-zero port for TCP, a host for
/// ICMP, valid hosts for the border gateway (when given) and upstream, and a
/// valid host for a traceroute.
pub open spec fn fields_acceptable(m: MonitorConfig) -> bool {
    match m {
        MonitorConfig::Http(c) => c.url@.len() > 0 && is_http_url_text(c.url@),
        MonitorConfig::Tcp(c) => c.host@.len() > 0 && c.port != 0,
        MonitorConfig::Icmp(c) => c.host@.len() > 0,
        MonitorConfig::PublicIp(c) => match c.url {
            Some(u) => is_http_url_text(u@),
            None => true,
        },
        MonitorConfig::Border(c) => (match c.gateway {
            Some(g) => valid_host(g@),
            None => true,
        }) && valid_host(c.upstream@),
        MonitorConfig::Traceroute(c) => valid_host(c.host@),
    }
}

/// The timing rules, which a traceroute is exempt from.
pub open spec fn timing_acceptable(m: MonitorConfig) -> bool {
    m is Traceroute || (m.interval_of() >= 5000 && m.timeout_of() >= 1000 && m.timeout_of()
        < m.interval_of())
}

proof fn lemma_part_reported(a: Seq<Seq<char>>, b: Seq<Seq<char>>, c: Seq<Seq<char>>, x: Seq<char>)
    requires
        a.contains(x) || b.contains(x) || c.contains(x),
    ensures
        (a + b + c).contains(x),
{
    if a.contains(x) {
        let i = choose|i: int| 0 <= i < a.len() && a[i] == x;
        assert((a + b + c)[i] == x);
    } else if b.contains(x) {
        let i = choose|i: int| 0 <= i < b.len() && b[i] == x;
        assert((a + b + c)[a.len() + i] == x);
    } else {
        let i = choose|i: int| 0 <= i < c.len() && c[i] == x;
        assert((a + b + c)[a.len() + b.len() + i] == x);
    }
}

/// A submitted monitor draws no error exactly when its name, its
/// type-specific fields and its timing all follow the rules.
pub proof fn lemma_no_errors_iff_acceptable(m: MonitorConfig, existing: Seq<MonitorConfig>)
    ensures
        validation_errors(m, existing).len() == 0 <==> (name_acceptable(m.name_view(), existing)
            && fields_acceptable(m) && timing_acceptable(m)),
{
    let n = name_errors(m.name_view(), existing);
    let f = field_errors(m);
    let t = timing_errors(m);
    assert(validation_errors(m, existing).len() == n.len() + f.len() + t.len());
    assert(n.len() == 0 <==> name_acceptable(m.name_view(), existing));
    match m {
        MonitorConfig::Tcp(c) => {
            assert(f.len() == host_required(c.host@).len() + (if c.port == 0 {
                1int
            } else {
                0int
            }));
        },
        MonitorConfig::Border(c) => {
            let g: Seq<Seq<char>> = match c.gateway {
                Some(g) if !valid_host(g@) => seq!["gateway must be a valid IP or host"@],
                _ => Seq::empty(),
            };
            assert(f.len() == g.len() + (if !valid_host(c.upstream@) {
                1int
            } else {
                0int
            }));
        },
        _ => {},
    }
    assert(f.len() == 0 <==> fields_acceptable(m));
    assert(t.len() == 0 <==> timing_acceptable(m));
}

/// Each broken rule is reported among the errors of the submission, by its
/// own message.
pub proof fn lemma_broken_rule_reported(m: MonitorConfig, existing: Seq<MonitorConfig>)
    ensures
        m.name_view().len() == 0 ==> validation_errors(m, existing).contains(
            "name is required"@,
        ),
        m matches MonitorConfig::Http(c) ==> (c.url@.len() == 0 ==> validation_errors(
            m,
            existing,
        ).contains("url is required"@)),
        m matches MonitorConfig::Http(c) ==> ((c.url@.len() > 0 && !starts_with_seq(
            c.url@,
            "http://"@,
        ) && !starts_with_seq(c.url@, "https://"@)) ==> validation_errors(m, existing).contains(
            "url must be a valid http or https URL"@,
        )),
        m matches MonitorConfig::PublicIp(c) ==> (c.url matches Some(u) ==> ((!starts_with_seq(
            u@,
            "http://"@,
        ) && !starts_with_seq(u@, "https://"@)) ==> validation_errors(m, existing).contains(
            "url must be a valid http or https URL"@,
        ))),
        m matches MonitorConfig::Tcp(c) ==> (c.host@.len() == 0 ==> validation_errors(
            m,
            existing,
        ).contains("host is required"@)),
        m matches MonitorConfig::Tcp(c) ==> (c.port == 0 ==> validation_errors(m, existing).contains(
            "port must be between 1 and 65535"@,
        )),
        m matches MonitorConfig::Icmp(c) ==> (c.host@.len() == 0 ==> validation_errors(
            m,
            existing,
        ).contains("host is required"@)),
        m matches MonitorConfig::Border(c) ==> (c.gateway matches Some(g) ==> (!valid_host(g@)
            ==> validation_errors(m, existing).contains("gateway must be a valid IP or host"@))),
        m matches MonitorConfig::Border(c) ==> (!valid_host(c.upstream@) ==> validation_errors(
            m,
            existing,
        ).contains("upstream must be a valid IP or host"@)),
        m matches MonitorConfig::Traceroute(c) ==> (c.host@.len() == 0 ==> validation_errors(
            m,
            existing,
        ).contains("host is required"@)),
        m matches MonitorConfig::Traceroute(c) ==> ((c.host@.len() > 0 && !valid_host(c.host@))
            ==> validation_errors(m, existing).contains("host must be a valid IP or host"@)),
        !(m is Traceroute) && m.interval_of() < 5000 ==> validation_errors(m, existing).contains(
            "interval_ms must be at least 5000"@,
        ),
        !(m is Traceroute) && m.timeout_of() < 1000 ==> validation_errors(m, existing).contains(
            "timeout_ms must be at least 1000"@,
        ),
        !(m is Traceroute) && m.timeout_of() >= m.interval_of() ==> validation_errors(
            m,
            existing,
        ).contains("timeout_ms must be less than interval_ms"@),
{
    let n = name_errors(m.name_view(), existing);
    let f = field_errors(m);
    let t = timing_errors(m);
    assert(validation_errors(m, existing) == n + f + t);
    if m.name_view().len() == 0 {
        assert(n[0] == "name is required"@);
        lemma_part_reported(n, f, t, "name is required"@);
    }
    match m {
        MonitorConfig::Tcp(c) => {
            let h = host_required(c.host@);
            let p: Seq<Seq<char>> = if c.port == 0 {
                seq!["port must be between 1 and 65535"@]
            } else {
                Seq::empty()
            };
            assert(f == h + p);
            if c.host@.len() == 0 {
                assert(f[0] == "host is required"@);
                lemma_part_reported(n, f, t, "host is required"@);
            }
            if c.port == 0 {
                assert(f[h.len() + 0int] == "port must be between 1 and 65535"@);
                lemma_part_reported(n, f, t, "port must be between 1 and 65535"@);
            }
        },
        MonitorConfig::Border(c) => {
            let g: Seq<Seq<char>> = match c.gateway {
                Some(g) if !valid_host(g@) => seq!["gateway must be a valid IP or host"@],
                _ => Seq::empty(),
            };
            let u: Seq<Seq<char>> = if !valid_host(c.upstream@) {
                seq!["upstream must be a valid IP or host"@]
            } else {
                Seq::empty()
            };
            assert(f == g + u);
            if g.len() > 0 {
                assert(f[0] == "gateway must be a valid IP or host"@);
                lemma_part_reported(n, f, t, "gateway must be a valid IP or host"@);
            }
            if !valid_host(c.upstream@) {
                assert(f[g.len() + 0int] == "upstream must be a valid IP or host"@);
                lemma_part_reported(n, f, t, "upstream must be a valid IP or host"@);
            }
        },
        _ => {
            if f.len() > 0 {
                lemma_part_reported(n, f, t, f[0]);
            }
        },
    }
    if !(m is Traceroute) {
        let e1: Seq<Seq<char>> = if m.interval_of() < 5000 {
            seq!["interval_ms must be at least 5000"@]
        } else {
            Seq::empty()
        };
        let e2: Seq<Seq<char>> = if m.timeout_of() < 1000 {
            seq!["timeout_ms must be at least 1000"@]
        } else {
            Seq::empty()
        };
        let e3: Seq<Seq<char>> = if m.timeout_of() >= m.interval_of() {
            seq!["timeout_ms must be less than interval_ms"@]
        } else {
            Seq::empty()
        };
        assert(t == e1 + e2 + e3);
        if e1.len() > 0 {
            assert(t[0] == e1[0]);
            lemma_part_reported(n, f, t, e1[0]);
        }
        if e2.len() > 0 {
            assert(t[e1.len() + 0int] == e2[0]);
            lemma_part_reported(n, f, t, e2[0]);
        }
        if e3.len() > 0 {
            assert(t[e1.len() + e2.len() + 0int] == e3[0]);
            lemma_part_reported(n, f, t, e3[0]);
        }
    }
}

fn timing_of(m: &MonitorConfig) -> (t: Option<(u64, u64)>)
    ensures
        m is Traceroute ==> t is None,
        !(m is Traceroute) ==> t == Some((m.interval_of(), m.timeout_of())),
{
    match m {
        MonitorConfig::Http(c) => Some((c.interval_ms, c.timeout_ms)),
        MonitorConfig::Tcp(c) => Some((c.interval_ms, c.timeout_ms)),
        MonitorConfig::Icmp(c) => Some((c.interval_ms, c.timeout_ms)),
        MonitorConfig::PublicIp(c) => Some((c.interval_ms, c.timeout_ms)),
        MonitorConfig::Border(c) => Some((c.interval_ms, c.timeout_ms)),
        MonitorConfig::Traceroute(_) => None,
    }
}

/// Pushes the timing errors of `m`.
fn check_timing(m: &MonitorConfig, errors: &mut Vec<String>)
    ensures
        texts(final(errors)@) == texts(old(errors)@) + timing_errors(*m),
{
    let ghost before = texts(errors@);
    match timing_of(m) {
        None => {
            proof {
                assert(before + Seq::<Seq<char>>::empty() =~= before);
            }
        },
        Some((interval, timeout)) => {
            if interval < 5000 {
                push_error(errors, "interval_ms must be at least 5000");
            }
            let ghost a = texts(errors@);
            if timeout < 1000 {
                push_error(errors, "timeout_ms must be at least 1000");
            }
            let ghost b = texts(errors@);
            if timeout >= interval {
                push_error(errors, "timeout_ms must be less than interval_ms");
            }
            proof {
                let e1: Seq<Seq<char>> = if interval < 5000 {
                    seq!["interval_ms must be at least 5000"@]
                } else {
                    Seq::empty()
                };
                let e2: Seq<Seq<char>> = if timeout < 1000 {
                    seq!["timeout_ms must be at least 1000"@]
                } else {
                    Seq::empty()
                };
                let e3: Seq<Seq<char>> = if timeout >= interval {
                    seq!["timeout_ms must be less than interval_ms"@]
                } else {
                    Seq::empty()
                };
                assert(a =~= before + e1);
                assert(b =~= a + e2);
                assert(texts(errors@) =~= b + e3);
                assert(timing_errors(*m) =~= e1 + e2 + e3);
                assert(texts(errors@) =~= before + timing_errors(*m));
            }
        },
    }
}

pub open spec fn texts(v: Seq<String>) -> Seq<Seq<char>> {
    v.map_values(|s: String| s@)
}

fn push_error(errors: &mut Vec<String>, msg: &str)
    ensures
        texts(final(errors)@) == texts(old(errors)@).push(msg@),
{
    errors.push(msg.to_owned());
    proof {
        assert(texts(errors@) =~= texts(old(errors)@).push(msg@));
    }
}

/// Push the shared "host is required" error when a host field is empty.
fn require_host(host: &str, errors: &mut Vec<String>)
    ensures
        texts(final(errors)@) == texts(old(errors)@) + host_required(host@),
{
    if host.is_empty() {
        push_error(errors, "host is required");
    } else {
        proof {
            assert(texts(old(errors)@) + Seq::<Seq<char>>::empty() =~= texts(old(errors)@));
        }
    }
}

fn name_taken(name: &str, existing: &[MonitorConfig]) -> (t: bool)
    ensures
        t == exists|k: int| 0 <= k < existing@.len() && #[trigger] existing@[k].name_view() == name@,
{
    let mut i: usize = 0;
    while i < existing.len()
        invariant
            i <= existing@.len(),
            forall|k: int| 0 <= k < i ==> #[trigger] existing@[k].name_view() != name@,
        decreases existing@.len() - i,
    {
        if str_eq(existing[i].name(), name) {
            return true;
        }
        i = i + 1;
    }
    false
}

/// Checks a submitted monitor: its name (present, at most 100 bytes, no `/` or
/// `\`, not taken), its type-specific fields and its timing. Returns every error found, in
/// that order; empty when the monitor is acceptable.
pub fn validate_monitor(monitor: &MonitorConfig, existing: &[MonitorConfig]) -> (errors: Vec<String>)
    ensures
        texts(errors@) == validation_errors(*monitor, existing@),
        errors@.len() == 0 <==> (name_acceptable(monitor.name_view(), existing@)
            && fields_acceptable(*monitor) && timing_acceptable(*monitor)),
        *monitor matches MonitorConfig::PublicIp(c) ==> (c.url matches Some(u) ==> ((
        !starts_with_seq(u@, "http://"@) && !starts_with_seq(u@, "https://"@)) ==> texts(
            errors@,
        ).contains("url must be a valid http or https URL"@))),
        *monitor matches MonitorConfig::Http(c) ==> ((c.url@.len() > 0 && !starts_with_seq(
            c.url@,
            "http://"@,
        ) && !starts_with_seq(c.url@, "https://"@)) ==> texts(errors@).contains(
            "url must be a valid http or https URL"@,
        )),
{
    let mut errors: Vec<String> = Vec::new();
    let name = monitor.name();
    proof {
        assert(texts(errors@) =~= Seq::<Seq<char>>::empty());
    }
    if name.is_empty() {
        push_error(&mut errors, "name is required");
        proof {
            assert(texts(errors@) =~= name_errors(name@, existing@));
        }
    } else if utf8_longer_than(name, 100) {
        push_error(&mut errors, "name must be 100 characters or fewer");
        proof {
            assert(texts(errors@) =~= name_errors(name@, existing@));
        }
    } else if contains_str(name, "/") || contains_str(name, "\\") {
        push_error(&mut errors, "name must not contain / or \\");
        proof {
            assert(texts(errors@) =~= name_errors(name@, existing@));
        }
    } else if name_taken(name, existing) {
        let mut msg = "a monitor named '".to_owned();
        msg.append(name);
        msg.append("' already exists");
        push_error(&mut errors, msg.as_str());
        proof {
            assert(texts(errors@) =~= name_errors(name@, existing@));
        }
    } else {
        proof {
            assert(texts(errors@) =~= name_errors(name@, existing@));
        }
    }
    let ghost after_name = texts(errors@);
    proof {
        assert(after_name =~= Seq::<Seq<char>>::empty() + name_errors(name@, existing@));
    }
    match monitor {
        MonitorConfig::Http(c) => {
            if c.url.as_str().is_empty() {
                push_error(&mut errors, "url is required");
            } else if !is_http_url(c.url.as_str()) {
                push_error(&mut errors, "url must be a valid http or https URL");
            }
        },
        MonitorConfig::Tcp(c) => {
            require_host(c.host.as_str(), &mut errors);
            if c.port == 0 {
                push_error(&mut errors, "port must be between 1 and 65535");
            }
        },
        MonitorConfig::Icmp(c) => {
            require_host(c.host.as_str(), &mut errors);
        },
        MonitorConfig::PublicIp(c) => {
            // The URL is optional; when given it must be http(s).
            if let Some(url) = &c.url {
                if !is_http_url(url.as_str()) {
                    push_error(&mut errors, "url must be a valid http or https URL");
                }
            }
        },
        MonitorConfig::Border(c) => {
            if let Some(gw) = &c.gateway {
                if !is_valid_host(gw.as_str()) {
                    push_error(&mut errors, "gateway must be a valid IP or host");
                }
            }
            if !is_valid_host(c.upstream.as_str()) {
                push_error(&mut errors, "upstream must be a valid IP or host");
            }
        },
        MonitorConfig::Traceroute(c) => {
            if c.host.as_str().is_empty() {
                require_host(c.host.as_str(), &mut errors);
            } else if !is_valid_host(c.host.as_str()) {
                push_error(&mut errors, "host must be a valid IP or host");
            }
        },
    }
    let ghost after_fields = texts(errors@);
    proof {
        assert(after_fields =~= name_errors(name@, existing@) + field_errors(*monitor));
    }
    check_timing(monitor, &mut errors);
    proof {
        assert(texts(errors@) =~= validation_errors(*monitor, existing@));
        lemma_no_errors_iff_acceptable(*monitor, existing@);
        lemma_broken_rule_reported(*monitor, existing@);
    }
    errors
}

} // verus!
