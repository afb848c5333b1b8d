use std::collections::HashMap;

use rusty_pingus::api::{
    extent_retention_hours, history_limit, monitor_rows, query_window, is_http_url, is_valid_host, monitor_identity,
    position_by_name, series_buckets, utf8_longer_than, validate_monitor, StatusUpdate,
};
use rusty_pingus::cli::dashboard_url;
use rusty_pingus::config::{
    apply_defaults as apply_legacy_defaults, Config, DatabaseConfig, Defaults,
    MonitorConfig as LegacyMonitor, TcpMonitorConfig as LegacyTcp, WebConfig,
};
use rusty_pingus::db::{
    CurrentStatus, HistoryRow, hop_address, bucket_start, collapse_state_segments, history_bounds, series_plan, time_extent,
};
use rusty_pingus::monitors::{
    BorderMonitorConfig, HttpMonitorConfig, IcmpMonitorConfig, MonitorConfig,
    PublicIpMonitorConfig, StoredMonitor, TcpMonitorConfig, TracerouteMonitorConfig,
};
use rusty_pingus::probe::border::{
    border_outcome, choose_gateways, gateway_from_route_get, gateway_from_route_table,
    GatewayWalk,
};
use rusty_pingus::probe::http::{http_result, HttpOutcome};
use rusty_pingus::probe::icmp::{cycle_result, ends_cycle, unresolved_result, PingError};
use rusty_pingus::probe::publicip::{
    candidates, fetch_result, no_reading_result, prior_ip, publicip_endpoint, reading_result,
    IpFetch,
};
use rusty_pingus::probe::tcp::{tcp_address, tcp_result, TcpOutcome};
use rusty_pingus::probe::traceroute::{summarize, target_failure, trace_settings, TraceWalk, ICMP_ECHO_REPLY, ICMP_TIME_EXCEEDED};
use rusty_pingus::probe::{ProbeResult, Timestamp};
use rusty_pingus::scheduler::{
    current_minute, first_tick_jitter_ms, next_rollup_chunk, plan_reload, retention_cutoffs,
    retention_ms, rollup_start, ReloadAction,
};
use rusty_pingus::web::{asset_etag, hex8};

fn tcp(name: &str, host: &str, port: u16) -> TcpMonitorConfig {
    TcpMonitorConfig {
        name: name.into(),
        host: host.into(),
        port,
        interval_ms: 60_000,
        timeout_ms: 10_000,
        retention_hours: None,
        enabled: true,
    }
}

fn http(name: &str, url: &str, expected: Option<u16>) -> HttpMonitorConfig {
    HttpMonitorConfig {
        name: name.into(),
        url: url.into(),
        interval_ms: 60_000,
        timeout_ms: 10_000,
        method: "GET".into(),
        expected_status: expected,
        headers: HashMap::new(),
        body: None,
        retention_hours: None,
        enabled: true,
    }
}

fn border(gateway: Option<&str>, isp: Option<&str>, upstream: &str) -> BorderMonitorConfig {
    BorderMonitorConfig {
        name: "edge".into(),
        gateway: gateway.map(|s| s.to_string()),
        isp_gateway: isp.map(|s| s.to_string()),
        upstream: upstream.into(),
        interval_ms: 60_000,
        timeout_ms: 10_000,
        retention_hours: None,
        enabled: true,
    }
}

fn trace(host: &str, max_hops: u32, queries: u32, timeout_ms: u64) -> TracerouteMonitorConfig {
    TracerouteMonitorConfig {
        name: "t".into(),
        host: host.into(),
        interval_ms: 60_000,
        timeout_ms,
        max_hops,
        queries_per_hop: queries,
        retention_hours: None,
        enabled: true,
    }
}

// ── TCP / HTTP probes ───────────────────────────────────────────────────────

#[test]
fn tcp_connected_is_up_at_host_port() {
    let cfg = tcp("db", "10.0.0.5", 5432);
    assert_eq!(tcp_address(&cfg), "10.0.0.5:5432");
    let r = tcp_result(&cfg, &TcpOutcome::Connected(12));
    assert_eq!(r.status, "up");
    assert_eq!(r.endpoint, "10.0.0.5:5432");
    assert_eq!(r.protocol, "tcp");
    assert_eq!(r.response_time_ms, Some(12));
    assert_eq!(r.failure_reason, None);
}

#[test]
fn tcp_failures_are_classified() {
    let cfg = tcp("db", "h", 1);
    let refused = tcp_result(&cfg, &TcpOutcome::Failed { refused: true, message: "x".into() });
    assert_eq!(refused.status, "down");
    assert_eq!(refused.failure_reason.as_deref(), Some("connection_refused"));
    let dns = tcp_result(
        &cfg,
        &TcpOutcome::Failed { refused: false, message: "failed to lookup: Name or service not known".into() },
    );
    assert_eq!(dns.failure_reason.as_deref(), Some("dns_error"));
    let other = tcp_result(&cfg, &TcpOutcome::Failed { refused: false, message: "broken pipe".into() });
    assert_eq!(other.failure_reason.as_deref(), Some("error: broken pipe"));
    let slow = tcp_result(&cfg, &TcpOutcome::TimedOut);
    assert_eq!(slow.failure_reason.as_deref(), Some("timeout"));
    assert_eq!(slow.response_time_ms, None);
}

#[test]
fn http_status_decides_up_or_down() {
    let ok = http_result(&http("w", "https://x", None), &HttpOutcome::Response { status: 204, elapsed_ms: 30 });
    assert_eq!(ok.status, "up");
    assert_eq!(ok.response_time_ms, Some(30));
    let bad = http_result(&http("w", "https://x", None), &HttpOutcome::Response { status: 503, elapsed_ms: 30 });
    assert_eq!(bad.status, "down");
    assert_eq!(bad.failure_reason.as_deref(), Some("unexpected_status:503"));
    let expected = http_result(&http("w", "https://x", Some(301)), &HttpOutcome::Response { status: 301, elapsed_ms: 5 });
    assert_eq!(expected.status, "up");
    let not_expected = http_result(&http("w", "https://x", Some(301)), &HttpOutcome::Response { status: 200, elapsed_ms: 5 });
    assert_eq!(not_expected.failure_reason.as_deref(), Some("unexpected_status:200"));
}

#[test]
fn http_errors_are_classified() {
    let cfg = http("w", "https://x", None);
    let f = |timeout, connect, request, message: &str| {
        http_result(&cfg, &HttpOutcome::Failed { timeout, connect, request, message: message.into() })
            .failure_reason
            .unwrap()
    };
    assert_eq!(f(true, true, true, "x"), "timeout");
    assert_eq!(f(false, true, false, "x"), "connection_refused");
    assert_eq!(f(false, false, true, "bad header"), "request_error: bad header");
    assert_eq!(f(false, false, false, "invalid certificate"), "tls_error");
    assert_eq!(f(false, false, false, "failed to resolve"), "dns_error");
    assert_eq!(f(false, false, false, "boom"), "error: boom");
}

// ── ICMP cycles ─────────────────────────────────────────────────────────────

fn icmp_cfg(count: u32) -> IcmpMonitorConfig {
    IcmpMonitorConfig {
        name: "m".into(),
        host: "h".into(),
        interval_ms: 60_000,
        timeout_ms: 10_000,
        count,
        retention_hours: None,
        enabled: true,
    }
}

#[test]
fn icmp_unresolved_host_is_dns_error() {
    let r = unresolved_result(&icmp_cfg(3));
    assert_eq!(r.status, "down");
    assert_eq!(r.endpoint, "h");
    assert_eq!(r.failure_reason.as_deref(), Some("dns_error"));
}

#[test]
fn icmp_cycle_takes_best_rtt() {
    let outcomes = vec![Ok(9), Err(PingError::NoReply), Ok(4)];
    let r = cycle_result(&icmp_cfg(3), &outcomes);
    assert_eq!(r.status, "up");
    assert_eq!(r.response_time_ms, Some(4));
    assert_eq!(r.failure_reason.as_deref(), Some("partial_loss (2/3 replies)"));
}

#[test]
fn icmp_cycle_privilege_error_wins() {
    assert!(ends_cycle(&Err(PingError::Privilege)));
    assert!(!ends_cycle(&Err(PingError::NoReply)));
    let outcomes = vec![Ok(9), Err(PingError::Privilege)];
    let r = cycle_result(&icmp_cfg(3), &outcomes);
    assert_eq!(r.status, "down");
    assert_eq!(r.failure_reason.as_deref(), Some("privilege_error"));
}

#[test]
fn icmp_cycle_preserves_error_only_when_every_echo_errored() {
    let all = vec![Err(PingError::Other("a".into())), Err(PingError::Other("b".into()))];
    assert_eq!(cycle_result(&icmp_cfg(2), &all).failure_reason.as_deref(), Some("b"));
    let mixed = vec![Err(PingError::Other("a".into())), Err(PingError::NoReply)];
    assert_eq!(cycle_result(&icmp_cfg(2), &mixed).failure_reason.as_deref(), Some("no_reply (0/2 replies)"));
}

// ── Public IP ───────────────────────────────────────────────────────────────

#[test]
fn publicip_services_and_endpoint() {
    let own = PublicIpMonitorConfig {
        name: "ip".into(),
        url: Some("https://ip.example".into()),
        interval_ms: 1,
        timeout_ms: 1,
        retention_hours: None,
        enabled: true,
    };
    assert_eq!(candidates(&own), vec!["https://ip.example".to_string()]);
    assert_eq!(publicip_endpoint(&own), "https://ip.example");
    let dflt = PublicIpMonitorConfig { url: None, ..own };
    let urls = candidates(&dflt);
    assert_eq!(urls.len(), 2);
    assert_eq!(publicip_endpoint(&dflt), urls[0]);
}

#[test]
fn publicip_fetch_outcomes() {
    assert_eq!(fetch_result(&IpFetch::Address("203.0.113.7".into())), Ok("203.0.113.7".to_string()));
    assert_eq!(fetch_result(&IpFetch::Unsuccessful(502)), Err("unexpected_status:502".to_string()));
    assert_eq!(fetch_result(&IpFetch::Unparseable), Err("unparseable_ip".to_string()));
    assert_eq!(fetch_result(&IpFetch::ReadError("eof".into())), Err("read_error: eof".to_string()));
    assert_eq!(fetch_result(&IpFetch::Timeout), Err("timeout".to_string()));
    assert_eq!(fetch_result(&IpFetch::RequestError("x".into())), Err("request_error: x".to_string()));
}

#[test]
fn publicip_reading_notes_change_from_prior_detail() {
    let prior = prior_ip(&Some("198.51.100.4 (changed from 192.0.2.1)".to_string()));
    assert_eq!(prior.as_deref(), Some("198.51.100.4"));
    let cfg = PublicIpMonitorConfig {
        name: "ip".into(),
        url: Some("https://x".into()),
        interval_ms: 300_000,
        timeout_ms: 10_000,
        retention_hours: None,
        enabled: true,
    };
    let r = reading_result(&cfg, 40, "203.0.113.7", &prior);
    assert_eq!(r.endpoint, "https://x");
    assert_eq!(r.status, "up");
    assert_eq!(r.detail.as_deref(), Some("203.0.113.7 (changed from 198.51.100.4)"));
    let down = no_reading_result(&PublicIpMonitorConfig { url: None, ..cfg }, "timeout");
    assert_eq!(down.endpoint, "https://checkip.amazonaws.com");
    assert_eq!(down.status, "down");
    assert_eq!(down.failure_reason.as_deref(), Some("timeout"));
}

// ── Border ──────────────────────────────────────────────────────────────────

#[test]
fn border_detail_lists_every_rtt() {
    let r = rusty_pingus::probe::border::classify_border(
        "b", "p", true, Some(true), true, Some(2), Some(8), Some(15),
    );
    assert_eq!(r.detail.as_deref(), Some("ok (local 2ms, isp 8ms, upstream 15ms)"));
    let d = rusty_pingus::probe::border::classify_border("b", "p", false, None, false, None, None, None);
    assert_eq!(d.detail.as_deref(), Some("lan_down \u{2014} local gateway unreachable (local \u{2014}, upstream \u{2014})"));
}

#[test]
fn gateway_walk_keeps_last_private_and_first_public() {
    let mut w = GatewayWalk::new();
    assert!(w.observe(Some([192, 168, 1, 1])));
    assert!(w.observe(None));
    assert!(w.observe(Some([100, 64, 0, 1])));
    assert!(!w.observe(Some([62, 1, 2, 3])));
    let g = w.finish().unwrap();
    assert_eq!(g.local_gw, "100.64.0.1");
    assert_eq!(g.isp_gw.as_deref(), Some("62.1.2.3"));
    assert!(GatewayWalk::new().finish().is_none());
}

#[test]
fn explicit_gateway_skips_detection() {
    let cfg = border(Some("10.0.0.1"), None, "1.1.1.1");
    let detected = {
        let mut w = GatewayWalk::new();
        w.observe(Some([192, 168, 1, 1]));
        w.observe(Some([62, 1, 2, 3]));
        w.finish()
    };
    let (gw, isp) = choose_gateways(&cfg, &detected, None);
    assert_eq!(gw.as_deref(), Some("10.0.0.1"));
    assert_eq!(isp, None);
    let auto = border(None, None, "1.1.1.1");
    let (gw, isp) = choose_gateways(&auto, &detected, Some("192.168.0.254".into()));
    assert_eq!(gw.as_deref(), Some("192.168.1.1"));
    assert_eq!(isp.as_deref(), Some("62.1.2.3"));
    let (gw, isp) = choose_gateways(&auto, &None, Some("192.168.0.254".into()));
    assert_eq!(gw.as_deref(), Some("192.168.0.254"));
    assert_eq!(isp, None);
}

#[test]
fn border_outcome_paths() {
    let cfg = border(None, None, "1.1.1.1");
    let none = border_outcome(&cfg, None, None, Ok(1), None, Ok(1));
    assert_eq!(none.failure_reason.as_deref(), Some("gateway_not_detected"));
    assert_eq!(none.endpoint, "auto \u{2192} 1.1.1.1");
    let priv_err = border_outcome(
        &cfg, Some("192.168.1.1".into()), None, Ok(1), None, Err(PingError::Privilege),
    );
    assert_eq!(priv_err.failure_reason.as_deref(), Some("privilege_error"));
    assert_eq!(priv_err.endpoint, "192.168.1.1 \u{2192} 1.1.1.1");
    let ok = border_outcome(
        &cfg, Some("192.168.1.1".into()), Some("62.1.2.3".into()), Ok(2), Some(Ok(8)), Ok(15),
    );
    assert_eq!(ok.status, "up");
    assert_eq!(ok.endpoint, "192.168.1.1 \u{2192} 62.1.2.3 \u{2192} 1.1.1.1");
    assert_eq!(ok.response_time_ms, Some(15));
}

#[test]
fn route_table_default_gateway() {
    let table = "Iface\tDestination\tGateway\tFlags\n\
                 eth0\t0000A8C0\t00000000\t0001\n\
                 eth0\t00000000\t0101A8C0\t0003\n";
    assert_eq!(gateway_from_route_table(table).as_deref(), Some("192.168.1.1"));
    assert_eq!(gateway_from_route_table("Iface\tDestination\tGateway\n"), None);
    let out = "   route to: default\ndestination: default\n    gateway: 10.0.0.1\n";
    assert_eq!(gateway_from_route_get(out).as_deref(), Some("10.0.0.1"));
    assert_eq!(gateway_from_route_get("nothing here"), None);
}

// ── Traceroute walk ─────────────────────────────────────────────────────────

#[test]
fn trace_settings_are_clamped() {
    let s = trace("h", 0, 0, 5);
    let t = trace_settings(&s);
    assert_eq!((t.max_hops, t.queries, t.per_query_ms), (1, 1, 100));
    let t = trace_settings(&trace("h", 300, 4, 9000));
    assert_eq!((t.max_hops, t.queries, t.per_query_ms), (64, 4, 2000));
}

#[test]
fn traceroute_walk_reaches_destination() {
    let mut w = TraceWalk::new();
    w.start_hop();
    w.record_reply(ICMP_TIME_EXCEEDED, Some([10, 0, 0, 1]), 1500);
    assert!(w.finish_hop(1, 3));
    w.start_hop();
    assert!(w.finish_hop(2, 3));
    w.start_hop();
    w.record_reply(ICMP_ECHO_REPLY, Some([8, 8, 8, 8]), 12_000);
    w.record_reply(ICMP_ECHO_REPLY, Some([8, 8, 8, 8]), 14_000);
    assert!(!w.finish_hop(3, 3));
    let outcome = w.into_outcome();
    assert_eq!(outcome.hops.len(), 3);
    assert_eq!(outcome.hops[0].addr.as_deref(), Some("10.0.0.1"));
    assert_eq!(outcome.hops[0].loss, 2);
    assert_eq!(outcome.hops[0].min_us, Some(1500));
    assert_eq!(outcome.hops[1].addr, None);
    assert_eq!(outcome.hops[1].loss, 3);
    assert_eq!(outcome.hops[2].avg_us, Some(13_000));
    let (r, run) = summarize(&trace("8.8.8.8", 30, 3, 1000), outcome);
    assert_eq!(r.endpoint, "8.8.8.8");
    assert_eq!(r.status, "up");
    assert_eq!(r.response_time_ms, Some(12));
    assert_eq!(r.detail.as_deref(), Some("3 hops \u{b7} reached 8.8.8.8"));
    assert!(run.unwrap().reached);
}

#[test]
fn traceroute_without_replies_is_down() {
    let mut w = TraceWalk::new();
    w.start_hop();
    assert!(w.finish_hop(1, 2));
    let (r, run) = summarize(&trace("h", 30, 3, 1000), w.into_outcome());
    assert_eq!(r.status, "down");
    assert_eq!(r.failure_reason.as_deref(), Some("no_reply"));
    assert_eq!(run.unwrap().hops.len(), 1);
}

// ── Scheduler ───────────────────────────────────────────────────────────────

#[test]
fn reload_stops_starts_and_restarts() {
    let running = vec![(1, "a".to_string()), (2, "b".to_string()), (3, "c".to_string())];
    let desired = vec![
        (1, true, "a".to_string()),
        (2, true, "b2".to_string()),
        (3, false, "c".to_string()),
        (4, true, "d".to_string()),
    ];
    let plan = plan_reload(&running, &desired);
    assert_eq!(plan, vec![ReloadAction::Stop(3), ReloadAction::Restart(1), ReloadAction::Start(3)]);
    assert!(plan_reload(&running, &vec![(1, true, "a".into()), (2, true, "b".into()), (3, true, "c".into())]).is_empty());
}

#[test]
fn jitter_is_deterministic_and_bounded() {
    assert_eq!(first_tick_jitter_ms(1, 1000), 485);
    assert_eq!(first_tick_jitter_ms(7, 60_000), 2931);
    assert_eq!(first_tick_jitter_ms(-3, 250), 27);
    assert_eq!(first_tick_jitter_ms(42, 0), 0);
    for id in 0..200 {
        assert!(first_tick_jitter_ms(id, 10) < 10);
    }
}

#[test]
fn retention_and_rollup_windows() {
    assert_eq!(retention_cutoffs(10_000_000, 1), (6_400_000, 6_400));
    assert_eq!(retention_cutoffs(0, 1), (-3_600_000, -3_600));
    assert_eq!(retention_ms(24), 86_400_000);
    assert_eq!(retention_ms(u64::MAX), u64::MAX);
    assert_eq!(current_minute(125), 120);
    assert_eq!(rollup_start(Ok(Some(600)), Some(60), 1200), 600);
    assert_eq!(rollup_start(Ok(None), Some(60), 1200), 60);
    assert_eq!(rollup_start(Ok(None), None, 1200), 1200);
    assert_eq!(rollup_start(Err(()), Some(60), 1200), 1200);
    assert_eq!(next_rollup_chunk(0, 60), Some((0, 60)));
    assert_eq!(next_rollup_chunk(0, 200_000), Some((0, 86_400)));
    assert_eq!(next_rollup_chunk(60, 60), None);
}

// ── Storage helpers ─────────────────────────────────────────────────────────

#[test]
fn rfc3339_of_stored_timestamps() {
    assert_eq!(
        time_extent(Some(0), Some(1_500)),
        Some(("1970-01-01T00:00:00+00:00".to_string(), "1970-01-01T00:00:01.500+00:00".to_string()))
    );
    assert_eq!(time_extent(Some(0), None), None);
    assert_eq!(time_extent(None, None), None);
    // Out of chrono's range: the epoch.
    let s = CurrentStatus::from_columns("m".into(), "up".into(), Some(3), None, None, i64::MAX);
    assert_eq!(s.checked_at, "1970-01-01T00:00:00+00:00");
    assert_eq!(s.protocol, "");
    assert_eq!(s.response_time_ms, Some(3));
    let h = HistoryRow::from_columns(7, "m".into(), "down".into(), None, Some("timeout".into()), None, 86_400_000);
    assert_eq!(h.id, 7);
    assert_eq!(h.checked_at, "1970-01-02T00:00:00+00:00");
    assert_eq!(h.failure_reason.as_deref(), Some("timeout"));
}

#[test]
fn status_update_copies_the_result() {
    let mut r = ProbeResult::down("m", "tcp", "h:1", "timeout");
    r.checked_at = Timestamp { secs: 0, nanos: 0 };
    let u = StatusUpdate::from_result(&r);
    assert_eq!(u.name, "m");
    assert_eq!(u.status, "down");
    assert_eq!(u.failure_reason.as_deref(), Some("timeout"));
    assert_eq!(u.last_checked_at, "1970-01-01T00:00:00+00:00");
}

#[test]
fn history_bounds_and_series_plan() {
    assert_eq!(history_bounds(None, Some(5)), (i64::MIN, 5));
    assert_eq!(history_bounds(Some(3), None), (3, i64::MAX));
    let p = series_plan(0, 3600, 300);
    assert_eq!((p.buckets, p.span_secs, p.use_rollup), (300, 3600, false));
    let p = series_plan(0, 2_592_000, 300);
    assert!(p.use_rollup);
    let p = series_plan(10, 5, 0);
    assert_eq!((p.buckets, p.span_secs), (1, 1));
    let p = series_plan(0, 100, 4);
    assert_eq!(bucket_start(1000, p, 3), 1075);
}

#[test]
fn state_segments_collapse_runs() {
    let rows = vec![
        (Some("1.2.3.4".to_string()), 1000),
        (Some("1.2.3.4 (changed from 9.9.9.9)".to_string()), 2000),
        (None, 3000),
        (Some("5.6.7.8".to_string()), 4000),
    ];
    let segs = collapse_state_segments(&rows, 9000);
    let got: Vec<(Option<String>, i64, i64)> =
        segs.into_iter().map(|s| (s.state, s.start_ms, s.end_ms)).collect();
    assert_eq!(
        got,
        vec![
            (Some("1.2.3.4".to_string()), 1000, 3000),
            (None, 3000, 4000),
            (Some("5.6.7.8".to_string()), 4000, 9000),
        ]
    );
    assert!(collapse_state_segments(&vec![], 10).is_empty());
}

// ── API helpers ─────────────────────────────────────────────────────────────

#[test]
fn query_limits() {
    assert_eq!(history_limit(None), 100);
    assert_eq!(history_limit(Some(5000)), 1000);
    assert_eq!(history_limit(Some(20)), 20);
    assert_eq!(series_buckets(None), 300);
    assert_eq!(series_buckets(Some(1)), 50);
    assert_eq!(series_buckets(Some(9999)), 1000);
}

#[test]
fn identity_and_retention_of_named_monitor() {
    let list = vec![
        StoredMonitor { id: 1, config: MonitorConfig::Tcp(tcp("db", "h", 5432)) },
        StoredMonitor {
            id: 2,
            config: MonitorConfig::Tcp(TcpMonitorConfig { retention_hours: Some(12), ..tcp("web", "w", 80) }),
        },
    ];
    assert_eq!(position_by_name(&list, "web"), Some(1));
    assert_eq!(position_by_name(&list, "nope"), None);
    assert_eq!(monitor_identity(&list, "db"), ("tcp".to_string(), "h:5432".to_string()));
    assert_eq!(monitor_identity(&list, "gone"), ("unknown".to_string(), String::new()));
    assert_eq!(extent_retention_hours(&list, "web", 90), 12);
    assert_eq!(extent_retention_hours(&list, "db", 90), 2160);
    assert_eq!(extent_retention_hours(&list, "gone", 2), 48);
}

#[test]
fn validation_reports_every_error() {
    let existing = vec![MonitorConfig::Tcp(tcp("db", "h", 1))];
    let bad = MonitorConfig::Tcp(tcp("", "", 0));
    assert_eq!(
        validate_monitor(&bad, &existing),
        vec!["name is required", "host is required", "port must be between 1 and 65535"]
    );
    let taken = MonitorConfig::Tcp(tcp("db", "h", 1));
    assert_eq!(validate_monitor(&taken, &existing), vec!["a monitor named 'db' already exists"]);
    let slash = MonitorConfig::Http(http("a/b", "ftp://x", None));
    assert_eq!(
        validate_monitor(&slash, &existing),
        vec!["name must not contain / or \\", "url must be a valid http or https URL"]
    );
    let long = MonitorConfig::Icmp(IcmpMonitorConfig {
        name: "é".repeat(51),
        host: "h".into(),
        interval_ms: 60_000,
        timeout_ms: 10_000,
        count: 3,
        retention_hours: None,
        enabled: true,
    });
    assert_eq!(validate_monitor(&long, &existing), vec!["name must be 100 characters or fewer"]);
    let edge = MonitorConfig::Border(border(Some("bad host"), None, ""));
    assert_eq!(
        validate_monitor(&edge, &existing),
        vec!["gateway must be a valid IP or host", "upstream must be a valid IP or host"]
    );
    let t = MonitorConfig::Traceroute(trace("2001:db8::1", 30, 3, 1000));
    assert!(validate_monitor(&t, &existing).is_empty());
}

#[test]
fn url_and_host_checks() {
    assert!(is_http_url("http://a"));
    assert!(is_http_url("https://a"));
    assert!(!is_http_url("ftp://a"));
    assert!(is_valid_host("192.168.1.1"));
    assert!(is_valid_host("::1"));
    assert!(is_valid_host("router-1.lan"));
    assert!(!is_valid_host(""));
    assert!(!is_valid_host("a b"));
    assert!(!is_valid_host("a/b"));
    assert!(utf8_longer_than("ééé", 5));
    assert!(!utf8_longer_than("ééé", 6));
}

// ── Legacy config, CLI, web ─────────────────────────────────────────────────

#[test]
fn legacy_defaults_apply_to_builtin_timing_only() {
    let mut cfg = Config {
        defaults: Defaults { timeout_secs: Some(5), interval_secs: Some(30), ..Defaults::default() },
        web: WebConfig::default(),
        database: DatabaseConfig::default(),
        monitors: vec![
            LegacyMonitor::Tcp(LegacyTcp { name: "a".into(), host: "h".into(), port: 1, interval_secs: 60, timeout_secs: 10 }),
            LegacyMonitor::Tcp(LegacyTcp { name: "b".into(), host: "h".into(), port: 1, interval_secs: 15, timeout_secs: 3 }),
        ],
    };
    apply_legacy_defaults(&mut cfg);
    match (&cfg.monitors[0], &cfg.monitors[1]) {
        (LegacyMonitor::Tcp(a), LegacyMonitor::Tcp(b)) => {
            assert_eq!((a.interval_secs, a.timeout_secs), (30, 5));
            assert_eq!((b.interval_secs, b.timeout_secs), (15, 3));
        }
        _ => unreachable!(),
    }
    assert_eq!(cfg.web.bind, "0.0.0.0:3000");
    assert_eq!(cfg.database.path, "./data/rusty-pingus.db");
}

#[test]
fn dashboard_url_uses_localhost_for_wildcard() {
    assert_eq!(dashboard_url("0.0.0.0:3000"), "http://localhost:3000");
    assert_eq!(dashboard_url("127.0.0.1:8080"), "http://127.0.0.1:8080");
}

#[test]
fn asset_tags_are_short_hex() {
    let h = [0xde, 0xad, 0xbe, 0xef, 0x00, 0x01, 0x02, 0x03, 0xff];
    assert_eq!(hex8(&h), "deadbeef00010203");
    assert_eq!(asset_etag(&h), "\"deadbeef00010203\"");
    assert_eq!(hex8(&[0x0a]), "0a");
}

#[test]
fn dashboard_rows_join_latest_status_or_pending() {
    let configured = vec![
        MonitorConfig::Tcp(TcpMonitorConfig { retention_hours: Some(6), ..tcp("db", "h", 5432) }),
        MonitorConfig::Tcp(tcp("new", "n", 1)),
    ];
    let status = |reason: &str| CurrentStatus {
        monitor_name: "db".into(),
        protocol: String::new(),
        endpoint: String::new(),
        status: "down".into(),
        response_time_ms: None,
        failure_reason: Some(reason.into()),
        detail: None,
        checked_at: "2024-01-01T00:00:00+00:00".into(),
    };
    let latest = vec![status("old"), status("timeout")];
    let rows = monitor_rows(&configured, &latest);
    assert_eq!(rows.len(), 2);
    assert_eq!(rows[0].name, "db");
    assert_eq!(rows[0].endpoint, "h:5432");
    assert_eq!(rows[0].retention_hours, Some(6));
    assert_eq!(rows[0].status, "down");
    assert_eq!(rows[0].failure_reason.as_deref(), Some("timeout"));
    assert_eq!(rows[0].last_checked_at.as_deref(), Some("2024-01-01T00:00:00+00:00"));
    assert_eq!(rows[1].status, "pending");
    assert_eq!(rows[1].last_checked_at, None);
    assert!(rows[1].enabled);
}

#[test]
fn validation_enforces_timing_rules() {
    let fast = MonitorConfig::Http(HttpMonitorConfig { interval_ms: 1000, timeout_ms: 10_000, ..http("w", "https://x", None) });
    assert_eq!(
        validate_monitor(&fast, &[]),
        vec!["interval_ms must be at least 5000", "timeout_ms must be less than interval_ms"]
    );
    let short = MonitorConfig::Tcp(TcpMonitorConfig { timeout_ms: 500, ..tcp("db", "h", 1) });
    assert_eq!(validate_monitor(&short, &[]), vec!["timeout_ms must be at least 1000"]);
    let equal = MonitorConfig::Tcp(TcpMonitorConfig { interval_ms: 5000, timeout_ms: 5000, ..tcp("db", "h", 1) });
    assert_eq!(validate_monitor(&equal, &[]), vec!["timeout_ms must be less than interval_ms"]);
    let edge = MonitorConfig::Tcp(TcpMonitorConfig { interval_ms: 5000, timeout_ms: 1000, ..tcp("db", "h", 1) });
    assert!(validate_monitor(&edge, &[]).is_empty());
    // A traceroute's interval floor is clamped when scheduled, not rejected.
    let t = MonitorConfig::Traceroute(trace("1.1.1.1", 30, 3, 1000));
    let t = match t {
        MonitorConfig::Traceroute(c) => MonitorConfig::Traceroute(TracerouteMonitorConfig { interval_ms: 500, ..c }),
        other => other,
    };
    assert!(validate_monitor(&t, &[]).is_empty());
    let bad = MonitorConfig::Http(HttpMonitorConfig { interval_ms: 100, timeout_ms: 100, ..http("", "", None) });
    assert_eq!(
        validate_monitor(&bad, &[]),
        vec![
            "name is required",
            "url is required",
            "interval_ms must be at least 5000",
            "timeout_ms must be at least 1000",
            "timeout_ms must be less than interval_ms",
        ]
    );
}

#[test]
fn traceroute_target_failures_store_nothing() {
    let (r, run) = target_failure(&trace("2001:db8::1", 30, 3, 1000), "ipv6_unsupported");
    assert_eq!(r.status, "down");
    assert_eq!(r.endpoint, "2001:db8::1");
    assert_eq!(r.failure_reason.as_deref(), Some("ipv6_unsupported"));
    assert!(run.is_none());
}

#[test]
fn gateway_walk_probes_each_ttl_once_within_budget() {
    let mut w = GatewayWalk::new();
    let mut probed = Vec::new();
    while let Some(ttl) = w.next_probe() {
        probed.push(ttl);
        w.observe(Some([10, 0, 0, ttl]));
    }
    assert_eq!(probed, vec![1, 2, 3, 4, 5, 6, 7, 8]);
    assert_eq!(w.finish().unwrap().local_gw, "10.0.0.8");
    let mut w = GatewayWalk::new();
    assert_eq!(w.next_probe(), Some(1));
    w.observe(Some([62, 1, 2, 3]));
    assert_eq!(w.next_probe(), None);
}

#[test]
fn query_window_defaults() {
    assert_eq!(query_window(None, None, 10_000, 3_000), (7_000, 10_000));
    assert_eq!(query_window(Some(1), None, 10_000, 3_000), (1, 10_000));
    assert_eq!(query_window(None, Some(5_000), 10_000, 3_000), (2_000, 5_000));
    assert_eq!(query_window(None, Some(i64::MIN + 5), 0, 86_400_000), (i64::MIN, i64::MIN + 5));
}

#[test]
fn hop_address_takes_the_last_row_of_the_hop() {
    let rows = vec![(1, "10.0.0.1".to_string()), (2, "62.1.2.3".to_string()), (1, "10.0.0.9".to_string())];
    assert_eq!(hop_address(&rows, 1).as_deref(), Some("10.0.0.9"));
    assert_eq!(hop_address(&rows, 2).as_deref(), Some("62.1.2.3"));
    assert_eq!(hop_address(&rows, 3), None);
}

#[test]
fn live_updates_keep_sub_millisecond_digits() {
    let mut r = ProbeResult::up("m", "tcp", "h:1", 5);
    r.checked_at = Timestamp { secs: 1, nanos: 123_456_789 };
    let u = StatusUpdate::from_result(&r);
    assert_eq!(u.last_checked_at, "1970-01-01T00:00:01.123456789+00:00");
    r.checked_at = Timestamp { secs: 86_400, nanos: 500_000_000 };
    assert_eq!(StatusUpdate::from_result(&r).last_checked_at, "1970-01-02T00:00:00.500+00:00");
    // Stored results keep whole milliseconds.
    assert_eq!(Timestamp { secs: 1, nanos: 123_456_789 }.epoch_ms(), 1_123);
    assert_eq!(Timestamp { secs: -2, nanos: 999_000_000 }.epoch_ms(), -1_001);
}
