use rusty_pingus::config::Defaults;
use rusty_pingus::monitors::{
    apply_defaults, default_interval_ms, default_timeout_ms, default_true, name_in_use,
    position_of, remove_monitor, replace_config, resolve_ms, set_enabled_in,
    strip_monitors_from_toml, EnabledChange, IcmpMonitorConfig, MonitorConfig,
    PublicIpMonitorConfig, RawBorderMonitorConfig, RawIcmpMonitorConfig,
    RawPublicIpMonitorConfig, RawTcpMonitorConfig, RawTracerouteMonitorConfig, StoredMonitor,
    TcpMonitorConfig, TracerouteMonitorConfig, BorderMonitorConfig,
};

fn raw_icmp(count: Option<u32>) -> RawIcmpMonitorConfig {
    RawIcmpMonitorConfig {
        name: "gw".into(),
        host: "1.1.1.1".into(),
        interval_ms: None,
        interval_secs: None,
        timeout_ms: None,
        timeout_secs: None,
        count,
        retention_hours: None,
        enabled: default_true(),
    }
}

fn raw_trace() -> RawTracerouteMonitorConfig {
    RawTracerouteMonitorConfig {
        name: "t".into(),
        host: "1.1.1.1".into(),
        interval_ms: None,
        interval_secs: None,
        timeout_ms: None,
        timeout_secs: None,
        max_hops: None,
        queries_per_hop: None,
        retention_ms: None,
        retention_secs: None,
        retention_hours: None,
        enabled: default_true(),
    }
}

fn parse_icmp(count: Option<u32>) -> IcmpMonitorConfig {
    IcmpMonitorConfig::from_raw(raw_icmp(count))
}

#[test]
fn icmp_count_defaults_to_three_when_missing() {
    let c = parse_icmp(None);
    assert_eq!(c.count, 3);
}

#[test]
fn icmp_count_zero_is_clamped_to_one() {
    let c = parse_icmp(Some(0));
    assert_eq!(c.count, 1);
}

#[test]
fn icmp_count_explicit_value_is_respected() {
    let c = parse_icmp(Some(5));
    assert_eq!(c.count, 5);
}

#[test]
fn traceroute_sub_floor_interval_is_raised_to_500() {
    let c = TracerouteMonitorConfig::from_raw(RawTracerouteMonitorConfig {
        interval_ms: Some(100),
        ..raw_trace()
    });
    assert_eq!(c.interval_ms, 500);
}

#[test]
fn traceroute_at_or_above_floor_interval_is_preserved() {
    let c = TracerouteMonitorConfig::from_raw(RawTracerouteMonitorConfig {
        interval_ms: Some(5000),
        ..raw_trace()
    });
    assert_eq!(c.interval_ms, 5000);
}

#[test]
fn traceroute_defaults_for_optional_fields() {
    let c = TracerouteMonitorConfig::from_raw(raw_trace());
    assert_eq!(c.max_hops, 30);
    assert_eq!(c.queries_per_hop, 3);
    // No explicit retention → None (falls back to global default at runtime)
    assert_eq!(c.retention_hours, None);
}

#[test]
fn traceroute_legacy_retention_ms_converts_to_hours() {
    let c = TracerouteMonitorConfig::from_raw(RawTracerouteMonitorConfig {
        retention_ms: Some(86_400_000),
        ..raw_trace()
    });
    assert_eq!(c.retention_hours, Some(24));
}

#[test]
fn retention_hours_explicit_wins_over_legacy_ms() {
    let c = TracerouteMonitorConfig::from_raw(RawTracerouteMonitorConfig {
        retention_hours: Some(6),
        retention_ms: Some(86_400_000),
        ..raw_trace()
    });
    assert_eq!(c.retention_hours, Some(6));
}

#[test]
fn retention_hours_accessor_falls_back_to_global() {
    let c = TracerouteMonitorConfig::from_raw(raw_trace());
    let m = MonitorConfig::Traceroute(c);
    // No per-monitor retention → uses global_days * 24
    assert_eq!(m.retention_hours(90), 2160);
}

#[test]
fn retention_hours_accessor_uses_per_monitor_value() {
    let c = TracerouteMonitorConfig::from_raw(RawTracerouteMonitorConfig {
        retention_hours: Some(6),
        ..raw_trace()
    });
    let m = MonitorConfig::Traceroute(c);
    assert_eq!(m.retention_hours(90), 6);
}

#[test]
fn enabled_defaults_to_true_when_missing() {
    let c = TracerouteMonitorConfig::from_raw(raw_trace());
    assert!(c.enabled);
}

#[test]
fn traceroute_zero_queries_clamped_to_one() {
    let c = TracerouteMonitorConfig::from_raw(RawTracerouteMonitorConfig {
        queries_per_hop: Some(0),
        ..raw_trace()
    });
    assert_eq!(c.queries_per_hop, 1);
}

// ── further cases ────────────────────────────────────────────────────────────

#[test]
fn traceroute_max_hops_clamped_to_64_and_1() {
    let high = TracerouteMonitorConfig::from_raw(RawTracerouteMonitorConfig {
        max_hops: Some(200),
        ..raw_trace()
    });
    assert_eq!(high.max_hops, 64);
    let low = TracerouteMonitorConfig::from_raw(RawTracerouteMonitorConfig {
        max_hops: Some(0),
        ..raw_trace()
    });
    assert_eq!(low.max_hops, 1);
}

#[test]
fn legacy_retention_below_an_hour_is_one_hour() {
    let c = TracerouteMonitorConfig::from_raw(RawTracerouteMonitorConfig {
        retention_secs: Some(60),
        ..raw_trace()
    });
    assert_eq!(c.retention_hours, Some(1));
}

#[test]
fn legacy_seconds_convert_to_milliseconds_and_ms_wins() {
    assert_eq!(resolve_ms(None, Some(30), 60_000), 30_000);
    assert_eq!(resolve_ms(Some(1_500), Some(30), 60_000), 1_500);
    assert_eq!(resolve_ms(None, None, 60_000), 60_000);
    assert_eq!(resolve_ms(None, Some(u64::MAX), 1), u64::MAX);
    assert_eq!(default_interval_ms(), 60_000);
    assert_eq!(default_timeout_ms(), 10_000);
}

#[test]
fn tcp_timing_from_legacy_seconds() {
    let c = TcpMonitorConfig::from_raw(RawTcpMonitorConfig {
        name: "db".into(),
        host: "h".into(),
        port: 5432,
        interval_ms: None,
        interval_secs: Some(30),
        timeout_ms: None,
        timeout_secs: Some(3),
        retention_hours: Some(0),
        enabled: true,
    });
    assert_eq!(c.interval_ms, 30_000);
    assert_eq!(c.timeout_ms, 3_000);
    assert_eq!(c.retention_hours, None);
}

#[test]
fn blank_public_ip_url_counts_as_unset() {
    let c = PublicIpMonitorConfig::from_raw(RawPublicIpMonitorConfig {
        name: "ip".into(),
        url: Some("   ".into()),
        interval_ms: None,
        interval_secs: None,
        timeout_ms: None,
        timeout_secs: None,
        retention_hours: None,
        enabled: true,
    });
    assert_eq!(c.url, None);
    assert_eq!(MonitorConfig::PublicIp(c).endpoint(), "https://checkip.amazonaws.com");
}

#[test]
fn border_blank_upstream_takes_default() {
    let c = BorderMonitorConfig::from_raw(RawBorderMonitorConfig {
        name: "b".into(),
        gateway: Some("".into()),
        isp_gateway: Some("74.0.0.1".into()),
        upstream: Some(" ".into()),
        interval_ms: None,
        interval_secs: None,
        timeout_ms: None,
        timeout_secs: None,
        retention_hours: None,
        enabled: true,
    });
    assert_eq!(c.upstream, "1.1.1.1");
    assert_eq!(c.gateway, None);
    assert_eq!(MonitorConfig::Border(c).endpoint(), "auto → 74.0.0.1 → 1.1.1.1");
}

fn tcp(name: &str, host: &str, port: u16) -> MonitorConfig {
    MonitorConfig::Tcp(TcpMonitorConfig {
        name: name.into(),
        host: host.into(),
        port,
        interval_ms: 60_000,
        timeout_ms: 10_000,
        retention_hours: None,
        enabled: true,
    })
}

#[test]
fn accessors_report_fields() {
    let m = tcp("db", "example.com", 5432);
    assert_eq!(m.name(), "db");
    assert_eq!(m.interval_ms(), 60_000);
    assert_eq!(m.protocol(), "tcp");
    assert_eq!(m.endpoint(), "example.com:5432");
    assert!(m.enabled());
}

#[test]
fn set_enabled_reads_back() {
    let mut m = tcp("db", "a", 1);
    m.set_enabled(false);
    assert!(!m.enabled());
    assert_eq!(m.name(), "db");
    m.set_enabled(true);
    assert!(m.enabled());
}

#[test]
fn apply_defaults_overrides_builtin_values_only_and_is_idempotent() {
    let defaults = Defaults { timeout_ms: Some(2_000), interval_ms: Some(100), ..Defaults::default() };
    let mut tr = TracerouteMonitorConfig::from_raw(raw_trace());
    tr.interval_ms = 60_000;
    let mut list = vec![
        tcp("a", "h", 1),
        MonitorConfig::Tcp(TcpMonitorConfig {
            name: "b".into(),
            host: "h".into(),
            port: 2,
            interval_ms: 30_000,
            timeout_ms: 5_000,
            retention_hours: None,
            enabled: true,
        }),
        MonitorConfig::Traceroute(tr),
    ];
    apply_defaults(&mut list, &defaults);
    assert_eq!(list[0].interval_ms(), 100);
    match &list[0] {
        MonitorConfig::Tcp(c) => assert_eq!(c.timeout_ms, 2_000),
        _ => unreachable!(),
    }
    assert_eq!(list[1].interval_ms(), 30_000);
    // The traceroute floor holds after a lower global default.
    assert_eq!(list[2].interval_ms(), 500);
    let once: Vec<u64> = list.iter().map(|m| m.interval_ms()).collect();
    apply_defaults(&mut list, &defaults);
    let twice: Vec<u64> = list.iter().map(|m| m.interval_ms()).collect();
    assert_eq!(once, twice);
}

fn stored(id: i64, m: MonitorConfig) -> StoredMonitor {
    StoredMonitor { id, config: m }
}

#[test]
fn update_replaces_in_place_and_allows_rename() {
    let mut list = vec![stored(1, tcp("db", "a", 5432)), stored(2, tcp("web", "b", 80))];
    // Edit by id: change host/port and rename; the id and position are kept.
    assert!(replace_config(&mut list, 1, tcp("database", "c", 6543)));
    assert_eq!(list.len(), 2);
    assert_eq!(list[0].id, 1, "id + position preserved");
    match &list[0].config {
        MonitorConfig::Tcp(c) => {
            assert_eq!(c.name, "database", "rename applied");
            assert_eq!(c.port, 6543);
        }
        other => panic!("expected tcp, got {other:?}"),
    }
    assert_eq!(list[0].config.endpoint(), "c:6543");
    // Unknown id → false, nothing changed.
    assert!(!replace_config(&mut list, 99_999, tcp("nope", "x", 1)));
    assert_eq!(list.len(), 2);
    assert_eq!(list[1].config.name(), "web");
}

#[test]
fn store_list_operations() {
    let mut list = vec![stored(1, tcp("db", "a", 5432)), stored(2, tcp("web", "b", 80))];
    assert_eq!(position_of(&list, 2), Some(1));
    assert_eq!(position_of(&list, 3), None);
    assert!(name_in_use(&list, "web"));
    assert!(!name_in_use(&list, "mail"));
    assert_eq!(set_enabled_in(&mut list, 2, true), EnabledChange::Unchanged);
    assert_eq!(set_enabled_in(&mut list, 2, false), EnabledChange::Changed);
    assert!(!list[1].config.enabled());
    assert_eq!(set_enabled_in(&mut list, 7, false), EnabledChange::NotFound);
    assert!(remove_monitor(&mut list, 1));
    assert_eq!(list.len(), 1);
    assert_eq!(list[0].id, 2);
    assert!(!remove_monitor(&mut list, 1));
    assert_eq!(list.len(), 1);
}

#[test]
fn strips_monitor_tables_from_toml() {
    let input = "[web]\nbind = \"0.0.0.0:3000\"\n\n[[monitors]]\nprotocol = \"tcp\"\nname = \"a\"\n\n[database]\npath = \"x\"\n";
    let out = strip_monitors_from_toml(input);
    assert_eq!(out, "[web]\nbind = \"0.0.0.0:3000\"\n\n[database]\npath = \"x\"\n");
    assert_eq!(strip_monitors_from_toml(""), "\n");
    assert_eq!(strip_monitors_from_toml("a = 1"), "a = 1\n");
    assert_eq!(strip_monitors_from_toml("[[monitors]]\nname = \"x\"\n"), "\n");
}

#[test]
fn strip_removes_monitor_sub_tables() {
    let input = "[[monitors]]\nname = a\n[monitors.headers]\nX = y\n[web]\nbind = b\n";
    assert_eq!(strip_monitors_from_toml(input), "[web]\nbind = b\n");
    let nested = "[defaults]\n[[monitors]]\nname = a\n[[monitors.extra]]\nk = 1\n[database]\npath = p";
    assert_eq!(strip_monitors_from_toml(nested), "[defaults]\n[database]\npath = p\n");
}
