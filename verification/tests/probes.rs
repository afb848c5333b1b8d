use rusty_pingus::probe::border::{classify_border, is_private_ipv4};
use rusty_pingus::probe::icmp::decide_icmp_result;
use rusty_pingus::probe::publicip::detail_for_ip;
use rusty_pingus::probe::traceroute::{
    build_echo, checksum, parse_icmp_reply, stats, ICMP_ECHO_REPLY, ICMP_ECHO_REQUEST,
    ICMP_TIME_EXCEEDED,
};

// ── border classification ───────────────────────────────────────────────────

#[test]
fn all_reachable_is_up_ok() {
    let r = classify_border("b", "gw → isp → up", true, Some(true), true, Some(2), Some(8), Some(15));
    assert_eq!(r.status, "up");
    assert_eq!(r.response_time_ms, Some(15));
    assert!(r.detail.as_deref().unwrap().starts_with("ok "));
}

#[test]
fn all_reachable_without_isp_gw_is_up_ok() {
    let r = classify_border("b", "gw → up", true, None, true, Some(2), None, Some(15));
    assert_eq!(r.status, "up");
    assert_eq!(r.response_time_ms, Some(15));
    assert!(r.detail.as_deref().unwrap().starts_with("ok "));
}

#[test]
fn isp_gw_down_is_isp_gw_down() {
    let r = classify_border("b", "gw → isp → up", true, Some(false), false, Some(2), None, None);
    assert_eq!(r.status, "down");
    assert_eq!(r.failure_reason.as_deref(), Some("isp_gw_down"));
    assert!(r.detail.as_deref().unwrap().contains("isp_gw_down"));
}

#[test]
fn isp_gw_up_upstream_down_is_isp_down() {
    let r = classify_border("b", "gw → isp → up", true, Some(true), false, Some(2), Some(8), None);
    assert_eq!(r.status, "down");
    assert_eq!(r.failure_reason.as_deref(), Some("isp_down"));
    assert!(r.detail.as_deref().unwrap().contains("isp_down"));
}

#[test]
fn gateway_up_upstream_down_no_isp_gw_is_isp_down() {
    let r = classify_border("b", "gw → up", true, None, false, Some(2), None, None);
    assert_eq!(r.status, "down");
    assert_eq!(r.failure_reason.as_deref(), Some("isp_down"));
}

#[test]
fn gateway_down_is_lan_down() {
    let r = classify_border("b", "gw → up", false, None, false, None, None, None);
    assert_eq!(r.status, "down");
    assert_eq!(r.failure_reason.as_deref(), Some("lan_down"));
    assert!(r.detail.as_deref().unwrap().contains("lan_down"));
}

#[test]
fn gateway_icmp_blocked_but_upstream_ok_is_ok() {
    let r = classify_border("b", "gw → up", false, None, true, None, None, Some(15));
    assert_eq!(r.status, "up");
    assert_eq!(r.failure_reason, None);
    assert!(r.detail.as_deref().unwrap().starts_with("ok "));
}

#[test]
fn all_unreachable_is_lan_down() {
    let r = classify_border("b", "gw → up", false, None, false, None, None, None);
    assert_eq!(r.status, "down");
    assert_eq!(r.failure_reason.as_deref(), Some("lan_down"));
}

#[test]
fn isp_gw_and_local_gw_both_down_is_lan_down() {
    let r = classify_border("b", "gw → isp → up", false, Some(false), false, None, None, None);
    assert_eq!(r.status, "down");
    assert_eq!(r.failure_reason.as_deref(), Some("lan_down"));
}

#[test]
fn private_ranges_detected() {
    assert!(is_private_ipv4([10, 0, 0, 1]));
    assert!(is_private_ipv4([172, 16, 0, 1]));
    assert!(is_private_ipv4([172, 31, 255, 255]));
    assert!(is_private_ipv4([192, 168, 1, 1]));
    assert!(is_private_ipv4([169, 254, 0, 1]));
    assert!(is_private_ipv4([100, 64, 0, 1]));
    assert!(is_private_ipv4([100, 127, 255, 255]));
}

#[test]
fn public_addresses_not_private() {
    assert!(!is_private_ipv4([8, 8, 8, 8]));
    assert!(!is_private_ipv4([1, 1, 1, 1]));
    assert!(!is_private_ipv4([172, 15, 0, 1]));
    assert!(!is_private_ipv4([172, 32, 0, 1]));
    assert!(!is_private_ipv4([100, 63, 255, 255]));
    assert!(!is_private_ipv4([100, 128, 0, 0]));
}

// ── ICMP decisions ──────────────────────────────────────────────────────────

#[test]
fn all_replied_is_up_with_min_rtt_and_no_reason() {
    let r = decide_icmp_result("m", "1.1.1.1", 3, 3, Some(7), None);
    assert_eq!(r.status, "up");
    assert_eq!(r.response_time_ms, Some(7));
    assert_eq!(r.failure_reason, None);
}

#[test]
fn partial_loss_is_up_with_partial_loss_reason() {
    let r = decide_icmp_result("m", "1.1.1.1", 3, 1, Some(12), None);
    assert_eq!(r.status, "up");
    assert_eq!(r.response_time_ms, Some(12));
    assert_eq!(r.failure_reason.as_deref(), Some("partial_loss (1/3 replies)"));
}

#[test]
fn all_lost_is_down_with_no_reply_counts() {
    let r = decide_icmp_result("m", "1.1.1.1", 3, 0, None, None);
    assert_eq!(r.status, "down");
    assert_eq!(r.response_time_ms, None);
    assert_eq!(r.failure_reason.as_deref(), Some("no_reply (0/3 replies)"));
}

#[test]
fn all_non_timeout_errors_preserve_error_reason() {
    let r = decide_icmp_result("m", "1.1.1.1", 2, 0, None, Some("error: boom".to_string()));
    assert_eq!(r.status, "down");
    assert_eq!(r.failure_reason.as_deref(), Some("error: boom"));
}

#[test]
fn single_packet_up_on_reply() {
    let r = decide_icmp_result("m", "1.1.1.1", 1, 1, Some(4), None);
    assert_eq!(r.status, "up");
    assert_eq!(r.failure_reason, None);
}

#[test]
fn single_packet_down_on_no_reply() {
    let r = decide_icmp_result("m", "1.1.1.1", 1, 0, None, None);
    assert_eq!(r.status, "down");
    assert_eq!(r.failure_reason.as_deref(), Some("no_reply (0/1 replies)"));
}

#[test]
fn icmp_counts_above_nine_are_written_in_full() {
    let r = decide_icmp_result("m", "1.1.1.1", 120, 7, Some(3), None);
    assert_eq!(r.failure_reason.as_deref(), Some("partial_loss (7/120 replies)"));
    assert_eq!(r.protocol, "icmp");
    assert_eq!(r.endpoint, "1.1.1.1");
}

// ── public IP detail ────────────────────────────────────────────────────────

#[test]
fn detail_without_prior_is_just_the_ip() {
    assert_eq!(detail_for_ip("203.0.113.7", None), "203.0.113.7");
}

#[test]
fn unchanged_ip_is_not_flagged() {
    assert_eq!(detail_for_ip("203.0.113.7", Some("203.0.113.7")), "203.0.113.7");
}

#[test]
fn changed_ip_notes_previous_value() {
    assert_eq!(
        detail_for_ip("203.0.113.7", Some("198.51.100.4")),
        "203.0.113.7 (changed from 198.51.100.4)"
    );
}

// ── traceroute packets ──────────────────────────────────────────────────────

#[test]
fn checksum_of_known_echo_is_stable() {
    let a = build_echo(0x1234, 0x0102);
    let b = build_echo(0x1234, 0x0102);
    assert_eq!(a, b);
    assert_ne!(&a[2..4], &[0, 0]);
}

#[test]
fn echo_checksum_verifies_to_zero() {
    let p = build_echo(0xBEEF, 0x0001);
    assert_eq!(checksum(&p), 0);
    assert_eq!(p[0], ICMP_ECHO_REQUEST);
    assert_eq!(&p[4..8], &[0xBE, 0xEF, 0x00, 0x01]);
}

#[test]
fn checksum_of_known_words() {
    // 0x0001 + 0xf203 + 0xf4f5 + 0xf6f7 folds to 0xddf2; its complement is 0x220d.
    assert_eq!(checksum(&[0x00, 0x01, 0xf2, 0x03, 0xf4, 0xf5, 0xf6, 0xf7]), 0x220d);
    assert_eq!(checksum(&[]), 0xffff);
    // An odd trailing byte is taken as the high byte of a last word.
    assert_eq!(checksum(&[0x01]), !0x0100u16);
}

#[test]
fn stats_empty_is_all_none() {
    assert_eq!(stats(&[]), (None, None, None));
}

#[test]
fn stats_computes_min_avg_max() {
    assert_eq!(stats(&[10, 20, 30]), (Some(10), Some(20), Some(30)));
}

#[test]
fn stats_average_rounds_down() {
    assert_eq!(stats(&[1, 2]), (Some(1), Some(1), Some(2)));
}

#[test]
fn parse_echo_reply_extracts_id_seq() {
    let mut pkt = vec![0u8; 20 + 8];
    pkt[0] = 0x45;
    let icmp = 20;
    pkt[icmp] = ICMP_ECHO_REPLY;
    pkt[icmp + 4..icmp + 6].copy_from_slice(&0xABCDu16.to_be_bytes());
    pkt[icmp + 6..icmp + 8].copy_from_slice(&0x0007u16.to_be_bytes());
    assert_eq!(parse_icmp_reply(&pkt), Some((ICMP_ECHO_REPLY, 0xABCD, 0x0007)));
}

#[test]
fn parse_time_exceeded_extracts_inner_id_seq() {
    let mut pkt = vec![0u8; 20 + 8 + 20 + 8];
    pkt[0] = 0x45;
    let icmp = 20;
    pkt[icmp] = ICMP_TIME_EXCEEDED;
    let inner = icmp + 8;
    pkt[inner] = 0x45;
    let inner_icmp = inner + 20;
    pkt[inner_icmp] = ICMP_ECHO_REQUEST;
    pkt[inner_icmp + 4..inner_icmp + 6].copy_from_slice(&0x1111u16.to_be_bytes());
    pkt[inner_icmp + 6..inner_icmp + 8].copy_from_slice(&0x2222u16.to_be_bytes());
    assert_eq!(parse_icmp_reply(&pkt), Some((ICMP_TIME_EXCEEDED, 0x1111, 0x2222)));
}

#[test]
fn parse_rejects_short_packets() {
    assert_eq!(parse_icmp_reply(&[]), None);
    let mut pkt = vec![0u8; 20 + 4];
    pkt[0] = 0x45;
    assert_eq!(parse_icmp_reply(&pkt), None);
}

#[test]
fn quoted_echo_is_matched_back() {
    let echo = build_echo(0x4242, echo_seq_of(3, 1));
    let mut pkt = vec![0u8; 20 + 8 + 20];
    pkt[0] = 0x45;
    pkt[20] = ICMP_TIME_EXCEEDED;
    pkt[28] = 0x45;
    pkt.extend_from_slice(&echo);
    assert_eq!(parse_icmp_reply(&pkt), Some((ICMP_TIME_EXCEEDED, 0x4242, 0x0301)));
    assert_eq!(
        rusty_pingus::probe::border::parse_icmp(&pkt),
        Some((ICMP_TIME_EXCEEDED, 0x4242, 0x0301))
    );
    // The destination's reply: our echo with the type set to 0.
    let mut reply = vec![0u8; 20];
    reply[0] = 0x45;
    reply.extend_from_slice(&echo);
    reply[20] = ICMP_ECHO_REPLY;
    assert_eq!(parse_icmp_reply(&reply), Some((ICMP_ECHO_REPLY, 0x4242, 0x0301)));
}

fn echo_seq_of(ttl: u8, q: u32) -> u16 {
    rusty_pingus::probe::traceroute::echo_seq(ttl, q)
}

#[test]
fn border_parse_needs_a_full_quoted_datagram() {
    // 20 inner bytes suffice for the traceroute reader, not for the border one.
    let mut pkt = vec![0u8; 20 + 8 + 20];
    pkt[0] = 0x45;
    pkt[20] = ICMP_TIME_EXCEEDED;
    pkt[28] = 0x41;
    assert_eq!(parse_icmp_reply(&pkt), Some((ICMP_TIME_EXCEEDED, 0, 0)));
    assert_eq!(rusty_pingus::probe::border::parse_icmp(&pkt), None);
}

#[test]
fn local_gateway_down_is_lan_down_even_if_isp_gateway_answers() {
    let r = classify_border("b", "gw → isp → up", false, Some(true), false, None, Some(8), None);
    assert_eq!(r.status, "down");
    assert_eq!(r.failure_reason.as_deref(), Some("lan_down"));
    assert_eq!(
        r.detail.as_deref(),
        Some("lan_down \u{2014} local gateway unreachable (local \u{2014}, isp 8ms, upstream \u{2014})")
    );
}
