//! Traceroute monitors: ICMP echoes with increasing TTL, several per hop; the
//! per-hop RTT statistics are stored and the run is summarized for the
//! dashboard. This module holds the packet building and parsing, the per-hop
//! bookkeeping of a walk, and the summary.

use vstd::prelude::*;
use crate::db::{TraceHopInput, TraceRunInput};
use crate::monitors::{MonitorConfig, TracerouteMonitorConfig};
use crate::probe::{is_down_result, is_up_result, text_of, ProbeResult};
use crate::text::{decimal, ipv4_text, ipv4_to_string, push_decimal, str_eq};

verus! {

pub const ICMP_ECHO_REQUEST: u8 = 8;

pub const ICMP_ECHO_REPLY: u8 = 0;

pub const ICMP_TIME_EXCEEDED: u8 = 11;

pub const ICMP_DEST_UNREACHABLE: u8 = 3;

// ── Internet checksum ────────────────────────────────────────────────────────

/// Sum of the big-endian 16-bit words of `d`; an odd last byte is the high
/// byte of a word.
pub open spec fn word_sum(d: Seq<u8>) -> nat
    decreases d.len(),
{
    if d.len() == 0 {
        0
    } else if d.len() == 1 {
        (d[0] as nat) * 256
    } else {
        (d[0] as nat) * 256 + (d[1] as nat) + word_sum(d.skip(2))
    }
}

/// End-around-carry folding of a sum into 16 bits.
pub open spec fn fold16(s: nat) -> nat
    decreases s,
{
    if s < 65536 {
        s
    } else {
        fold16(s % 65536 + s / 65536)
    }
}

/// The internet checksum (RFC 1071) of `d`: the one's complement of the
/// folded one's-complement sum of its 16-bit words.
pub open spec fn internet_checksum(d: Seq<u8>) -> int {
    65535 - fold16(word_sum(d))
}

proof fn lemma_fold16_bound(s: nat)
    ensures
        fold16(s) < 65536,
        s > 0 ==> fold16(s) > 0,
        fold16(s) % 65535 == s % 65535,
    decreases s,
{
    if s >= 65536 {
        let q = s / 65536;
        let r = s % 65536;
        assert(s == 65536 * q + r);
        assert(r + q < s);
        lemma_fold16_bound(r + q);
        assert((65535 * q + (r + q)) % 65535 == (r + q) % 65535) by {
            vstd::arithmetic::div_mod::lemma_mod_multiples_vanish(q as int, (r + q) as int, 65535);
        }
        assert(65535 * q + (r + q) == s);
    }
}

fn word_at(hi: u8, lo: u8) -> (w: u32)
    ensures
        w == (hi as nat) * 256 + (lo as nat),
{
    (hi as u32) * 256 + (lo as u32)
}

/// Standard internet checksum (one's-complement 16-bit sum) over `data`.
pub fn checksum(data: &[u8]) -> (c: u16)
    requires
        word_sum(data@) <= u32::MAX,
    ensures
        c == internet_checksum(data@),
{
    let mut sum: u32 = 0;
    let mut i: usize = 0;
    proof {
        assert(data@.skip(0) =~= data@);
    }
    while i + 1 < data.len()
        invariant
            i <= data@.len(),
            word_sum(data@) <= u32::MAX,
            i % 2 == 0,
            sum + word_sum(data@.skip(i as int)) == word_sum(data@),
        decreases data@.len() - i,
    {
        proof {
            assert(data@.skip(i as int).skip(2) =~= data@.skip(i + 2));
            assert(data@.skip(i as int)[0] == data@[i as int]);
            assert(data@.skip(i as int)[1] == data@[i + 1]);
        }
        sum = sum + word_at(data[i], data[i + 1]);
        i = i + 2;
    }
    if i < data.len() {
        proof {
            assert(data@.skip(i as int).len() == 1);
            assert(data@.skip(i as int)[0] == data@[i as int]);
        }
        sum = sum + (data[i] as u32) * 256;
    } else {
        proof {
            assert(data@.skip(i as int).len() == 0);
        }
    }
    let ghost total = sum as nat;
    while sum >= 65536
        invariant
            fold16(sum as nat) == fold16(total),
        decreases sum,
    {
        sum = sum % 65536 + sum / 65536;
    }
    proof {
        lemma_fold16_bound(total);
    }
    (65535 - sum) as u16
}

// ── Echo requests ────────────────────────────────────────────────────────────

/// An 8-byte ICMP Echo Request header with checksum `cks`, then an 8-byte
/// zero payload.
pub open spec fn echo_bytes(id: u16, seq: u16, cks: u16) -> Seq<u8> {
    seq![
        8u8,
        0u8,
        (cks / 256) as u8,
        (cks % 256) as u8,
        (id / 256) as u8,
        (id % 256) as u8,
        (seq / 256) as u8,
        (seq % 256) as u8,
        0u8,
        0u8,
        0u8,
        0u8,
        0u8,
        0u8,
        0u8,
        0u8,
    ]
}

/// The checksum an echo request with `id` and `seq` carries.
pub open spec fn echo_checksum(id: u16, seq: u16) -> u16 {
    internet_checksum(echo_bytes(id, seq, 0)) as u16
}

/// Build an 8-byte ICMP Echo Request header + 8-byte zero payload, with checksum.
pub fn build_echo(id: u16, seq: u16) -> (p: [u8; 16])
    ensures
        p@ == echo_bytes(id, seq, echo_checksum(id, seq)),
{
    let id_hi = (id / 256) as u8;
    let id_lo = (id % 256) as u8;
    let seq_hi = (seq / 256) as u8;
    let seq_lo = (seq % 256) as u8;
    let blank: [u8; 16] = [
        ICMP_ECHO_REQUEST,
        0,
        0,
        0,
        id_hi,
        id_lo,
        seq_hi,
        seq_lo,
        0,
        0,
        0,
        0,
        0,
        0,
        0,
        0,
    ];
    proof {
        assert(blank@ =~= echo_bytes(id, seq, 0));
        lemma_echo_word_sum(id, seq, 0);
        lemma_fold16_bound(word_sum(echo_bytes(id, seq, 0)));
    }
    let cks = checksum(&blank);
    let p: [u8; 16] = [
        ICMP_ECHO_REQUEST,
        0,
        (cks / 256) as u8,
        (cks % 256) as u8,
        id_hi,
        id_lo,
        seq_hi,
        seq_lo,
        0,
        0,
        0,
        0,
        0,
        0,
        0,
        0,
    ];
    proof {
        assert(p@ =~= echo_bytes(id, seq, echo_checksum(id, seq)));
    }
    p
}

proof fn lemma_echo_word_sum(id: u16, seq: u16, cks: u16)
    ensures
        word_sum(echo_bytes(id, seq, cks)) == 2048 + cks + id + seq,
{
    let b = echo_bytes(id, seq, cks);
    reveal_with_fuel(word_sum, 9);
    assert(b.skip(2)[0] == b[2] && b.skip(2)[1] == b[3]);
    assert(b.skip(2).skip(2) =~= b.skip(4));
    assert(b.skip(4).skip(2) =~= b.skip(6));
    assert(b.skip(6).skip(2) =~= b.skip(8));
    assert(b.skip(8).skip(2) =~= b.skip(10));
    assert(b.skip(10).skip(2) =~= b.skip(12));
    assert(b.skip(12).skip(2) =~= b.skip(14));
    assert(b.skip(14).skip(2) =~= b.skip(16));
    assert(word_sum(b.skip(8)) == 0) by {
        assert(b.skip(8) =~= seq![0u8, 0u8, 0u8, 0u8, 0u8, 0u8, 0u8, 0u8]);
        reveal_with_fuel(word_sum, 5);
        let z = b.skip(8);
        assert(z.skip(2) =~= seq![0u8, 0u8, 0u8, 0u8, 0u8, 0u8]);
        assert(z.skip(2).skip(2) =~= seq![0u8, 0u8, 0u8, 0u8]);
        assert(z.skip(2).skip(2).skip(2) =~= seq![0u8, 0u8]);
        assert(z.skip(2).skip(2).skip(2).skip(2) =~= Seq::<u8>::empty());
    }
    assert(word_sum(b.skip(6)) == seq + word_sum(b.skip(8)));
    assert(word_sum(b.skip(4)) == id + word_sum(b.skip(6)));
    assert(word_sum(b.skip(2)) == cks + word_sum(b.skip(4)));
}

/// An echo request carries a valid internet checksum: recomputing the
/// checksum over the whole packet, checksum field included, gives 0.
pub proof fn lemma_echo_checksum_verifies(id: u16, seq: u16)
    ensures
        internet_checksum(echo_bytes(id, seq, echo_checksum(id, seq))) == 0,
{
    let s = word_sum(echo_bytes(id, seq, 0));
    lemma_echo_word_sum(id, seq, 0);
    lemma_fold16_bound(s);
    let c = echo_checksum(id, seq);
    assert(c == 65535 - fold16(s));
    lemma_echo_word_sum(id, seq, c);
    let t = word_sum(echo_bytes(id, seq, c));
    assert(t == s + c);
    lemma_fold16_bound(t);
    assert((s + c) % 65535 == 0) by {
        assert(fold16(s) % 65535 == s % 65535);
        assert(s + c == s - fold16(s) + 65535);
        vstd::arithmetic::div_mod::lemma_fundamental_div_mod(s as int, 65535);
        vstd::arithmetic::div_mod::lemma_fundamental_div_mod(fold16(s) as int, 65535);
        assert(fold16(s) < 65536);
        assert(fold16(s) / 65535 <= 1) by (nonlinear_arith)
            requires
                fold16(s) < 65536,
        ;
        let k = s / 65535 - fold16(s) / 65535 + 1;
        assert(s + c == 65535 * k) by (nonlinear_arith)
            requires
                s == 65535 * (s / 65535) + s % 65535,
                fold16(s) == 65535 * (fold16(s) / 65535) + fold16(s) % 65535,
                fold16(s) % 65535 == s % 65535,
                s + c == s - fold16(s) + 65535,
                k == s / 65535 - fold16(s) / 65535 + 1,
        ;
        vstd::arithmetic::div_mod::lemma_mod_multiples_basic(k, 65535);
    }
    assert(fold16(t) == 65535);
}

// ── Reply parsing ────────────────────────────────────────────────────────────

/// A big-endian 16-bit value.
pub open spec fn be16(hi: u8, lo: u8) -> u16 {
    ((hi as nat) * 256 + (lo as nat)) as u16
}

proof fn lemma_be16_split(v: u16)
    ensures
        be16((v / 256) as u8, (v % 256) as u8) == v,
{
    assert((v / 256) as u8 == v / 256);
    assert((v % 256) as u8 == v % 256);
}

/// A Time-Exceeded or Dest-Unreachable from a router, quoting (after its own
/// IPv4 header) one of our echo requests, is read back as that request's
/// identifier and sequence number, with the ICMP type of the error.
pub proof fn lemma_quoted_echo_matches(
    outer: Seq<u8>,
    icmp: Seq<u8>,
    inner: Seq<u8>,
    id: u16,
    seq: u16,
    inner_min: int,
)
    requires
        outer.len() == 20,
        outer[0] == 0x45,
        icmp.len() == 8,
        icmp[0] == 11 || icmp[0] == 3,
        inner.len() == 20,
        inner[0] == 0x45,
        1 <= inner_min <= 28,
    ensures
        echo_reply_fields(
            outer + icmp + inner + echo_bytes(id, seq, echo_checksum(id, seq)),
            inner_min,
        ) == Some((icmp[0], id, seq)),
{
    let e = echo_bytes(id, seq, echo_checksum(id, seq));
    let b = outer + icmp + inner + e;
    assert(b.len() == 64);
    assert(ip_header_len(0x45) == 20);
    assert(b[0] == outer[0]);
    assert(b[20] == icmp[0]);
    assert(b[28] == inner[0]);
    assert(b[52] == e[4] && b[53] == e[5] && b[54] == e[6] && b[55] == e[7]);
    lemma_be16_split(id);
    lemma_be16_split(seq);
}

/// The destination's Echo-Reply, which returns our request with the type set
/// to 0 (whatever checksum it then carries), is read back as the request's
/// identifier and sequence number.
pub proof fn lemma_echo_reply_matches(outer: Seq<u8>, id: u16, seq: u16, cks: u16, inner_min: int)
    requires
        outer.len() == 20,
        outer[0] == 0x45,
    ensures
        echo_reply_fields(outer + echo_bytes(id, seq, cks).update(0, 0u8), inner_min) == Some(
            (0u8, id, seq),
        ),
{
    let e = echo_bytes(id, seq, cks).update(0, 0u8);
    let b = outer + e;
    assert(b.len() == 36);
    assert(ip_header_len(0x45) == 20);
    assert(b[0] == outer[0]);
    assert(b[20] == 0u8);
    assert(b[24] == e[4] && b[25] == e[5] && b[26] == e[6] && b[27] == e[7]);
    lemma_be16_split(id);
    lemma_be16_split(seq);
}

fn be16_of(hi: u8, lo: u8) -> (v: u16)
    ensures
        v == be16(hi, lo),
{
    (hi as u16) * 256 + (lo as u16)
}

/// Length in bytes of an IPv4 header whose first byte is `b`.
pub open spec fn ip_header_len(b: u8) -> int {
    ((b % 16) as int) * 4
}

fn header_len(b: u8) -> (n: usize)
    ensures
        n == ip_header_len(b),
        n <= 60,
{
    ((b % 16) as usize) * 4
}

/// `(icmp_type, id, seq)` of an echo we sent, read from a raw IPv4 packet:
/// from the outer ICMP header of an Echo-Reply, or from the embedded original
/// datagram of a Time-Exceeded / Dest-Unreachable, which must hold at least
/// `inner_min` bytes.
pub open spec fn echo_reply_fields(b: Seq<u8>, inner_min: int) -> Option<(u8, u16, u16)> {
    if b.len() < 20 {
        None
    } else {
        let h = ip_header_len(b[0]);
        if b.len() < h + 8 {
            None
        } else {
            let t = b[h];
            if t == 0 {
                Some((t, be16(b[h + 4], b[h + 5]), be16(b[h + 6], b[h + 7])))
            } else if t == 11 || t == 3 {
                let inner = h + 8;
                if b.len() - inner < inner_min {
                    None
                } else {
                    let ih = ip_header_len(b[inner]);
                    if b.len() - inner < ih + 8 {
                        None
                    } else {
                        let p = inner + ih;
                        Some((t, be16(b[p + 4], b[p + 5]), be16(b[p + 6], b[p + 7])))
                    }
                }
            } else {
                None
            }
        }
    }
}

/// Reads `(icmp_type, id, seq)` as [`echo_reply_fields`] states it.
pub fn read_echo_reply(buf: &[u8], inner_min: usize) -> (r: Option<(u8, u16, u16)>)
    requires
        inner_min >= 1,
    ensures
        r == echo_reply_fields(buf@, inner_min as int),
{
    if buf.len() < 20 {
        return None;
    }
    let h = header_len(buf[0]);
    if buf.len() < h + 8 {
        return None;
    }
    let t = buf[h];
    if t == ICMP_ECHO_REPLY {
        Some((t, be16_of(buf[h + 4], buf[h + 5]), be16_of(buf[h + 6], buf[h + 7])))
    } else if t == ICMP_TIME_EXCEEDED || t == ICMP_DEST_UNREACHABLE {
        let inner = h + 8;
        if buf.len() - inner < inner_min {
            return None;
        }
        let ih = header_len(buf[inner]);
        if buf.len() - inner < ih + 8 {
            return None;
        }
        let p = inner + ih;
        Some((t, be16_of(buf[p + 4], buf[p + 5]), be16_of(buf[p + 6], buf[p + 7])))
    } else {
        None
    }
}

/// Parse a received raw-IPv4 ICMP packet, returning `(icmp_type, id, seq)` for
/// the echo we sent. For Echo-Reply the id/seq are in the outer ICMP header; for
/// Time-Exceeded / Dest-Unreachable they are in the echoed original datagram.
pub fn parse_icmp_reply(buf: &[u8]) -> (r: Option<(u8, u16, u16)>)
    ensures
        r == echo_reply_fields(buf@, 20),
{
    read_echo_reply(buf, 20)
}

// ── Per-hop statistics ───────────────────────────────────────────────────────

pub open spec fn seq_min(s: Seq<u64>) -> u64
    recommends
        s.len() > 0,
    decreases s.len(),
{
    if s.len() <= 1 {
        s[0]
    } else {
        let m = seq_min(s.drop_last());
        if s.last() < m {
            s.last()
        } else {
            m
        }
    }
}

pub open spec fn seq_max(s: Seq<u64>) -> u64
    recommends
        s.len() > 0,
    decreases s.len(),
{
    if s.len() <= 1 {
        s[0]
    } else {
        let m = seq_max(s.drop_last());
        if s.last() > m {
            s.last()
        } else {
            m
        }
    }
}

/// The smallest of a non-empty list is no greater than any of its items and
/// is one of them.
pub proof fn lemma_seq_min_is_least(s: Seq<u64>)
    requires
        s.len() > 0,
    ensures
        forall|j: int| 0 <= j < s.len() ==> seq_min(s) <= #[trigger] s[j],
        exists|i: int| 0 <= i < s.len() && s[i] == seq_min(s),
    decreases s.len(),
{
    if s.len() > 1 {
        let p = s.drop_last();
        lemma_seq_min_is_least(p);
        let i = choose|i: int| 0 <= i < p.len() && p[i] == seq_min(p);
        assert(s[i] == p[i]);
        assert(s[s.len() - 1] == s.last());
        assert forall|j: int| 0 <= j < s.len() implies seq_min(s) <= #[trigger] s[j] by {
            if j < s.len() - 1 {
                assert(s[j] == p[j]);
            }
        }
    } else {
        assert(s[0] == seq_min(s));
    }
}

/// The largest of a non-empty list is no smaller than any of its items and
/// is one of them.
pub proof fn lemma_seq_max_is_greatest(s: Seq<u64>)
    requires
        s.len() > 0,
    ensures
        forall|j: int| 0 <= j < s.len() ==> #[trigger] s[j] <= seq_max(s),
        exists|i: int| 0 <= i < s.len() && s[i] == seq_max(s),
    decreases s.len(),
{
    if s.len() > 1 {
        let p = s.drop_last();
        lemma_seq_max_is_greatest(p);
        let i = choose|i: int| 0 <= i < p.len() && p[i] == seq_max(p);
        assert(s[i] == p[i]);
        assert(s[s.len() - 1] == s.last());
        assert forall|j: int| 0 <= j < s.len() implies #[trigger] s[j] <= seq_max(s) by {
            if j < s.len() - 1 {
                assert(s[j] == p[j]);
            }
        }
    } else {
        assert(s[0] == seq_max(s));
    }
}

pub open spec fn seq_sum(s: Seq<u64>) -> nat
    decreases s.len(),
{
    if s.len() == 0 {
        0
    } else {
        seq_sum(s.drop_last()) + (s.last() as nat)
    }
}

/// The total of one item is that item, and the total of two lists put end to
/// end is the sum of their totals.
pub proof fn lemma_seq_sum_concat(s: Seq<u64>, t: Seq<u64>)
    ensures
        forall|x: u64| #[trigger] seq_sum(seq![x]) == x,
        seq_sum(s + t) == seq_sum(s) + seq_sum(t),
    decreases t.len(),
{
    assert forall|x: u64| #[trigger] seq_sum(seq![x]) == x by {
        assert(seq![x].drop_last() =~= Seq::<u64>::empty());
        assert(seq_sum(Seq::<u64>::empty()) == 0);
        assert(seq![x].last() == x);
    }
    if t.len() == 0 {
        assert(s + t =~= s);
    } else {
        lemma_seq_sum_concat(s, t.drop_last());
        assert((s + t).drop_last() =~= s + t.drop_last());
        assert((s + t).last() == t.last());
    }
}

proof fn lemma_seq_sum_prefix(s: Seq<u64>, i: int)
    requires
        0 <= i <= s.len(),
    ensures
        seq_sum(s.take(i)) <= seq_sum(s),
    decreases s.len() - i,
{
    if i < s.len() {
        lemma_seq_sum_prefix(s, i + 1);
        assert(s.take(i + 1).drop_last() =~= s.take(i));
    } else {
        assert(s.take(i) =~= s);
    }
}

/// `as i64` of an RTT, as the stored statistics take it.
pub open spec fn as_stored(v: u64) -> i64 {
    v as i64
}

fn to_stored(v: u64) -> (r: i64)
    ensures
        r == as_stored(v),
{
    v as i64
}

/// min/avg/max of the responding RTTs (microseconds), or all-None if empty.
pub fn stats(rtts: &[u64]) -> (r: (Option<i64>, Option<i64>, Option<i64>))
    requires
        seq_sum(rtts@) <= u64::MAX,
    ensures
        rtts@.len() == 0 ==> r == (None::<i64>, None::<i64>, None::<i64>),
        rtts@.len() > 0 ==> r == (
            Some(as_stored(seq_min(rtts@))),
            Some(as_stored((seq_sum(rtts@) / (rtts@.len() as nat)) as u64)),
            Some(as_stored(seq_max(rtts@))),
        ),
        rtts@.len() > 0 ==> exists|i: int|
            0 <= i < rtts@.len() && r.0 == Some(as_stored(rtts@[i])) && (forall|j: int|
                0 <= j < rtts@.len() ==> rtts@[i] <= #[trigger] rtts@[j]),
        rtts@.len() > 0 ==> exists|i: int|
            0 <= i < rtts@.len() && r.2 == Some(as_stored(rtts@[i])) && (forall|j: int|
                0 <= j < rtts@.len() ==> #[trigger] rtts@[j] <= rtts@[i]),
{
    if rtts.len() == 0 {
        return (None, None, None);
    }
    proof {
        lemma_seq_min_is_least(rtts@);
        lemma_seq_max_is_greatest(rtts@);
    }
    let mut min = rtts[0];
    let mut max = rtts[0];
    let mut sum: u64 = rtts[0];
    let mut i: usize = 1;
    proof {
        assert(rtts@.take(1).drop_last() =~= Seq::<u64>::empty());
        reveal_with_fuel(seq_sum, 2);
    }
    while i < rtts.len()
        invariant
            1 <= i <= rtts@.len(),
            seq_sum(rtts@) <= u64::MAX,
            min == seq_min(rtts@.take(i as int)),
            max == seq_max(rtts@.take(i as int)),
            sum == seq_sum(rtts@.take(i as int)),
        decreases rtts@.len() - i,
    {
        proof {
            assert(rtts@.take(i + 1).drop_last() =~= rtts@.take(i as int));
            assert(rtts@.take(i + 1).last() == rtts@[i as int]);
            lemma_seq_sum_prefix(rtts@, i + 1);
        }
        let v = rtts[i];
        if v < min {
            min = v;
        }
        if v > max {
            max = v;
        }
        sum = sum + v;
        i = i + 1;
    }
    proof {
        assert(rtts@.take(rtts@.len() as int) =~= rtts@);
    }
    let avg = sum / (rtts.len() as u64);
    (Some(to_stored(min)), Some(to_stored(avg)), Some(to_stored(max)))
}

// ── Run settings ─────────────────────────────────────────────────────────────

/// The walk's limits for a monitor: hop budget within 1..=64, at least one
/// query per hop, and a per-query wait within 100..=2000 ms.
#[derive(Debug, Clone, Copy)]
pub struct TraceSettings {
    pub max_hops: u8,
    pub queries: u32,
    pub per_query_ms: u64,
}

pub fn trace_settings(cfg: &TracerouteMonitorConfig) -> (s: TraceSettings)
    ensures
        s.max_hops == (if cfg.max_hops < 1 {
            1
        } else if cfg.max_hops > 64 {
            64
        } else {
            cfg.max_hops
        }),
        s.queries == (if cfg.queries_per_hop < 1 {
            1
        } else {
            cfg.queries_per_hop
        }),
        s.per_query_ms == (if cfg.timeout_ms < 100 {
            100
        } else if cfg.timeout_ms > 2000 {
            2000
        } else {
            cfg.timeout_ms
        }),
{
    let hops = if cfg.max_hops < 1 {
        1
    } else if cfg.max_hops > 64 {
        64
    } else {
        cfg.max_hops
    };
    TraceSettings {
        max_hops: hops as u8,
        queries: if cfg.queries_per_hop < 1 {
            1
        } else {
            cfg.queries_per_hop
        },
        per_query_ms: if cfg.timeout_ms < 100 {
            100
        } else if cfg.timeout_ms > 2000 {
            2000
        } else {
            cfg.timeout_ms
        },
    }
}

/// The sequence number of query `q` at hop `ttl`: `(ttl, q)` encoded so
/// replies can be matched.
pub fn echo_seq(ttl: u8, q: u32) -> (s: u16)
    ensures
        s == (ttl as nat) * 256 + (q % 256) as nat,
{
    (ttl as u16) * 256 + ((q % 256) as u16)
}

// ── The walk ─────────────────────────────────────────────────────────────────

/// How a walk ended.
#[derive(Debug, Clone)]
pub struct TraceOutcome {
    pub hops: Vec<TraceHopInput>,
    pub reached: bool,
    pub dest_addr: Option<[u8; 4]>,
    pub dest_rtt_us: Option<u64>,
    /// A clean failure (`privilege`, `socket_error`, `join_error`).
    pub error: Option<String>,
}

/// Bookkeeping of a traceroute walk: the finished hops, the destination once
/// it replied, and the replies of the hop in progress.
#[derive(Debug)]
pub struct TraceWalk {
    pub hops: Vec<TraceHopInput>,
    pub reached: bool,
    pub dest_addr: Option<[u8; 4]>,
    pub dest_rtt_us: Option<u64>,
    pub hop_addr: Option<[u8; 4]>,
    pub rtts_us: Vec<u64>,
    pub hop_reached: bool,
}

/// The hops of a walk are numbered 1, 2, … in order: hop `k` (from 0) has
/// TTL `k + 1`.
pub open spec fn hops_numbered(hops: Seq<TraceHopInput>) -> bool {
    forall|k: int| 0 <= k < hops.len() ==> (#[trigger] hops[k]).hop_no == k + 1
}

pub open spec fn or_else<T>(a: Option<T>, b: Option<T>) -> Option<T> {
    match a {
        Some(v) => Some(v),
        None => b,
    }
}

pub open spec fn addr_text(a: Option<[u8; 4]>) -> Option<Seq<char>> {
    match a {
        Some(o) => Some(ipv4_text(o@)),
        None => None,
    }
}

impl TraceWalk {
    pub fn new() -> (w: Self)
        ensures
            w.hops@.len() == 0,
            hops_numbered(w.hops@),
            !w.reached,
            w.dest_addr is None,
            w.dest_rtt_us is None,
            w.hop_addr is None,
            w.rtts_us@.len() == 0,
            !w.hop_reached,
    {
        TraceWalk {
            hops: Vec::new(),
            reached: false,
            dest_addr: None,
            dest_rtt_us: None,
            hop_addr: None,
            rtts_us: Vec::new(),
            hop_reached: false,
        }
    }

    /// Starts a new hop: no address, no replies yet.
    pub fn start_hop(&mut self)
        ensures
            final(self).hops@ == old(self).hops@,
            final(self).reached == old(self).reached,
            final(self).dest_addr == old(self).dest_addr,
            final(self).dest_rtt_us == old(self).dest_rtt_us,
            final(self).hop_addr is None,
            final(self).rtts_us@.len() == 0,
            !final(self).hop_reached,
    {
        self.hop_addr = None;
        self.rtts_us = Vec::new();
        self.hop_reached = false;
    }

    /// Records the matched reply of one query: its ICMP type, sender and RTT.
    /// An Echo-Reply or Dest-Unreachable ends the hop's search for the
    /// destination; only an Echo-Reply reaches it.
    pub fn record_reply(&mut self, typ: u8, src: Option<[u8; 4]>, rtt_us: u64)
        ensures
            final(self).hops@ == old(self).hops@,
            final(self).reached == old(self).reached,
            final(self).hop_addr == or_else(src, old(self).hop_addr),
            final(self).rtts_us@ == old(self).rtts_us@.push(rtt_us),
            (typ == 0 || typ == 3) ==> final(self).hop_reached == (typ == 0),
            !(typ == 0 || typ == 3) ==> final(self).hop_reached == old(self).hop_reached,
            typ == 0 ==> final(self).dest_addr == or_else(src, old(self).dest_addr),
            typ != 0 ==> final(self).dest_addr == old(self).dest_addr,
            typ == 0 ==> final(self).dest_rtt_us == or_else(old(self).dest_rtt_us, Some(rtt_us)),
            typ != 0 ==> final(self).dest_rtt_us == old(self).dest_rtt_us,
    {
        self.hop_addr = match src {
            Some(a) => Some(a),
            None => self.hop_addr,
        };
        self.rtts_us.push(rtt_us);
        if typ == ICMP_ECHO_REPLY || typ == ICMP_DEST_UNREACHABLE {
            self.hop_reached = typ == ICMP_ECHO_REPLY;
            if self.hop_reached {
                self.dest_addr = match src {
                    Some(a) => Some(a),
                    None => self.dest_addr,
                };
                if self.dest_rtt_us.is_none() {
                    self.dest_rtt_us = Some(rtt_us);
                }
            }
        }
    }

    /// Closes hop `ttl` after its `queries` queries: appends its statistics
    /// and loss. Returns whether the walk goes on (the destination has not
    /// replied at this hop).
    pub fn finish_hop(&mut self, ttl: u8, queries: u32) -> (more: bool)
        requires
            old(self).rtts_us@.len() <= queries,
            seq_sum(old(self).rtts_us@) <= u64::MAX,
            ttl == old(self).hops@.len() + 1,
        ensures
            final(self).hops@.len() == old(self).hops@.len() + 1,
            hops_numbered(old(self).hops@) ==> hops_numbered(final(self).hops@),
            final(self).hops@.drop_last() == old(self).hops@,
            final(self).hops@.last().hop_no == ttl,
            text_of(final(self).hops@.last().addr) == addr_text(old(self).hop_addr),
            final(self).hops@.last().loss == queries - old(self).rtts_us@.len(),
            old(self).rtts_us@.len() == 0 ==> final(self).hops@.last().min_us is None
                && final(self).hops@.last().avg_us is None && final(self).hops@.last().max_us is None,
            old(self).rtts_us@.len() > 0 ==> final(self).hops@.last().min_us == Some(
                as_stored(seq_min(old(self).rtts_us@)),
            ) && final(self).hops@.last().max_us == Some(as_stored(seq_max(old(self).rtts_us@)))
                && final(self).hops@.last().avg_us == Some(
                as_stored((seq_sum(old(self).rtts_us@) / (old(self).rtts_us@.len() as nat)) as u64),
            ),
            final(self).reached == (old(self).reached || old(self).hop_reached),
            more == !old(self).hop_reached,
            final(self).dest_addr == old(self).dest_addr,
            final(self).dest_rtt_us == old(self).dest_rtt_us,
    {
        let received = self.rtts_us.len() as u32;
        let (min_us, avg_us, max_us) = stats(self.rtts_us.as_slice());
        let addr = match self.hop_addr {
            Some(a) => Some(ipv4_to_string(a)),
            None => None,
        };
        self.hops.push(
            TraceHopInput {
                hop_no: ttl as i64,
                addr,
                min_us,
                avg_us,
                max_us,
                loss: (queries - received) as i64,
            },
        );
        proof {
            if hops_numbered(old(self).hops@) {
                assert forall|k: int| 0 <= k < self.hops@.len() implies (#[trigger] self.hops@[k]).hop_no
                    == k + 1 by {
                    if k < old(self).hops@.len() {
                        assert(self.hops@[k] == old(self).hops@[k]);
                    }
                }
            }
        }
        if self.hop_reached {
            self.reached = true;
            false
        } else {
            true
        }
    }

    /// The walk's outcome, with no error.
    pub fn into_outcome(self) -> (o: TraceOutcome)
        ensures
            o.hops == self.hops,
            o.reached == self.reached,
            o.dest_addr == self.dest_addr,
            o.dest_rtt_us == self.dest_rtt_us,
            o.error is None,
    {
        TraceOutcome {
            hops: self.hops,
            reached: self.reached,
            dest_addr: self.dest_addr,
            dest_rtt_us: self.dest_rtt_us,
            error: None,
        }
    }
}

// ── Summary ──────────────────────────────────────────────────────────────────

/// `n hops · reached d`, `n hops · reached`, or `n hops · dest not reached`.
pub open spec fn hops_note(n: nat, tail: Seq<char>) -> Seq<char> {
    decimal(n) + " hops \u{b7} "@ + tail
}

pub open spec fn any_responded(hops: Seq<TraceHopInput>) -> bool {
    exists|i: int| 0 <= i < hops.len() && (#[trigger] hops[i]).addr is Some
}

fn hops_note_string(n: usize, tail: &str) -> (s: String)
    ensures
        s@ == hops_note(n as nat, tail@),
{
    let mut s = String::new();
    push_decimal(&mut s, n as u64);
    s.append(" hops \u{b7} ");
    s.append(tail);
    proof {
        assert(s@ =~= hops_note(n as nat, tail@));
    }
    s
}

/// The dashboard summary of a walk and the run to store:
/// - a clean failure → down with `privilege_error` (privilege) or the error
///   itself, nothing stored;
/// - destination reached → up with its RTT in ms, detail `n hops · reached d`;
/// - some hop responded → up with 0 ms, detail `n hops · dest not reached`;
/// - nothing responded → down with `no_reply`.
pub fn summarize(cfg: &TracerouteMonitorConfig, outcome: TraceOutcome) -> (r: (
    ProbeResult,
    Option<TraceRunInput>,
))
    ensures
        outcome.error matches Some(e) ==> r.1 is None && is_down_result(
            r.0,
            cfg.name@,
            "traceroute"@,
            cfg.host@,
            if e@ == "privilege"@ {
                "privilege_error"@
            } else {
                e@
            },
        ),
        outcome.error is None ==> r.1 == Some(
            TraceRunInput { reached: outcome.reached, hops: outcome.hops },
        ),
        outcome.error is None && outcome.reached ==> is_up_result(
            r.0,
            cfg.name@,
            "traceroute"@,
            cfg.host@,
            match outcome.dest_rtt_us {
                Some(us) => us / 1000,
                None => 0,
            },
        ) && text_of(r.0.detail) == Some(
            hops_note(
                outcome.hops@.len(),
                match outcome.dest_addr {
                    Some(d) => "reached "@ + ipv4_text(d@),
                    None => "reached"@,
                },
            ),
        ),
        outcome.error is None && !outcome.reached && any_responded(outcome.hops@)
            ==> is_up_result(r.0, cfg.name@, "traceroute"@, cfg.host@, 0) && text_of(r.0.detail)
            == Some(hops_note(outcome.hops@.len(), "dest not reached"@)),
        outcome.error is None && !outcome.reached && !any_responded(outcome.hops@)
            ==> is_down_result(r.0, cfg.name@, "traceroute"@, cfg.host@, "no_reply"@),
        r.0.endpoint@ == MonitorConfig::Traceroute(*cfg).endpoint_view(),
{
    if let Some(err) = &outcome.error {
        if str_eq(err.as_str(), "privilege") {
            return (ProbeResult::down(cfg.name.as_str(), "traceroute", cfg.host.as_str(), "privilege_error"), None);
        }
        return (ProbeResult::down(cfg.name.as_str(), "traceroute", cfg.host.as_str(), err.as_str()), None);
    }
    let hop_count = outcome.hops.len();
    let mut responded = false;
    let mut i: usize = 0;
    while i < outcome.hops.len()
        invariant
            i <= outcome.hops@.len(),
            responded == exists|k: int| 0 <= k < i && (#[trigger] outcome.hops@[k]).addr is Some,
        decreases outcome.hops@.len() - i,
    {
        if outcome.hops[i].addr.is_some() {
            responded = true;
        }
        i = i + 1;
    }
    let reached = outcome.reached;
    let dest_rtt_us = outcome.dest_rtt_us;
    let dest_addr = outcome.dest_addr;
    let run = TraceRunInput { reached, hops: outcome.hops };
    let summary = if reached {
        let dest_ms = match dest_rtt_us {
            Some(us) => us / 1000,
            None => 0,
        };
        let detail = match dest_addr {
            Some(d) => {
                let tail = crate::text::concat2("reached ", ipv4_to_string(d).as_str());
                hops_note_string(hop_count, tail.as_str())
            },
            None => hops_note_string(hop_count, "reached"),
        };
        ProbeResult::up(cfg.name.as_str(), "traceroute", cfg.host.as_str(), dest_ms).with_detail(detail.as_str())
    } else if responded {
        let detail = hops_note_string(hop_count, "dest not reached");
        ProbeResult::up(cfg.name.as_str(), "traceroute", cfg.host.as_str(), 0).with_detail(detail.as_str())
    } else {
        ProbeResult::down(cfg.name.as_str(), "traceroute", cfg.host.as_str(), "no_reply")
    };
    (summary, Some(run))
}

/// The result of a run whose target cannot be walked (`dns_error` when it
/// does not resolve, `ipv6_unsupported` for an IPv6 target); nothing is stored.
pub fn target_failure(cfg: &TracerouteMonitorConfig, reason: &str) -> (r: (
    ProbeResult,
    Option<TraceRunInput>,
))
    ensures
        is_down_result(r.0, cfg.name@, "traceroute"@, cfg.host@, reason@),
        r.0.endpoint@ == MonitorConfig::Traceroute(*cfg).endpoint_view(),
        r.1 is None,
{
    (ProbeResult::down(cfg.name.as_str(), "traceroute", cfg.host.as_str(), reason), None)
}

} // verus!
