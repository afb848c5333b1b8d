//! Stored rows and the computations made on them: the row shapes handed to
//! and read from storage, timestamp text, the bucketing plan of a response-time
//! series, and the collapsing of probes into state segments.

use vstd::prelude::*;
use crate::probe::text_of;
use crate::text::{first_token, first_token_of};

verus! {

/// The latest probe of one monitor.
#[derive(Debug, Clone)]
pub struct CurrentStatus {
    pub monitor_name: String,
    /// Supplied by the API layer from the monitor config (not stored per row).
    pub protocol: String,
    pub endpoint: String,
    pub status: String,
    pub response_time_ms: Option<i64>,
    pub failure_reason: Option<String>,
    pub detail: Option<String>,
    pub checked_at: String,
}

/// One stored probe of a monitor's history.
#[derive(Debug, Clone)]
pub struct HistoryRow {
    pub id: i64,
    pub monitor_name: String,
    /// Supplied by the API layer from the monitor config (not stored per row).
    pub protocol: String,
    pub endpoint: String,
    pub status: String,
    pub response_time_ms: Option<i64>,
    pub failure_reason: Option<String>,
    pub detail: Option<String>,
    pub checked_at: String,
}

/// A collapsed state run: a contiguous span where the probe's leading detail
/// token (the IP for public-IP monitors; the fault class for border) was the
/// same value. No state means the monitor was down or had no detail.
#[derive(Debug, Clone)]
pub struct StateSegment {
    pub state: Option<String>,
    pub start_ms: i64,
    pub end_ms: i64,
}

/// One hop's per-run statistics. A non-responding hop has no address and no
/// RTTs; `loss` is the number of the run's queries at this hop without reply.
#[derive(Debug, Clone)]
pub struct TraceHopInput {
    pub hop_no: i64,
    pub addr: Option<String>,
    pub min_us: Option<i64>,
    pub avg_us: Option<i64>,
    pub max_us: Option<i64>,
    pub loss: i64,
}

/// A single traceroute run: whether the destination replied, and its hops.
#[derive(Debug, Clone)]
pub struct TraceRunInput {
    pub reached: bool,
    pub hops: Vec<TraceHopInput>,
}

// ── Timestamps ───────────────────────────────────────────────────────────────

/// The RFC 3339 text that `chrono` gives the instant `ms` milliseconds after
/// the Unix epoch (the epoch itself when `ms` is out of `chrono`'s range).
pub uninterp spec fn rfc3339_of_epoch_ms(ms: i64) -> Seq<char>;

/// Formats a stored epoch-millisecond timestamp as RFC 3339, through
/// `chrono::DateTime::<Utc>::from_timestamp_millis` and `to_rfc3339`; an
/// out-of-range value gives the epoch, as `unwrap_or_default` does. The text
/// is named, not stated: it is a function of `ms` alone.
#[verifier::external_body]
pub(crate) fn epoch_ms_to_rfc3339(ms: i64) -> (s: String)
    ensures
        s@ == rfc3339_of_epoch_ms(ms),
{
    chrono::DateTime::<chrono::Utc>::from_timestamp_millis(ms).unwrap_or_default().to_rfc3339()
}

impl CurrentStatus {
    /// The latest status from a stored row's columns: protocol and endpoint
    /// are left empty (the API layer supplies them from the monitor's config)
    /// and the epoch-millisecond time becomes RFC 3339.
    pub fn from_columns(
        monitor_name: String,
        status: String,
        response_time_ms: Option<i64>,
        failure_reason: Option<String>,
        detail: Option<String>,
        checked_at_ms: i64,
    ) -> (c: Self)
        ensures
            c.monitor_name == monitor_name,
            c.protocol@.len() == 0,
            c.endpoint@.len() == 0,
            c.status == status,
            c.response_time_ms == response_time_ms,
            c.failure_reason == failure_reason,
            c.detail == detail,
            c.checked_at@ == rfc3339_of_epoch_ms(checked_at_ms),
    {
        CurrentStatus {
            monitor_name,
            protocol: String::new(),
            endpoint: String::new(),
            status,
            response_time_ms,
            failure_reason,
            detail,
            checked_at: epoch_ms_to_rfc3339(checked_at_ms),
        }
    }
}

impl HistoryRow {
    /// A history row from a stored row's columns, as [`CurrentStatus::from_columns`].
    pub fn from_columns(
        id: i64,
        monitor_name: String,
        status: String,
        response_time_ms: Option<i64>,
        failure_reason: Option<String>,
        detail: Option<String>,
        checked_at_ms: i64,
    ) -> (r: Self)
        ensures
            r.id == id,
            r.monitor_name == monitor_name,
            r.protocol@.len() == 0,
            r.endpoint@.len() == 0,
            r.status == status,
            r.response_time_ms == response_time_ms,
            r.failure_reason == failure_reason,
            r.detail == detail,
            r.checked_at@ == rfc3339_of_epoch_ms(checked_at_ms),
    {
        HistoryRow {
            id,
            monitor_name,
            protocol: String::new(),
            endpoint: String::new(),
            status,
            response_time_ms,
            failure_reason,
            detail,
            checked_at: epoch_ms_to_rfc3339(checked_at_ms),
        }
    }
}

/// The extent of stored data from its earliest and latest times (epoch ms):
/// both as RFC 3339, or none when either is missing (no data).
pub fn time_extent(lo: Option<i64>, hi: Option<i64>) -> (e: Option<(String, String)>)
    ensures
        match (lo, hi) {
            (Some(l), Some(h)) => e matches Some(p) && p.0@ == rfc3339_of_epoch_ms(l) && p.1@
                == rfc3339_of_epoch_ms(h),
            _ => e is None,
        },
{
    match (lo, hi) {
        (Some(l), Some(h)) => Some((epoch_ms_to_rfc3339(l), epoch_ms_to_rfc3339(h))),
        _ => None,
    }
}

// ── Traceroute hop addresses ─────────────────────────────────────────────────

/// The address of hop `hop_no` among a run's `(hop, address)` rows: the last
/// row for that hop, as a map collected from the rows keeps it.
pub open spec fn hop_addr_of(rows: Seq<(i64, String)>, hop_no: i64) -> Option<Seq<char>>
    decreases rows.len(),
{
    if rows.len() == 0 {
        None
    } else if rows.last().0 == hop_no {
        Some(rows.last().1@)
    } else {
        hop_addr_of(rows.drop_last(), hop_no)
    }
}

/// A hop has an address exactly when some row is for it, and then it is the
/// address of the last such row.
pub proof fn lemma_hop_addr_is_last(rows: Seq<(i64, String)>, hop_no: i64)
    ensures
        hop_addr_of(rows, hop_no) is None <==> forall|k: int|
            0 <= k < rows.len() ==> (#[trigger] rows[k]).0 != hop_no,
        hop_addr_of(rows, hop_no) is Some ==> exists|k: int|
            0 <= k < rows.len() && (#[trigger] rows[k]).0 == hop_no && hop_addr_of(rows, hop_no)
                == Some(rows[k].1@) && forall|j: int| k < j < rows.len() ==> rows[j].0 != hop_no,
    decreases rows.len(),
{
    if rows.len() > 0 {
        let p = rows.drop_last();
        lemma_hop_addr_is_last(p, hop_no);
        let n = rows.len() - 1;
        assert(rows[n] == rows.last());
        assert forall|k: int| 0 <= k < p.len() implies #[trigger] p[k] == rows[k] by {}
        if rows.last().0 != hop_no && hop_addr_of(p, hop_no) is Some {
            let k = choose|k: int|
                0 <= k < p.len() && (#[trigger] p[k]).0 == hop_no && hop_addr_of(p, hop_no) == Some(
                    p[k].1@,
                ) && forall|j: int| k < j < p.len() ==> p[j].0 != hop_no;
            assert(rows[k] == p[k]);
            assert forall|j: int| k < j < rows.len() implies rows[j].0 != hop_no by {
                if j < p.len() {
                    assert(rows[j] == p[j]);
                }
            }
        }
        if rows.last().0 != hop_no && hop_addr_of(p, hop_no) is None {
            assert forall|k: int| 0 <= k < rows.len() implies (#[trigger] rows[k]).0 != hop_no by {
                if k < p.len() {
                    assert(rows[k] == p[k]);
                }
            }
        }
    }
}

/// The address shown for hop `hop_no`: the one its row of the latest run gives.
pub fn hop_address(rows: &Vec<(i64, String)>, hop_no: i64) -> (a: Option<String>)
    ensures
        text_of(a) == hop_addr_of(rows@, hop_no),
        a is None <==> forall|k: int| 0 <= k < rows@.len() ==> (#[trigger] rows@[k]).0 != hop_no,
        a is Some ==> exists|k: int|
            0 <= k < rows@.len() && (#[trigger] rows@[k]).0 == hop_no && text_of(a) == Some(
                rows@[k].1@,
            ) && forall|j: int| k < j < rows@.len() ==> rows@[j].0 != hop_no,
{
    proof {
        lemma_hop_addr_is_last(rows@, hop_no);
    }
    let mut i = rows.len();
    proof {
        assert(rows@.take(i as int) =~= rows@);
    }
    while i > 0
        invariant
            i <= rows@.len(),
            hop_addr_of(rows@, hop_no) == hop_addr_of(rows@.take(i as int), hop_no),
        decreases i,
    {
        proof {
            assert(rows@.take(i as int).drop_last() =~= rows@.take(i - 1));
            assert(rows@.take(i as int).last() == rows@[i - 1]);
        }
        if rows[i - 1].0 == hop_no {
            let found = rows[i - 1].1.clone();
            proof {
                assert(text_of(Some(found)) == hop_addr_of(rows@, hop_no));
                lemma_hop_addr_is_last(rows@, hop_no);
            }
            return Some(found);
        }
        i = i - 1;
    }
    None
}

// ── History bounds ───────────────────────────────────────────────────────────

/// The inclusive epoch-millisecond bounds of a history query: an open end is
/// unbounded.
pub fn history_bounds(from_ms: Option<i64>, to_ms: Option<i64>) -> (b: (i64, i64))
    ensures
        b.0 == match from_ms {
            Some(v) => v,
            None => i64::MIN,
        },
        b.1 == match to_ms {
            Some(v) => v,
            None => i64::MAX,
        },
{
    (
        match from_ms {
            Some(v) => v,
            None => i64::MIN,
        },
        match to_ms {
            Some(v) => v,
            None => i64::MAX,
        },
    )
}

// ── Series bucketing ─────────────────────────────────────────────────────────

/// How a response-time series over `[from, to]` is bucketed.
#[derive(Debug, Clone, Copy, PartialEq, Eq)]
pub struct SeriesPlan {
    /// Number of buckets, within 1..=5000.
    pub buckets: i64,
    /// Span of the range in seconds, at least 1.
    pub span_secs: i64,
    /// Whether each bucket spans a minute or more, so the per-minute rollup
    /// can serve the series.
    pub use_rollup: bool,
}

pub open spec fn clamp_i64(v: i64, lo: i64, hi: i64) -> i64 {
    if v < lo {
        lo
    } else if v > hi {
        hi
    } else {
        v
    }
}

/// The plan for `buckets` requested buckets over `[from_epoch, to_epoch]`
/// (seconds).
pub fn series_plan(from_epoch: i64, to_epoch: i64, buckets: i64) -> (p: SeriesPlan)
    requires
        i64::MIN <= to_epoch - from_epoch <= i64::MAX,
    ensures
        p.buckets == clamp_i64(buckets, 1, 5000),
        p.span_secs == (if to_epoch - from_epoch < 1 {
            1
        } else {
            to_epoch - from_epoch
        }),
        p.use_rollup == ((p.span_secs as int) / (p.buckets as int) >= 60),
        1 <= p.buckets <= 5000,
        p.span_secs >= 1,
{
    let n = if buckets < 1 {
        1
    } else if buckets > 5000 {
        5000
    } else {
        buckets
    };
    let d = to_epoch - from_epoch;
    let span = if d < 1 {
        1
    } else {
        d
    };
    SeriesPlan { buckets: n, span_secs: span, use_rollup: span / n >= 60 }
}

/// The start (epoch seconds) of bucket `bucket` of a plan over a range that
/// begins at `from_epoch`.
pub fn bucket_start(from_epoch: i64, plan: SeriesPlan, bucket: i64) -> (ts: i64)
    requires
        1 <= plan.buckets,
        plan.span_secs >= 1,
        0 <= bucket < plan.buckets,
        plan.buckets <= 5000,
        from_epoch + plan.span_secs <= i64::MAX,
        plan.span_secs * 5000 <= i64::MAX,
    ensures
        ts == from_epoch + (bucket * plan.span_secs) / (plan.buckets as int),
        from_epoch <= ts <= from_epoch + plan.span_secs,
{
    proof {
        assert(0 <= bucket * plan.span_secs <= plan.buckets * plan.span_secs) by (nonlinear_arith)
            requires
                0 <= bucket < plan.buckets,
                plan.span_secs >= 1,
        ;
        assert(plan.buckets * plan.span_secs <= 5000 * plan.span_secs) by (nonlinear_arith)
            requires
                plan.buckets <= 5000,
                plan.span_secs >= 1,
        ;
        assert((bucket * plan.span_secs) / (plan.buckets as int) <= plan.span_secs) by (nonlinear_arith)
            requires
                0 <= bucket * plan.span_secs <= plan.buckets * plan.span_secs,
                plan.buckets >= 1,
        ;
    }
    from_epoch + (bucket * plan.span_secs) / plan.buckets
}

// ── State segments ───────────────────────────────────────────────────────────

/// The state of a probe: the leading token of its detail.
pub open spec fn state_of(detail: Option<String>) -> Option<Seq<char>> {
    match detail {
        Some(d) => first_token(d@),
        None => None,
    }
}

/// A segment as (state, start, end).
pub type Seg = (Option<Seq<char>>, i64, i64);

pub open spec fn seg_view(s: StateSegment) -> Seg {
    (text_of(s.state), s.start_ms, s.end_ms)
}

/// Probes `(state, time)` in ascending time, merged into runs of one state;
/// each run ends where the next begins, the last at its own last probe.
pub open spec fn collapse(rows: Seq<(Option<Seq<char>>, i64)>) -> Seq<Seg>
    decreases rows.len(),
{
    if rows.len() == 0 {
        Seq::empty()
    } else {
        let segs = collapse(rows.drop_last());
        let x = rows.last();
        if segs.len() > 0 && segs.last().0 == x.0 {
            segs.update(segs.len() - 1, (segs.last().0, segs.last().1, x.1))
        } else if segs.len() > 0 {
            segs.update(segs.len() - 1, (segs.last().0, segs.last().1, x.1)).push(
                (x.0, x.1, x.1),
            )
        } else {
            seq![(x.0, x.1, x.1)]
        }
    }
}

/// The segments of a window: the collapsed runs, the last one extended to
/// the window's end.
pub open spec fn window_segments(rows: Seq<(Option<Seq<char>>, i64)>, to_ms: i64) -> Seq<Seg> {
    let segs = collapse(rows);
    if segs.len() > 0 {
        segs.update(segs.len() - 1, (segs.last().0, segs.last().1, to_ms))
    } else {
        segs
    }
}

pub open spec fn row_states(rows: Seq<(Option<String>, i64)>) -> Seq<(Option<Seq<char>>, i64)> {
    rows.map_values(|r: (Option<String>, i64)| (state_of(r.0), r.1))
}

proof fn lemma_collapse_shape(rows: Seq<(Option<Seq<char>>, i64)>)
    ensures
        collapse(rows).len() <= rows.len(),
        rows.len() > 0 ==> collapse(rows).len() > 0,
        forall|i: int|
            0 <= i < collapse(rows).len() - 1 ==> #[trigger] collapse(rows)[i].0 != collapse(
                rows,
            )[i + 1].0,
    decreases rows.len(),
{
    if rows.len() > 0 {
        lemma_collapse_shape(rows.drop_last());
    }
}

/// The runs tile the probes' span: the first starts at the first probe, each
/// ends where the next begins, and the last ends at the last probe.
pub proof fn lemma_collapse_links(rows: Seq<(Option<Seq<char>>, i64)>)
    requires
        rows.len() > 0,
    ensures
        collapse(rows).len() > 0,
        collapse(rows)[0].1 == rows[0].1,
        collapse(rows).last().2 == rows.last().1,
        forall|i: int|
            0 <= i < collapse(rows).len() - 1 ==> (#[trigger] collapse(rows)[i]).2 == collapse(
                rows,
            )[i + 1].1,
    decreases rows.len(),
{
    let p = rows.drop_last();
    let x = rows.last();
    let c = collapse(rows);
    if rows.len() > 1 {
        lemma_collapse_links(p);
        let segs = collapse(p);
        assert(p[0] == rows[0]);
        let u = segs.update(segs.len() - 1, (segs.last().0, segs.last().1, x.1));
        if segs.last().0 == x.0 {
            assert(c == u);
            assert forall|i: int| 0 <= i < c.len() - 1 implies (#[trigger] c[i]).2 == c[i + 1].1 by {
                assert(c[i] == segs[i]);
                assert(c[i + 1].1 == segs[i + 1].1);
            }
        } else {
            assert(c == u.push((x.0, x.1, x.1)));
            assert forall|i: int| 0 <= i < c.len() - 1 implies (#[trigger] c[i]).2 == c[i + 1].1 by {
                if i < segs.len() - 1 {
                    assert(c[i] == segs[i]);
                    assert(c[i + 1].1 == segs[i + 1].1);
                } else {
                    assert(c[i].2 == x.1);
                    assert(c[i + 1] == (x.0, x.1, x.1));
                }
            }
        }
        assert(c[0].1 == segs[0].1);
    } else {
        assert(p.len() == 0);
        assert(collapse(p) =~= Seq::<Seg>::empty());
        assert(c == seq![(x.0, x.1, x.1)]);
        assert(rows[0] == x);
    }
}

fn same_state(a: &Option<String>, b: &Option<String>) -> (eq: bool)
    ensures
        eq == (text_of(*a) == text_of(*b)),
{
    match (a, b) {
        (Some(x), Some(y)) => crate::text::str_eq(x.as_str(), y.as_str()),
        (None, None) => true,
        _ => false,
    }
}

fn state_of_detail(detail: &Option<String>) -> (s: Option<String>)
    ensures
        text_of(s) == state_of(*detail),
{
    match detail {
        Some(d) => first_token_of(d.as_str()),
        None => None,
    }
}

/// Collapses a window's probes `(detail, checked_at)`, in ascending time, into
/// state segments: consecutive probes with the same leading detail token are
/// merged, and the last segment runs to `to_ms`. The result is bounded by the
/// number of state changes, not the number of probes.
pub fn collapse_state_segments(rows: &Vec<(Option<String>, i64)>, to_ms: i64) -> (segs: Vec<
    StateSegment,
>)
    ensures
        segs@.map_values(|s: StateSegment| seg_view(s)) == window_segments(
            row_states(rows@),
            to_ms,
        ),
        segs@.len() <= rows@.len(),
        forall|i: int|
            0 <= i < segs@.len() - 1 ==> text_of(#[trigger] segs@[i].state) != text_of(
                segs@[i + 1].state,
            ),
        rows@.len() == 0 <==> segs@.len() == 0,
        rows@.len() > 0 ==> segs@[0].start_ms == rows@[0].1 && segs@.last().end_ms == to_ms,
        forall|i: int|
            0 <= i < segs@.len() - 1 ==> (#[trigger] segs@[i]).end_ms == segs@[i + 1].start_ms,
{
    let ghost states = row_states(rows@);
    let mut segs: Vec<StateSegment> = Vec::new();
    let mut i: usize = 0;
    while i < rows.len()
        invariant
            i <= rows@.len(),
            states == row_states(rows@),
            states.len() == rows@.len(),
            segs@.map_values(|s: StateSegment| seg_view(s)) == collapse(states.take(i as int)),
        decreases rows@.len() - i,
    {
        let state = state_of_detail(&rows[i].0);
        let t = rows[i].1;
        let ghost before = segs@.map_values(|s: StateSegment| seg_view(s));
        proof {
            assert(states.take(i + 1).drop_last() =~= states.take(i as int));
            assert(states.take(i + 1).last() == states[i as int]);
            assert(states[i as int] == (state_of(rows@[i as int].0), rows@[i as int].1));
        }
        let n = segs.len();
        if n > 0 && same_state(&segs[n - 1].state, &state) {
            let slot = &mut segs[n - 1];
            slot.end_ms = t;
            proof {
                assert(segs@.map_values(|s: StateSegment| seg_view(s)) =~= before.update(
                    n - 1,
                    (before.last().0, before.last().1, t),
                ));
            }
        } else {
            if n > 0 {
                let slot = &mut segs[n - 1];
                slot.end_ms = t;
            }
            segs.push(StateSegment { state, start_ms: t, end_ms: t });
            proof {
                if n > 0 {
                    assert(segs@.map_values(|s: StateSegment| seg_view(s)) =~= before.update(
                        n - 1,
                        (before.last().0, before.last().1, t),
                    ).push((text_of(state), t, t)));
                } else {
                    assert(segs@.map_values(|s: StateSegment| seg_view(s)) =~= seq![
                        (text_of(state), t, t),
                    ]);
                }
            }
        }
        i = i + 1;
    }
    proof {
        assert(states.take(rows@.len() as int) =~= states);
        lemma_collapse_shape(states);
        if states.len() > 0 {
            lemma_collapse_links(states);
        }
    }
    let n = segs.len();
    if n > 0 {
        let ghost before = segs@.map_values(|s: StateSegment| seg_view(s));
        let slot = &mut segs[n - 1];
        slot.end_ms = to_ms;
        proof {
            assert(segs@.map_values(|s: StateSegment| seg_view(s)) =~= before.update(
                n - 1,
                (before.last().0, before.last().1, to_ms),
            ));
        }
    }
    proof {
        let v = segs@.map_values(|s: StateSegment| seg_view(s));
        assert forall|i: int| 0 <= i < segs@.len() - 1 implies text_of(
            #[trigger] segs@[i].state,
        ) != text_of(segs@[i + 1].state) by {
            assert(v[i].0 == collapse(states)[i].0);
            assert(v[i + 1].0 == collapse(states)[i + 1].0);
        }
        assert forall|i: int| 0 <= i < segs@.len() - 1 implies (#[trigger] segs@[i]).end_ms
            == segs@[i + 1].start_ms by {
            assert(v[i].2 == collapse(states)[i].2);
            assert(v[i + 1].1 == collapse(states)[i + 1].1);
        }
        if rows@.len() > 0 {
            assert(v[0].1 == collapse(states)[0].1);
            assert(states[0] == (state_of(rows@[0].0), rows@[0].1));
            assert(v[v.len() - 1].2 == to_ms);
        }
    }
    segs
}

} // verus!
