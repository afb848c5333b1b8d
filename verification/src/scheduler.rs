//! Scheduling decisions: which monitor tasks to stop, start or restart when
//! the monitor list changes, when a task's first probe fires, how far back
//! retention prunes, and how the per-minute rollup advances.

use vstd::prelude::*;

verus! {

// ── Hot reload ───────────────────────────────────────────────────────────────

/// One step of reconciling the running tasks with the monitor list.
#[derive(Debug, Clone, Copy, PartialEq, Eq)]
pub enum ReloadAction {
    /// Cancel the task of this monitor id (removed or disabled).
    Stop(i64),
    /// Spawn a task for the desired monitor at this position (not running yet).
    Start(usize),
    /// Cancel and respawn the task for the desired monitor at this position
    /// (its config changed).
    Restart(usize),
}

/// Running tasks as (monitor id, config key).
pub type Running = Seq<(i64, Seq<char>)>;

/// Desired monitors as (monitor id, enabled, config key).
pub type Desired = Seq<(i64, bool, Seq<char>)>;

pub open spec fn running_view(v: Seq<(i64, String)>) -> Running {
    v.map_values(|r: (i64, String)| (r.0, r.1@))
}

pub open spec fn desired_view(v: Seq<(i64, bool, String)>) -> Desired {
    v.map_values(|d: (i64, bool, String)| (d.0, d.1, d.2@))
}

/// Some enabled desired monitor has this id.
pub open spec fn wanted(desired: Desired, id: i64) -> bool {
    exists|j: int| 0 <= j < desired.len() && #[trigger] desired[j].0 == id && desired[j].1
}

/// The config key of the running task of `id`, if any.
pub open spec fn running_key(running: Running, id: i64) -> Option<Seq<char>>
    decreases running.len(),
{
    if running.len() == 0 {
        None
    } else if running.last().0 == id {
        Some(running.last().1)
    } else {
        running_key(running.drop_last(), id)
    }
}

/// Stops, in running order, for the tasks no enabled monitor wants.
pub open spec fn stop_actions(running: Running, desired: Desired) -> Seq<ReloadAction>
    decreases running.len(),
{
    if running.len() == 0 {
        Seq::empty()
    } else {
        stop_actions(running.drop_last(), desired) + if !wanted(desired, running.last().0) {
            seq![ReloadAction::Stop(running.last().0)]
        } else {
            Seq::empty()
        }
    }
}

/// What the desired monitor at position `j` needs: nothing when disabled or
/// running unchanged, a start when not running, a restart when its key changed.
pub open spec fn action_for(running: Running, desired: Desired, j: int) -> Seq<ReloadAction> {
    let d = desired[j];
    if !d.1 {
        Seq::empty()
    } else {
        match running_key(running, d.0) {
            None => seq![ReloadAction::Start(j as usize)],
            Some(k) => if k == d.2 {
                Seq::empty()
            } else {
                seq![ReloadAction::Restart(j as usize)]
            },
        }
    }
}

/// Starts and restarts, in desired order, for the first `n` desired monitors.
pub open spec fn start_actions(running: Running, desired: Desired, n: int) -> Seq<ReloadAction>
    decreases n,
{
    if n <= 0 {
        Seq::empty()
    } else {
        start_actions(running, desired, n - 1) + action_for(running, desired, n - 1)
    }
}

/// The reconciliation plan: stops first, then starts and restarts.
pub open spec fn reload_plan(running: Running, desired: Desired) -> Seq<ReloadAction> {
    stop_actions(running, desired) + start_actions(running, desired, desired.len() as int)
}

fn is_wanted(desired: &Vec<(i64, bool, String)>, id: i64) -> (w: bool)
    ensures
        w == wanted(desired_view(desired@), id),
{
    let ghost dv = desired_view(desired@);
    let mut j: usize = 0;
    while j < desired.len()
        invariant
            dv == desired_view(desired@),
            j <= desired@.len(),
            forall|k: int| 0 <= k < j ==> !(#[trigger] dv[k].0 == id && dv[k].1),
        decreases desired@.len() - j,
    {
        if desired[j].0 == id && desired[j].1 {
            proof {
                assert(dv[j as int].0 == id && dv[j as int].1);
            }
            return true;
        }
        j = j + 1;
    }
    false
}

fn key_of(running: &Vec<(i64, String)>, id: i64) -> (k: Option<&String>)
    ensures
        match (k, running_key(running_view(running@), id)) {
            (Some(a), Some(b)) => a@ == b,
            (None, None) => true,
            _ => false,
        },
{
    let ghost rv = running_view(running@);
    let mut i = running.len();
    proof {
        assert(rv.take(i as int) =~= rv);
    }
    while i > 0
        invariant
            rv == running_view(running@),
            i <= running@.len(),
            running_key(rv, id) == running_key(rv.take(i as int), id),
        decreases i,
    {
        proof {
            assert(rv.take(i as int).drop_last() =~= rv.take(i - 1));
            assert(rv.take(i as int).last() == rv[i - 1]);
        }
        if running[i - 1].0 == id {
            return Some(&running[i - 1].1);
        }
        i = i - 1;
    }
    proof {
        assert(rv.take(0) =~= Seq::<(i64, Seq<char>)>::empty());
    }
    None
}

/// Reconciles running tasks with the monitor list, keyed by stable id so a
/// renamed monitor keeps its task: tasks of removed or disabled monitors
/// stop; enabled monitors without a task start; those whose config key
/// changed restart; the rest keep running untouched.
pub fn plan_reload(running: &Vec<(i64, String)>, desired: &Vec<(i64, bool, String)>) -> (plan: Vec<
    ReloadAction,
>)
    ensures
        plan@ == reload_plan(running_view(running@), desired_view(desired@)),
{
    let ghost rv = running_view(running@);
    let ghost dv = desired_view(desired@);
    let mut plan: Vec<ReloadAction> = Vec::new();
    let mut i: usize = 0;
    while i < running.len()
        invariant
            rv == running_view(running@),
            dv == desired_view(desired@),
            i <= running@.len(),
            plan@ == stop_actions(rv.take(i as int), dv),
        decreases running@.len() - i,
    {
        proof {
            assert(rv.take(i + 1).drop_last() =~= rv.take(i as int));
            assert(rv.take(i + 1).last() == rv[i as int]);
        }
        let id = running[i].0;
        if !is_wanted(desired, id) {
            plan.push(ReloadAction::Stop(id));
        } else {
            proof {
                assert(plan@ + Seq::<ReloadAction>::empty() =~= plan@);
            }
        }
        i = i + 1;
    }
    proof {
        assert(rv.take(running@.len() as int) =~= rv);
    }
    let ghost stops = plan@;
    let mut j: usize = 0;
    while j < desired.len()
        invariant
            rv == running_view(running@),
            dv == desired_view(desired@),
            j <= desired@.len(),
            stops == stop_actions(rv, dv),
            plan@ == stops + start_actions(rv, dv, j as int),
        decreases desired@.len() - j,
    {
        let ghost before = plan@;
        if desired[j].1 {
            match key_of(running, desired[j].0) {
                None => plan.push(ReloadAction::Start(j)),
                Some(k) => {
                    if !crate::text::str_eq(k.as_str(), desired[j].2.as_str()) {
                        plan.push(ReloadAction::Restart(j));
                    }
                },
            }
        }
        proof {
            assert(plan@ =~= before + action_for(rv, dv, j as int));
            assert(stops + start_actions(rv, dv, j + 1) =~= stops + start_actions(rv, dv, j as int)
                + action_for(rv, dv, j as int));
        }
        j = j + 1;
    }
    plan
}

// ── The reconciliation law ───────────────────────────────────────────────────

/// Running tasks as a map from monitor id to config key.
pub open spec fn running_map(running: Running) -> Map<i64, Seq<char>>
    decreases running.len(),
{
    if running.len() == 0 {
        Map::empty()
    } else {
        running_map(running.drop_last()).insert(running.last().0, running.last().1)
    }
}

/// The tasks that should run: each enabled monitor's id, with its config key.
pub open spec fn desired_map(desired: Desired) -> Map<i64, Seq<char>>
    decreases desired.len(),
{
    if desired.len() == 0 {
        Map::empty()
    } else if desired.last().1 {
        desired_map(desired.drop_last()).insert(desired.last().0, desired.last().2)
    } else {
        desired_map(desired.drop_last())
    }
}

pub open spec fn apply_action(m: Map<i64, Seq<char>>, a: ReloadAction, desired: Desired) -> Map<
    i64,
    Seq<char>,
> {
    match a {
        ReloadAction::Stop(id) => m.remove(id),
        ReloadAction::Start(j) => m.insert(desired[j as int].0, desired[j as int].2),
        ReloadAction::Restart(j) => m.insert(desired[j as int].0, desired[j as int].2),
    }
}

/// The running tasks after carrying out `plan` in order.
pub open spec fn apply_plan(m: Map<i64, Seq<char>>, plan: Seq<ReloadAction>, desired: Desired) -> Map<
    i64,
    Seq<char>,
>
    decreases plan.len(),
{
    if plan.len() == 0 {
        m
    } else {
        apply_action(apply_plan(m, plan.drop_last(), desired), plan.last(), desired)
    }
}

pub open spec fn unique_desired(desired: Desired) -> bool {
    forall|i: int, k: int|
        0 <= i < desired.len() && 0 <= k < desired.len() && i != k ==> #[trigger] desired[i].0
            != #[trigger] desired[k].0
}

proof fn lemma_apply_concat(
    m: Map<i64, Seq<char>>,
    a: Seq<ReloadAction>,
    b: Seq<ReloadAction>,
    d: Desired,
)
    ensures
        apply_plan(m, a + b, d) == apply_plan(apply_plan(m, a, d), b, d),
    decreases b.len(),
{
    if b.len() == 0 {
        assert(a + b =~= a);
    } else {
        assert((a + b).drop_last() =~= a + b.drop_last());
        assert((a + b).last() == b.last());
        lemma_apply_concat(m, a, b.drop_last(), d);
    }
}

proof fn lemma_running_map(running: Running)
    ensures
        forall|id: i64| #[trigger]
            running_map(running).dom().contains(id) <==> running_key(running, id) is Some,
        forall|id: i64|
            running_map(running).dom().contains(id) ==> running_map(running)[id] == running_key(
                running,
                id,
            )->0,
        forall|id: i64|
            running_key(running, id) is Some <==> exists|i: int|
                0 <= i < running.len() && #[trigger] running[i].0 == id,
    decreases running.len(),
{
    if running.len() > 0 {
        let r = running.drop_last();
        lemma_running_map(r);
        assert forall|id: i64|
            running_key(running, id) is Some <==> exists|i: int|
                0 <= i < running.len() && #[trigger] running[i].0 == id by {
            if running.last().0 != id {
                assert(running_key(running, id) == running_key(r, id));
                if running_key(r, id) is Some {
                    let i = choose|i: int| 0 <= i < r.len() && #[trigger] r[i].0 == id;
                    assert(running[i].0 == id);
                }
            } else {
                assert(running[running.len() - 1].0 == id);
            }
            if exists|i: int| 0 <= i < running.len() && #[trigger] running[i].0 == id {
                let i = choose|i: int| 0 <= i < running.len() && #[trigger] running[i].0 == id;
                if i < running.len() - 1 && running.last().0 != id {
                    assert(r[i].0 == id);
                    assert(running_key(r, id) is Some);
                }
            }
        }
        assert forall|id: i64| #[trigger]
            running_map(running).dom().contains(id) <==> running_key(running, id) is Some by {
            if running.last().0 != id {
                assert(running_map(r).dom().contains(id) <==> running_key(r, id) is Some);
            }
        }
        assert forall|id: i64|
            running_map(running).dom().contains(id) implies running_map(running)[id]
            == running_key(running, id)->0 by {
            if running.last().0 != id {
                assert(running_map(r).dom().contains(id));
                assert(running_map(r)[id] == running_key(r, id)->0);
            }
        }
    }
}

/// The stops remove exactly the tasks no enabled monitor wants.
proof fn lemma_stops(m: Map<i64, Seq<char>>, running: Running, desired: Desired)
    ensures
        apply_plan(m, stop_actions(running, desired), desired) == m.remove_keys(
            Set::new(
                |id: i64|
                    (exists|i: int| 0 <= i < running.len() && #[trigger] running[i].0 == id)
                        && !wanted(desired, id),
            ),
        ),
    decreases running.len(),
{
    let s = Set::new(
        |id: i64|
            (exists|i: int| 0 <= i < running.len() && #[trigger] running[i].0 == id) && !wanted(
                desired,
                id,
            ),
    );
    if running.len() == 0 {
        assert(m.remove_keys(s) =~= m);
    } else {
        let r = running.drop_last();
        let x = running.last();
        let s0 = Set::new(
            |id: i64|
                (exists|i: int| 0 <= i < r.len() && #[trigger] r[i].0 == id) && !wanted(
                    desired,
                    id,
                ),
        );
        lemma_stops(m, r, desired);
        let tail = if !wanted(desired, x.0) {
            seq![ReloadAction::Stop(x.0)]
        } else {
            Seq::<ReloadAction>::empty()
        };
        lemma_apply_concat(m, stop_actions(r, desired), tail, desired);
        assert forall|id: i64| s.contains(id) <==> (s0.contains(id) || (id == x.0 && !wanted(
            desired,
            id,
        ))) by {
            if s.contains(id) && id != x.0 {
                let i = choose|i: int| 0 <= i < running.len() && #[trigger] running[i].0 == id;
                assert(r[i].0 == id);
            }
            if s0.contains(id) {
                let i = choose|i: int| 0 <= i < r.len() && #[trigger] r[i].0 == id;
                assert(running[i].0 == id);
            }
            if id == x.0 && !wanted(desired, id) {
                assert(running[running.len() - 1].0 == id);
            }
        }
        if !wanted(desired, x.0) {
            reveal_with_fuel(apply_plan, 2);
            assert(apply_plan(m.remove_keys(s0), tail, desired) == m.remove_keys(s0).remove(x.0));
            assert(m.remove_keys(s0).remove(x.0) =~= m.remove_keys(s));
        } else {
            assert(m.remove_keys(s0) =~= m.remove_keys(s));
        }
    }
}

proof fn lemma_wanted_last(desired: Desired, id: i64)
    requires
        desired.len() > 0,
    ensures
        wanted(desired, id) <==> wanted(desired.drop_last(), id) || (desired.last().0 == id
            && desired.last().1),
{
    let d = desired.drop_last();
    if wanted(desired, id) {
        let j = choose|j: int| 0 <= j < desired.len() && #[trigger] desired[j].0 == id && desired[j].1;
        if j < desired.len() - 1 {
            assert(d[j].0 == id && d[j].1);
        }
    }
    if wanted(d, id) {
        let j = choose|j: int| 0 <= j < d.len() && #[trigger] d[j].0 == id && d[j].1;
        assert(desired[j].0 == id && desired[j].1);
    }
    if desired.last().0 == id && desired.last().1 {
        assert(desired[desired.len() - 1].0 == id);
    }
}

proof fn lemma_desired_map(desired: Desired)
    requires
        unique_desired(desired),
    ensures
        forall|id: i64| #[trigger] desired_map(desired).dom().contains(id) <==> wanted(desired, id),
        forall|j: int|
            0 <= j < desired.len() && desired[j].1 ==> #[trigger] desired_map(desired)[desired[j].0]
                == desired[j].2,
    decreases desired.len(),
{
    if desired.len() > 0 {
        let d = desired.drop_last();
        assert(unique_desired(d)) by {
            assert forall|i: int, k: int|
                0 <= i < d.len() && 0 <= k < d.len() && i != k implies #[trigger] d[i].0
                != #[trigger] d[k].0 by {
                assert(desired[i].0 != desired[k].0);
            }
        }
        lemma_desired_map(d);
        let x = desired.last();
        assert forall|id: i64| #[trigger]
            desired_map(desired).dom().contains(id) <==> wanted(desired, id) by {
            lemma_wanted_last(desired, id);
            assert(desired_map(d).dom().contains(id) <==> wanted(d, id));
        }
        assert forall|j: int|
            0 <= j < desired.len() && desired[j].1 implies #[trigger] desired_map(
            desired,
        )[desired[j].0] == desired[j].2 by {
            if j < desired.len() - 1 {
                assert(d[j] == desired[j]);
                assert(desired[j].0 != desired[desired.len() - 1].0);
                assert(desired_map(d)[d[j].0] == d[j].2);
            }
        }
    }
}

proof fn lemma_unique_take(desired: Desired, n: int)
    requires
        unique_desired(desired),
        0 <= n <= desired.len(),
    ensures
        unique_desired(desired.take(n)),
{
    let t = desired.take(n);
    assert forall|i: int, k: int|
        0 <= i < t.len() && 0 <= k < t.len() && i != k implies #[trigger] t[i].0 != #[trigger] t[k].0 by {
        assert(desired[i].0 != desired[k].0);
    }
}

/// The starts and restarts bring each enabled monitor's task to its key.
proof fn lemma_starts(
    m0: Map<i64, Seq<char>>,
    running: Running,
    desired: Desired,
    n: int,
)
    requires
        0 <= n <= desired.len(),
        desired.len() <= usize::MAX,
        unique_desired(desired),
        forall|id: i64|
            m0.dom().contains(id) && wanted(desired, id) ==> running_key(running, id) == Some(
                #[trigger] m0[id],
            ),
        forall|id: i64|
            #[trigger] m0.dom().contains(id) <==> running_key(running, id) is Some && wanted(
                desired,
                id,
            ),
    ensures
        apply_plan(m0, start_actions(running, desired, n), desired) == m0.union_prefer_right(
            desired_map(desired.take(n)),
        ),
    decreases n,
{
    let dn = desired.take(n);
    if n == 0 {
        assert(desired_map(dn) =~= Map::<i64, Seq<char>>::empty());
        assert(m0.union_prefer_right(desired_map(dn)) =~= m0);
    } else {
        lemma_starts(m0, running, desired, n - 1);
        lemma_apply_concat(
            m0,
            start_actions(running, desired, n - 1),
            action_for(running, desired, n - 1),
            desired,
        );
        let prev = m0.union_prefer_right(desired_map(desired.take(n - 1)));
        assert(dn.drop_last() =~= desired.take(n - 1));
        assert(dn.last() == desired[n - 1]);
        let x = desired[n - 1];
        reveal_with_fuel(apply_plan, 2);
        if x.1 {
            assert(wanted(desired, x.0)) by {
                assert(desired[n - 1].0 == x.0);
            }
            match running_key(running, x.0) {
                None => {
                    assert(prev.insert(x.0, x.2) =~= m0.union_prefer_right(desired_map(dn)));
                },
                Some(k) => {
                    if k == x.2 {
                        lemma_unique_take(desired, n - 1);
                        lemma_desired_map(desired.take(n - 1));
                        assert(!wanted(desired.take(n - 1), x.0)) by {
                            if wanted(desired.take(n - 1), x.0) {
                                let j = choose|j: int|
                                    0 <= j < n - 1 && #[trigger] desired.take(n - 1)[j].0 == x.0
                                        && desired.take(n - 1)[j].1;
                                assert(desired[j].0 == desired[n - 1].0);
                            }
                        }
                        assert(!desired_map(desired.take(n - 1)).dom().contains(x.0));
                        assert(m0.dom().contains(x.0));
                        assert(running_key(running, x.0) == Some(m0[x.0]));
                        assert(prev =~= m0.union_prefer_right(desired_map(dn)));
                    } else {
                        assert(prev.insert(x.0, x.2) =~= m0.union_prefer_right(desired_map(dn)));
                    }
                },
            }
        } else {
            assert(prev =~= m0.union_prefer_right(desired_map(dn)));
        }
    }
}

/// Carrying out the reconciliation plan leaves exactly the enabled monitors
/// running, each with its current config key: removed and disabled monitors
/// are stopped, new ones started, changed ones restarted, and unchanged ones
/// left as they were.
pub proof fn lemma_reload_reconciles(running: Running, desired: Desired)
    requires
        unique_desired(desired),
        desired.len() <= usize::MAX,
    ensures
        apply_plan(running_map(running), reload_plan(running, desired), desired) == desired_map(
            desired,
        ),
{
    let m = running_map(running);
    lemma_running_map(running);
    lemma_desired_map(desired);
    let s = Set::new(
        |id: i64|
            (exists|i: int| 0 <= i < running.len() && #[trigger] running[i].0 == id) && !wanted(
                desired,
                id,
            ),
    );
    lemma_stops(m, running, desired);
    let m0 = m.remove_keys(s);
    lemma_apply_concat(
        m,
        stop_actions(running, desired),
        start_actions(running, desired, desired.len() as int),
        desired,
    );
    lemma_starts(m0, running, desired, desired.len() as int);
    assert(desired.take(desired.len() as int) =~= desired);
    assert(m0.union_prefer_right(desired_map(desired)) =~= desired_map(desired));
}

// ── First tick ───────────────────────────────────────────────────────────────

pub open spec fn jitter_window(interval_ms: u64) -> u64 {
    if interval_ms < 1 {
        1
    } else if interval_ms > 5_000 {
        5_000
    } else {
        interval_ms
    }
}

/// The delay before a monitor's first probe: a deterministic per-id offset
/// (a multiplicative hash of the id) within `interval_ms` clamped to 1..=5000,
/// so monitors sharing an interval do not probe in lockstep.
pub fn first_tick_jitter_ms(id: i64, interval_ms: u64) -> (j: u64)
    ensures
        j == (id as u64).wrapping_mul(0x9E37_79B9_7F4A_7C15) % jitter_window(interval_ms),
        j < jitter_window(interval_ms),
        j < 5_000,
{
    let window = if interval_ms < 1 {
        1
    } else if interval_ms > 5_000 {
        5_000
    } else {
        interval_ms
    };
    (id as u64).wrapping_mul(0x9E37_79B9_7F4A_7C15) % window
}

// ── Retention ────────────────────────────────────────────────────────────────

/// Milliseconds in an hour.
pub const HOUR_MS: i64 = 3_600_000;

/// The cutoffs of a retention of `hours` at `now_ms`: raw results older than
/// the first (epoch ms) and rollups older than the second (epoch seconds) are
/// pruned.
pub fn retention_cutoffs(now_ms: i64, hours: u64) -> (c: (i64, i64))
    requires
        hours * 3_600_000 <= i64::MAX,
        now_ms - hours * 3_600_000 >= i64::MIN,
    ensures
        c.0 == now_ms - hours * 3_600_000,
        c.0 >= 0 ==> c.1 == c.0 / 1000,
        c.0 < 0 ==> c.1 == -((-c.0) / 1000),
{
    let span = (hours as i64) * HOUR_MS;
    let cutoff_ms = now_ms - span;
    (cutoff_ms, cutoff_ms / 1000)
}

/// The traceroute retention of `hours`, in milliseconds (saturating).
pub fn retention_ms(hours: u64) -> (ms: u64)
    ensures
        ms == crate::monitors::saturating_mul(hours, 3_600_000),
{
    crate::monitors::saturating_mul_u64(hours, 3_600_000)
}

// ── Rollups ──────────────────────────────────────────────────────────────────

/// `now_secs` rounded toward zero to a whole minute (epoch seconds): the start
/// of its minute from the epoch on, the end of it before.
pub open spec fn minute_of(now_secs: i64) -> int {
    if now_secs >= 0 {
        (now_secs / 60) * 60
    } else {
        -(((-now_secs) / 60) * 60)
    }
}

/// The minute holding `now_secs` (epoch seconds), rounded toward zero.
pub fn current_minute(now_secs: i64) -> (m: i64)
    ensures
        m == minute_of(now_secs),
        now_secs >= 0 ==> m <= now_secs < m + 60,
        now_secs < 0 ==> m - 60 < now_secs <= m,
{
    (now_secs / 60) * 60
}

/// Where the rollup maintenance starts: the last rolled minute (re-rolled, so
/// partials are corrected); with an empty rollup, the earliest raw minute;
/// with no data at all, or when the watermark cannot be read, the current minute.
pub fn rollup_start(watermark: Result<Option<i64>, ()>, earliest: Option<i64>, now_min: i64) -> (s:
    i64)
    ensures
        s == match watermark {
            Ok(Some(w)) => w,
            Ok(None) => match earliest {
                Some(m) => m,
                None => now_min,
            },
            Err(_) => now_min,
        },
{
    match watermark {
        Ok(Some(w)) => w,
        Ok(None) => match earliest {
            Some(m) => m,
            None => now_min,
        },
        Err(_) => now_min,
    }
}

/// The next range of complete minutes to roll up: `[from, to)` at most a day
/// long, or none once `from` reaches `now_min`.
pub fn next_rollup_chunk(from: i64, now_min: i64) -> (chunk: Option<(i64, i64)>)
    requires
        from <= i64::MAX - 86_400,
    ensures
        from >= now_min ==> chunk is None,
        from < now_min ==> chunk == Some(
            (
                from,
                if from + 86_400 < now_min {
                    (from + 86_400) as i64
                } else {
                    now_min
                },
            ),
        ),
        chunk matches Some(c) ==> c.0 < c.1 <= now_min && c.1 - c.0 <= 86_400,
{
    if from < now_min {
        let end = from + 86_400;
        Some(
            (
                from,
                if end < now_min {
                    end
                } else {
                    now_min
                },
            ),
        )
    } else {
        None
    }
}

} // verus!
