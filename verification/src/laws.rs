//! Properties of the state machine that span several operations: what a
//! fetch leaves behind, what a repeated fetch reports, what failures may and
//! may not do, and how the detail cache and poll freshness behave over time.

use vstd::prelude::*;

use crate::providers::{ov, Monitor, MonitorStatus, ProviderConfig, ProviderError};
use crate::providers::betterstack::{bs_status, BetterStack, BsItem};
use crate::providers::healthchecks::{hc_status, Check, Healthchecks};
use crate::providers::watch4me::{w4m_status, MonitorStats, Watch4Me};
use crate::text::ascii_lower;
use crate::state::{
    count_of, elapsed, failure_state, finish_detail_spec, begin_detail_spec, fresh_at, index_from,
    index_of, keep_live_keys, keep_live_rows, keep_seen, key_of, lemma_index_from, lemma_index_same_keys,
    mark_unknown, outcome_rows, action_row_from, seen_keys, set_count, solid, success_fold, success_state,
    success_step, success_transitions, audible,
    Details, DetailCache, DetailDecision, RowView, Rows, StateView, TransitionView, FAILURE_THRESHOLD,
};

verus! {

// ---------------------------------------------------------------------------
// Lookup by key
// ---------------------------------------------------------------------------

proof fn lemma_index_push<V>(s: Seq<(Seq<char>, V)>, e: (Seq<char>, V), k: Seq<char>, from: int)
    requires
        0 <= from <= s.len(),
    ensures
        index_from(s.push(e), k, from) == match index_from(s, k, from) {
            Some(i) => Some(i),
            None => if e.0 == k {
                Some(s.len() as int)
            } else {
                None
            },
        },
    decreases s.len() - from,
{
    if from < s.len() {
        assert(s.push(e)[from] == s[from]);
        if s[from].0 != k {
            lemma_index_push(s, e, k, from + 1);
        }
    } else {
        assert(s.push(e)[from] == e);
        assert(index_from(s.push(e), k, from + 1) is None);
    }
}

proof fn lemma_index_update<V>(s: Seq<(Seq<char>, V)>, i: int, v: V, k: Seq<char>)
    requires
        0 <= i < s.len(),
    ensures
        index_of(s.update(i, (s[i].0, v)), k) == index_of(s, k),
{
    let t = s.update(i, (s[i].0, v));
    assert forall|j: int| 0 <= j < t.len() implies #[trigger] t[j].0 == s[j].0 by {}
    lemma_index_same_keys(t, s, k, 0);
}

/// The first occurrence of a key in a prefix is its first occurrence overall.
proof fn lemma_index_drop_last<V>(s: Seq<(Seq<char>, V)>, k: Seq<char>)
    requires
        s.len() > 0,
    ensures
        index_of(s.drop_last(), k) is Some ==> index_of(s, k) == index_of(s.drop_last(), k),
        index_of(s.drop_last(), k) is None ==> index_of(s, k) == (if s.last().0 == k {
            Some(s.len() - 1)
        } else {
            None::<int>
        }),
{
    assert(s.drop_last().push(s.last()) =~= s);
    lemma_index_push(s.drop_last(), s.last(), k, 0);
}

// ---------------------------------------------------------------------------
// One fetched monitor, and the rows of other monitors
// ---------------------------------------------------------------------------

/// Monitor `m` of provider `pid` has a row that shows it, and whose last
/// solid status is `m`'s when `m`'s status is solid.
pub open spec fn settled(rows: Rows, pid: Seq<char>, m: Monitor) -> bool {
    match index_of(rows, key_of(pid, m.id@)) {
        Some(i) => rows[i].1.monitor == m && (solid(m.status) ==> rows[i].1.last_solid == Some(m.status)),
        None => false,
    }
}

/// Folding in `m` leaves the lookup and the row of every other key as they
/// were, and settles `m`.
proof fn lemma_step(
    rows: Rows,
    trans: Seq<TransitionView>,
    pid: Seq<char>,
    label: Seq<char>,
    kind: Seq<char>,
    m: Monitor,
    k: Seq<char>,
)
    ensures
        ({
            let r = success_step(rows, trans, pid, label, kind, m).0;
            &&& k != key_of(pid, m.id@) ==> index_of(r, k) == index_of(rows, k) && match index_of(rows, k) {
                Some(i) => r[i] == rows[i],
                None => true,
            }
            &&& settled(r, pid, m)
        }),
{
    let key = key_of(pid, m.id@);
    let r = success_step(rows, trans, pid, label, kind, m).0;
    lemma_index_from(rows, key, 0);
    lemma_index_from(rows, k, 0);
    match index_of(rows, key) {
        Some(i) => {
            let row = rows[i].1;
            let ls = if solid(m.status) {
                Some(m.status)
            } else {
                row.last_solid
            };
            lemma_index_update(rows, i, RowView { monitor: m, last_solid: ls, ..row }, k);
            lemma_index_update(rows, i, RowView { monitor: m, last_solid: ls, ..row }, key);
            if k != key {
                if let Some(j) = index_of(rows, k) {
                    assert(j != i);
                }
            }
        },
        None => {
            let e = (
                key,
                RowView {
                    provider_id: pid,
                    provider_label: label,
                    provider_kind: kind,
                    monitor: m,
                    last_solid: if solid(m.status) {
                        Some(m.status)
                    } else {
                        None
                    },
                },
            );
            lemma_index_push(rows, e, k, 0);
            lemma_index_push(rows, e, key, 0);
        },
    }
}

/// When `m` is already settled, folding it in again reports nothing and
/// leaves it settled.
proof fn lemma_step_settled(
    rows: Rows,
    trans: Seq<TransitionView>,
    pid: Seq<char>,
    label: Seq<char>,
    kind: Seq<char>,
    m: Monitor,
)
    requires
        settled(rows, pid, m),
    ensures
        success_step(rows, trans, pid, label, kind, m).1 == trans,
{
}

/// The keys of a fetch are pairwise distinct.
pub open spec fn distinct_keys(pid: Seq<char>, ms: Seq<Monitor>) -> bool {
    seen_keys(pid, ms).no_duplicates()
}

proof fn lemma_distinct_take(pid: Seq<char>, ms: Seq<Monitor>, n: int)
    requires
        distinct_keys(pid, ms),
        0 <= n <= ms.len(),
    ensures
        distinct_keys(pid, ms.take(n)),
{
    assert forall|a: int, b: int| 0 <= a < seen_keys(pid, ms.take(n)).len() && 0 <= b < seen_keys(pid, ms.take(n)).len() && a != b
        implies seen_keys(pid, ms.take(n))[a] != seen_keys(pid, ms.take(n))[b] by {
        assert(seen_keys(pid, ms.take(n))[a] == seen_keys(pid, ms)[a]);
        assert(seen_keys(pid, ms.take(n))[b] == seen_keys(pid, ms)[b]);
    }
}

/// After folding in a fetch with distinct keys, every fetched monitor is
/// settled.
proof fn lemma_fold_settles(rows: Rows, pid: Seq<char>, label: Seq<char>, kind: Seq<char>, ms: Seq<Monitor>)
    requires
        distinct_keys(pid, ms),
    ensures
        forall|j: int| 0 <= j < ms.len() ==> settled(success_fold(rows, pid, label, kind, ms).0, pid, #[trigger] ms[j]),
    decreases ms.len(),
{
    if ms.len() > 0 {
        let prefix = ms.drop_last();
        lemma_distinct_take(pid, ms, ms.len() - 1);
        assert(prefix == ms.take(ms.len() - 1));
        lemma_fold_settles(rows, pid, label, kind, prefix);
        let prev = success_fold(rows, pid, label, kind, prefix);
        let m = ms.last();
        assert forall|j: int| 0 <= j < ms.len() implies settled(
            success_fold(rows, pid, label, kind, ms).0,
            pid,
            #[trigger] ms[j],
        ) by {
            let kj = key_of(pid, ms[j].id@);
            lemma_step(prev.0, prev.1, pid, label, kind, m, kj);
            if j < ms.len() - 1 {
                assert(ms[j] == prefix[j]);
                assert(seen_keys(pid, ms)[j] != seen_keys(pid, ms)[ms.len() - 1]);
                assert(settled(prev.0, pid, prefix[j]));
            }
        }
    }
}

/// Every monitor of the fetch is settled in `rows`.
pub open spec fn all_settled(rows: Rows, pid: Seq<char>, ms: Seq<Monitor>) -> bool {
    forall|j: int| 0 <= j < ms.len() ==> settled(rows, pid, #[trigger] ms[j])
}

/// Folding in a fetch whose monitors are all settled reports nothing and keeps
/// them settled.
proof fn lemma_fold_settled_silent(rows: Rows, pid: Seq<char>, label: Seq<char>, kind: Seq<char>, all: Seq<Monitor>, n: int)
    requires
        distinct_keys(pid, all),
        all_settled(rows, pid, all),
        0 <= n <= all.len(),
    ensures
        success_fold(rows, pid, label, kind, all.take(n)).1.len() == 0,
        all_settled(success_fold(rows, pid, label, kind, all.take(n)).0, pid, all),
    decreases n,
{
    if n > 0 {
        lemma_fold_settled_silent(rows, pid, label, kind, all, n - 1);
        assert(all.take(n).drop_last() =~= all.take(n - 1));
        assert(all.take(n).last() == all[n - 1]);
        let prev = success_fold(rows, pid, label, kind, all.take(n - 1));
        let m = all[n - 1];
        assert(settled(prev.0, pid, m));
        lemma_step_settled(prev.0, prev.1, pid, label, kind, m);
        assert forall|j: int| 0 <= j < all.len() implies settled(
            success_fold(rows, pid, label, kind, all.take(n)).0,
            pid,
            #[trigger] all[j],
        ) by {
            let kj = key_of(pid, all[j].id@);
            lemma_step(prev.0, prev.1, pid, label, kind, m, kj);
            if j != n - 1 {
                assert(seen_keys(pid, all)[j] != seen_keys(pid, all)[n - 1]);
                assert(settled(prev.0, pid, all[j]));
            }
        }
    } else {
        assert(all.take(0) =~= Seq::<Monitor>::empty());
    }
}

// ---------------------------------------------------------------------------
// Dropping vanished rows
// ---------------------------------------------------------------------------

/// Rows that survive a fetch's clean-up were rows before it.
proof fn lemma_keep_seen_subset(rows: Rows, pid: Seq<char>, seen: Seq<Seq<char>>)
    ensures
        forall|i: int| 0 <= i < keep_seen(rows, pid, seen).len() ==> rows.contains(
            #[trigger] keep_seen(rows, pid, seen)[i],
        ),
        keep_seen(rows, pid, seen).len() <= rows.len(),
    decreases rows.len(),
{
    if rows.len() > 0 {
        let p = rows.drop_last();
        lemma_keep_seen_subset(p, pid, seen);
        assert forall|i: int| 0 <= i < keep_seen(rows, pid, seen).len() implies rows.contains(
            #[trigger] keep_seen(rows, pid, seen)[i],
        ) by {
            if i < keep_seen(p, pid, seen).len() {
                let e = keep_seen(p, pid, seen)[i];
                assert(keep_seen(rows, pid, seen)[i] == e);
                assert(p.contains(e));
                let w = choose|q: int| 0 <= q < p.len() && p[q] == e;
                assert(rows[w] == e);
            } else {
                assert(keep_seen(rows, pid, seen)[i] == rows.last());
                assert(rows[rows.len() - 1] == rows.last());
            }
        }
    }
}

/// A kept row that is the first with its key stays the first with its key.
proof fn lemma_keep_seen_index(rows: Rows, pid: Seq<char>, seen: Seq<Seq<char>>, k: Seq<char>, i: int)
    requires
        index_of(rows, k) == Some(i),
        rows[i].1.provider_id != pid || seen.contains(key_of(pid, rows[i].1.monitor.id@)),
    ensures
        index_of(keep_seen(rows, pid, seen), k) matches Some(i2) && keep_seen(rows, pid, seen)[i2] == rows[i],
    decreases rows.len(),
{
    lemma_index_from(rows, k, 0);
    let p = rows.drop_last();
    let kp = keep_seen(p, pid, seen);
    lemma_index_drop_last(rows, k);
    if i < rows.len() - 1 {
        lemma_index_from(p, k, 0);
        assert(index_of(p, k) == Some(i));
        assert(p[i] == rows[i]);
        lemma_keep_seen_index(p, pid, seen, k, i);
        let i2 = index_of(kp, k).unwrap();
        lemma_index_from(kp, k, 0);
        let e = rows.last();
        if e.1.provider_id != pid || seen.contains(key_of(pid, e.1.monitor.id@)) {
            lemma_index_push(kp, e, k, 0);
            assert(keep_seen(rows, pid, seen) == kp.push(e));
            assert(kp.push(e)[i2] == kp[i2]);
        } else {
            assert(keep_seen(rows, pid, seen) == kp);
        }
    } else {
        lemma_index_from(p, k, 0);
        lemma_keep_seen_subset(p, pid, seen);
        assert forall|j: int| 0 <= j < kp.len() implies kp[j].0 != k by {
            assert(p.contains(kp[j]));
            let w = choose|q: int| 0 <= q < p.len() && p[q] == kp[j];
        }
        lemma_index_from(kp, k, 0);
        assert(index_of(kp, k) is None) by {
            if let Some(x) = index_of(kp, k) {
                assert(kp[x].0 == k);
            }
        }
        lemma_index_push(kp, rows.last(), k, 0);
        assert(rows[i] == rows.last());
        assert(keep_seen(rows, pid, seen) == kp.push(rows.last()));
    }
}

// ---------------------------------------------------------------------------
// Laws of a successful fetch
// ---------------------------------------------------------------------------

/// Every monitor of a fetch (with distinct ids) is shown afterwards: its row
/// holds exactly the fetched monitor, and a solid status becomes the baseline
/// for the next edge.
pub proof fn law_fetch_is_shown(
    st: StateView,
    pid: Seq<char>,
    label: Seq<char>,
    kind: Seq<char>,
    ms: Seq<Monitor>,
)
    requires
        distinct_keys(pid, ms),
    ensures
        all_settled(success_state(st, pid, label, kind, ms).rows, pid, ms),
{
    let f = success_fold(st.rows, pid, label, kind, ms).0;
    lemma_fold_settles(st.rows, pid, label, kind, ms);
    assert forall|j: int| 0 <= j < ms.len() implies settled(
        success_state(st, pid, label, kind, ms).rows,
        pid,
        #[trigger] ms[j],
    ) by {
        let k = key_of(pid, ms[j].id@);
        assert(settled(f, pid, ms[j]));
        let i = index_of(f, k).unwrap();
        assert(seen_keys(pid, ms)[j] == k);
        lemma_keep_seen_index(f, pid, seen_keys(pid, ms), k, i);
    }
}

/// Polling again with nothing changed notifies nothing: re-applying the same
/// fetch (distinct ids) right after it reports no transition.
pub proof fn law_unchanged_poll_is_silent(
    st: StateView,
    pid: Seq<char>,
    label: Seq<char>,
    kind: Seq<char>,
    ms: Seq<Monitor>,
)
    requires
        distinct_keys(pid, ms),
    ensures
        success_transitions(success_state(st, pid, label, kind, ms), pid, label, kind, ms).len() == 0,
{
    let st2 = success_state(st, pid, label, kind, ms);
    law_fetch_is_shown(st, pid, label, kind, ms);
    lemma_fold_settled_silent(st2.rows, pid, label, kind, ms, ms.len() as int);
    assert(ms.take(ms.len() as int) =~= ms);
}

/// The first observation of a monitor sets a silent baseline: a fetch of a
/// monitor that has no row yet reports nothing, and records its solid status.
pub proof fn law_first_observation_is_silent(
    st: StateView,
    pid: Seq<char>,
    label: Seq<char>,
    kind: Seq<char>,
    m: Monitor,
)
    requires
        index_of(st.rows, key_of(pid, m.id@)) is None,
    ensures
        success_transitions(st, pid, label, kind, seq![m]).len() == 0,
        settled(success_state(st, pid, label, kind, seq![m]).rows, pid, m),
{
    let ms = seq![m];
    assert(ms.drop_last() =~= Seq::<Monitor>::empty());
    assert(ms.last() == m);
    assert(success_fold(st.rows, pid, label, kind, ms.drop_last()) == (st.rows, Seq::<TransitionView>::empty()));
    assert(distinct_keys(pid, ms));
    law_fetch_is_shown(st, pid, label, kind, ms);
    assert(ms[0] == m);
}

/// A monitor whose last solid status was `prev` and that now reports a
/// different solid status produces exactly one transition, to the new
/// status; a non-solid status (Paused, Unknown) never does.
pub proof fn law_solid_edge_notifies(
    st: StateView,
    pid: Seq<char>,
    label: Seq<char>,
    kind: Seq<char>,
    m: Monitor,
    i: int,
)
    requires
        index_of(st.rows, key_of(pid, m.id@)) == Some(i),
    ensures
        ({
            let t = success_transitions(st, pid, label, kind, seq![m]);
            let prev = st.rows[i].1.last_solid;
            &&& (solid(m.status) && prev is Some && prev.unwrap() != m.status) ==> t == seq![
                TransitionView {
            monitor_name: m.name@,
            provider_label: label,
            new_status: m.status,
            muted: m.is_muted,
        },
            ]
            &&& !(solid(m.status) && prev is Some && prev.unwrap() != m.status) ==> t.len() == 0
        }),
{
    let ms = seq![m];
    lemma_index_from(st.rows, key_of(pid, m.id@), 0);
    assert(ms.drop_last() =~= Seq::<Monitor>::empty());
    assert(ms.last() == m);
    assert(success_fold(st.rows, pid, label, kind, ms.drop_last()) == (st.rows, Seq::<TransitionView>::empty()));
    assert(Seq::<TransitionView>::empty().push(
        TransitionView {
            monitor_name: m.name@,
            provider_label: label,
            new_status: m.status,
            muted: m.is_muted,
        },
    ) =~= seq![TransitionView {
            monitor_name: m.name@,
            provider_label: label,
            new_status: m.status,
            muted: m.is_muted,
        }]);
}

/// Every transition a fetch reports is to Up or Down.
pub proof fn law_transitions_are_solid(
    rows: Rows,
    pid: Seq<char>,
    label: Seq<char>,
    kind: Seq<char>,
    ms: Seq<Monitor>,
)
    ensures
        forall|i: int| 0 <= i < success_fold(rows, pid, label, kind, ms).1.len() ==> solid(
            #[trigger] success_fold(rows, pid, label, kind, ms).1[i].new_status,
        ),
    decreases ms.len(),
{
    if ms.len() > 0 {
        law_transitions_are_solid(rows, pid, label, kind, ms.drop_last());
    }
}

/// After a fetch, every remaining row of that provider is a monitor the fetch
/// returned: monitors that vanished are dropped.
pub proof fn law_vanished_rows_dropped(
    st: StateView,
    pid: Seq<char>,
    label: Seq<char>,
    kind: Seq<char>,
    ms: Seq<Monitor>,
)
    ensures
        forall|i: int| 0 <= i < success_state(st, pid, label, kind, ms).rows.len()
            && (#[trigger] success_state(st, pid, label, kind, ms).rows[i]).1.provider_id == pid
            ==> seen_keys(pid, ms).contains(key_of(pid, success_state(st, pid, label, kind, ms).rows[i].1.monitor.id@)),
{
    let f = success_fold(st.rows, pid, label, kind, ms).0;
    lemma_keep_seen_only(f, pid, seen_keys(pid, ms));
}

proof fn lemma_keep_seen_only(rows: Rows, pid: Seq<char>, seen: Seq<Seq<char>>)
    ensures
        forall|i: int| 0 <= i < keep_seen(rows, pid, seen).len() && (#[trigger] keep_seen(rows, pid, seen)[i]).1.provider_id
            == pid ==> seen.contains(key_of(pid, keep_seen(rows, pid, seen)[i].1.monitor.id@)),
    decreases rows.len(),
{
    if rows.len() > 0 {
        lemma_keep_seen_only(rows.drop_last(), pid, seen);
    }
}

// ---------------------------------------------------------------------------
// Failures
// ---------------------------------------------------------------------------

proof fn lemma_count_set(f: Seq<(Seq<char>, u32)>, pid: Seq<char>, n: u32)
    ensures
        count_of(set_count(f, pid, n), pid) == n,
{
    lemma_index_from(f, pid, 0);
    match index_of(f, pid) {
        Some(i) => {
            lemma_index_update(f, i, n, pid);
        },
        None => {
            lemma_index_push(f, (pid, n), pid, 0);
        },
    }
}

/// A successful fetch resets the provider's failure count.
pub proof fn law_success_resets_failures(
    st: StateView,
    pid: Seq<char>,
    label: Seq<char>,
    kind: Seq<char>,
    ms: Seq<Monitor>,
)
    ensures
        count_of(success_state(st, pid, label, kind, ms).failures, pid) == 0,
{
    lemma_count_set(st.failures, pid, 0);
}

/// Failures only ever count and mark Unknown: every row keeps its key, its
/// provider, its monitor (but for the status) and its last solid status, so
/// going Unknown never notifies and never shows Down.
pub proof fn law_failure_never_shows_down(st: StateView, pid: Seq<char>)
    ensures
        ({
            let after = failure_state(st, pid).rows;
            &&& after.len() == st.rows.len()
            &&& forall|i: int| 0 <= i < after.len() ==> {
                &&& (#[trigger] after[i]).0 == st.rows[i].0
                &&& after[i].1.provider_id == st.rows[i].1.provider_id
                &&& after[i].1.last_solid == st.rows[i].1.last_solid
                &&& after[i].1.monitor == (Monitor { status: after[i].1.monitor.status, ..st.rows[i].1.monitor })
                &&& (after[i].1.monitor.status == st.rows[i].1.monitor.status || after[i].1.monitor.status
                    == MonitorStatus::Unknown)
            }
        }),
{
}

/// One failure after a clean run changes nothing visible; the second
/// consecutive failure shows every monitor of that provider as Unknown.
pub proof fn law_failure_threshold(st: StateView, pid: Seq<char>)
    requires
        count_of(st.failures, pid) == 0,
    ensures
        failure_state(st, pid).rows == st.rows,
        count_of(failure_state(st, pid).failures, pid) == 1,
        failure_state(failure_state(st, pid), pid).rows == mark_unknown(st.rows, pid),
        forall|i: int| 0 <= i < st.rows.len() && (#[trigger] st.rows[i]).1.provider_id == pid
            ==> failure_state(failure_state(st, pid), pid).rows[i].1.monitor.status == MonitorStatus::Unknown,
{
    lemma_count_set(st.failures, pid, 1);
    let s1 = failure_state(st, pid);
    lemma_count_set(s1.failures, pid, 2);
    assert(FAILURE_THRESHOLD == 2);
}

// ---------------------------------------------------------------------------
// Pruning
// ---------------------------------------------------------------------------

/// After pruning, every row belongs to a live provider, and every row of a
/// live provider is still there.
pub proof fn law_prune_keeps_exactly_live(rows: Rows, live: Seq<Seq<char>>)
    ensures
        forall|i: int| 0 <= i < keep_live_rows(rows, live).len() ==> live.contains(
            (#[trigger] keep_live_rows(rows, live)[i]).1.provider_id,
        ),
        forall|i: int| 0 <= i < rows.len() && live.contains((#[trigger] rows[i]).1.provider_id)
            ==> keep_live_rows(rows, live).contains(rows[i]),
    decreases rows.len(),
{
    if rows.len() > 0 {
        let p = rows.drop_last();
        law_prune_keeps_exactly_live(p, live);
        assert forall|i: int| 0 <= i < rows.len() && live.contains((#[trigger] rows[i]).1.provider_id)
            implies keep_live_rows(rows, live).contains(rows[i]) by {
            if i < rows.len() - 1 {
                assert(rows[i] == p[i]);
                let kp = keep_live_rows(p, live);
                assert(kp.contains(p[i]));
                let w = choose|q: int| 0 <= q < kp.len() && kp[q] == p[i];
                assert(keep_live_rows(rows, live)[w] == kp[w]);
            } else {
                assert(rows[i] == rows.last());
                assert(keep_live_rows(rows, live).last() == rows.last());
            }
        }
    }
}

// ---------------------------------------------------------------------------
// Poll freshness and the detail cache
// ---------------------------------------------------------------------------

/// Never polled is never fresh; a zero TTL is always stale; right after a
/// poll at `t`, the poll is fresh while less than `ttl` has elapsed.
pub proof fn law_poll_freshness(t: u128, now: u128, ttl: u128)
    ensures
        !fresh_at(None, now, ttl),
        !fresh_at(Some(t), now, 0),
        fresh_at(Some(t), now, ttl) == (elapsed(now, t) < ttl),
{
}

/// A cold cache sends the first request to the network and claims the
/// in-flight slot.
pub proof fn law_cold_detail_fetches(d: Details, id: Seq<char>, now: u128, ttl: u128, force: bool)
    requires
        index_of(d, id) is None,
    ensures
        begin_detail_spec(d, id, now, ttl, force).1 is Fetch,
{
}

/// While a fetch is in flight, every other request, forced or not, is served
/// from the cache instead of issuing a second fetch.
pub proof fn law_in_flight_is_not_duplicated(
    d: Details,
    id: Seq<char>,
    now: u128,
    ttl: u128,
    force: bool,
    now2: u128,
    ttl2: u128,
    force2: bool,
)
    requires
        begin_detail_spec(d, id, now, ttl, force).1 is Fetch,
    ensures
        begin_detail_spec(begin_detail_spec(d, id, now, ttl, force).0, id, now2, ttl2, force2).1 is Hit,
{
    let d1 = begin_detail_spec(d, id, now, ttl, force).0;
    lemma_index_from(d, id, 0);
    match index_of(d, id) {
        Some(i) => {
            lemma_index_update(d, i, DetailCache { in_flight: true, ..d[i].1 }, id);
            assert(d1 == d.update(i, (d[i].0, DetailCache { in_flight: true, ..d[i].1 })));
        },
        None => {
            lemma_index_push(d, (id, DetailCache { fetched_at: None, value: None, in_flight: true }), id, 0);
        },
    }
}

/// A value fetched at `t` is replayed to every unforced request made while
/// it is younger than `ttl`.
pub proof fn law_fresh_detail_is_replayed(
    d: Details,
    id: Seq<char>,
    t: u128,
    v: serde_json::Value,
    now: u128,
    ttl: u128,
)
    requires
        elapsed(now, t) < ttl,
    ensures
        begin_detail_spec(finish_detail_spec(d, id, t, Some(v)), id, now, ttl, false).1 == DetailDecision::Hit(
            Some(v),
        ),
{
    lemma_finish_entry(d, id, t, Some(v));
}

/// After a fetch completes, a forced request goes to the network again, and
/// so does an unforced one with a zero TTL.
pub proof fn law_force_refetches(d: Details, id: Seq<char>, t: u128, v: Option<serde_json::Value>, now: u128, ttl: u128)
    ensures
        begin_detail_spec(finish_detail_spec(d, id, t, v), id, now, ttl, true).1 is Fetch,
        begin_detail_spec(finish_detail_spec(d, id, t, v), id, now, 0, false).1 is Fetch,
{
    lemma_finish_entry(d, id, t, v);
}

/// A failed fetch keeps the last good value (and still stamps the time, so
/// errors back off for the TTL too).
pub proof fn law_failure_keeps_detail(d: Details, id: Seq<char>, t: u128, i: int)
    requires
        index_of(d, id) == Some(i),
    ensures
        ({
            let d2 = finish_detail_spec(d, id, t, None);
            &&& index_of(d2, id) == Some(i)
            &&& d2[i].1.value == d[i].1.value
            &&& d2[i].1.fetched_at == Some(t)
            &&& !d2[i].1.in_flight
        }),
{
    lemma_index_from(d, id, 0);
    lemma_index_update(d, i, DetailCache { in_flight: false, fetched_at: Some(t), value: d[i].1.value }, id);
}

proof fn lemma_finish_entry(d: Details, id: Seq<char>, t: u128, v: Option<serde_json::Value>)
    ensures
        ({
            let d2 = finish_detail_spec(d, id, t, v);
            index_of(d2, id) matches Some(j) && d2[j].1.fetched_at == Some(t) && !d2[j].1.in_flight && (v is Some
                ==> d2[j].1.value == v)
        }),
{
    lemma_index_from(d, id, 0);
    match index_of(d, id) {
        Some(i) => {
            let e = DetailCache {
                in_flight: false,
                fetched_at: Some(t),
                value: if v is Some {
                    v
                } else {
                    d[i].1.value
                },
            };
            lemma_index_update(d, i, e, id);
            assert(finish_detail_spec(d, id, t, v) == d.update(i, (d[i].0, e)));
        },
        None => {
            lemma_index_push(d, (id, DetailCache { fetched_at: Some(t), value: v, in_flight: false }), id, 0);
        },
    }
}

// ---------------------------------------------------------------------------
// The baseline of a transition
// ---------------------------------------------------------------------------

/// A fetch that reports a monitor as Paused or Unknown updates its row but
/// leaves the row's last solid status (the baseline of the next edge) as it
/// was, and reports no transition.
pub proof fn law_non_solid_keeps_baseline(
    st: StateView,
    pid: Seq<char>,
    label: Seq<char>,
    kind: Seq<char>,
    m: Monitor,
    i: int,
)
    requires
        index_of(st.rows, key_of(pid, m.id@)) == Some(i),
        m.status == MonitorStatus::Paused || m.status == MonitorStatus::Unknown,
    ensures
        success_transitions(st, pid, label, kind, seq![m]).len() == 0,
        ({
            let r = success_state(st, pid, label, kind, seq![m]).rows;
            index_of(r, key_of(pid, m.id@)) matches Some(j) && r[j].1.monitor == m && r[j].1.last_solid
                == st.rows[i].1.last_solid
        }),
{
    let ms = seq![m];
    let k = key_of(pid, m.id@);
    lemma_index_from(st.rows, k, 0);
    assert(ms.drop_last() =~= Seq::<Monitor>::empty());
    assert(ms.last() == m);
    assert(success_fold(st.rows, pid, label, kind, ms.drop_last()) == (st.rows, Seq::<TransitionView>::empty()));
    let f = success_fold(st.rows, pid, label, kind, ms).0;
    let row = st.rows[i].1;
    assert(f == st.rows.update(i, (st.rows[i].0, RowView { monitor: m, last_solid: row.last_solid, ..row })));
    lemma_index_update(st.rows, i, RowView { monitor: m, last_solid: row.last_solid, ..row }, k);
    assert(seen_keys(pid, ms)[0] == k);
    assert(f[i].1.monitor == m);
    lemma_keep_seen_index(f, pid, seen_keys(pid, ms), k, i);
}

/// A monitor seen Up, then Paused or Unknown (say, a Healthchecks grace
/// period), then Down reports exactly one transition, on the third fetch, to
/// Down: the non-solid fetch in between neither notifies nor clears the Up
/// baseline.
pub proof fn law_edge_survives_non_solid_poll(
    st: StateView,
    pid: Seq<char>,
    label: Seq<char>,
    kind: Seq<char>,
    m1: Monitor,
    m2: Monitor,
    m3: Monitor,
)
    requires
        index_of(st.rows, key_of(pid, m1.id@)) is None,
        m2.id == m1.id,
        m3.id == m1.id,
        m1.status == MonitorStatus::Up,
        m2.status == MonitorStatus::Paused || m2.status == MonitorStatus::Unknown,
        m3.status == MonitorStatus::Down,
    ensures
        ({
            let s1 = success_state(st, pid, label, kind, seq![m1]);
            let s2 = success_state(s1, pid, label, kind, seq![m2]);
            &&& success_transitions(st, pid, label, kind, seq![m1]).len() == 0
            &&& success_transitions(s1, pid, label, kind, seq![m2]).len() == 0
            &&& success_transitions(s2, pid, label, kind, seq![m3]) == seq![
                TransitionView {
                    monitor_name: m3.name@,
                    provider_label: label,
                    new_status: MonitorStatus::Down,
                    muted: m3.is_muted,
                },
            ]
        }),
{
    let k = key_of(pid, m1.id@);
    let s1 = success_state(st, pid, label, kind, seq![m1]);
    law_first_observation_is_silent(st, pid, label, kind, m1);
    let i1 = index_of(s1.rows, k).unwrap();
    assert(s1.rows[i1].1.last_solid == Some(MonitorStatus::Up));
    law_non_solid_keeps_baseline(s1, pid, label, kind, m2, i1);
    let s2 = success_state(s1, pid, label, kind, seq![m2]);
    let i2 = index_of(s2.rows, k).unwrap();
    law_solid_edge_notifies(s2, pid, label, kind, m3, i2);
}

// ---------------------------------------------------------------------------
// Action outcomes
// ---------------------------------------------------------------------------

/// Row `e` is the monitor with public id `public_id` of provider `pid`.
pub open spec fn is_action_target(e: (Seq<char>, RowView), pid: Seq<char>, public_id: Seq<char>) -> bool {
    &&& e.1.provider_id == pid
    &&& e.1.monitor.public_id matches Some(p) && p@ == public_id
}

proof fn lemma_action_row(rows: Rows, pid: Seq<char>, public_id: Seq<char>, from: int)
    requires
        0 <= from,
    ensures
        action_row_from(rows, pid, public_id, from) matches Some(i) ==> from <= i < rows.len()
            && is_action_target(rows[i], pid, public_id) && forall|l: int|
            from <= l < i ==> !is_action_target(#[trigger] rows[l], pid, public_id),
        action_row_from(rows, pid, public_id, from) is None ==> forall|l: int|
            from <= l < rows.len() ==> !is_action_target(#[trigger] rows[l], pid, public_id),
    decreases rows.len() - from,
{
    if from < rows.len() {
        lemma_action_row(rows, pid, public_id, from + 1);
    }
}

/// An action's outcome changes only the first row of that provider with that
/// public id; every other row (another provider's, another monitor's, one
/// without a public id) is left as it was. On that row a reported pause shows
/// Paused, a reported resume turns a shown Paused into Unknown until the next
/// poll, a reported mute sets the muted flag, and nothing else changes.
pub proof fn law_action_touches_only_its_monitor(
    rows: Rows,
    pid: Seq<char>,
    public_id: Seq<char>,
    is_paused: Option<bool>,
    is_muted: Option<bool>,
)
    ensures
        ({
            let r = outcome_rows(rows, pid, public_id, is_paused, is_muted);
            &&& r.len() == rows.len()
            &&& forall|j: int|
                0 <= j < rows.len() && !(is_action_target(rows[j], pid, public_id) && forall|l: int|
                    0 <= l < j ==> !is_action_target(#[trigger] rows[l], pid, public_id)) ==> #[trigger] r[j]
                    == rows[j]
            &&& forall|j: int|
                0 <= j < rows.len() && is_action_target(rows[j], pid, public_id) && (forall|l: int|
                    0 <= l < j ==> !is_action_target(#[trigger] rows[l], pid, public_id)) ==> {
                    let old = rows[j].1;
                    let new = (#[trigger] r[j]).1;
                    &&& r[j].0 == rows[j].0
                    &&& new.provider_id == old.provider_id
                    &&& new.provider_label == old.provider_label
                    &&& new.provider_kind == old.provider_kind
                    &&& new.last_solid == old.last_solid
                    &&& new.monitor == Monitor {
                        status: new.monitor.status,
                        is_muted: new.monitor.is_muted,
                        ..old.monitor
                    }
                    &&& new.monitor.is_muted == match is_muted {
                        Some(b) => b,
                        None => old.monitor.is_muted,
                    }
                    &&& new.monitor.status == match is_paused {
                        Some(true) => MonitorStatus::Paused,
                        Some(false) => if old.monitor.status == MonitorStatus::Paused {
                            MonitorStatus::Unknown
                        } else {
                            old.monitor.status
                        },
                        None => old.monitor.status,
                    }
                }
        }),
{
    lemma_action_row(rows, pid, public_id, 0);
    let r = outcome_rows(rows, pid, public_id, is_paused, is_muted);
    match action_row_from(rows, pid, public_id, 0) {
        Some(i) => {
            assert forall|j: int|
                0 <= j < rows.len() && !(is_action_target(rows[j], pid, public_id) && forall|l: int|
                    0 <= l < j ==> !is_action_target(#[trigger] rows[l], pid, public_id)) implies #[trigger] r[j]
                == rows[j] by {
                if j == i {
                    assert(forall|l: int| 0 <= l < j ==> !is_action_target(#[trigger] rows[l], pid, public_id));
                }
            }
            assert forall|j: int|
                0 <= j < rows.len() && is_action_target(rows[j], pid, public_id) && (forall|l: int|
                    0 <= l < j ==> !is_action_target(#[trigger] rows[l], pid, public_id)) implies j == i by {
                if j < i {
                } else if j > i {
                    assert(is_action_target(rows[i], pid, public_id));
                }
            }
        },
        None => {},
    }
}

// ---------------------------------------------------------------------------
// Keys stay unique
// ---------------------------------------------------------------------------

/// No key occurs twice.
pub open spec fn unique_keys<V>(s: Seq<(Seq<char>, V)>) -> bool {
    forall|i: int, j: int|
        #![trigger s[i], s[j]]
        0 <= i < s.len() && 0 <= j < s.len() && i != j ==> s[i].0 != s[j].0
}

/// The state's keyed tables (rows, failure counters, detail cache) hold each
/// key at most once, as the maps they stand for do.
pub open spec fn keys_unique(st: StateView) -> bool {
    &&& unique_keys(st.rows)
    &&& unique_keys(st.failures)
    &&& unique_keys(st.detail)
}

proof fn lemma_unique_update<V>(s: Seq<(Seq<char>, V)>, i: int, e: (Seq<char>, V))
    requires
        unique_keys(s),
        0 <= i < s.len(),
        e.0 == s[i].0,
    ensures
        unique_keys(s.update(i, e)),
{
    let t = s.update(i, e);
    assert forall|a: int, b: int| 0 <= a < t.len() && 0 <= b < t.len() && a != b implies #[trigger] t[a].0
        != #[trigger] t[b].0 by {
        assert(t[a].0 == s[a].0);
        assert(t[b].0 == s[b].0);
    }
}

proof fn lemma_unique_push<V>(s: Seq<(Seq<char>, V)>, e: (Seq<char>, V))
    requires
        unique_keys(s),
        forall|j: int| 0 <= j < s.len() ==> (#[trigger] s[j]).0 != e.0,
    ensures
        unique_keys(s.push(e)),
{
    let t = s.push(e);
    assert forall|a: int, b: int| 0 <= a < t.len() && 0 <= b < t.len() && a != b implies #[trigger] t[a].0
        != #[trigger] t[b].0 by {
        if a < s.len() {
            assert(t[a] == s[a]);
        }
        if b < s.len() {
            assert(t[b] == s[b]);
        }
    }
}

proof fn lemma_unique_push_absent<V>(s: Seq<(Seq<char>, V)>, e: (Seq<char>, V))
    requires
        unique_keys(s),
        index_of(s, e.0) is None,
    ensures
        unique_keys(s.push(e)),
{
    lemma_index_from(s, e.0, 0);
    lemma_unique_push(s, e);
}

/// Dropping the last entry keeps keys unique, and that entry's key is not
/// among the others.
proof fn lemma_unique_drop_last<V>(s: Seq<(Seq<char>, V)>)
    requires
        unique_keys(s),
        s.len() > 0,
    ensures
        unique_keys(s.drop_last()),
        forall|j: int| 0 <= j < s.len() - 1 ==> (#[trigger] s.drop_last()[j]).0 != s.last().0,
{
    let p = s.drop_last();
    assert forall|a: int, b: int| 0 <= a < p.len() && 0 <= b < p.len() && a != b implies #[trigger] p[a].0
        != #[trigger] p[b].0 by {
        assert(p[a] == s[a]);
        assert(p[b] == s[b]);
    }
    assert forall|j: int| 0 <= j < s.len() - 1 implies (#[trigger] p[j]).0 != s.last().0 by {
        assert(p[j] == s[j]);
        assert(s.last() == s[s.len() - 1]);
    }
}

/// Appending to a selection `kp` of `p` an entry whose key `p` lacks.
proof fn lemma_unique_keep_push<V>(kp: Seq<(Seq<char>, V)>, p: Seq<(Seq<char>, V)>, e: (Seq<char>, V))
    requires
        unique_keys(kp),
        forall|j: int| 0 <= j < kp.len() ==> p.contains(#[trigger] kp[j]),
        forall|j: int| 0 <= j < p.len() ==> (#[trigger] p[j]).0 != e.0,
    ensures
        unique_keys(kp.push(e)),
{
    assert forall|j: int| 0 <= j < kp.len() implies (#[trigger] kp[j]).0 != e.0 by {
        assert(p.contains(kp[j]));
        let w = choose|q: int| 0 <= q < p.len() && p[q] == kp[j];
        assert(p[w].0 != e.0);
    }
    lemma_unique_push(kp, e);
}

proof fn lemma_keep_seen_unique(rows: Rows, pid: Seq<char>, seen: Seq<Seq<char>>)
    requires
        unique_keys(rows),
    ensures
        unique_keys(keep_seen(rows, pid, seen)),
    decreases rows.len(),
{
    if rows.len() > 0 {
        let p = rows.drop_last();
        lemma_unique_drop_last(rows);
        lemma_keep_seen_unique(p, pid, seen);
        lemma_keep_seen_subset(p, pid, seen);
        let e = rows.last();
        if e.1.provider_id != pid || seen.contains(key_of(pid, e.1.monitor.id@)) {
            lemma_unique_keep_push(keep_seen(p, pid, seen), p, e);
        }
    }
}

proof fn lemma_keep_live_rows_unique(rows: Rows, live: Seq<Seq<char>>)
    requires
        unique_keys(rows),
    ensures
        unique_keys(keep_live_rows(rows, live)),
        forall|j: int| 0 <= j < keep_live_rows(rows, live).len() ==> rows.contains(
            #[trigger] keep_live_rows(rows, live)[j],
        ),
    decreases rows.len(),
{
    if rows.len() > 0 {
        let p = rows.drop_last();
        lemma_unique_drop_last(rows);
        lemma_keep_live_rows_unique(p, live);
        let kp = keep_live_rows(p, live);
        let e = rows.last();
        if live.contains(e.1.provider_id) {
            lemma_unique_keep_push(kp, p, e);
        }
        assert forall|j: int| 0 <= j < keep_live_rows(rows, live).len() implies rows.contains(
            #[trigger] keep_live_rows(rows, live)[j],
        ) by {
            if j < kp.len() {
                assert(keep_live_rows(rows, live)[j] == kp[j]);
                assert(p.contains(kp[j]));
                let w = choose|q: int| 0 <= q < p.len() && p[q] == kp[j];
                assert(rows[w] == p[w]);
            } else {
                assert(keep_live_rows(rows, live)[j] == e);
                assert(rows[rows.len() - 1] == e);
            }
        }
    }
}

proof fn lemma_keep_live_keys_unique<V>(s: Seq<(Seq<char>, V)>, live: Seq<Seq<char>>)
    requires
        unique_keys(s),
    ensures
        unique_keys(keep_live_keys(s, live)),
        forall|j: int| 0 <= j < keep_live_keys(s, live).len() ==> s.contains(
            #[trigger] keep_live_keys(s, live)[j],
        ),
    decreases s.len(),
{
    if s.len() > 0 {
        let p = s.drop_last();
        lemma_unique_drop_last(s);
        lemma_keep_live_keys_unique(p, live);
        let kp = keep_live_keys(p, live);
        let e = s.last();
        if live.contains(e.0) {
            lemma_unique_keep_push(kp, p, e);
        }
        assert forall|j: int| 0 <= j < keep_live_keys(s, live).len() implies s.contains(
            #[trigger] keep_live_keys(s, live)[j],
        ) by {
            if j < kp.len() {
                assert(keep_live_keys(s, live)[j] == kp[j]);
                assert(p.contains(kp[j]));
                let w = choose|q: int| 0 <= q < p.len() && p[q] == kp[j];
                assert(s[w] == p[w]);
            } else {
                assert(keep_live_keys(s, live)[j] == e);
                assert(s[s.len() - 1] == e);
            }
        }
    }
}

proof fn lemma_fold_unique(rows: Rows, pid: Seq<char>, label: Seq<char>, kind: Seq<char>, ms: Seq<Monitor>)
    requires
        unique_keys(rows),
    ensures
        unique_keys(success_fold(rows, pid, label, kind, ms).0),
    decreases ms.len(),
{
    if ms.len() > 0 {
        lemma_fold_unique(rows, pid, label, kind, ms.drop_last());
        let prev = success_fold(rows, pid, label, kind, ms.drop_last());
        let m = ms.last();
        let k = key_of(pid, m.id@);
        lemma_index_from(prev.0, k, 0);
        match index_of(prev.0, k) {
            Some(i) => {
                let row = prev.0[i].1;
                let ls = if solid(m.status) {
                    Some(m.status)
                } else {
                    row.last_solid
                };
                lemma_unique_update(prev.0, i, (prev.0[i].0, RowView { monitor: m, last_solid: ls, ..row }));
            },
            None => {
                lemma_unique_push_absent(
                    prev.0,
                    (
                        k,
                        RowView {
                            provider_id: pid,
                            provider_label: label,
                            provider_kind: kind,
                            monitor: m,
                            last_solid: if solid(m.status) {
                                Some(m.status)
                            } else {
                                None
                            },
                        },
                    ),
                );
            },
        }
    }
}

proof fn lemma_set_count_unique(f: Seq<(Seq<char>, u32)>, pid: Seq<char>, n: u32)
    requires
        unique_keys(f),
    ensures
        unique_keys(set_count(f, pid, n)),
{
    lemma_index_from(f, pid, 0);
    match index_of(f, pid) {
        Some(i) => lemma_unique_update(f, i, (pid, n)),
        None => lemma_unique_push_absent(f, (pid, n)),
    }
}

proof fn lemma_mark_unknown_unique(rows: Rows, pid: Seq<char>)
    requires
        unique_keys(rows),
    ensures
        unique_keys(mark_unknown(rows, pid)),
{
    let t = mark_unknown(rows, pid);
    assert forall|a: int, b: int| 0 <= a < t.len() && 0 <= b < t.len() && a != b implies #[trigger] t[a].0
        != #[trigger] t[b].0 by {
        assert(t[a].0 == rows[a].0);
        assert(t[b].0 == rows[b].0);
    }
}

/// A successful fetch keeps every table's keys unique.
pub proof fn law_success_keeps_keys_unique(
    st: StateView,
    pid: Seq<char>,
    label: Seq<char>,
    kind: Seq<char>,
    ms: Seq<Monitor>,
)
    requires
        keys_unique(st),
    ensures
        keys_unique(success_state(st, pid, label, kind, ms)),
{
    lemma_fold_unique(st.rows, pid, label, kind, ms);
    lemma_keep_seen_unique(success_fold(st.rows, pid, label, kind, ms).0, pid, seen_keys(pid, ms));
    lemma_set_count_unique(st.failures, pid, 0);
}

/// A failed fetch keeps every table's keys unique.
pub proof fn law_failure_keeps_keys_unique(st: StateView, pid: Seq<char>)
    requires
        keys_unique(st),
    ensures
        keys_unique(failure_state(st, pid)),
{
    lemma_set_count_unique(st.failures, pid, (count_of(st.failures, pid) + 1) as u32);
    lemma_mark_unknown_unique(st.rows, pid);
}

/// Applying an action's outcome keeps every table's keys unique.
pub proof fn law_action_keeps_keys_unique(
    st: StateView,
    pid: Seq<char>,
    public_id: Seq<char>,
    is_paused: Option<bool>,
    is_muted: Option<bool>,
)
    requires
        keys_unique(st),
    ensures
        keys_unique(StateView { rows: outcome_rows(st.rows, pid, public_id, is_paused, is_muted), ..st }),
{
    if let Some(i) = action_row_from(st.rows, pid, public_id, 0) {
        lemma_action_row_from(st.rows, pid, public_id, 0);
        let r = outcome_rows(st.rows, pid, public_id, is_paused, is_muted);
        lemma_unique_update(st.rows, i, r[i]);
    }
}

proof fn lemma_action_row_from(rows: Rows, pid: Seq<char>, public_id: Seq<char>, from: int)
    requires
        0 <= from,
    ensures
        action_row_from(rows, pid, public_id, from) matches Some(i) ==> from <= i < rows.len(),
    decreases rows.len() - from,
{
    if from < rows.len() {
        lemma_action_row_from(rows, pid, public_id, from + 1);
    }
}

/// Pruning to the live providers keeps every table's keys unique.
pub proof fn law_prune_keeps_keys_unique(st: StateView, live: Seq<Seq<char>>)
    requires
        keys_unique(st),
    ensures
        keys_unique(StateView {
            rows: keep_live_rows(st.rows, live),
            failures: keep_live_keys(st.failures, live),
            detail: keep_live_keys(st.detail, live),
            ..st
        }),
{
    lemma_keep_live_rows_unique(st.rows, live);
    lemma_keep_live_keys_unique(st.failures, live);
    lemma_keep_live_keys_unique(st.detail, live);
}

/// Starting and finishing a detail request keep every table's keys unique.
pub proof fn law_detail_keeps_keys_unique(
    st: StateView,
    id: Seq<char>,
    now: u128,
    ttl: u128,
    force: bool,
    value: Option<serde_json::Value>,
)
    requires
        keys_unique(st),
    ensures
        keys_unique(StateView { detail: begin_detail_spec(st.detail, id, now, ttl, force).0, ..st }),
        keys_unique(StateView { detail: finish_detail_spec(st.detail, id, now, value), ..st }),
{
    let d = st.detail;
    lemma_index_from(d, id, 0);
    match index_of(d, id) {
        Some(i) => {
            lemma_unique_update(d, i, (id, DetailCache { in_flight: true, ..d[i].1 }));
            lemma_unique_update(
                d,
                i,
                (
                    id,
                    DetailCache {
                        in_flight: false,
                        fetched_at: Some(now),
                        value: if value is Some {
                            value
                        } else {
                            d[i].1.value
                        },
                    },
                ),
            );
        },
        None => {
            lemma_unique_push_absent(d, (id, DetailCache { fetched_at: None, value: None, in_flight: true }));
            lemma_unique_push_absent(d, (id, DetailCache { fetched_at: Some(now), value, in_flight: false }));
        },
    }
}

// ---------------------------------------------------------------------------
// Muted monitors
// ---------------------------------------------------------------------------

/// With "silence muted monitors" on, no announced transition is of a muted
/// monitor and every transition of an unmuted one is still announced; with
/// it off, every transition is announced.
pub proof fn law_muted_are_silenced(ts: Seq<TransitionView>)
    ensures
        forall|i: int| 0 <= i < audible(ts, true).len() ==> !(#[trigger] audible(ts, true)[i]).muted,
        forall|i: int| 0 <= i < ts.len() && !(#[trigger] ts[i]).muted ==> audible(ts, true).contains(ts[i]),
        audible(ts, false) == ts,
    decreases ts.len(),
{
    if ts.len() > 0 {
        let p = ts.drop_last();
        law_muted_are_silenced(p);
        let r = audible(p, true);
        assert forall|i: int| 0 <= i < ts.len() && !(#[trigger] ts[i]).muted implies audible(
            ts,
            true,
        ).contains(ts[i]) by {
            if i < ts.len() - 1 {
                assert(ts[i] == p[i]);
                assert(r.contains(p[i]));
                let w = choose|q: int| 0 <= q < r.len() && r[q] == p[i];
                assert(audible(ts, true)[w] == r[w]);
            } else {
                assert(ts[i] == ts.last());
                assert(audible(ts, true) == r.push(ts.last()));
                assert(audible(ts, true)[r.len() as int] == ts.last());
            }
        }
        assert(audible(ts, false) =~= p.push(ts.last()));
    }
}

// ---------------------------------------------------------------------------
// Provider status mapping
// ---------------------------------------------------------------------------

/// Watch4.me: a paused monitor shows Paused; otherwise data too old to trust
/// shows Unknown, whatever its last up/down reading; otherwise it shows Up
/// exactly when it is up, and Down when it is not. Unknown means stale.
pub proof fn law_w4m_status(s: MonitorStats)
    ensures
        s.is_paused ==> w4m_status(s) == MonitorStatus::Paused,
        !s.is_paused && s.is_stale ==> w4m_status(s) == MonitorStatus::Unknown,
        !s.is_paused && s.is_stale ==> w4m_status(s) == w4m_status(MonitorStats { is_up: !s.is_up, ..s }),
        !s.is_paused && !s.is_stale ==> (w4m_status(s) == MonitorStatus::Up <==> s.is_up),
        !s.is_paused && !s.is_stale ==> (w4m_status(s) == MonitorStatus::Down <==> !s.is_up),
        w4m_status(s) == MonitorStatus::Unknown <==> (!s.is_paused && s.is_stale),
{
}

/// The monitor a Watch4.me entry normalizes to carries that status.
pub proof fn law_w4m_monitor_status(w: Watch4Me, s: MonitorStats, m: Monitor)
    requires
        w.stats_monitor(s, m),
    ensures
        s.is_paused ==> m.status == MonitorStatus::Paused,
        !s.is_paused && s.is_stale ==> m.status == MonitorStatus::Unknown,
        !s.is_paused && !s.is_stale && s.is_up ==> m.status == MonitorStatus::Up,
        !s.is_paused && !s.is_stale && !s.is_up ==> m.status == MonitorStatus::Down,
{
}

/// BetterStack: "up" and "down" (in any ASCII case) show Up and Down, a
/// monitor the user paused ("paused") or one under maintenance shows
/// Paused, and every other status (pending, validating, none) Unknown.
pub proof fn law_bs_status(raw: Seq<char>)
    ensures
        ascii_lower(raw) == "up"@ ==> bs_status(Some(raw)) == MonitorStatus::Up,
        ascii_lower(raw) == "down"@ ==> bs_status(Some(raw)) == MonitorStatus::Down,
        ascii_lower(raw) == "paused"@ ==> bs_status(Some(raw)) == MonitorStatus::Paused,
        ascii_lower(raw) == "maintenance"@ ==> bs_status(Some(raw)) == MonitorStatus::Paused,
        bs_status(Some(raw)) == MonitorStatus::Paused <==> (ascii_lower(raw) == "paused"@ || ascii_lower(raw)
            == "maintenance"@),
        bs_status(Some(raw)) == MonitorStatus::Up <==> ascii_lower(raw) == "up"@,
        bs_status(Some(raw)) == MonitorStatus::Down <==> ascii_lower(raw) == "down"@,
        bs_status(None) == MonitorStatus::Unknown,
{
    reveal_strlit("up");
    reveal_strlit("down");
    reveal_strlit("paused");
    reveal_strlit("maintenance");
    assert("up"@.len() == 2 && "down"@.len() == 4 && "paused"@.len() == 6 && "maintenance"@.len() == 11);
}

/// A BetterStack monitor normalizes with that status.
pub proof fn law_bs_monitor_status(b: BetterStack, item: BsItem, m: Monitor)
    requires
        b.item_monitor(item, m),
    ensures
        m.status == MonitorStatus::Paused <==> (item.status matches Some(st) && (ascii_lower(st@) == "paused"@
            || ascii_lower(st@) == "maintenance"@)),
{
    if let Some(st) = item.status {
        law_bs_status(st@);
    }
}

/// Healthchecks: only "up" (in any ASCII case) shows Up, "down" Down and
/// "paused" Paused; "new" (never pinged), "grace" (a ping overdue) and any
/// other status show Unknown, as does a check without one.
pub proof fn law_hc_status(raw: Seq<char>)
    ensures
        hc_status(Some(raw)) == MonitorStatus::Up <==> ascii_lower(raw) == "up"@,
        hc_status(Some(raw)) == MonitorStatus::Down <==> ascii_lower(raw) == "down"@,
        hc_status(Some(raw)) == MonitorStatus::Paused <==> ascii_lower(raw) == "paused"@,
        ascii_lower(raw) == "new"@ ==> hc_status(Some(raw)) == MonitorStatus::Unknown,
        ascii_lower(raw) == "grace"@ ==> hc_status(Some(raw)) == MonitorStatus::Unknown,
        hc_status(None) == MonitorStatus::Unknown,
{
    reveal_strlit("up");
    reveal_strlit("down");
    reveal_strlit("paused");
    reveal_strlit("new");
    reveal_strlit("grace");
    assert("up"@.len() == 2 && "down"@.len() == 4 && "paused"@.len() == 6);
    assert("new"@.len() == 3 && "grace"@.len() == 5);
}

/// A Healthchecks check normalizes with that status.
pub proof fn law_hc_monitor_status(h: Healthchecks, i: nat, c: Check, m: Monitor)
    requires
        h.check_monitor(i, c, m),
    ensures
        m.status == MonitorStatus::Up <==> (c.status matches Some(st) && ascii_lower(st@) == "up"@),
{
    if let Some(st) = c.status {
        law_hc_status(st@);
    }
}

// ---------------------------------------------------------------------------
// Conditional polling
// ---------------------------------------------------------------------------

/// Once a 200 reply is accepted, the next request carries its ETag and a 304
/// answer replays exactly the list that reply produced.
pub proof fn law_not_modified_replays_last_reply(
    w: Watch4Me,
    after: Watch4Me,
    etag: Option<String>,
    stats: Seq<MonitorStats>,
    reply: Seq<Monitor>,
)
    requires
        w.accepted(after, etag, stats, reply),
    ensures
        after.status_verdict(304) == Some(Ok::<Seq<Monitor>, ProviderError>(reply)),
        after.cache.etag == etag,
{
}

/// An adapter that has accepted no reply yet sends no ETag, and a 304 would
/// replay an empty list.
pub proof fn law_fresh_adapter_replays_nothing(w: Watch4Me, cfg: ProviderConfig, secret: String)
    requires
        w.configured_from(cfg, secret),
    ensures
        w.cache.etag is None,
        w.status_verdict(304) == Some(Ok::<Seq<Monitor>, ProviderError>(Seq::<Monitor>::empty())),
{
    assert(w.cache.monitors@ =~= Seq::<Monitor>::empty());
}

} // verus!
