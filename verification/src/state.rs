//! Application state. Transition detection lives here: it is the single gate
//! that decides when a notification fires. Rows are keyed by
//! "{provider_id}:{monitor_id}"; every operation is stated over the state's
//! view (`StateView`) and the per-step specifications below.

use std::time::Duration;
use std::time::Instant;

use vstd::prelude::*;
use vstd::string::*;

use crate::providers::{clone_opt, ov, Monitor, MonitorStatus, ProviderConfig, ProviderError, TokenScope};
use crate::text::{chars_of, concat3, lowercase, str_eq, to_lowercase};

verus! {

/// Number of consecutive provider fetch failures before its monitors are
/// shown as Unknown (rather than letting a flaky API masquerade as an outage).
pub const FAILURE_THRESHOLD: u32 = 2;

#[verifier::external_type_specification]
#[verifier::external_body]
pub struct ExInstant(Instant);

#[verifier::external_type_specification]
#[verifier::external_body]
pub struct ExClient(reqwest::Client);

#[verifier::external_type_specification]
#[verifier::external_body]
pub struct ExJsonValue(serde_json::Value);

// ---------------------------------------------------------------------------
// Keyed sequences
// ---------------------------------------------------------------------------

/// First index at or after `from` whose key is `k`.
pub open spec fn index_from<V>(s: Seq<(Seq<char>, V)>, k: Seq<char>, from: int) -> Option<int>
    decreases s.len() - from,
{
    if from < 0 || from >= s.len() {
        None
    } else if s[from].0 == k {
        Some(from)
    } else {
        index_from(s, k, from + 1)
    }
}

/// First index whose key is `k`.
pub open spec fn index_of<V>(s: Seq<(Seq<char>, V)>, k: Seq<char>) -> Option<int> {
    index_from(s, k, 0)
}

pub proof fn lemma_index_from<V>(s: Seq<(Seq<char>, V)>, k: Seq<char>, from: int)
    requires
        0 <= from,
    ensures
        index_from(s, k, from) matches Some(i) ==> from <= i < s.len() && s[i].0 == k && forall|j: int|
            from <= j < i ==> s[j].0 != k,
        index_from(s, k, from) is None ==> forall|j: int| from <= j < s.len() ==> s[j].0 != k,
    decreases s.len() - from,
{
    if from < s.len() && s[from].0 != k {
        lemma_index_from(s, k, from + 1);
    }
}

/// Key lookup depends only on the keys.
pub proof fn lemma_index_same_keys<A, B>(s: Seq<(Seq<char>, A)>, t: Seq<(Seq<char>, B)>, k: Seq<char>, from: int)
    requires
        s.len() == t.len(),
        forall|j: int| 0 <= j < s.len() ==> #[trigger] s[j].0 == t[j].0,
    ensures
        index_from(s, k, from) == index_from(t, k, from),
    decreases s.len() - from,
{
    if from >= 0 && from < s.len() && s[from].0 != k {
        lemma_index_same_keys(s, t, k, from + 1);
    }
}

/// Keys as characters, values unchanged.
pub open spec fn kv<V>(s: Seq<(String, V)>) -> Seq<(Seq<char>, V)> {
    s.map_values(|e: (String, V)| (e.0@, e.1))
}

/// The index of key `k` in a keyed vector.
pub fn find_key<V>(v: &Vec<(String, V)>, k: &str) -> (r: Option<usize>)
    ensures
        r matches Some(i) ==> i < v@.len() && index_of(kv(v@), k@) == Some(i as int),
        r is None ==> index_of(kv(v@), k@) is None,
{
    let mut i: usize = 0;
    while i < v.len()
        invariant
            i <= v@.len(),
            index_of(kv(v@), k@) == index_from(kv(v@), k@, i as int),
        decreases v@.len() - i,
    {
        assert(kv(v@)[i as int].0 == v@[i as int].0@);
        if str_eq(v[i].0.as_str(), k) {
            return Some(i);
        }
        i = i + 1;
    }
    None
}

// ---------------------------------------------------------------------------
// Rows and transitions
// ---------------------------------------------------------------------------

pub struct MonitorRow {
    pub provider_id: String,
    pub provider_label: String,
    pub provider_kind: String,
    pub monitor: Monitor,
    /// Last solid (Up/Down) status observed: the basis for transition edges.
    pub last_solid: Option<MonitorStatus>,
}

pub struct RowView {
    pub provider_id: Seq<char>,
    pub provider_label: Seq<char>,
    pub provider_kind: Seq<char>,
    pub monitor: Monitor,
    pub last_solid: Option<MonitorStatus>,
}

impl View for MonitorRow {
    type V = RowView;

    open spec fn view(&self) -> RowView {
        RowView {
            provider_id: self.provider_id@,
            provider_label: self.provider_label@,
            provider_kind: self.provider_kind@,
            monitor: self.monitor,
            last_solid: self.last_solid,
        }
    }
}

/// A state edge worth notifying the user about.
pub struct Transition {
    pub monitor_name: String,
    pub provider_label: String,
    pub new_status: MonitorStatus,
    /// The monitor's alerts are muted at its provider.
    pub muted: bool,
}

pub struct TransitionView {
    pub monitor_name: Seq<char>,
    pub provider_label: Seq<char>,
    pub new_status: MonitorStatus,
    pub muted: bool,
}

impl View for Transition {
    type V = TransitionView;

    open spec fn view(&self) -> TransitionView {
        TransitionView {
            monitor_name: self.monitor_name@,
            provider_label: self.provider_label@,
            new_status: self.new_status,
            muted: self.muted,
        }
    }
}

/// The views of a list of transitions.
pub open spec fn transitions_view(v: Seq<Transition>) -> Seq<TransitionView> {
    v.map_values(|t: Transition| t@)
}

/// The key of monitor `mid` of provider `pid`: "{pid}:{mid}".
pub open spec fn key_of(pid: Seq<char>, mid: Seq<char>) -> Seq<char> {
    pid + seq![':'] + mid
}

/// Up and Down are solid; Paused and Unknown are not.
pub open spec fn solid(s: MonitorStatus) -> bool {
    s == MonitorStatus::Up || s == MonitorStatus::Down
}

pub fn is_solid(s: MonitorStatus) -> (r: bool)
    ensures
        r == solid(s),
{
    match s {
        MonitorStatus::Up | MonitorStatus::Down => true,
        _ => false,
    }
}

/// "{provider_id}:{monitor_id}".
pub fn key(provider_id: &str, monitor_id: &str) -> (r: String)
    ensures
        r@ == key_of(provider_id@, monitor_id@),
{
    let r = concat3(provider_id, ":", monitor_id);
    proof {
        reveal_strlit(":");
    }
    r
}

pub type Rows = Seq<(Seq<char>, RowView)>;

/// Fold one freshly fetched monitor into the rows. A solid status that
/// differs from the row's last solid status is a transition; the first
/// observation of a monitor only sets its baseline.
pub open spec fn success_step(
    rows: Rows,
    trans: Seq<TransitionView>,
    pid: Seq<char>,
    label: Seq<char>,
    kind: Seq<char>,
    m: Monitor,
) -> (Rows, Seq<TransitionView>) {
    let k = key_of(pid, m.id@);
    match index_of(rows, k) {
        Some(i) => {
            let row = rows[i].1;
            let t = if solid(m.status) && row.last_solid is Some && row.last_solid.unwrap()
                != m.status {
                trans.push(
                    TransitionView {
                        monitor_name: m.name@,
                        provider_label: label,
                        new_status: m.status,
                        muted: m.is_muted,
                    },
                )
            } else {
                trans
            };
            let ls = if solid(m.status) {
                Some(m.status)
            } else {
                row.last_solid
            };
            (rows.update(i, (rows[i].0, RowView { monitor: m, last_solid: ls, ..row })), t)
        },
        None => (
            rows.push(
                (
                    k,
                    RowView {
                        provider_id: pid,
                        provider_label: label,
                        provider_kind: kind,
                        monitor: m,
                        last_solid: if solid(m.status) {
                            Some(m.status)
                        } else {
                            None
                        },
                    },
                ),
            ),
            trans,
        ),
    }
}

/// Fold a whole fetch, monitor by monitor, in order.
pub open spec fn success_fold(
    rows: Rows,
    pid: Seq<char>,
    label: Seq<char>,
    kind: Seq<char>,
    ms: Seq<Monitor>,
) -> (Rows, Seq<TransitionView>)
    decreases ms.len(),
{
    if ms.len() == 0 {
        (rows, Seq::empty())
    } else {
        let prev = success_fold(rows, pid, label, kind, ms.drop_last());
        success_step(prev.0, prev.1, pid, label, kind, ms.last())
    }
}

/// The keys of a fetch's monitors.
pub open spec fn seen_keys(pid: Seq<char>, ms: Seq<Monitor>) -> Seq<Seq<char>> {
    ms.map_values(|m: Monitor| key_of(pid, m.id@))
}

/// Rows kept after a fetch of `pid`: other providers' rows, and `pid`'s rows
/// whose monitor was in the fetch.
pub open spec fn keep_seen(rows: Rows, pid: Seq<char>, seen: Seq<Seq<char>>) -> Rows
    decreases rows.len(),
{
    if rows.len() == 0 {
        rows
    } else {
        let r = keep_seen(rows.drop_last(), pid, seen);
        let e = rows.last();
        if e.1.provider_id != pid || seen.contains(key_of(pid, e.1.monitor.id@)) {
            r.push(e)
        } else {
            r
        }
    }
}

/// Set the failure count of `pid` (insert or overwrite).
pub open spec fn set_count(f: Seq<(Seq<char>, u32)>, pid: Seq<char>, n: u32) -> Seq<(Seq<char>, u32)> {
    match index_of(f, pid) {
        Some(i) => f.update(i, (pid, n)),
        None => f.push((pid, n)),
    }
}

/// The failure count of `pid` (0 when none is recorded).
pub open spec fn count_of(f: Seq<(Seq<char>, u32)>, pid: Seq<char>) -> u32 {
    match index_of(f, pid) {
        Some(i) => f[i].1,
        None => 0,
    }
}

/// Every row of `pid` shown as Unknown; other rows unchanged.
pub open spec fn mark_unknown(rows: Rows, pid: Seq<char>) -> Rows {
    rows.map_values(
        |e: (Seq<char>, RowView)|
            if e.1.provider_id == pid {
                (e.0, RowView { monitor: Monitor { status: MonitorStatus::Unknown, ..e.1.monitor }, ..e.1 })
            } else {
                e
            },
    )
}

// ---------------------------------------------------------------------------
// Detail cache
// ---------------------------------------------------------------------------

/// Cached on-demand provider detail. Times are nanoseconds on the state's
/// monotonic clock.
pub struct DetailCache {
    /// When the last fetch completed (success or failure). `None` = never.
    pub fetched_at: Option<u128>,
    /// Last successful detail payload, replayed on cache hits.
    pub value: Option<serde_json::Value>,
    /// A fetch is currently in flight for this provider.
    pub in_flight: bool,
}

/// What `begin_detail` decided a caller should do.
pub enum DetailDecision {
    /// Serve this cached value (fresh, or a fetch is already in flight).
    Hit(Option<serde_json::Value>),
    /// Caller should fetch; it has been marked in-flight.
    Fetch,
}

// ---------------------------------------------------------------------------
// The state
// ---------------------------------------------------------------------------

pub struct AppState {
    pub http: reqwest::Client,
    /// Persisted, non-secret provider configs (mirror of the store).
    pub configs: Vec<ProviderConfig>,
    /// Current monitor rows keyed by "{provider_id}:{monitor_id}".
    pub rows: Vec<(String, MonitorRow)>,
    /// Per-provider consecutive failure counters.
    pub failures: Vec<(String, u32)>,
    /// When the last full poll completed: gates redundant open-driven polls.
    pub last_poll: Option<u128>,
    /// Per-provider detail cache, keyed by provider id.
    pub detail_cache: Vec<(String, DetailCache)>,
    /// Origin of the state's monotonic clock.
    pub clock: Instant,
}

pub struct StateView {
    pub configs: Seq<ProviderConfig>,
    pub rows: Rows,
    pub failures: Seq<(Seq<char>, u32)>,
    pub last_poll: Option<u128>,
    pub detail: Seq<(Seq<char>, DetailCache)>,
}

pub open spec fn rows_view(v: Seq<(String, MonitorRow)>) -> Rows {
    v.map_values(|e: (String, MonitorRow)| (e.0@, e.1@))
}

impl View for AppState {
    type V = StateView;

    open spec fn view(&self) -> StateView {
        StateView {
            configs: self.configs@,
            rows: rows_view(self.rows@),
            failures: kv(self.failures@),
            last_poll: self.last_poll,
            detail: kv(self.detail_cache@),
        }
    }
}

/// The state after a successful fetch of `ms` from provider `pid`.
pub open spec fn success_state(
    st: StateView,
    pid: Seq<char>,
    label: Seq<char>,
    kind: Seq<char>,
    ms: Seq<Monitor>,
) -> StateView {
    StateView {
        rows: keep_seen(success_fold(st.rows, pid, label, kind, ms).0, pid, seen_keys(pid, ms)),
        failures: set_count(st.failures, pid, 0),
        ..st
    }
}

/// The transitions a successful fetch of `ms` from provider `pid` reports.
pub open spec fn success_transitions(
    st: StateView,
    pid: Seq<char>,
    label: Seq<char>,
    kind: Seq<char>,
    ms: Seq<Monitor>,
) -> Seq<TransitionView> {
    success_fold(st.rows, pid, label, kind, ms).1
}

/// The state after one more failed fetch of provider `pid`.
pub open spec fn failure_state(st: StateView, pid: Seq<char>) -> StateView {
    let n = (count_of(st.failures, pid) + 1) as u32;
    StateView {
        failures: set_count(st.failures, pid, n),
        rows: if n >= FAILURE_THRESHOLD {
            mark_unknown(st.rows, pid)
        } else {
            st.rows
        },
        ..st
    }
}

/// `a` and `b` agree on everything but their rows.
pub open spec fn same_but_rows(a: AppState, b: AppState) -> bool {
    &&& a.http == b.http
    &&& a.clock == b.clock
    &&& a.configs == b.configs
    &&& a.failures == b.failures
    &&& a.last_poll == b.last_poll
    &&& a.detail_cache == b.detail_cache
}

impl AppState {
    /// Set the failure count of `pid`.
    fn set_failures(&mut self, pid: &str, n: u32)
        ensures
            final(self)@ == (StateView { failures: set_count(old(self)@.failures, pid@, n), ..old(self)@ }),
            final(self).http == old(self).http,
            final(self).clock == old(self).clock,
    {
        match find_key(&self.failures, pid) {
            Some(i) => {
                let ghost before = self.failures@;
                let (k, _) = self.failures.remove(i);
                self.failures.insert(i, (k, n));
                assert(self.failures@ == before.update(i as int, (before[i as int].0, n)));
                proof {
                    lemma_index_from(kv(before), pid@, 0);
                }
                assert(kv(self.failures@) =~= kv(before).update(i as int, (pid@, n)));
            },
            None => {
                let ghost before = self.failures@;
                self.failures.push((String::from_str(pid), n));
                assert(kv(self.failures@) =~= kv(before).push((pid@, n)));
            },
        }
    }

    /// Apply a successful provider fetch. Returns any Up/Down transitions, in
    /// fetch order. The first observation of a monitor sets a silent baseline;
    /// rows of this provider whose monitor vanished are dropped.
    pub fn apply_success(
        &mut self,
        provider_id: &str,
        provider_label: &str,
        provider_kind: &str,
        monitors: Vec<Monitor>,
    ) -> (r: Vec<Transition>)
        ensures
            final(self)@ == success_state(old(self)@, provider_id@, provider_label@, provider_kind@, monitors@),
            transitions_view(r@) == success_transitions(
                old(self)@,
                provider_id@,
                provider_label@,
                provider_kind@,
                monitors@,
            ),
            final(self).http == old(self).http,
            final(self).clock == old(self).clock,
    {
        self.set_failures(provider_id, 0);
        let ghost rows0 = self@.rows;
        let ghost all = monitors@;
        let mut transitions: Vec<Transition> = Vec::new();
        let mut seen: Vec<String> = Vec::new();
        let mut monitors = monitors;
        let ghost s0 = *self;
        let ghost mut j: int = 0;
        while monitors.len() > 0
            invariant
                same_but_rows(*self, s0),
                0 <= j,
                j + monitors@.len() == all.len(),
                monitors@ == all.skip(j),
                ({
                    let f = success_fold(rows0, provider_id@, provider_label@, provider_kind@, all.take(j));
                    &&& rows_view(self.rows@) == f.0
                    &&& transitions_view(transitions@) == f.1
                }),
                seen@.map_values(|s: String| s@) == seen_keys(provider_id@, all.take(j)),
            decreases monitors@.len(),
        {
            let m = monitors.remove(0);
            assert(m == all[j]);
            let ghost prev_rows = rows_view(self.rows@);
            let ghost prev_trans = transitions_view(transitions@);
            let k = key(provider_id, m.id.as_str());
            let ghost seen_before = seen@;
            seen.push(k.clone());
            let new_status = m.status;
            proof {
                lemma_index_from(prev_rows, k@, 0);
            }
            proof {
                assert forall|q: int| 0 <= q < prev_rows.len() implies #[trigger] prev_rows[q].0 == kv(
                    self.rows@,
                )[q].0 by {}
                lemma_index_same_keys(prev_rows, kv(self.rows@), k@, 0);
            }
            match find_key(&self.rows, k.as_str()) {
                Some(i) => {
                    let ghost before = self.rows@;
                    assert(index_of(prev_rows, k@) == Some(i as int));
                    let (rk, row) = self.rows.remove(i);
                    let mut row = row;
                    if is_solid(new_status) {
                        if let Some(prev) = row.last_solid {
                            if prev != new_status {
                                let ghost tv = transitions_view(transitions@);
                                transitions.push(
                                    Transition {
                                        monitor_name: m.name.clone(),
                                        provider_label: String::from_str(provider_label),
                                        new_status,
                                        muted: m.is_muted,
                                    },
                                );
                                assert(transitions_view(transitions@) =~= tv.push(
                                    TransitionView {
                                        monitor_name: m.name@,
                                        provider_label: provider_label@,
                                        new_status,
                                        muted: m.is_muted,
                                    },
                                ));
                            }
                        }
                        row.last_solid = Some(new_status);
                    }
                    row.monitor = m;
                    self.rows.insert(i, (rk, row));
                    assert(self.rows@ == before.update(i as int, (rk, row)));
                    assert(rows_view(self.rows@) =~= rows_view(before).update(i as int, (rk@, row@)));
                },
                None => {
                    let ghost before = self.rows@;
                    let solid_status = if is_solid(new_status) {
                        Some(new_status)
                    } else {
                        None
                    };
                    self.rows.push(
                        (
                            k,
                            MonitorRow {
                                provider_id: String::from_str(provider_id),
                                provider_label: String::from_str(provider_label),
                                provider_kind: String::from_str(provider_kind),
                                monitor: m,
                                last_solid: solid_status,
                            },
                        ),
                    );
                    assert(rows_view(self.rows@) =~= rows_view(before).push(
                        (k@, self.rows@.last().1@),
                    ));
                },
            }
            proof {
                assert(all.take(j + 1).drop_last() =~= all.take(j));
                assert(all.take(j + 1).last() == m);
                assert(transitions_view(transitions@) =~= transitions_view(transitions@));
                assert(seen@ == seen_before.push(k));
                assert(seen_keys(provider_id@, all.take(j + 1)) =~= seen_keys(provider_id@, all.take(j)).push(
                    key_of(provider_id@, m.id@),
                ));
                assert(seen@.map_values(|s: String| s@) =~= seen_before.map_values(|s: String| s@).push(k@));
                j = j + 1;
            }
            assert(monitors@ == all.skip(j));
        }
        assert(all.take(j) =~= all);
        // Drop rows for monitors that vanished from this provider.
        self.keep_rows(provider_id, &seen);
        transitions
    }

    /// Keep other providers' rows and `pid`'s rows whose key is in `seen`.
    fn keep_rows(&mut self, pid: &str, seen: &Vec<String>)
        ensures
            final(self)@ == (StateView {
                rows: keep_seen(old(self)@.rows, pid@, seen@.map_values(|s: String| s@)),
                ..old(self)@
            }),
            final(self).http == old(self).http,
            final(self).clock == old(self).clock,
    {
        let ghost sv = seen@.map_values(|s: String| s@);
        let ghost all = rows_view(self.rows@);
        let mut rest: Vec<(String, MonitorRow)> = Vec::new();
        std::mem::swap(&mut rest, &mut self.rows);
        let ghost s0 = *self;
        let ghost mut i: int = 0;
        while rest.len() > 0
            invariant
                same_but_rows(*self, s0),
                0 <= i,
                i + rest@.len() == all.len(),
                rows_view(rest@) == all.skip(i),
                rows_view(self.rows@) == keep_seen(all.take(i), pid@, sv),
                sv == seen@.map_values(|s: String| s@),
            decreases rest@.len(),
        {
            let ghost before_rest = rest@;
            let e = rest.remove(0);
            assert(rows_view(before_rest)[0] == (e.0@, e.1@));
            assert(rows_view(rest@) =~= rows_view(before_rest).skip(1));
            let other = !str_eq(e.1.provider_id.as_str(), pid);
            let keep = other || contains_key(seen, &key(pid, e.1.monitor.id.as_str()));
            let ghost kept = rows_view(self.rows@);
            if keep {
                self.rows.push(e);
                assert(rows_view(self.rows@) =~= kept.push((e.0@, e.1@)));
            }
            proof {
                assert(all.take(i + 1).drop_last() =~= all.take(i));
                assert(all.take(i + 1).last() == (e.0@, e.1@));
                i = i + 1;
            }
        }
        assert(all.take(i) =~= all);
    }

    /// Record a provider fetch failure; once the count reaches the threshold,
    /// its monitors are shown as Unknown. Going Unknown never notifies, and
    /// the last solid status is kept for when the provider recovers.
    pub fn apply_failure(&mut self, provider_id: &str)
        requires
            count_of(old(self)@.failures, provider_id@) < u32::MAX,
        ensures
            final(self)@ == failure_state(old(self)@, provider_id@),
            final(self).http == old(self).http,
            final(self).clock == old(self).clock,
    {
        let count = match find_key(&self.failures, provider_id) {
            Some(i) => self.failures[i].1,
            None => 0,
        };
        proof {
            lemma_index_from(kv(self.failures@), provider_id@, 0);
        }
        let n = count + 1;
        self.set_failures(provider_id, n);
        if n >= FAILURE_THRESHOLD {
            let ghost all = rows_view(self.rows@);
            let ghost s0 = *self;
            let mut i: usize = 0;
            while i < self.rows.len()
                invariant
                    same_but_rows(*self, s0),
                    i <= self.rows@.len(),
                    all.len() == self.rows@.len(),
                    forall|j: int| 0 <= j < i ==> #[trigger] rows_view(self.rows@)[j] == mark_unknown(all, provider_id@)[j],
                    forall|j: int| i <= j < all.len() ==> #[trigger] rows_view(self.rows@)[j] == all[j],
                decreases self.rows@.len() - i,
            {
                let ghost before = self.rows@;
                assert(rows_view(before)[i as int] == all[i as int]);
                if str_eq(self.rows[i].1.provider_id.as_str(), provider_id) {
                    let (k, row) = self.rows.remove(i);
                    let mut row = row;
                    row.monitor.status = MonitorStatus::Unknown;
                    self.rows.insert(i, (k, row));
                    assert(self.rows@ == before.update(i as int, (k, row)));
                    assert(rows_view(self.rows@) =~= rows_view(before).update(i as int, (k@, row@)));
                } else {
                    assert(mark_unknown(all, provider_id@)[i as int] == all[i as int]);
                }
                i = i + 1;
            }
            assert(rows_view(self.rows@) =~= mark_unknown(all, provider_id@));
        }
    }
}

/// Whether `k` is one of `seen`.
fn contains_key(seen: &Vec<String>, k: &String) -> (r: bool)
    ensures
        r == seen@.map_values(|s: String| s@).contains(k@),
{
    let ghost sv = seen@.map_values(|s: String| s@);
    let mut i: usize = 0;
    while i < seen.len()
        invariant
            i <= seen@.len(),
            sv == seen@.map_values(|s: String| s@),
            forall|j: int| 0 <= j < i ==> sv[j] != k@,
        decreases seen@.len() - i,
    {
        if str_eq(seen[i].as_str(), k.as_str()) {
            assert(sv[i as int] == k@);
            return true;
        }
        i = i + 1;
    }
    false
}


// ---------------------------------------------------------------------------
// Actions, pruning
// ---------------------------------------------------------------------------

/// The first row of provider `pid` whose monitor has public id `public_id`.
pub open spec fn action_row_from(rows: Rows, pid: Seq<char>, public_id: Seq<char>, from: int) -> Option<int>
    decreases rows.len() - from,
{
    if from < 0 || from >= rows.len() {
        None
    } else if rows[from].1.provider_id == pid && match rows[from].1.monitor.public_id {
        Some(p) => p@ == public_id,
        None => false,
    } {
        Some(from)
    } else {
        action_row_from(rows, pid, public_id, from + 1)
    }
}

/// A row after a provider reported the post-action state: a reported mute is
/// applied; a reported pause shows Paused, and a reported resume drops a
/// Paused row back to Unknown until the next poll gives the real up/down.
pub open spec fn outcome_row(r: RowView, is_paused: Option<bool>, is_muted: Option<bool>) -> RowView {
    let m1 = match is_muted {
        Some(mu) => Monitor { is_muted: mu, ..r.monitor },
        None => r.monitor,
    };
    let m2 = match is_paused {
        Some(true) => Monitor { status: MonitorStatus::Paused, ..m1 },
        Some(false) => if m1.status == MonitorStatus::Paused {
            Monitor { status: MonitorStatus::Unknown, ..m1 }
        } else {
            m1
        },
        None => m1,
    };
    RowView { monitor: m2, ..r }
}

/// The rows after an action outcome for (`pid`, `public_id`).
pub open spec fn outcome_rows(
    rows: Rows,
    pid: Seq<char>,
    public_id: Seq<char>,
    is_paused: Option<bool>,
    is_muted: Option<bool>,
) -> Rows {
    match action_row_from(rows, pid, public_id, 0) {
        Some(i) => rows.update(i, (rows[i].0, outcome_row(rows[i].1, is_paused, is_muted))),
        None => rows,
    }
}

/// Rows whose provider is live.
pub open spec fn keep_live_rows(rows: Rows, live: Seq<Seq<char>>) -> Rows
    decreases rows.len(),
{
    if rows.len() == 0 {
        rows
    } else {
        let r = keep_live_rows(rows.drop_last(), live);
        if live.contains(rows.last().1.provider_id) {
            r.push(rows.last())
        } else {
            r
        }
    }
}

/// Entries whose key is live.
pub open spec fn keep_live_keys<V>(s: Seq<(Seq<char>, V)>, live: Seq<Seq<char>>) -> Seq<(Seq<char>, V)>
    decreases s.len(),
{
    if s.len() == 0 {
        s
    } else {
        let r = keep_live_keys(s.drop_last(), live);
        if live.contains(s.last().0) {
            r.push(s.last())
        } else {
            r
        }
    }
}

/// The characters of each live id.
pub open spec fn ids_view(ids: Seq<String>) -> Seq<Seq<char>> {
    ids.map_values(|s: String| s@)
}

/// Whether `k` is one of `ids`.
fn is_live(ids: &[String], k: &str) -> (r: bool)
    ensures
        r == ids_view(ids@).contains(k@),
{
    let mut i: usize = 0;
    while i < ids.len()
        invariant
            i <= ids@.len(),
            forall|j: int| 0 <= j < i ==> ids@[j]@ != k@,
        decreases ids@.len() - i,
    {
        if str_eq(ids[i].as_str(), k) {
            assert(ids_view(ids@)[i as int] == k@);
            return true;
        }
        i = i + 1;
    }
    assert forall|j: int| 0 <= j < ids_view(ids@).len() implies ids_view(ids@)[j] != k@ by {
        assert(ids_view(ids@)[j] == ids@[j]@);
    }
    false
}

/// Keep the entries of a keyed vector whose key is live.
fn retain_live<V>(v: &mut Vec<(String, V)>, live: &[String])
    ensures
        kv(final(v)@) == keep_live_keys(kv(old(v)@), ids_view(live@)),
{
    let ghost all = kv(v@);
    let mut rest: Vec<(String, V)> = Vec::new();
    std::mem::swap(&mut rest, v);
    let ghost mut i: int = 0;
    while rest.len() > 0
        invariant
            0 <= i,
            i + rest@.len() == all.len(),
            kv(rest@) == all.skip(i),
            kv(v@) == keep_live_keys(all.take(i), ids_view(live@)),
        decreases rest@.len(),
    {
        let ghost before_rest = rest@;
        let e = rest.remove(0);
        assert(kv(before_rest)[0] == (e.0@, e.1));
        assert(kv(rest@) =~= kv(before_rest).skip(1));
        let ghost kept = kv(v@);
        if is_live(live, e.0.as_str()) {
            v.push(e);
            assert(kv(v@) =~= kept.push((e.0@, e.1)));
        }
        proof {
            assert(all.take(i + 1).drop_last() =~= all.take(i));
            assert(all.take(i + 1).last() == (e.0@, e.1));
            i = i + 1;
        }
    }
    assert(all.take(i) =~= all);
}

impl AppState {
    /// Apply the authoritative post-action state to the matching row (by
    /// provider + public id), so the UI reflects a pause/mute immediately.
    pub fn apply_action_outcome(
        &mut self,
        provider_id: &str,
        public_id: &str,
        is_paused: Option<bool>,
        is_muted: Option<bool>,
    )
        ensures
            final(self)@ == (StateView {
                rows: outcome_rows(old(self)@.rows, provider_id@, public_id@, is_paused, is_muted),
                ..old(self)@
            }),
            final(self).http == old(self).http,
            final(self).clock == old(self).clock,
    {
        let ghost all = rows_view(self.rows@);
        let ghost s0 = *self;
        let mut i: usize = 0;
        while i < self.rows.len()
            invariant
                *self == s0,
                *old(self) == s0,
                i <= self.rows@.len(),
                rows_view(self.rows@) == all,
                action_row_from(all, provider_id@, public_id@, 0) == action_row_from(
                    all,
                    provider_id@,
                    public_id@,
                    i as int,
                ),
            decreases self.rows@.len() - i,
        {
            assert(all[i as int] == (self.rows@[i as int].0@, self.rows@[i as int].1@));
            let hit = str_eq(self.rows[i].1.provider_id.as_str(), provider_id) && match &self.rows[i].1.monitor.public_id {
                Some(p) => str_eq(p.as_str(), public_id),
                None => false,
            };
            if hit {
                let ghost before = self.rows@;
                let (k, row) = self.rows.remove(i);
                let mut row = row;
                if let Some(muted) = is_muted {
                    row.monitor.is_muted = muted;
                }
                if let Some(paused) = is_paused {
                    if paused {
                        row.monitor.status = MonitorStatus::Paused;
                    } else if row.monitor.status == MonitorStatus::Paused {
                        row.monitor.status = MonitorStatus::Unknown;
                    }
                }
                self.rows.insert(i, (k, row));
                assert(self.rows@ == before.update(i as int, (k, row)));
                assert(rows_view(self.rows@) =~= all.update(i as int, (k@, row@)));
                return;
            }
            i = i + 1;
        }
    }

    /// Remove all rows, failure counters and cached details belonging to
    /// providers no longer in the registry.
    pub fn prune_to(&mut self, live_provider_ids: &[String])
        ensures
            final(self)@ == (StateView {
                rows: keep_live_rows(old(self)@.rows, ids_view(live_provider_ids@)),
                failures: keep_live_keys(old(self)@.failures, ids_view(live_provider_ids@)),
                detail: keep_live_keys(old(self)@.detail, ids_view(live_provider_ids@)),
                ..old(self)@
            }),
            final(self).http == old(self).http,
            final(self).clock == old(self).clock,
    {
        let ghost lv = ids_view(live_provider_ids@);
        let ghost all = rows_view(self.rows@);
        let mut rest: Vec<(String, MonitorRow)> = Vec::new();
        std::mem::swap(&mut rest, &mut self.rows);
        let ghost s0 = *self;
        let ghost mut i: int = 0;
        while rest.len() > 0
            invariant
                same_but_rows(*self, s0),
                0 <= i,
                i + rest@.len() == all.len(),
                rows_view(rest@) == all.skip(i),
                rows_view(self.rows@) == keep_live_rows(all.take(i), lv),
                lv == ids_view(live_provider_ids@),
            decreases rest@.len(),
        {
            let ghost before_rest = rest@;
            let e = rest.remove(0);
            assert(rows_view(before_rest)[0] == (e.0@, e.1@));
            assert(rows_view(rest@) =~= rows_view(before_rest).skip(1));
            let ghost kept = rows_view(self.rows@);
            if is_live(live_provider_ids, e.1.provider_id.as_str()) {
                self.rows.push(e);
                assert(rows_view(self.rows@) =~= kept.push((e.0@, e.1@)));
            }
            proof {
                assert(all.take(i + 1).drop_last() =~= all.take(i));
                assert(all.take(i + 1).last() == (e.0@, e.1@));
                i = i + 1;
            }
        }
        assert(all.take(i) =~= all);
        retain_live(&mut self.failures, live_provider_ids);
        retain_live(&mut self.detail_cache, live_provider_ids);
    }
}

// ---------------------------------------------------------------------------
// Snapshot for the UI, aggregate counts
// ---------------------------------------------------------------------------

/// A view of a monitor row for the frontend.
pub struct MonitorView {
    pub key: String,
    pub provider_label: String,
    pub provider_kind: String,
    pub name: String,
    pub status: MonitorStatus,
    pub last_checked: Option<String>,
    pub url: Option<String>,
    pub detail_url: Option<String>,
    /// ISO-8601 when the current status began, if known.
    pub state_since: Option<String>,
    /// User-chosen bar color from the provider config, if set.
    pub provider_color: Option<String>,
    /// Provider-native public id, for keying monitor actions.
    pub public_id: Option<String>,
    /// Whether the monitor's alerts are muted at the provider.
    pub is_muted: bool,
}

/// The color the configurations give provider `pid`: the last configuration
/// with that id wins.
pub open spec fn color_for(cfgs: Seq<ProviderConfig>, pid: Seq<char>) -> Option<String>
    decreases cfgs.len(),
{
    if cfgs.len() == 0 {
        None
    } else if cfgs.last().id@ == pid {
        cfgs.last().color
    } else {
        color_for(cfgs.drop_last(), pid)
    }
}

/// The frontend view of one row.
pub open spec fn view_of(e: (String, MonitorRow), cfgs: Seq<ProviderConfig>) -> MonitorView {
    MonitorView {
        key: e.0,
        provider_label: e.1.provider_label,
        provider_kind: e.1.provider_kind,
        name: e.1.monitor.name,
        status: e.1.monitor.status,
        last_checked: e.1.monitor.last_checked,
        url: e.1.monitor.url,
        detail_url: e.1.monitor.detail_url,
        state_since: e.1.monitor.state_since,
        provider_color: color_for(cfgs, e.1.provider_id@),
        public_id: e.1.monitor.public_id,
        is_muted: e.1.monitor.is_muted,
    }
}

/// Display order of statuses: Down first, then Unknown, Paused, Up.
pub open spec fn rank_of(s: MonitorStatus) -> u8 {
    match s {
        MonitorStatus::Down => 0,
        MonitorStatus::Unknown => 1,
        MonitorStatus::Paused => 2,
        MonitorStatus::Up => 3,
    }
}

pub fn rank(s: MonitorStatus) -> (r: u8)
    ensures
        r == rank_of(s),
{
    match s {
        MonitorStatus::Down => 0,
        MonitorStatus::Unknown => 1,
        MonitorStatus::Paused => 2,
        MonitorStatus::Up => 3,
    }
}

/// Lexicographic order of strings by code point (the order of `String`).
pub open spec fn chars_lt(a: Seq<char>, b: Seq<char>) -> bool
    decreases a.len(),
{
    if a.len() == 0 {
        b.len() > 0
    } else if b.len() == 0 {
        false
    } else if (a[0] as u32) < (b[0] as u32) {
        true
    } else if a[0] == b[0] {
        chars_lt(a.drop_first(), b.drop_first())
    } else {
        false
    }
}

pub proof fn lemma_chars_lt_irrefl(a: Seq<char>)
    ensures
        !chars_lt(a, a),
    decreases a.len(),
{
    if a.len() > 0 {
        lemma_chars_lt_irrefl(a.drop_first());
    }
}

pub proof fn lemma_chars_lt_trans(a: Seq<char>, b: Seq<char>, c: Seq<char>)
    requires
        chars_lt(a, b),
        chars_lt(b, c),
    ensures
        chars_lt(a, c),
    decreases a.len(),
{
    if a.len() > 0 && b.len() > 0 && c.len() > 0 && a[0] == b[0] && b[0] == c[0] {
        lemma_chars_lt_trans(a.drop_first(), b.drop_first(), c.drop_first());
    }
}

/// `a` sorts strictly before `b`: by status rank, then by lower-cased name.
pub open spec fn view_before(a: MonitorView, b: MonitorView) -> bool {
    rank_of(a.status) < rank_of(b.status) || (rank_of(a.status) == rank_of(b.status) && chars_lt(
        lowercase(a.name@),
        lowercase(b.name@),
    ))
}

pub proof fn lemma_view_before_trans(a: MonitorView, b: MonitorView, c: MonitorView)
    requires
        view_before(a, b),
        view_before(b, c),
    ensures
        view_before(a, c),
{
    if rank_of(a.status) == rank_of(b.status) && rank_of(b.status) == rank_of(c.status) {
        lemma_chars_lt_trans(lowercase(a.name@), lowercase(b.name@), lowercase(c.name@));
    }
}

/// No view sorts before one that precedes it.
pub open spec fn sorted_views(s: Seq<MonitorView>) -> bool {
    forall|i: int, j: int| 0 <= i < j < s.len() ==> !view_before(#[trigger] s[j], #[trigger] s[i])
}

/// Whether `a` sorts strictly before `b`, by their precomputed keys.
fn key_less(a: &(u8, Vec<char>), b: &(u8, Vec<char>)) -> (r: bool)
    ensures
        r == (a.0 < b.0 || (a.0 == b.0 && chars_lt(a.1@, b.1@))),
{
    if a.0 != b.0 {
        return a.0 < b.0;
    }
    let x = &a.1;
    let y = &b.1;
    assert(x@.skip(0) =~= x@);
    assert(y@.skip(0) =~= y@);
    let mut i: usize = 0;
    while i < x.len() && i < y.len() && x[i] == y[i]
        invariant
            i <= x@.len(),
            i <= y@.len(),
            chars_lt(x@, y@) == chars_lt(x@.skip(i as int), y@.skip(i as int)),
        decreases x@.len() - i,
    {
        assert(x@.skip(i as int).drop_first() =~= x@.skip(i + 1));
        assert(y@.skip(i as int).drop_first() =~= y@.skip(i + 1));
        i = i + 1;
    }
    if i == x.len() {
        i < y.len()
    } else if i == y.len() {
        false
    } else {
        (x[i] as u32) < (y[i] as u32)
    }
}

fn color_of(cfgs: &Vec<ProviderConfig>, pid: &str) -> (r: Option<String>)
    ensures
        r == color_for(cfgs@, pid@),
{
    let mut n: usize = cfgs.len();
    assert(cfgs@.take(n as int) =~= cfgs@);
    while n > 0
        invariant
            n <= cfgs@.len(),
            color_for(cfgs@, pid@) == color_for(cfgs@.take(n as int), pid@),
        decreases n,
    {
        assert(cfgs@.take(n as int).last() == cfgs@[n - 1]);
        assert(cfgs@.take(n as int).drop_last() =~= cfgs@.take(n - 1));
        if str_eq(cfgs[n - 1].id.as_str(), pid) {
            return clone_opt(&cfgs[n - 1].color);
        }
        n = n - 1;
    }
    None
}

/// Aggregate counts used to drive the tray icon + tooltip.
#[derive(Clone, Copy)]
pub struct Aggregate {
    pub up: usize,
    pub down: usize,
    pub paused: usize,
    pub unknown: usize,
}

impl Default for Aggregate {
    fn default() -> (r: Aggregate)
        ensures
            r.up == 0 && r.down == 0 && r.paused == 0 && r.unknown == 0,
    {
        Aggregate { up: 0, down: 0, paused: 0, unknown: 0 }
    }
}

impl Aggregate {
    pub open spec fn spec_total(&self) -> int {
        self.up + self.down + self.paused + self.unknown
    }

    pub fn total(&self) -> (r: usize)
        requires
            self.spec_total() <= usize::MAX,
        ensures
            r == self.spec_total(),
    {
        self.up + self.down + self.paused + self.unknown
    }
}

/// Number of rows with status `s`.
pub open spec fn count_status(rows: Rows, s: MonitorStatus) -> nat
    decreases rows.len(),
{
    if rows.len() == 0 {
        0
    } else {
        count_status(rows.drop_last(), s) + if rows.last().1.monitor.status == s {
            1nat
        } else {
            0nat
        }
    }
}

impl AppState {
    /// The rows as frontend views, Down first, then Unknown, Paused, Up, and
    /// alphabetical (case-insensitively) within a status.
    pub fn snapshot_view(&self) -> (r: Vec<MonitorView>)
        ensures
            r@.to_multiset() == self.rows@.map_values(|e: (String, MonitorRow)| view_of(e, self.configs@)).to_multiset(),
            sorted_views(r@),
    {
        broadcast use vstd::seq_lib::group_to_multiset_ensures;
        let ghost views = self.rows@.map_values(|e: (String, MonitorRow)| view_of(e, self.configs@));
        let mut out: Vec<MonitorView> = Vec::new();
        let mut keys: Vec<(u8, Vec<char>)> = Vec::new();
        let mut i: usize = 0;
        assert(views.take(0) =~= Seq::<MonitorView>::empty());
        assert(out@ =~= Seq::<MonitorView>::empty());
        while i < self.rows.len()
            invariant
                i <= self.rows@.len(),
                views == self.rows@.map_values(|e: (String, MonitorRow)| view_of(e, self.configs@)),
                out@.len() == keys@.len(),
                forall|p: int| 0 <= p < out@.len() ==> (#[trigger] keys@[p]).0 == rank_of(out@[p].status)
                    && keys@[p].1@ == lowercase(out@[p].name@),
                sorted_views(out@),
                out@.to_multiset() == views.take(i as int).to_multiset(),
            decreases self.rows@.len() - i,
        {
            let e = &self.rows[i];
            let r = &e.1;
            let v = MonitorView {
                key: e.0.clone(),
                provider_label: r.provider_label.clone(),
                provider_kind: r.provider_kind.clone(),
                name: r.monitor.name.clone(),
                status: r.monitor.status,
                last_checked: clone_opt(&r.monitor.last_checked),
                url: clone_opt(&r.monitor.url),
                detail_url: clone_opt(&r.monitor.detail_url),
                state_since: clone_opt(&r.monitor.state_since),
                provider_color: color_of(&self.configs, r.provider_id.as_str()),
                public_id: clone_opt(&r.monitor.public_id),
                is_muted: r.monitor.is_muted,
            };
            assert(v == views[i as int]);
            let lower = to_lowercase(v.name.as_str());
            let k = (rank(v.status), chars_of(lower.as_str()));
            let mut pos: usize = 0;
            let mut found = false;
            while pos < out.len() && !found
                invariant
                    pos <= out@.len(),
                    out@.len() == keys@.len(),
                    forall|p: int| 0 <= p < pos ==> !view_before(v, #[trigger] out@[p]),
                    found ==> pos < out@.len() && view_before(v, out@[pos as int]),
                    forall|p: int| 0 <= p < out@.len() ==> (#[trigger] keys@[p]).0 == rank_of(out@[p].status)
                        && keys@[p].1@ == lowercase(out@[p].name@),
                    k.0 == rank_of(v.status),
                    k.1@ == lowercase(v.name@),
                decreases out@.len() - pos + (if found { 0int } else { 1int }),
            {
                if key_less(&k, &keys[pos]) {
                    found = true;
                } else {
                    pos = pos + 1;
                }
            }
            let ghost old_out = out@;
            let ghost old_keys = keys@;
            proof {
                assert forall|a: int, b: int| 0 <= a < b < old_out.len() + 1 implies !view_before(
                    #[trigger] old_out.insert(pos as int, v)[b],
                    #[trigger] old_out.insert(pos as int, v)[a],
                ) by {
                    let s = old_out.insert(pos as int, v);
                    if b < pos {
                        assert(s[a] == old_out[a] && s[b] == old_out[b]);
                    } else if b == pos {
                        assert(s[a] == old_out[a]);
                    } else if a == pos {
                        assert(s[b] == old_out[b - 1]);
                        assert(view_before(v, old_out[pos as int]));
                        if view_before(old_out[b - 1], v) {
                            lemma_view_before_trans(old_out[b - 1], v, old_out[pos as int]);
                            if b - 1 == pos {
                                lemma_chars_lt_irrefl(lowercase(v.name@));
                                lemma_chars_lt_irrefl(lowercase(old_out[pos as int].name@));
                            } else {
                                assert(!view_before(old_out[b - 1], old_out[pos as int]));
                            }
                        }
                    } else if a < pos {
                        assert(s[a] == old_out[a] && s[b] == old_out[b - 1]);
                    } else {
                        assert(s[a] == old_out[a - 1] && s[b] == old_out[b - 1]);
                    }
                }
            }
            out.insert(pos, v);
            keys.insert(pos, k);
            proof {
                assert(views.take(i + 1) =~= views.take(i as int).push(views[i as int]));
                assert(out@ == old_out.insert(pos as int, v));
                vstd::seq_lib::to_multiset_insert(old_out, pos as int, v);
                vstd::seq_lib::to_multiset_build(views.take(i as int), v);
                assert(out@.to_multiset() == old_out.to_multiset().insert(v));
                assert(views.take(i + 1).to_multiset() == views.take(i as int).to_multiset().insert(v));
                assert forall|p: int| 0 <= p < out@.len() implies (#[trigger] keys@[p]).0 == rank_of(
                    out@[p].status,
                ) && keys@[p].1@ == lowercase(out@[p].name@) by {
                    if p < pos {
                        assert(keys@[p] == old_keys[p] && out@[p] == old_out[p]);
                    } else if p > pos {
                        assert(keys@[p] == old_keys[p - 1] && out@[p] == old_out[p - 1]);
                    }
                }
            }
            i = i + 1;
        }
        assert(views.take(i as int) =~= views);
        out
    }

    /// Counts of rows by status.
    pub fn aggregate(&self) -> (r: Aggregate)
        ensures
            r.up == count_status(self@.rows, MonitorStatus::Up),
            r.down == count_status(self@.rows, MonitorStatus::Down),
            r.paused == count_status(self@.rows, MonitorStatus::Paused),
            r.unknown == count_status(self@.rows, MonitorStatus::Unknown),
            r.spec_total() == self@.rows.len(),
    {
        let ghost all = self@.rows;
        let mut agg = Aggregate::default();
        let mut i: usize = 0;
        while i < self.rows.len()
            invariant
                i <= self.rows@.len(),
                all == rows_view(self.rows@),
                agg.up == count_status(all.take(i as int), MonitorStatus::Up),
                agg.down == count_status(all.take(i as int), MonitorStatus::Down),
                agg.paused == count_status(all.take(i as int), MonitorStatus::Paused),
                agg.unknown == count_status(all.take(i as int), MonitorStatus::Unknown),
                agg.spec_total() == i,
            decreases self.rows@.len() - i,
        {
            assert(all.take(i + 1).drop_last() =~= all.take(i as int));
            assert(all.take(i + 1).last() == all[i as int]);
            assert(all[i as int].1.monitor.status == self.rows@[i as int].1.monitor.status);
            match self.rows[i].1.monitor.status {
                MonitorStatus::Up => agg.up = agg.up + 1,
                MonitorStatus::Down => agg.down = agg.down + 1,
                MonitorStatus::Paused => agg.paused = agg.paused + 1,
                MonitorStatus::Unknown => agg.unknown = agg.unknown + 1,
            }
            i = i + 1;
        }
        assert(all.take(i as int) =~= all);
        agg
    }
}

// ---------------------------------------------------------------------------
// Clock, poll freshness, detail cache
// ---------------------------------------------------------------------------

/// `Instant::now()`; what it returns depends on the machine's clock.
#[verifier::external_body]
fn instant_now() -> Instant {
    Instant::now()
}

/// `Instant::elapsed`: the time since `origin`; it depends on the clock, so
/// nothing is stated of it.
#[verifier::external_body]
fn elapsed_since(origin: &Instant) -> Duration {
    origin.elapsed()
}

/// The length of a duration in nanoseconds, as `Duration::as_nanos` gives it.
pub uninterp spec fn duration_nanos(d: Duration) -> u128;

/// `Duration::as_nanos`; its result is named `duration_nanos`.
#[verifier::external_body]
fn as_nanos(d: Duration) -> (r: u128)
    ensures
        r == duration_nanos(d),
{
    d.as_nanos()
}

/// A copy of a cached detail payload (`Option<serde_json::Value>::clone`,
/// which copies the JSON value structurally).
#[verifier::external_body]
fn clone_detail(v: &Option<serde_json::Value>) -> (r: Option<serde_json::Value>)
    ensures
        r == *v,
{
    v.clone()
}

/// Time from `t` to `now`, saturating at zero as `Instant::elapsed` does.
pub open spec fn elapsed(now: u128, t: u128) -> u128 {
    if now >= t {
        (now - t) as u128
    } else {
        0
    }
}

/// Something stamped at `stamp` is younger than `ttl` at `now`.
pub open spec fn fresh_at(stamp: Option<u128>, now: u128, ttl: u128) -> bool {
    match stamp {
        Some(t) => elapsed(now, t) < ttl,
        None => false,
    }
}

pub type Details = Seq<(Seq<char>, DetailCache)>;

/// Decide a detail request for provider `id`: serve the cached value when it
/// is fresh (unless forced) or a fetch is already in flight; otherwise claim
/// the in-flight slot and fetch.
pub open spec fn begin_detail_spec(d: Details, id: Seq<char>, now: u128, ttl: u128, force: bool) -> (
    Details,
    DetailDecision,
) {
    match index_of(d, id) {
        Some(i) => if (!force && fresh_at(d[i].1.fetched_at, now, ttl)) || d[i].1.in_flight {
            (d, DetailDecision::Hit(d[i].1.value))
        } else {
            (d.update(i, (id, DetailCache { in_flight: true, ..d[i].1 })), DetailDecision::Fetch)
        },
        None => (
            d.push((id, DetailCache { fetched_at: None, value: None, in_flight: true })),
            DetailDecision::Fetch,
        ),
    }
}

/// Release the in-flight slot of `id` and stamp the completion at `now`; the
/// value is replaced only by a successful fetch.
pub open spec fn finish_detail_spec(d: Details, id: Seq<char>, now: u128, value: Option<serde_json::Value>) -> Details {
    match index_of(d, id) {
        Some(i) => d.update(
            i,
            (
                id,
                DetailCache {
                    in_flight: false,
                    fetched_at: Some(now),
                    value: if value is Some {
                        value
                    } else {
                        d[i].1.value
                    },
                },
            ),
        ),
        None => d.push((id, DetailCache { fetched_at: Some(now), value, in_flight: false })),
    }
}

impl AppState {
    pub fn new(http: reqwest::Client, configs: Vec<ProviderConfig>) -> (r: AppState)
        ensures
            r.http == http,
            r@ == (StateView {
                configs: configs@,
                rows: Seq::empty(),
                failures: Seq::empty(),
                last_poll: None,
                detail: Seq::empty(),
            }),
    {
        let r = AppState {
            http,
            configs,
            rows: Vec::new(),
            failures: Vec::new(),
            last_poll: None,
            detail_cache: Vec::new(),
            clock: instant_now(),
        };
        assert(rows_view(r.rows@) =~= Seq::empty());
        assert(kv(r.failures@) =~= Seq::empty());
        assert(kv(r.detail_cache@) =~= Seq::empty());
        r
    }

    /// Nanoseconds on the state's monotonic clock: the length, as
    /// `Duration::as_nanos` gives it, of the time elapsed since the clock's
    /// origin. Which duration that is depends on the machine's clock.
    fn now(&self) -> (r: u128)
        ensures
            exists|d: Duration| r == #[trigger] duration_nanos(d),
    {
        let d = elapsed_since(&self.clock);
        let r = as_nanos(d);
        assert(r == duration_nanos(d));
        r
    }

    /// Record that a full poll completed at `now`.
    pub fn mark_polled_at(&mut self, now: u128)
        ensures
            final(self)@ == (StateView { last_poll: Some(now), ..old(self)@ }),
            final(self).http == old(self).http,
            final(self).clock == old(self).clock,
    {
        self.last_poll = Some(now);
    }

    /// Whether a poll completed within `ttl` of `now`.
    pub fn poll_is_fresh_at(&self, now: u128, ttl: u128) -> (r: bool)
        ensures
            r == fresh_at(self.last_poll, now, ttl),
    {
        match self.last_poll {
            Some(t) => {
                let e: u128 = if now >= t {
                    now - t
                } else {
                    0
                };
                e < ttl
            },
            None => false,
        }
    }

    /// Record that a full poll just completed.
    pub fn mark_polled(&mut self)
        ensures
            final(self)@ == (StateView { last_poll: final(self)@.last_poll, ..old(self)@ }),
            final(self)@.last_poll is Some,
            final(self).http == old(self).http,
            final(self).clock == old(self).clock,
    {
        let now = self.now();
        self.mark_polled_at(now);
    }

    /// True if a poll completed within `ttl`. The popover-open path uses this
    /// to skip a redundant immediate poll.
    pub fn poll_is_fresh(&self, ttl: Duration) -> (r: bool)
        ensures
            exists|now: u128| r == fresh_at(self.last_poll, now, duration_nanos(ttl)),
            self.last_poll is None ==> !r,
    {
        let now = self.now();
        self.poll_is_fresh_at(now, as_nanos(ttl))
    }

    /// `begin_detail` at time `now` with a `ttl` in nanoseconds.
    pub fn begin_detail_at(&mut self, id: &str, now: u128, ttl: u128, force: bool) -> (r: DetailDecision)
        ensures
            (final(self)@.detail, r) == begin_detail_spec(old(self)@.detail, id@, now, ttl, force),
            final(self)@ == (StateView { detail: final(self)@.detail, ..old(self)@ }),
            final(self).http == old(self).http,
            final(self).clock == old(self).clock,
    {
        let ghost d = self@.detail;
        proof {
            lemma_index_from(d, id@, 0);
        }
        match find_key(&self.detail_cache, id) {
            Some(i) => {
                let e = &self.detail_cache[i].1;
                let fresh = !force && match e.fetched_at {
                    Some(t) => {
                        let el: u128 = if now >= t {
                            now - t
                        } else {
                            0
                        };
                        el < ttl
                    },
                    None => false,
                };
                if fresh || e.in_flight {
                    return DetailDecision::Hit(clone_detail(&e.value));
                }
                let ghost before = self.detail_cache@;
                let (k, e) = self.detail_cache.remove(i);
                let mut e = e;
                e.in_flight = true;
                self.detail_cache.insert(i, (k, e));
                assert(self.detail_cache@ == before.update(i as int, (k, e)));
                assert(kv(self.detail_cache@) =~= d.update(i as int, (id@, e)));
                DetailDecision::Fetch
            },
            None => {
                let ghost before = self.detail_cache@;
                self.detail_cache.push(
                    (String::from_str(id), DetailCache { fetched_at: None, value: None, in_flight: true }),
                );
                assert(kv(self.detail_cache@) =~= d.push(
                    (id@, DetailCache { fetched_at: None, value: None, in_flight: true }),
                ));
                DetailDecision::Fetch
            },
        }
    }

    /// `finish_detail` at time `now`.
    pub fn finish_detail_at(&mut self, id: &str, now: u128, value: Option<serde_json::Value>)
        ensures
            final(self)@ == (StateView { detail: finish_detail_spec(old(self)@.detail, id@, now, value), ..old(self)@ }),
            final(self).http == old(self).http,
            final(self).clock == old(self).clock,
    {
        let ghost d = self@.detail;
        proof {
            lemma_index_from(d, id@, 0);
        }
        match find_key(&self.detail_cache, id) {
            Some(i) => {
                let ghost before = self.detail_cache@;
                let (k, e) = self.detail_cache.remove(i);
                let mut e = e;
                e.in_flight = false;
                e.fetched_at = Some(now);
                if value.is_some() {
                    e.value = value;
                }
                self.detail_cache.insert(i, (k, e));
                assert(self.detail_cache@ == before.update(i as int, (k, e)));
                assert(kv(self.detail_cache@) =~= d.update(i as int, (id@, e)));
            },
            None => {
                self.detail_cache.push(
                    (String::from_str(id), DetailCache { fetched_at: Some(now), value, in_flight: false }),
                );
                assert(kv(self.detail_cache@) =~= d.push(
                    (id@, DetailCache { fetched_at: Some(now), value, in_flight: false }),
                ));
            },
        }
    }

    /// Decide whether a detail request should hit the network. Returns a
    /// cached value when one was fetched within `ttl` (or a fetch is already
    /// in flight, to de-dupe overlapping opens); otherwise claims the
    /// in-flight slot and tells the caller to `Fetch`. `force` bypasses the
    /// freshness check but still de-dupes against an in-flight fetch.
    pub fn begin_detail(&mut self, id: &str, ttl: Duration, force: bool) -> (r: DetailDecision)
        ensures
            exists|now: u128| (final(self)@.detail, r) == begin_detail_spec(
                old(self)@.detail,
                id@,
                now,
                duration_nanos(ttl),
                force,
            ),
            final(self)@ == (StateView { detail: final(self)@.detail, ..old(self)@ }),
            final(self).http == old(self).http,
            final(self).clock == old(self).clock,
    {
        let now = self.now();
        self.begin_detail_at(id, now, as_nanos(ttl), force)
    }

    /// Release the in-flight slot and record the outcome. The timestamp is
    /// stamped on success and failure alike so errors back off for `ttl`
    /// too; the value is only replaced on success.
    pub fn finish_detail(&mut self, id: &str, value: Option<serde_json::Value>)
        ensures
            exists|now: u128| final(self)@.detail == #[trigger] finish_detail_spec(old(self)@.detail, id@, now, value),
            final(self)@ == (StateView { detail: final(self)@.detail, ..old(self)@ }),
            final(self).http == old(self).http,
            final(self).clock == old(self).clock,
    {
        let now = self.now();
        self.finish_detail_at(id, now, value);
    }
}

// ---------------------------------------------------------------------------
// Poll results, configurations
// ---------------------------------------------------------------------------

/// How one provider's fetch in a poll ended.
pub enum FetchOutcome {
    Fetched(Vec<Monitor>),
    Failed(ProviderError),
    /// The fetch did not finish within the poll's timeout.
    TimedOut,
}

/// A rate limit is transient backpressure, not a check failure.
pub open spec fn counts_as_failure(o: FetchOutcome) -> bool {
    match o {
        FetchOutcome::Fetched(_) => false,
        FetchOutcome::Failed(ProviderError::RateLimited) => false,
        _ => true,
    }
}

/// The transitions that are announced: with `silence_muted` on, those of
/// monitors whose alerts are muted at their provider are left out; the rest
/// keep their order.
pub open spec fn audible(ts: Seq<TransitionView>, silence_muted: bool) -> Seq<TransitionView>
    decreases ts.len(),
{
    if ts.len() == 0 {
        ts
    } else {
        let r = audible(ts.drop_last(), silence_muted);
        if silence_muted && ts.last().muted {
            r
        } else {
            r.push(ts.last())
        }
    }
}

/// The transitions of a poll that fire a notification, under the "silence
/// muted monitors" preference. The rows are not touched: a muted monitor
/// still shows its new status.
pub fn audible_transitions(ts: Vec<Transition>, silence_muted: bool) -> (r: Vec<Transition>)
    ensures
        transitions_view(r@) == audible(transitions_view(ts@), silence_muted),
{
    let ghost all = transitions_view(ts@);
    let mut ts = ts;
    let mut out: Vec<Transition> = Vec::new();
    let ghost mut i: int = 0;
    while ts.len() > 0
        invariant
            0 <= i,
            i + ts@.len() == all.len(),
            transitions_view(ts@) == all.skip(i),
            transitions_view(out@) == audible(all.take(i), silence_muted),
        decreases ts@.len(),
    {
        let ghost before = ts@;
        let t = ts.remove(0);
        assert(transitions_view(before)[0] == t@);
        assert(transitions_view(ts@) =~= transitions_view(before).skip(1));
        let ghost kept = transitions_view(out@);
        proof {
            assert(all.take(i + 1).drop_last() =~= all.take(i));
            assert(all.take(i + 1).last() == t@);
        }
        if !(silence_muted && t.muted) {
            out.push(t);
            assert(transitions_view(out@) =~= kept.push(t@));
        }
        proof {
            i = i + 1;
        }
        assert(transitions_view(ts@) == all.skip(i));
    }
    assert(all.take(i) =~= all);
    out
}

/// The first configuration with id `id`.
pub open spec fn config_index(cfgs: Seq<ProviderConfig>, id: Seq<char>, from: int) -> Option<int>
    decreases cfgs.len() - from,
{
    if from < 0 || from >= cfgs.len() {
        None
    } else if cfgs[from].id@ == id {
        Some(from)
    } else {
        config_index(cfgs, id, from + 1)
    }
}

proof fn lemma_config_index(cfgs: Seq<ProviderConfig>, id: Seq<char>, from: int)
    requires
        0 <= from,
    ensures
        config_index(cfgs, id, from) matches Some(i) ==> from <= i < cfgs.len() && cfgs[i].id@ == id,
    decreases cfgs.len() - from,
{
    if from < cfgs.len() && cfgs[from].id@ != id {
        lemma_config_index(cfgs, id, from + 1);
    }
}

/// The stored text of a token scope ("read", "write", none when unknown).
pub open spec fn scope_view(s: TokenScope) -> Option<Seq<char>> {
    match s {
        TokenScope::Read => Some("read"@),
        TokenScope::Write => Some("write"@),
        TokenScope::Unknown => None,
    }
}

/// What saving `config` from the settings form stores: the stored
/// configuration with its id keeps its scope.
pub open spec fn upserted(cfgs: Seq<ProviderConfig>, config: ProviderConfig) -> ProviderConfig {
    match config_index(cfgs, config.id@, 0) {
        Some(i) => ProviderConfig { scope: cfgs[i].scope, ..config },
        None => config,
    }
}

/// Configurations other than `id`, in order.
pub open spec fn without_config(cfgs: Seq<ProviderConfig>, id: Seq<char>) -> Seq<ProviderConfig>
    decreases cfgs.len(),
{
    if cfgs.len() == 0 {
        cfgs
    } else {
        let r = without_config(cfgs.drop_last(), id);
        if cfgs.last().id@ != id {
            r.push(cfgs.last())
        } else {
            r
        }
    }
}

impl AppState {
    /// Fold one provider's poll result into the state: a fetch is applied, a
    /// rate limit leaves everything as it was, and any other error or a
    /// timeout counts as a failure.
    pub fn apply_poll_result(
        &mut self,
        provider_id: &str,
        provider_label: &str,
        provider_kind: &str,
        outcome: FetchOutcome,
    ) -> (r: Vec<Transition>)
        requires
            counts_as_failure(outcome) ==> count_of(old(self)@.failures, provider_id@) < u32::MAX,
        ensures
            match outcome {
                FetchOutcome::Fetched(ms) => final(self)@ == success_state(
                    old(self)@,
                    provider_id@,
                    provider_label@,
                    provider_kind@,
                    ms@,
                ) && transitions_view(r@) == success_transitions(
                    old(self)@,
                    provider_id@,
                    provider_label@,
                    provider_kind@,
                    ms@,
                ),
                FetchOutcome::Failed(ProviderError::RateLimited) => final(self)@ == old(self)@
                    && r@.len() == 0,
                _ => final(self)@ == failure_state(old(self)@, provider_id@) && r@.len() == 0,
            },
            final(self).http == old(self).http,
            final(self).clock == old(self).clock,
    {
        match outcome {
            FetchOutcome::Fetched(monitors) => self.apply_success(
                provider_id,
                provider_label,
                provider_kind,
                monitors,
            ),
            FetchOutcome::Failed(ProviderError::RateLimited) => Vec::new(),
            _ => {
                self.apply_failure(provider_id);
                Vec::new()
            },
        }
    }

    /// The failure count recorded for a provider.
    pub fn failure_count(&self, provider_id: &str) -> (r: u32)
        ensures
            r == count_of(self@.failures, provider_id@),
    {
        match find_key(&self.failures, provider_id) {
            Some(i) => self.failures[i].1,
            None => 0,
        }
    }

    /// Replace the configuration with the same id, or add it.
    pub fn store_config(&mut self, config: ProviderConfig)
        ensures
            final(self)@ == (StateView {
                configs: match config_index(old(self)@.configs, config.id@, 0) {
                    Some(i) => old(self)@.configs.update(i, config),
                    None => old(self)@.configs.push(config),
                },
                ..old(self)@
            }),
            final(self).http == old(self).http,
            final(self).clock == old(self).clock,
    {
        let ghost cfgs = self.configs@;
        let ghost s0 = *self;
        let mut i: usize = 0;
        while i < self.configs.len()
            invariant
                *self == s0,
                *old(self) == s0,
                i <= self.configs@.len(),
                self.configs@ == cfgs,
                config_index(cfgs, config.id@, 0) == config_index(cfgs, config.id@, i as int),
            decreases self.configs@.len() - i,
        {
            if str_eq(self.configs[i].id.as_str(), config.id.as_str()) {
                self.configs.remove(i);
                self.configs.insert(i, config);
                assert(self.configs@ =~= cfgs.update(i as int, config));
                return;
            }
            i = i + 1;
        }
        self.configs.push(config);
    }

    /// The position of the configuration with id `id`.
    fn config_pos(&self, id: &str) -> (r: Option<usize>)
        ensures
            r matches Some(i) ==> config_index(self.configs@, id@, 0) == Some(i as int) && i < self.configs@.len(),
            r is None ==> config_index(self.configs@, id@, 0) is None,
    {
        let mut i: usize = 0;
        while i < self.configs.len()
            invariant
                i <= self.configs@.len(),
                config_index(self.configs@, id@, 0) == config_index(self.configs@, id@, i as int),
            decreases self.configs@.len() - i,
        {
            if str_eq(self.configs[i].id.as_str(), id) {
                return Some(i);
            }
            i = i + 1;
        }
        None
    }

    /// Save a configuration edited in the settings form: it replaces the one
    /// with the same id, or is added. The token scope is not part of the form,
    /// so a stored configuration keeps its scope. Returns the configuration as
    /// saved.
    pub fn upsert_config(&mut self, config: ProviderConfig) -> (r: ProviderConfig)
        ensures
            r == upserted(old(self)@.configs, config),
            final(self)@ == (StateView {
                configs: match config_index(old(self)@.configs, config.id@, 0) {
                    Some(i) => old(self)@.configs.update(i, r),
                    None => old(self)@.configs.push(r),
                },
                ..old(self)@
            }),
            final(self).http == old(self).http,
            final(self).clock == old(self).clock,
    {
        let mut config = config;
        match self.config_pos(config.id.as_str()) {
            Some(i) => {
                config.scope = clone_opt(&self.configs[i].scope);
            },
            None => {},
        }
        let r = config.duplicate();
        self.store_config(config);
        r
    }

    /// Record the token scope learned for provider `id` (from its scope probe,
    /// or from a write refused for scope) in its stored configuration; every
    /// other field and configuration stays. An unknown id changes nothing.
    pub fn record_scope(&mut self, id: &str, scope: TokenScope)
        ensures
            final(self)@ == (StateView {
                configs: match config_index(old(self)@.configs, id@, 0) {
                    Some(i) => old(self)@.configs.update(
                        i,
                        ProviderConfig { scope: final(self)@.configs[i].scope, ..old(self)@.configs[i] },
                    ),
                    None => old(self)@.configs,
                },
                ..old(self)@
            }),
            config_index(old(self)@.configs, id@, 0) matches Some(i) ==> ov(final(self)@.configs[i].scope)
                == scope_view(scope),
            final(self).http == old(self).http,
            final(self).clock == old(self).clock,
    {
        match self.config_pos(id) {
            Some(i) => {
                let mut c = self.configs[i].duplicate();
                c.scope = scope.as_config();
                proof {
                    lemma_config_index(self.configs@, id@, 0);
                }
                assert(c.id@ == id@);
                self.store_config(c);
            },
            None => {},
        }
    }

    /// Drop every configuration with id `id`.
    pub fn remove_config(&mut self, id: &str)
        ensures
            final(self)@ == (StateView { configs: without_config(old(self)@.configs, id@), ..old(self)@ }),
            final(self).http == old(self).http,
            final(self).clock == old(self).clock,
    {
        let ghost all = self.configs@;
        let mut rest: Vec<ProviderConfig> = Vec::new();
        std::mem::swap(&mut rest, &mut self.configs);
        let ghost mut i: int = 0;
        while rest.len() > 0
            invariant
                0 <= i,
                i + rest@.len() == all.len(),
                rest@ == all.skip(i),
                self.configs@ == without_config(all.take(i), id@),
                self.rows == old(self).rows,
                self.failures == old(self).failures,
                self.last_poll == old(self).last_poll,
                self.detail_cache == old(self).detail_cache,
                self.http == old(self).http,
                self.clock == old(self).clock,
            decreases rest@.len(),
        {
            let c = rest.remove(0);
            if !str_eq(c.id.as_str(), id) {
                self.configs.push(c);
            }
            proof {
                assert(all.take(i + 1).drop_last() =~= all.take(i));
                assert(all.take(i + 1).last() == c);
                i = i + 1;
            }
            assert(rest@ == all.skip(i));
        }
        assert(all.take(i) =~= all);
    }

    /// A copy of the configurations.
    pub fn clone_configs(&self) -> (r: Vec<ProviderConfig>)
        ensures
            r@ == self.configs@,
    {
        let mut r: Vec<ProviderConfig> = Vec::new();
        let mut i: usize = 0;
        while i < self.configs.len()
            invariant
                i <= self.configs@.len(),
                r@ == self.configs@.take(i as int),
            decreases self.configs@.len() - i,
        {
            r.push(self.configs[i].duplicate());
            assert(self.configs@.take(i + 1) =~= self.configs@.take(i as int).push(self.configs@[i as int]));
            i = i + 1;
        }
        assert(self.configs@.take(i as int) =~= self.configs@);
        r
    }
}
} // verus!
