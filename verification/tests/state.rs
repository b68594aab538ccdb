use std::time::Duration;

use uptimebar::providers::{Monitor, MonitorStatus, ProviderConfig, ProviderError, TokenScope};
use uptimebar::state::{audible_transitions, key, rank, AppState, DetailDecision, FetchOutcome, MonitorView, FAILURE_THRESHOLD};

fn state() -> AppState {
    AppState::new(reqwest::Client::new(), Vec::new())
}

fn json_v1() -> serde_json::Value {
    serde_json::from_str("{\"v\": 1}").unwrap()
}

fn mon(id: &str, name: &str, status: MonitorStatus) -> Monitor {
    Monitor {
        id: id.to_string(),
        name: name.to_string(),
        status,
        last_checked: None,
        url: None,
        detail_url: None,
        state_since: None,
        public_id: None,
        is_muted: false,
    }
}

fn cfg(id: &str, color: Option<&str>) -> ProviderConfig {
    ProviderConfig {
        id: id.to_string(),
        kind: "uptimerobot".to_string(),
        label: "Label".to_string(),
        base_url: None,
        interval_secs: None,
        extra: None,
        color: color.map(|c| c.to_string()),
        scope: None,
        mute_default_secs: None,
    }
}

fn status_of(s: &AppState, k: &str) -> Option<MonitorStatus> {
    s.rows.iter().find(|(rk, _)| rk == k).map(|(_, r)| r.monitor.status)
}

#[test]
fn poll_freshness_tracks_last_poll() {
    let mut s = state();
    // Never polled: never fresh, so an open would force a poll.
    assert!(!s.poll_is_fresh(Duration::from_secs(60)));
    s.mark_polled();
    assert!(s.poll_is_fresh(Duration::from_secs(60)));
    // A zero TTL is always stale, even right after polling.
    assert!(!s.poll_is_fresh(Duration::ZERO));
}

#[test]
fn first_detail_request_fetches_then_serves_cache() {
    let mut s = state();
    let ttl = Duration::from_secs(60);
    // Cold cache: the caller is told to fetch.
    assert!(matches!(s.begin_detail("p", ttl, false), DetailDecision::Fetch));
    s.finish_detail("p", Some(json_v1()));
    // Within TTL the next open is served from cache: no network.
    match s.begin_detail("p", ttl, false) {
        DetailDecision::Hit(Some(v)) => assert_eq!(v["v"], 1),
        other => panic!("expected cache hit, got {:?}", matches!(other, DetailDecision::Fetch)),
    }
}

#[test]
fn force_bypasses_freshness_but_cache_replays_value() {
    let mut s = state();
    let ttl = Duration::from_secs(60);
    s.begin_detail("p", ttl, false);
    s.finish_detail("p", Some(json_v1()));
    // Forced refresh ignores the fresh cache and re-fetches.
    assert!(matches!(s.begin_detail("p", ttl, true), DetailDecision::Fetch));
}

#[test]
fn in_flight_request_is_not_duplicated() {
    let mut s = state();
    let ttl = Duration::from_secs(60);
    // First caller claims the in-flight slot (told to fetch)...
    assert!(matches!(s.begin_detail("p", ttl, false), DetailDecision::Fetch));
    // ...a concurrent open gets a cache hit instead of a second GET, even with force set.
    assert!(matches!(s.begin_detail("p", ttl, true), DetailDecision::Hit(_)));
    // Once the fetch finishes, the slot is released and a stale TTL re-fetches.
    s.finish_detail("p", None);
    assert!(matches!(s.begin_detail("p", Duration::ZERO, false), DetailDecision::Fetch));
}

#[test]
fn detail_cache_at_explicit_times() {
    let mut s = state();
    assert!(matches!(s.begin_detail_at("p", 100, 50, false), DetailDecision::Fetch));
    s.finish_detail_at("p", 100, Some(json_v1()));
    // 40 ns later, within a 50 ns TTL: replayed.
    match s.begin_detail_at("p", 140, 50, false) {
        DetailDecision::Hit(Some(v)) => assert_eq!(v["v"], 1),
        _ => panic!("expected a replayed value"),
    }
    // 50 ns later: stale, fetch again.
    assert!(matches!(s.begin_detail_at("p", 150, 50, false), DetailDecision::Fetch));
    // A failed fetch keeps the last good value.
    s.finish_detail_at("p", 160, None);
    match s.begin_detail_at("p", 170, 50, false) {
        DetailDecision::Hit(Some(v)) => assert_eq!(v["v"], 1),
        _ => panic!("expected the last good value"),
    }
    // Another provider has its own slot.
    assert!(matches!(s.begin_detail_at("q", 170, 50, false), DetailDecision::Fetch));
}

#[test]
fn poll_freshness_at_explicit_times() {
    let mut s = state();
    assert!(!s.poll_is_fresh_at(10, 100));
    s.mark_polled_at(1_000);
    assert!(s.poll_is_fresh_at(1_099, 100));
    assert!(!s.poll_is_fresh_at(1_100, 100));
    assert!(!s.poll_is_fresh_at(1_000, 0));
    // A clock reading before the stamp counts as no time elapsed.
    assert!(s.poll_is_fresh_at(900, 1));
}

#[test]
fn key_joins_provider_and_monitor() {
    assert_eq!(key("prov", "42"), "prov:42");
    assert_eq!(key("", ""), ":");
}

#[test]
fn first_observation_sets_silent_baseline() {
    let mut s = state();
    let t = s.apply_success("p", "Prov", "uptimerobot", vec![mon("1", "One", MonitorStatus::Down)]);
    assert!(t.is_empty());
    assert_eq!(s.rows.len(), 1);
    assert_eq!(s.rows[0].0, "p:1");
    assert_eq!(s.rows[0].1.last_solid, Some(MonitorStatus::Down));
}

#[test]
fn up_down_edge_notifies_once() {
    let mut s = state();
    s.apply_success("p", "Prov", "k", vec![mon("1", "One", MonitorStatus::Up)]);
    let t = s.apply_success("p", "Prov", "k", vec![mon("1", "One", MonitorStatus::Down)]);
    assert_eq!(t.len(), 1);
    assert_eq!(t[0].monitor_name, "One");
    assert_eq!(t[0].provider_label, "Prov");
    assert_eq!(t[0].new_status, MonitorStatus::Down);
    // The same status again notifies nothing.
    let t = s.apply_success("p", "Prov", "k", vec![mon("1", "One", MonitorStatus::Down)]);
    assert!(t.is_empty());
    // Recovery notifies Up.
    let t = s.apply_success("p", "Prov", "k", vec![mon("1", "One", MonitorStatus::Up)]);
    assert_eq!(t.len(), 1);
    assert_eq!(t[0].new_status, MonitorStatus::Up);
}

#[test]
fn paused_and_unknown_never_notify_and_keep_baseline() {
    let mut s = state();
    s.apply_success("p", "Prov", "k", vec![mon("1", "One", MonitorStatus::Up)]);
    let t = s.apply_success("p", "Prov", "k", vec![mon("1", "One", MonitorStatus::Paused)]);
    assert!(t.is_empty());
    assert_eq!(s.rows[0].1.last_solid, Some(MonitorStatus::Up));
    let t = s.apply_success("p", "Prov", "k", vec![mon("1", "One", MonitorStatus::Unknown)]);
    assert!(t.is_empty());
    // Coming back Up after pause is not an edge; Down is.
    let t = s.apply_success("p", "Prov", "k", vec![mon("1", "One", MonitorStatus::Up)]);
    assert!(t.is_empty());
    let t = s.apply_success("p", "Prov", "k", vec![mon("1", "One", MonitorStatus::Down)]);
    assert_eq!(t.len(), 1);
}

#[test]
fn unchanged_poll_is_silent() {
    let mut s = state();
    let fetch = || {
        vec![
            mon("1", "One", MonitorStatus::Up),
            mon("2", "Two", MonitorStatus::Down),
            mon("3", "Three", MonitorStatus::Paused),
        ]
    };
    assert!(s.apply_success("p", "Prov", "k", fetch()).is_empty());
    assert!(s.apply_success("p", "Prov", "k", fetch()).is_empty());
    assert_eq!(s.rows.len(), 3);
}

#[test]
fn vanished_monitors_are_dropped_other_providers_kept() {
    let mut s = state();
    s.apply_success("p", "P", "k", vec![mon("1", "One", MonitorStatus::Up), mon("2", "Two", MonitorStatus::Up)]);
    s.apply_success("q", "Q", "k", vec![mon("1", "Other", MonitorStatus::Up)]);
    s.apply_success("p", "P", "k", vec![mon("2", "Two", MonitorStatus::Up)]);
    let keys: Vec<&str> = s.rows.iter().map(|(k, _)| k.as_str()).collect();
    assert_eq!(keys, vec!["p:2", "q:1"]);
}

#[test]
fn failures_reach_threshold_then_show_unknown() {
    let mut s = state();
    s.apply_success("p", "P", "k", vec![mon("1", "One", MonitorStatus::Down)]);
    s.apply_success("q", "Q", "k", vec![mon("1", "Other", MonitorStatus::Up)]);
    s.apply_failure("p");
    assert_eq!(s.failure_count("p"), 1);
    assert_eq!(status_of(&s, "p:1"), Some(MonitorStatus::Down));
    s.apply_failure("p");
    assert_eq!(s.failure_count("p"), FAILURE_THRESHOLD);
    assert_eq!(status_of(&s, "p:1"), Some(MonitorStatus::Unknown));
    assert_eq!(status_of(&s, "q:1"), Some(MonitorStatus::Up));
    // The baseline survives, so a recovery to the old status is silent.
    assert_eq!(s.rows[0].1.last_solid, Some(MonitorStatus::Down));
    let t = s.apply_success("p", "P", "k", vec![mon("1", "One", MonitorStatus::Down)]);
    assert!(t.is_empty());
    assert_eq!(s.failure_count("p"), 0);
}

#[test]
fn poll_results_rate_limit_failure_and_timeout() {
    let mut s = state();
    s.apply_poll_result("p", "P", "k", FetchOutcome::Fetched(vec![mon("1", "One", MonitorStatus::Up)]));
    for _ in 0..5 {
        let t = s.apply_poll_result("p", "P", "k", FetchOutcome::Failed(ProviderError::RateLimited));
        assert!(t.is_empty());
    }
    assert_eq!(s.failure_count("p"), 0);
    assert_eq!(status_of(&s, "p:1"), Some(MonitorStatus::Up));
    s.apply_poll_result("p", "P", "k", FetchOutcome::Failed(ProviderError::Unreachable));
    s.apply_poll_result("p", "P", "k", FetchOutcome::TimedOut);
    assert_eq!(s.failure_count("p"), 2);
    assert_eq!(status_of(&s, "p:1"), Some(MonitorStatus::Unknown));
}

#[test]
fn action_outcome_pause_resume_mute() {
    let mut s = state();
    let mut m = mon("1", "One", MonitorStatus::Up);
    m.public_id = Some("pub1".to_string());
    s.apply_success("p", "P", "k", vec![m]);
    s.apply_action_outcome("p", "pub1", Some(true), Some(true));
    assert_eq!(status_of(&s, "p:1"), Some(MonitorStatus::Paused));
    assert!(s.rows[0].1.monitor.is_muted);
    s.apply_action_outcome("p", "pub1", Some(false), None);
    assert_eq!(status_of(&s, "p:1"), Some(MonitorStatus::Unknown));
    assert!(s.rows[0].1.monitor.is_muted);
    // A resume of a non-paused monitor leaves its status alone.
    s.apply_success("p", "P", "k", vec![{
        let mut m = mon("1", "One", MonitorStatus::Down);
        m.public_id = Some("pub1".to_string());
        m
    }]);
    s.apply_action_outcome("p", "pub1", Some(false), Some(false));
    assert_eq!(status_of(&s, "p:1"), Some(MonitorStatus::Down));
    assert!(!s.rows[0].1.monitor.is_muted);
    // Another provider's public id does not match.
    s.apply_action_outcome("q", "pub1", Some(true), None);
    assert_eq!(status_of(&s, "p:1"), Some(MonitorStatus::Down));
}

#[test]
fn prune_drops_dead_providers() {
    let mut s = state();
    s.apply_success("p", "P", "k", vec![mon("1", "One", MonitorStatus::Up)]);
    s.apply_success("q", "Q", "k", vec![mon("1", "Other", MonitorStatus::Up)]);
    s.apply_failure("q");
    s.begin_detail_at("q", 0, 10, false);
    s.prune_to(&["p".to_string()]);
    assert_eq!(s.rows.len(), 1);
    assert_eq!(s.rows[0].0, "p:1");
    assert_eq!(s.failure_count("q"), 0);
    assert!(s.failures.iter().all(|(k, _)| k != "q"));
    assert!(s.detail_cache.is_empty());
}

#[test]
fn snapshot_orders_by_status_then_name() {
    let mut s = AppState::new(reqwest::Client::new(), vec![cfg("p", Some("#ff0000")), cfg("p", Some("#00ff00"))]);
    s.apply_success(
        "p",
        "P",
        "k",
        vec![
            mon("1", "beta", MonitorStatus::Up),
            mon("2", "Alpha", MonitorStatus::Up),
            mon("3", "zed", MonitorStatus::Down),
            mon("4", "paused", MonitorStatus::Paused),
            mon("5", "unknown", MonitorStatus::Unknown),
        ],
    );
    s.apply_success("q", "Q", "k", vec![mon("1", "q-mon", MonitorStatus::Down)]);
    let v: Vec<MonitorView> = s.snapshot_view();
    let names: Vec<&str> = v.iter().map(|m| m.name.as_str()).collect();
    assert_eq!(names, vec!["q-mon", "zed", "unknown", "paused", "Alpha", "beta"]);
    // The last configuration with the provider's id gives the color.
    assert_eq!(v[1].provider_color.as_deref(), Some("#00ff00"));
    assert_eq!(v[0].provider_color, None);
    assert_eq!(v[1].key, "p:3");
    assert_eq!(v[1].provider_label, "P");
}

#[test]
fn snapshot_lowercases_beyond_ascii() {
    let mut s = state();
    s.apply_success(
        "p",
        "P",
        "k",
        vec![mon("1", "\u{00C9}clair", MonitorStatus::Up), mon("2", "\u{00E9}b", MonitorStatus::Up)],
    );
    let v = s.snapshot_view();
    // "éb" < "éclair" once both are lower-cased.
    assert_eq!(v[0].name, "\u{00E9}b");
}

#[test]
fn aggregate_counts_rows() {
    let mut s = state();
    s.apply_success(
        "p",
        "P",
        "k",
        vec![
            mon("1", "a", MonitorStatus::Up),
            mon("2", "b", MonitorStatus::Up),
            mon("3", "c", MonitorStatus::Down),
            mon("4", "d", MonitorStatus::Unknown),
        ],
    );
    let a = s.aggregate();
    assert_eq!((a.up, a.down, a.paused, a.unknown), (2, 1, 0, 1));
    assert_eq!(a.total(), 4);
    assert_eq!(rank(MonitorStatus::Down), 0);
    assert_eq!(rank(MonitorStatus::Up), 3);
}

#[test]
fn configs_store_replace_and_remove() {
    let mut s = state();
    s.store_config(cfg("a", None));
    s.store_config(cfg("b", None));
    s.store_config(cfg("a", Some("#111111")));
    assert_eq!(s.configs.len(), 2);
    assert_eq!(s.configs[0].color.as_deref(), Some("#111111"));
    s.remove_config("a");
    let ids: Vec<&str> = s.configs.iter().map(|c| c.id.as_str()).collect();
    assert_eq!(ids, vec!["b"]);
    assert_eq!(s.clone_configs().len(), 1);
}

#[test]
fn upsert_keeps_stored_scope() {
    let mut s = state();
    let mut stored = cfg("a", None);
    stored.scope = Some("write".to_string());
    s.store_config(stored);
    let mut edited = cfg("a", Some("#222222"));
    edited.scope = None;
    let saved = s.upsert_config(edited);
    assert_eq!(saved.scope.as_deref(), Some("write"));
    assert_eq!(saved.color.as_deref(), Some("#222222"));
    assert_eq!(s.configs.len(), 1);
    assert_eq!(s.configs[0].scope.as_deref(), Some("write"));
    assert_eq!(s.configs[0].color.as_deref(), Some("#222222"));
    let fresh = s.upsert_config(cfg("b", None));
    assert_eq!(fresh.scope, None);
    assert_eq!(s.configs.len(), 2);
    assert_eq!(s.configs[1].id, "b");
}

#[test]
fn muted_monitors_are_silenced_but_still_shown() {
    let mut s = state();
    let mut a = mon("1", "One", MonitorStatus::Up);
    a.is_muted = true;
    let b = mon("2", "Two", MonitorStatus::Up);
    s.apply_success("p", "Prov", "k", vec![a, b]);
    let mut a = mon("1", "One", MonitorStatus::Down);
    a.is_muted = true;
    let b = mon("2", "Two", MonitorStatus::Down);
    let t = s.apply_success("p", "Prov", "k", vec![a, b]);
    assert_eq!(t.len(), 2);
    assert!(t[0].muted && !t[1].muted);
    // The muted monitor's row still goes Down.
    assert_eq!(status_of(&s, "p:1"), Some(MonitorStatus::Down));
    let heard = audible_transitions(t, true);
    assert_eq!(heard.len(), 1);
    assert_eq!(heard[0].monitor_name, "Two");
    let mut a = mon("1", "One", MonitorStatus::Up);
    a.is_muted = true;
    let t = s.apply_success("p", "Prov", "k", vec![a, mon("2", "Two", MonitorStatus::Down)]);
    assert_eq!(audible_transitions(t, false).len(), 1);
}

#[test]
fn scope_is_recorded_in_the_config() {
    let mut s = state();
    s.store_config(cfg("a", Some("#123456")));
    s.store_config(cfg("b", None));
    s.record_scope("a", TokenScope::Read);
    assert_eq!(s.configs[0].scope.as_deref(), Some("read"));
    assert_eq!(s.configs[0].color.as_deref(), Some("#123456"));
    assert_eq!(s.configs[1].scope, None);
    s.record_scope("a", TokenScope::Write);
    assert_eq!(s.configs[0].scope.as_deref(), Some("write"));
    s.record_scope("a", TokenScope::Unknown);
    assert_eq!(s.configs[0].scope, None);
    s.record_scope("zzz", TokenScope::Read);
    assert_eq!(s.configs.len(), 2);
}
