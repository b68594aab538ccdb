use uptimebar::providers::betterstack::{self, BetterStack, BsItem, RegionSeries};
use uptimebar::providers::healthchecks::{self, Check, Healthchecks};
use uptimebar::providers::uptimekuma::{self, Heartbeat, HeartbeatEntry, KumaGroup, KumaMonitor};
use uptimebar::providers::uptimerobot::{self, ApiError, RawMonitor, UptimeRobot};
use uptimebar::providers::watch4me::{self, ErrorBody, MonitorStats, Watch4Me};
use uptimebar::providers::{
    build, check_status, http_status_error, kinds_meta, MonitorAction, MonitorStatus, ProviderConfig,
    ProviderError, ProviderSpec, TokenScope,
};

fn cfg(kind: &str, base_url: Option<&str>, extra: Option<&str>) -> ProviderConfig {
    ProviderConfig {
        id: "id1".to_string(),
        kind: kind.to_string(),
        label: "My label".to_string(),
        base_url: base_url.map(|s| s.to_string()),
        interval_secs: None,
        extra: extra.map(|s| s.to_string()),
        color: None,
        scope: None,
        mute_default_secs: None,
    }
}

fn some(s: &str) -> Option<String> {
    Some(s.to_string())
}

#[test]
fn token_scope_config_strings() {
    assert_eq!(TokenScope::Read.as_config(), some("read"));
    assert_eq!(TokenScope::Write.as_config(), some("write"));
    assert_eq!(TokenScope::Unknown.as_config(), None);
}

#[test]
fn http_status_errors_map() {
    assert!(matches!(http_status_error(401), ProviderError::Auth));
    assert!(matches!(http_status_error(403), ProviderError::Auth));
    assert!(matches!(http_status_error(404), ProviderError::NotFound));
    assert!(matches!(http_status_error(429), ProviderError::RateLimited));
    assert!(matches!(http_status_error(500), ProviderError::Http(500)));
    assert!(check_status(200).is_ok());
    assert!(check_status(299).is_ok());
    assert!(matches!(check_status(300), Err(ProviderError::Http(300))));
    assert!(matches!(ProviderError::from_transport(true), ProviderError::Timeout));
    assert!(matches!(ProviderError::from_transport(false), ProviderError::Unreachable));
}

#[test]
fn error_messages() {
    assert_eq!(ProviderError::Http(503).message(), "The server returned an error (HTTP 503).");
    assert_eq!(ProviderError::Http(0).message(), "The server returned an error (HTTP 0).");
    assert_eq!(ProviderError::Config("x y".to_string()).message(), "x y");
    assert_eq!(ProviderError::PlanLimit("limit".to_string()).message(), "limit");
    assert_eq!(ProviderError::Timeout.message(), "The server took too long to respond.");
    assert_eq!(
        ProviderError::InsufficientScope.message(),
        "This API token is read-only. Use a read+write token to control monitors."
    );
    assert_eq!(
        ProviderError::Decode("detail".to_string()).message(),
        "Unexpected response from the server. Is the Base URL and provider type correct?"
    );
}

#[test]
fn kinds_meta_lists_offered_kinds() {
    let k = kinds_meta();
    let kinds: Vec<&str> = k.iter().map(|m| m.kind.as_str()).collect();
    assert_eq!(kinds, vec!["uptimerobot", "watch4me", "betterstack", "healthchecks"]);
    assert_eq!(k[2].extra_label.as_deref(), Some("Team"));
    assert_eq!(k[2].extra_placeholder, "t550046");
    assert!(k[2].extra_help.starts_with("Optional, for click-through. The t\u{2026} segment"));
    assert_eq!(k[0].extra_label, None);
    assert_eq!(k[0].default_base_url, None);
    assert_eq!(k[1].default_base_url.as_deref(), Some("https://watch4.me"));
    assert_eq!(k[3].secret_label, "read-only API key");
    assert!(k.iter().all(|m| m.requires_secret && !m.requires_base_url));
}

#[test]
fn build_picks_adapter_by_kind() {
    assert!(matches!(build(&cfg("uptimerobot", None, None), "k".into()), Ok(ProviderSpec::UptimeRobot(_))));
    assert!(matches!(build(&cfg("watch4me", None, None), "k".into()), Ok(ProviderSpec::Watch4Me(_))));
    assert!(matches!(build(&cfg("betterstack", None, None), "k".into()), Ok(ProviderSpec::BetterStack(_))));
    assert!(matches!(build(&cfg("healthchecks", None, None), "k".into()), Ok(ProviderSpec::Healthchecks(_))));
    assert!(matches!(
        build(&cfg("uptimekuma", Some("https://k.example/status/prod"), None), "".into()),
        Ok(ProviderSpec::UptimeKuma(_))
    ));
    match build(&cfg("nagios", None, None), "k".into()) {
        Err(ProviderError::Config(m)) => assert_eq!(m, "unknown provider kind: nagios"),
        _ => panic!("unknown kinds are refused"),
    }
    match build(&cfg("uptimekuma", None, None), "".into()) {
        Err(ProviderError::Config(m)) => {
            assert_eq!(m, "set base_url to the status-page URL (.../status/{slug})")
        }
        _ => panic!("kuma needs a base url"),
    }
    match build(&cfg("uptimekuma", Some("https://k.example/prod"), None), "".into()) {
        Err(ProviderError::Config(m)) => {
            assert_eq!(m, "could not parse a /status/{slug} from: https://k.example/prod")
        }
        _ => panic!("kuma needs a status page url"),
    }
    let p = build(&cfg("healthchecks", None, None), "k".into()).unwrap();
    assert_eq!(p.id(), "id1");
}

#[test]
fn betterstack_team_slugs() {
    assert_eq!(betterstack::normalize_team("t550046"), some("t550046"));
    assert_eq!(betterstack::normalize_team("  /t550046/ "), some("t550046"));
    assert_eq!(
        betterstack::normalize_team("https://uptime.betterstack.com/team/t550046/monitors/1"),
        some("t550046")
    );
    assert_eq!(betterstack::normalize_team("uptime.betterstack.com/team/"), some("uptime.betterstack.com"));
    assert_eq!(betterstack::normalize_team("\t\u{3000}/x/y"), some("x"));
    assert_eq!(betterstack::normalize_team("  "), None);
    assert_eq!(betterstack::normalize_team("///"), None);
}

#[test]
fn betterstack_monitors_and_links() {
    let b = BetterStack::new(&cfg("betterstack", Some("https://bs.example//"), Some("https://bs.example/team/t1/")), "tok".into());
    assert_eq!(b.base, "https://bs.example");
    assert_eq!(b.endpoint, "https://bs.example/api/v2/monitors");
    assert_eq!(b.team, some("t1"));
    assert_eq!(b.auth_header(), "Bearer tok");
    assert_eq!(b.api_v2(), "https://bs.example/api/v2");
    assert_eq!(b.response_times_url("9"), "https://bs.example/api/v2/monitors/9/response-times");
    assert_eq!(b.sla_url("9"), "https://bs.example/api/v2/monitors/9/sla");
    let items = vec![
        BsItem { id: "7".into(), url: some("https://a"), pronounceable_name: None, status: some("UP"), last_checked_at: some("t") },
        BsItem { id: "8".into(), url: None, pronounceable_name: None, status: some("Maintenance"), last_checked_at: None },
        BsItem { id: "9".into(), url: None, pronounceable_name: some("Nine"), status: some("validating"), last_checked_at: None },
    ];
    let ms = b.monitors_from_items(items);
    assert_eq!(ms[0].name, "https://a");
    assert_eq!(ms[0].status, MonitorStatus::Up);
    assert_eq!(ms[0].detail_url, some("https://bs.example/team/t1/monitors/7"));
    assert_eq!(ms[1].name, "monitor 8");
    assert_eq!(ms[1].status, MonitorStatus::Paused);
    assert_eq!(ms[2].name, "Nine");
    assert_eq!(ms[2].status, MonitorStatus::Unknown);
    let plain = BetterStack::new(&cfg("betterstack", None, None), "tok".into());
    assert_eq!(plain.base, "https://uptime.betterstack.com");
    let ms = plain.monitors_from_items(vec![BsItem { id: "1".into(), url: None, pronounceable_name: None, status: some("down"), last_checked_at: None }]);
    assert_eq!(ms[0].detail_url, some("https://uptime.betterstack.com/"));
    assert_eq!(ms[0].status, MonitorStatus::Down);
    assert_eq!(betterstack::map_status(&None), MonitorStatus::Unknown);
    let ids = BetterStack::monitor_ids(vec![BsItem { id: "5".into(), url: None, pronounceable_name: None, status: None, last_checked_at: None }]);
    assert_eq!(ids, vec!["5".to_string()]);
}

#[test]
fn betterstack_region_choice() {
    let r = |name: Option<&str>, points: usize| RegionSeries { region: name.map(|s| s.to_string()), points };
    assert_eq!(betterstack::representative_region(&vec![r(Some("eu"), 3), r(Some("us"), 2)]), Some(1));
    assert_eq!(betterstack::representative_region(&vec![r(Some("us"), 0), r(Some("au"), 2), r(Some("eu"), 1)]), Some(2));
    assert_eq!(betterstack::representative_region(&vec![r(Some("sa"), 0), r(None, 4)]), Some(1));
    assert_eq!(betterstack::representative_region(&vec![r(Some("us"), 0)]), None);
    assert_eq!(betterstack::representative_region(&vec![]), None);
}

#[test]
fn healthchecks_checks() {
    let h = Healthchecks::new(&cfg("healthchecks", Some("https://hc.example/"), None), "key".into());
    assert_eq!(h.endpoint, "https://hc.example/api/v3/checks/");
    let checks = vec![
        Check { name: some("Backup"), status: some("up"), last_ping: some("t"), uuid: some("u-1"), unique_key: some("k"), ping_url: some("https://p") },
        Check { name: None, status: some("grace"), last_ping: None, uuid: None, unique_key: some("k-2"), ping_url: None },
        Check { name: None, status: some("PAUSED"), last_ping: None, uuid: None, unique_key: None, ping_url: None },
    ];
    let ms = h.monitors_from_checks(checks);
    assert_eq!(ms[0].id, "u-1");
    assert_eq!(ms[0].detail_url, some("https://hc.example/checks/u-1/details/"));
    assert_eq!(ms[0].status, MonitorStatus::Up);
    assert_eq!(ms[1].id, "k-2");
    assert_eq!(ms[1].name, "k-2");
    assert_eq!(ms[1].status, MonitorStatus::Unknown);
    assert_eq!(ms[1].detail_url, some("https://hc.example/"));
    assert_eq!(ms[2].id, "check-2");
    assert_eq!(ms[2].status, MonitorStatus::Paused);
    assert_eq!(healthchecks::map_status(&some("down")), MonitorStatus::Down);
}

#[test]
fn uptimekuma_status_page() {
    assert_eq!(
        uptimekuma::parse_status_url("https://kuma.example.com/status/prod/"),
        Some(("https://kuma.example.com".to_string(), "prod".to_string()))
    );
    assert_eq!(uptimekuma::parse_status_url("/status/prod"), None);
    assert_eq!(uptimekuma::parse_status_url("https://k/status/"), None);
    let k = match build(&cfg("uptimekuma", Some("https://k.example/status/prod"), None), "".into()) {
        Ok(ProviderSpec::UptimeKuma(k)) => k,
        _ => panic!("kuma builds"),
    };
    assert_eq!(k.page_url(), "https://k.example/api/status-page/prod");
    assert_eq!(k.heartbeat_url(), "https://k.example/api/status-page/heartbeat/prod");
    let groups = vec![
        KumaGroup { monitor_list: vec![KumaMonitor { id: 1, name: some("Web"), url: some("https://w") }] },
        KumaGroup { monitor_list: vec![KumaMonitor { id: -2, name: None, url: None }, KumaMonitor { id: 3, name: None, url: None }] },
    ];
    let beats = vec![
        HeartbeatEntry { key: "1".into(), beats: vec![Heartbeat { status: 0, time: some("a") }, Heartbeat { status: 1, time: some("b") }] },
        HeartbeatEntry { key: "-2".into(), beats: vec![Heartbeat { status: 3, time: None }] },
        HeartbeatEntry { key: "3".into(), beats: vec![] },
    ];
    let ms = uptimekuma::monitors_from_page("https://page", groups, &beats);
    assert_eq!(ms.len(), 3);
    assert_eq!(ms[0].status, MonitorStatus::Up);
    assert_eq!(ms[0].last_checked, some("b"));
    assert_eq!(ms[1].id, "-2");
    assert_eq!(ms[1].name, "monitor -2");
    assert_eq!(ms[1].status, MonitorStatus::Paused);
    assert_eq!(ms[2].status, MonitorStatus::Unknown);
    assert_eq!(ms[2].detail_url, some("https://page"));
    assert_eq!(uptimekuma::map_status(2), MonitorStatus::Unknown);
}

#[test]
fn uptimerobot_replies() {
    let u = UptimeRobot::new(&cfg("uptimerobot", None, None), "key".into());
    assert_eq!(u.api_key, "key");
    let caps = u.capabilities();
    assert!(caps.pause && !caps.mute);
    assert_eq!(uptimerobot::api_url(), "https://api.uptimerobot.com/v2/getMonitors");
    assert!(matches!(uptimerobot::check_rate_limit(429), Err(ProviderError::RateLimited)));
    assert!(uptimerobot::check_rate_limit(200).is_ok());
    assert!(uptimerobot::check_reply("ok", None).is_ok());
    let err = |t: &str, m: &str| Some(ApiError { error_type: t.to_string(), message: m.to_string() });
    assert!(matches!(uptimerobot::check_reply("fail", err("invalid_parameter", "api_key not found.")), Err(ProviderError::Auth)));
    assert!(matches!(uptimerobot::check_reply("fail", err("x", "Invalid API_KEY")), Err(ProviderError::Auth)));
    assert!(matches!(
        uptimerobot::check_reply("fail", err("not_authorized", "You are not allowed to perform this request")),
        Err(ProviderError::Auth)
    ));
    match uptimerobot::check_reply("fail", err("x", "boom")) {
        Err(ProviderError::Decode(m)) => assert_eq!(m, "api error: boom"),
        _ => panic!("decode error expected"),
    }
    match uptimerobot::check_reply("fail", None) {
        Err(ProviderError::Decode(m)) => assert_eq!(m, "api error: "),
        _ => panic!("decode error expected"),
    }
    let ms = uptimerobot::monitors_from_raw(vec![
        RawMonitor { id: 777, friendly_name: "Site".into(), url: some("https://s"), status: 2 },
        RawMonitor { id: 0, friendly_name: "Z".into(), url: None, status: 8 },
        RawMonitor { id: 18446744073709551615, friendly_name: "M".into(), url: None, status: 1 },
    ]);
    assert_eq!(ms[0].id, "777");
    assert_eq!(ms[0].detail_url, some("https://dashboard.uptimerobot.com/monitors/777"));
    assert_eq!(ms[0].status, MonitorStatus::Up);
    assert_eq!(ms[1].id, "0");
    assert_eq!(ms[1].status, MonitorStatus::Down);
    assert_eq!(ms[2].id, "18446744073709551615");
    assert_eq!(ms[2].status, MonitorStatus::Unknown);
    assert_eq!(uptimerobot::map_status(0), MonitorStatus::Paused);
    assert_eq!(uptimerobot::map_status(9), MonitorStatus::Down);
}

#[test]
fn uptimerobot_edits() {
    assert_eq!(uptimerobot::edit_status(MonitorAction::Pause).unwrap(), "0");
    assert_eq!(uptimerobot::edit_status(MonitorAction::Resume).unwrap(), "1");
    match uptimerobot::edit_status(MonitorAction::Mute { duration_secs: Some(5) }) {
        Err(ProviderError::Config(m)) => assert_eq!(m, "UptimeRobot doesn't support mute."),
        _ => panic!("mute unsupported"),
    }
    assert!(uptimerobot::edit_status(MonitorAction::Unmute).is_err());
    let err = |t: &str, m: &str| Some(ApiError { error_type: t.to_string(), message: m.to_string() });
    assert!(matches!(uptimerobot::check_edit_reply("fail", err("not_authorized", "")), Err(ProviderError::InsufficientScope)));
    assert!(matches!(
        uptimerobot::check_edit_reply("fail", err("x", "You are NOT ALLOWED to perform this request")),
        Err(ProviderError::InsufficientScope)
    ));
    match uptimerobot::check_edit_reply("fail", err("x", "nope")) {
        Err(ProviderError::Decode(m)) => assert_eq!(m, "edit failed: nope"),
        _ => panic!("decode error expected"),
    }
    assert!(uptimerobot::check_edit_reply("ok", None).is_ok());
    let o = uptimerobot::edit_outcome("0");
    assert_eq!(o.is_paused, Some(true));
    assert!(o.changed && o.is_muted.is_none());
    assert_eq!(uptimerobot::edit_outcome("1").is_paused, Some(false));
}

fn stats(id: i64, public_id: Option<&str>) -> MonitorStats {
    MonitorStats {
        id,
        public_id: public_id.map(|s| s.to_string()),
        name: None,
        url: None,
        is_up: true,
        is_paused: false,
        is_muted: true,
        is_stale: false,
        state_since: some("since"),
        latest_check_at: some("at"),
    }
}

#[test]
fn watch4me_conditional_cache() {
    let mut w = Watch4Me::new(&cfg("watch4me", Some("https://w4m.example/"), None), "w4m_t".into()).unwrap();
    assert_eq!(w.status_endpoint, "https://w4m.example/api/v1/monitors/status");
    assert_eq!(w.dashboard_endpoint, "https://w4m.example/api/v1/dashboard/");
    assert_eq!(w.auth_header(), "Bearer w4m_t");
    assert_eq!(w.request_etag(), None);
    assert!(w.on_status(200).is_none());
    assert!(matches!(w.on_status(401), Some(Err(ProviderError::Auth))));
    let first = w.accept_body(some("\"e1\""), vec![stats(5, Some("abc")), stats(-6, None)]);
    assert_eq!(first[0].name, "monitor 5");
    assert_eq!(first[0].detail_url, some("https://w4m.example/monitors/abc/"));
    assert_eq!(first[0].public_id, some("abc"));
    assert!(first[0].is_muted);
    assert_eq!(first[0].state_since, some("since"));
    assert_eq!(first[1].id, "-6");
    assert_eq!(first[1].detail_url, some("https://w4m.example/dashboard"));
    assert_eq!(w.request_etag(), some("\"e1\""));
    // A 304 replays the list of the last 200.
    match w.on_status(304) {
        Some(Ok(ms)) => {
            assert_eq!(ms.len(), 2);
            assert_eq!(ms[0].id, "5");
            assert_eq!(ms[1].id, "-6");
        }
        _ => panic!("304 replays the cache"),
    }
}

#[test]
fn watch4me_status_and_actions() {
    let w = Watch4Me::new(&cfg("watch4me", None, None), "t".into()).unwrap();
    let mut s = stats(1, None);
    assert_eq!(watch4me::map_status(&s), MonitorStatus::Up);
    s.is_up = false;
    assert_eq!(watch4me::map_status(&s), MonitorStatus::Down);
    s.is_stale = true;
    assert_eq!(watch4me::map_status(&s), MonitorStatus::Unknown);
    s.is_paused = true;
    assert_eq!(watch4me::map_status(&s), MonitorStatus::Paused);
    assert_eq!(w.action_url("pid", MonitorAction::Pause), "https://watch4.me/api/v1/monitors/pid/pause");
    assert_eq!(w.action_url("pid", MonitorAction::Resume), "https://watch4.me/api/v1/monitors/pid/resume");
    assert_eq!(w.action_url("pid", MonitorAction::Unmute), "https://watch4.me/api/v1/monitors/pid/unmute");
    assert_eq!(w.action_url("pid", MonitorAction::Mute { duration_secs: None }), "https://watch4.me/api/v1/monitors/pid/mute");
    assert_eq!(
        w.action_url("pid", MonitorAction::Mute { duration_secs: Some(3600) }),
        "https://watch4.me/api/v1/monitors/pid/mute?duration_seconds=3600"
    );
    let body = |c: &str, m: &str| Some(ErrorBody { code: c.to_string(), message: m.to_string() });
    assert!(matches!(watch4me::action_error(403, body("insufficient_scope", "")), ProviderError::InsufficientScope));
    match watch4me::action_error(402, body("plan_limit", "Upgrade to resume more monitors")) {
        ProviderError::PlanLimit(m) => assert_eq!(m, "Upgrade to resume more monitors"),
        _ => panic!("plan limit expected"),
    }
    assert!(matches!(watch4me::action_error(404, body("other", "")), ProviderError::NotFound));
    assert!(matches!(watch4me::action_error(500, None), ProviderError::Http(500)));
    assert_eq!(w.deep_link(Some("x")), "https://watch4.me/monitors/x/");
}

#[test]
fn betterstack_actions() {
    let b = BetterStack::new(&cfg("betterstack", Some("https://bs.example/"), None), "tok".into());
    let caps = b.capabilities();
    assert!(caps.pause && !caps.mute);
    assert_eq!(b.monitor_url("42"), "https://bs.example/api/v2/monitors/42");
    assert_eq!(betterstack::paused_flag(MonitorAction::Pause).unwrap(), true);
    assert_eq!(betterstack::paused_flag(MonitorAction::Resume).unwrap(), false);
    match betterstack::paused_flag(MonitorAction::Mute { duration_secs: None }) {
        Err(ProviderError::Config(m)) => assert_eq!(m, "BetterStack doesn't support mute."),
        _ => panic!("mute unsupported"),
    }
    assert!(betterstack::paused_flag(MonitorAction::Unmute).is_err());
    assert!(matches!(betterstack::action_error(401), ProviderError::InsufficientScope));
    assert!(matches!(betterstack::action_error(403), ProviderError::InsufficientScope));
    assert!(matches!(betterstack::action_error(404), ProviderError::NotFound));
    assert!(matches!(betterstack::action_error(500), ProviderError::Http(500)));
    let o = betterstack::action_outcome(true);
    assert_eq!(o.is_paused, Some(true));
    assert!(o.changed && o.is_muted.is_none());
}

#[test]
fn token_scope_probes() {
    // Watch4.me names the scope.
    let w = match build(&cfg("watch4me", Some("https://w.example/"), None), "t".into()) {
        Ok(ProviderSpec::Watch4Me(w)) => w,
        _ => panic!("watch4me builds"),
    };
    assert_eq!(w.token_url(), "https://w.example/api/v1/token");
    assert_eq!(watch4me::token_scope(200, some("read")).unwrap(), TokenScope::Read);
    assert_eq!(watch4me::token_scope(200, some("write")).unwrap(), TokenScope::Write);
    assert_eq!(watch4me::token_scope(200, some("admin")).unwrap(), TokenScope::Unknown);
    assert_eq!(watch4me::token_scope(200, None).unwrap(), TokenScope::Unknown);
    assert!(matches!(watch4me::token_scope(401, None), Err(ProviderError::Auth)));
    // UptimeRobot: getAccountDetails is write-gated.
    assert_eq!(uptimerobot::account_url(), "https://api.uptimerobot.com/v2/getAccountDetails");
    let err = |t: &str| Some(ApiError { error_type: t.to_string(), message: "m".to_string() });
    assert_eq!(uptimerobot::scope_from_account_reply("ok", None), TokenScope::Write);
    assert_eq!(uptimerobot::scope_from_account_reply("fail", err("not_authorized")), TokenScope::Read);
    assert_eq!(uptimerobot::scope_from_account_reply("fail", err("other")), TokenScope::Unknown);
    assert_eq!(uptimerobot::scope_from_account_reply("fail", None), TokenScope::Unknown);
    // Healthchecks: a read-only key redacts the uuid.
    let chk = |uuid: Option<&str>, key: Option<&str>| Check {
        name: None,
        status: None,
        last_ping: None,
        uuid: uuid.map(|s| s.to_string()),
        unique_key: key.map(|s| s.to_string()),
        ping_url: None,
    };
    assert_eq!(healthchecks::scope_from_checks(&vec![chk(None, some("k").as_deref()), chk(Some("u"), None)]), TokenScope::Write);
    assert_eq!(healthchecks::scope_from_checks(&vec![chk(None, Some("k1")), chk(None, Some("k2"))]), TokenScope::Read);
    assert_eq!(healthchecks::scope_from_checks(&vec![]), TokenScope::Unknown);
    assert_eq!(healthchecks::scope_from_checks(&vec![chk(None, Some("k1")), chk(None, None)]), TokenScope::Unknown);
}

#[test]
fn status_url_round_trip() {
    let (b, s) = uptimekuma::parse_status_url("https://kuma.example.com/status/prod").unwrap();
    assert_eq!(format!("{b}/status/{s}"), "https://kuma.example.com/status/prod");
    assert_eq!(
        uptimekuma::parse_status_url("https://k.example/x/status/a/b//"),
        Some(("https://k.example/x".to_string(), "a/b".to_string()))
    );
}

#[test]
fn team_trimming_follows_unicode_whitespace() {
    for n in 0u32..0x11_0000 {
        let Some(c) = char::from_u32(n) else { continue };
        if c == '/' {
            continue;
        }
        let got = betterstack::normalize_team(&format!("{c}x"));
        if c.is_whitespace() {
            assert_eq!(got, some("x"), "U+{n:04X}");
        } else {
            assert_eq!(got, Some(format!("{c}x")), "U+{n:04X}");
        }
    }
}
