use uptimebar::browser::{detect, detect_present, known_browsers};
use uptimebar::commands::{assign_id, test_config, test_result, uses_stored_secret};
use uptimebar::config::{
    after_file_read, after_keychain_read, build_all, use_keychain, user_agent, KeychainRead, SecretStep,
    DEFAULT_INTERVAL_SECS,
};
use uptimebar::notify::notification_text;
use uptimebar::providers::{Monitor, MonitorStatus, ProviderConfig, ProviderSpec};
use uptimebar::state::{Aggregate, Transition};
use uptimebar::text::{ascii_lowercase, contains_exec, i64_to_string, u64_to_string};
use uptimebar::tray::{hides_on_pointer_report, status_color, tooltip, PointerState};

fn cfg(id: &str, kind: &str, base_url: Option<&str>) -> ProviderConfig {
    ProviderConfig {
        id: id.to_string(),
        kind: kind.to_string(),
        label: "L".to_string(),
        base_url: base_url.map(|s| s.to_string()),
        interval_secs: Some(30),
        extra: None,
        color: None,
        scope: None,
        mute_default_secs: None,
    }
}

fn mon_with_link(link: Option<&str>) -> Monitor {
    Monitor {
        id: "1".into(),
        name: "n".into(),
        status: MonitorStatus::Up,
        last_checked: None,
        url: None,
        detail_url: link.map(|s| s.to_string()),
        state_since: None,
        public_id: None,
        is_muted: false,
    }
}

#[test]
fn browsers_default_first() {
    let d = detect();
    assert_eq!(d.len(), 1);
    assert_eq!(d[0].name, "System default");
    assert_eq!(d[0].app, "");
    assert_eq!(known_browsers().len(), 9);
    let mut present = vec![false; 9];
    present[1] = true;
    present[8] = true;
    let b = detect_present(&present);
    let names: Vec<&str> = b.iter().map(|x| x.name.as_str()).collect();
    assert_eq!(names, vec!["System default", "Google Chrome", "Chromium"]);
    assert_eq!(b[1].app, "Google Chrome");
}

#[test]
fn test_connection_notes() {
    let hc = cfg("x", "healthchecks", Some("https://hc.example//"));
    let r = test_result(&hc, &vec![mon_with_link(Some("https://hc.example/"))]);
    assert_eq!(r.count, 1);
    assert_eq!(
        r.note.as_deref(),
        Some("Read-only key detected \u{2014} per-check links go to the dashboard. Use the read-write API key (https://hc.example) for per-check deep-links.")
    );
    let r = test_result(&hc, &vec![mon_with_link(Some("https://hc.example/checks/u/details/")), mon_with_link(None)]);
    assert_eq!(r.note, None);
    assert_eq!(test_result(&hc, &vec![]).note, None);
    let r = test_result(&cfg("x", "healthchecks", None), &vec![mon_with_link(None)]);
    assert!(r.note.unwrap().contains("(https://healthchecks.io)"));
    assert_eq!(test_result(&cfg("x", "uptimerobot", None), &vec![mon_with_link(None)]).note, None);
}

#[test]
fn ids_for_tests_and_saves() {
    assert_eq!(test_config(cfg("", "k", None)).id, "__test__");
    assert_eq!(test_config(cfg("abc", "k", None)).id, "abc");
    let a = assign_id(cfg("", "k", None));
    assert_eq!(a.id.len(), 36);
    assert_eq!(a.id.matches('-').count(), 4);
    let c: Vec<char> = a.id.chars().collect();
    for (i, ch) in c.iter().enumerate() {
        if [8, 13, 18, 23].contains(&i) {
            assert_eq!(*ch, '-');
        } else {
            assert!(ch.is_ascii_hexdigit() && !ch.is_ascii_uppercase());
        }
    }
    assert_eq!(c[14], '4');
    assert!("89ab".contains(c[19]));
    let b = assign_id(cfg("", "k", None));
    assert_ne!(a.id, b.id);
    assert_eq!(assign_id(cfg("keep", "k", None)).id, "keep");
    assert!(uses_stored_secret(&cfg("abc", "k", None), ""));
    assert!(!uses_stored_secret(&cfg("", "k", None), ""));
    assert!(!uses_stored_secret(&cfg("abc", "k", None), "new"));
}

#[test]
fn rebuild_skips_broken_configs() {
    let configs = vec![
        cfg("a", "uptimerobot", None),
        cfg("b", "nagios", None),
        cfg("c", "uptimekuma", Some("https://k/nostatus")),
        cfg("d", "uptimekuma", Some("https://k/status/s")),
        cfg("e", "betterstack", None),
    ];
    let secrets = vec!["1".into(), "2".into(), "3".into(), "4".into(), "5".into()];
    let (specs, ids) = build_all(&configs, secrets);
    assert_eq!(ids, vec!["a".to_string(), "d".to_string(), "e".to_string()]);
    assert_eq!(specs.len(), 3);
    assert_eq!(specs[1].id(), "d");
    match &specs[0] {
        ProviderSpec::UptimeRobot(p) => assert_eq!(p.api_key, "1"),
        _ => panic!("uptimerobot adapter expected"),
    }
    match &specs[1] {
        ProviderSpec::UptimeKuma(p) => assert_eq!((p.base.as_str(), p.slug.as_str()), ("https://k", "s")),
        _ => panic!("kuma adapter expected"),
    }
    match &specs[2] {
        ProviderSpec::BetterStack(p) => assert_eq!(p.token, "5"),
        _ => panic!("betterstack adapter expected"),
    }
    assert_eq!(DEFAULT_INTERVAL_SECS, 60);
}

#[test]
fn user_agent_names_platform() {
    assert_eq!(user_agent("0.4.0", "macos", "aarch64"), "UptimeBar/0.4.0 (macOS; aarch64)");
    assert_eq!(user_agent("1", "windows", "x86_64"), "UptimeBar/1 (Windows; x86_64)");
    assert_eq!(user_agent("1", "linux", "x86_64"), "UptimeBar/1 (Linux; x86_64)");
    assert_eq!(user_agent("1", "freebsd", "x86_64"), "UptimeBar/1 (freebsd; x86_64)");
}

#[test]
fn notification_texts() {
    let t = |s| Transition { monitor_name: "API".into(), provider_label: "Prod".into(), new_status: s, muted: false };
    assert_eq!(
        notification_text(&t(MonitorStatus::Down)),
        Some(("\u{1F534} API is DOWN".to_string(), "via Prod".to_string()))
    );
    assert_eq!(
        notification_text(&t(MonitorStatus::Up)),
        Some(("\u{1F7E2} API recovered".to_string(), "via Prod".to_string()))
    );
    assert_eq!(notification_text(&t(MonitorStatus::Paused)), None);
    assert_eq!(notification_text(&t(MonitorStatus::Unknown)), None);
}

#[test]
fn tray_color_and_tooltip() {
    let a = |up, down, paused, unknown| Aggregate { up, down, paused, unknown };
    assert_eq!(status_color(a(3, 1, 0, 2)), (0xE0, 0x8A, 0x8A));
    assert_eq!(status_color(a(0, 0, 0, 0)), (0xAF, 0xB1, 0xB8));
    assert_eq!(status_color(a(0, 0, 1, 2)), (0xE8, 0xC0, 0x77));
    assert_eq!(status_color(a(1, 0, 0, 2)), (0x6F, 0xC1, 0x99));
    assert_eq!(status_color(a(0, 0, 4, 0)), (0x6F, 0xC1, 0x99));
    assert_eq!(tooltip(a(0, 0, 0, 0)), "UptimeBar \u{2014} no monitors configured");
    assert_eq!(tooltip(a(12, 3, 1, 0)), "12 up \u{b7} 3 down \u{b7} 0 unknown");
}

#[test]
fn text_helpers() {
    assert_eq!(u64_to_string(0), "0");
    assert_eq!(u64_to_string(1234567890), "1234567890");
    assert_eq!(i64_to_string(-9223372036854775808), "-9223372036854775808");
    assert_eq!(i64_to_string(-7), "-7");
    assert_eq!(ascii_lowercase("AbC-\u{00C9}Z"), "abc-\u{00C9}z");
    assert!(contains_exec("xx/checks/yy", "/checks/"));
    assert!(!contains_exec("/check", "/checks/"));
    assert!(contains_exec("abc", ""));
}

#[test]
fn keys_live_in_keychain_on_release_builds() {
    assert!(use_keychain(false));
    assert!(!use_keychain(true));
}

#[test]
fn popover_dismissal_follows_pointer() {
    let mut p = PointerState::new();
    assert!(!p.pointer_inside());
    assert!(p.hides_on_focus_loss());
    p.set_pointer_inside(true);
    assert!(p.pointer_inside());
    assert!(!p.hides_on_focus_loss());
    p.set_pointer_inside(false);
    assert!(p.hides_on_focus_loss());
    assert!(hides_on_pointer_report(false, false));
    assert!(!hides_on_pointer_report(false, true));
    assert!(!hides_on_pointer_report(true, false));
}

#[test]
fn key_lookup_falls_back_to_file_and_migrates() {
    match after_keychain_read(KeychainRead::Found("k1".to_string())) {
        SecretStep::Done(Ok(k)) => assert_eq!(k, "k1"),
        _ => panic!("a keychain hit ends the lookup"),
    }
    match after_keychain_read(KeychainRead::Failed("locked".to_string())) {
        SecretStep::Done(Err(e)) => assert_eq!(e, "locked"),
        _ => panic!("a keychain error ends the lookup"),
    }
    assert!(matches!(after_keychain_read(KeychainRead::NoEntry), SecretStep::ReadFile));
    assert_eq!(after_file_read(Some("old".to_string())), ("old".to_string(), true));
    assert_eq!(after_file_read(None), (String::new(), false));
}
