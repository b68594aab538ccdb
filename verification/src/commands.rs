//! Decisions behind the UI's commands: the "Test connection" result, and how
//! a configuration gets its id.

use vstd::prelude::*;
use vstd::string::*;

use crate::providers::{Monitor, ProviderConfig};
use crate::text::{chars_of, contains, contains_exec, str_eq, string_of, trim_end_char, trim_end_char_exec};

verus! {

/// Result of a "Test connection": how many monitors, plus an optional
/// advisory note.
pub struct TestResult {
    pub count: usize,
    pub note: Option<String>,
}

/// The monitor has a per-check deep link (a detail URL containing "/checks/").
pub open spec fn has_check_link(m: Monitor) -> bool {
    match m.detail_url {
        Some(u) => contains(u@, "/checks/"@),
        None => false,
    }
}

/// The advisory note for a test fetch: a Healthchecks read-only key redacts
/// the uuid, so no check gets a per-check link; the user is advised to use
/// the read-write key.
pub open spec fn spec_test_note(cfg: ProviderConfig, ms: Seq<Monitor>) -> Option<Seq<char>> {
    if cfg.kind@ == "healthchecks"@ && ms.len() > 0 && forall|i: int| 0 <= i < ms.len() ==> !has_check_link(
        #[trigger] ms[i],
    ) {
        let base = trim_end_char(
            match cfg.base_url {
                Some(b) => b@,
                None => "https://healthchecks.io"@,
            },
            '/',
        );
        Some(
            "Read-only key detected \u{2014} per-check links go to the dashboard. Use the read-write API key ("@
                + base + ") for per-check deep-links."@,
        )
    } else {
        None
    }
}

fn has_link(m: &Monitor) -> (r: bool)
    ensures
        r == has_check_link(*m),
{
    match &m.detail_url {
        Some(u) => contains_exec(u.as_str(), "/checks/"),
        None => false,
    }
}

/// The result of a successful test fetch.
pub fn test_result(config: &ProviderConfig, monitors: &Vec<Monitor>) -> (r: TestResult)
    ensures
        r.count == monitors@.len(),
        match spec_test_note(*config, monitors@) {
            Some(n) => r.note matches Some(s) && s@ == n,
            None => r.note is None,
        },
{
    let mut note: Option<String> = None;
    if str_eq(config.kind.as_str(), "healthchecks") && monitors.len() > 0 {
        let mut i: usize = 0;
        let mut none_deeplink = true;
        while i < monitors.len()
            invariant
                i <= monitors@.len(),
                none_deeplink == forall|j: int| 0 <= j < i ==> !has_check_link(#[trigger] monitors@[j]),
            decreases monitors@.len() - i,
        {
            if has_link(&monitors[i]) {
                none_deeplink = false;
            }
            i = i + 1;
        }
        if none_deeplink {
            let raw = match &config.base_url {
                Some(b) => b.clone(),
                None => String::from_str("https://healthchecks.io"),
            };
            let v = chars_of(raw.as_str());
            let n = trim_end_char_exec(&v, '/');
            let base = string_of(&v, 0, n);
            assert(v@.subrange(0, n as int) == v@.take(n as int));
            let mut s = String::from_str(
                "Read-only key detected \u{2014} per-check links go to the dashboard. Use the read-write API key (",
            );
            s.append(base.as_str());
            s.append(") for per-check deep-links.");
            note = Some(s);
        }
    }
    TestResult { count: monitors.len(), note }
}

/// Whether a test should fall back to the stored key: the key field is blank
/// when editing an existing provider (secrets are write-only).
pub fn uses_stored_secret(config: &ProviderConfig, secret: &str) -> (r: bool)
    ensures
        r == (secret@.len() == 0 && config.id@.len() > 0),
{
    secret.unicode_len() == 0 && config.id.as_str().unicode_len() > 0
}

/// The configuration an ad-hoc test runs with: an unsaved provider gets the
/// placeholder id "__test__".
pub fn test_config(config: ProviderConfig) -> (r: ProviderConfig)
    ensures
        config.id@.len() > 0 ==> r == config,
        config.id@.len() == 0 ==> r.id@ == "__test__"@ && r == (ProviderConfig { id: r.id, ..config }),
{
    let mut config = config;
    if config.id.as_str().unicode_len() == 0 {
        config.id = String::from_str("__test__");
    }
    config
}

/// A lowercase hexadecimal digit.
pub open spec fn is_hex_lower(c: char) -> bool {
    ('0' <= c && c <= '9') || ('a' <= c && c <= 'f')
}

/// The text of a random (version 4) UUID in hyphenated lowercase form:
/// 8-4-4-4-12 hex digits, version digit '4', variant digit one of 8, 9, a, b.
pub open spec fn uuid_v4_text(s: Seq<char>) -> bool {
    &&& s.len() == 36
    &&& forall|i: int|
        0 <= i < 36 ==> if i == 8 || i == 13 || i == 18 || i == 23 {
            #[trigger] s[i] == '-'
        } else {
            is_hex_lower(s[i])
        }
    &&& s[14] == '4'
    &&& (s[19] == '8' || s[19] == '9' || s[19] == 'a' || s[19] == 'b')
}

/// A fresh random provider id: `uuid::Uuid::new_v4` rendered by
/// `to_string` (its `Display`, the hyphenated lowercase form). The value is
/// random; the contract states only the shape every such id has.
#[verifier::external_body]
fn new_provider_id() -> (r: String)
    ensures
        uuid_v4_text(r@),
{
    uuid::Uuid::new_v4().to_string()
}

/// A configuration about to be saved: one without an id gets a fresh one.
pub fn assign_id(config: ProviderConfig) -> (r: ProviderConfig)
    ensures
        config.id@.len() > 0 ==> r == config,
        config.id@.len() == 0 ==> uuid_v4_text(r.id@) && r == (ProviderConfig { id: r.id, ..config }),
{
    let mut config = config;
    if config.id.as_str().unicode_len() == 0 {
        config.id = new_provider_id();
    }
    config
}

} // verus!
