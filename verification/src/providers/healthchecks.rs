//! Healthchecks.io adapter (the hosted service or a self-hosted instance via
//! base_url).
//!   GET {base}/api/v3/checks/   (header: X-Api-Key: <key>)
//!   -> { checks: [ { name, status, last_ping, uuid|unique_key, ... } ] }
//!
//! With a read-only key checks carry a `unique_key` instead of a `uuid`;
//! either serves as the stable id.

use vstd::prelude::*;
use vstd::string::*;

use crate::text::{ascii_lower, ascii_lowercase, chars_of, concat2, concat3, decimal, str_eq, string_of, trim_end_char, trim_end_char_exec, u64_to_string};
use super::{ov, Monitor, MonitorStatus, ProviderConfig, TokenScope};

verus! {

pub struct Healthchecks {
    pub id: String,
    pub label: String,
    pub base: String,
    pub endpoint: String,
    pub api_key: String,
}

/// The base URL a configuration selects, without trailing slashes.
pub open spec fn base_of(cfg: ProviderConfig) -> Seq<char> {
    trim_end_char(
        match cfg.base_url {
            Some(b) => b@,
            None => "https://healthchecks.io"@,
        },
        '/',
    )
}

impl Healthchecks {
    /// This adapter was built from `cfg` and `secret`.
    pub open spec fn configured_from(&self, cfg: ProviderConfig, secret: String) -> bool {
        &&& self.id == cfg.id
        &&& self.label == cfg.label
        &&& self.base@ == base_of(cfg)
        &&& self.endpoint@ == base_of(cfg) + "/api/v3/checks/"@
        &&& self.api_key == secret
    }

    pub fn new(cfg: &ProviderConfig, secret: String) -> (r: Healthchecks)
        ensures
            r.configured_from(*cfg, secret),
    {
        let raw = match &cfg.base_url {
            Some(b) => b.clone(),
            None => String::from_str("https://healthchecks.io"),
        };
        let rv = chars_of(raw.as_str());
        let n = trim_end_char_exec(&rv, '/');
        let base = string_of(&rv, 0, n);
        assert(rv@.subrange(0, n as int) == rv@.take(n as int));
        let endpoint = concat2(base.as_str(), "/api/v3/checks/");
        Healthchecks { id: cfg.id.clone(), label: cfg.label.clone(), base, endpoint, api_key: secret }
    }
}

/// One check of the list response, as plain values.
pub struct Check {
    pub name: Option<String>,
    pub status: Option<String>,
    pub last_ping: Option<String>,
    pub uuid: Option<String>,
    pub unique_key: Option<String>,
    pub ping_url: Option<String>,
}

/// Healthchecks status: new / up / grace / down / paused. "grace" (a ping is
/// overdue but not yet failed) and "new" surface as Unknown.
pub open spec fn hc_status(s: Option<Seq<char>>) -> MonitorStatus {
    match s {
        Some(raw) => {
            let l = ascii_lower(raw);
            if l == "up"@ {
                MonitorStatus::Up
            } else if l == "down"@ {
                MonitorStatus::Down
            } else if l == "paused"@ {
                MonitorStatus::Paused
            } else {
                MonitorStatus::Unknown
            }
        },
        None => MonitorStatus::Unknown,
    }
}

pub fn map_status(s: &Option<String>) -> (r: MonitorStatus)
    ensures
        r == hc_status(ov(*s)),
{
    match s {
        Some(raw) => {
            let l = ascii_lowercase(raw.as_str());
            let ls = l.as_str();
            if str_eq(ls, "up") {
                MonitorStatus::Up
            } else if str_eq(ls, "down") {
                MonitorStatus::Down
            } else if str_eq(ls, "paused") {
                MonitorStatus::Paused
            } else {
                MonitorStatus::Unknown
            }
        },
        None => MonitorStatus::Unknown,
    }
}

impl Healthchecks {
    /// The monitor the `i`-th check normalizes to.
    pub open spec fn check_monitor(&self, i: nat, c: Check, m: Monitor) -> bool {
        let id = match c.uuid {
            Some(u) => u@,
            None => match c.unique_key {
                Some(k) => k@,
                None => "check-"@ + decimal(i),
            },
        };
        &&& m.id@ == id
        &&& m.name@ == match c.name {
            Some(n) => n@,
            None => id,
        }
        &&& m.status == hc_status(ov(c.status))
        &&& m.last_checked == c.last_ping
        &&& m.url == c.ping_url
        // With the uuid (full key) deep-link to the check's page; read-only keys
        // omit it, so fall back to the site root rather than a 404.
        &&& m.detail_url matches Some(d) && d@ == match c.uuid {
            Some(u) => self.base@ + "/checks/"@ + u@ + "/details/"@,
            None => self.base@ + "/"@,
        }
        &&& m.state_since is None
        &&& m.public_id is None
        &&& !m.is_muted
    }

    fn to_monitor(&self, i: u64, c: Check) -> (m: Monitor)
        ensures
            self.check_monitor(i as nat, c, m),
    {
        let id = match &c.uuid {
            Some(u) => u.clone(),
            None => match &c.unique_key {
                Some(k) => k.clone(),
                None => {
                    let n = u64_to_string(i);
                    concat2("check-", n.as_str())
                },
            },
        };
        let detail = match &c.uuid {
            Some(u) => {
                let mut d = concat3(self.base.as_str(), "/checks/", u.as_str());
                d.append("/details/");
                d
            },
            None => concat2(self.base.as_str(), "/"),
        };
        let name = match c.name {
            Some(n) => n,
            None => id.clone(),
        };
        Monitor {
            name,
            status: map_status(&c.status),
            last_checked: c.last_ping,
            url: c.ping_url,
            detail_url: Some(detail),
            id,
            state_since: None,
            public_id: None,
            is_muted: false,
        }
    }

    /// Normalize the list response, check by check, in order.
    pub fn monitors_from_checks(&self, checks: Vec<Check>) -> (r: Vec<Monitor>)
        requires
            checks@.len() <= u64::MAX,
        ensures
            r@.len() == checks@.len(),
            forall|i: int| 0 <= i < checks@.len() ==> self.check_monitor(i as nat, checks@[i], #[trigger] r@[i]),
    {
        let ghost old_checks = checks@;
        let mut out: Vec<Monitor> = Vec::new();
        let mut checks = checks;
        while checks.len() > 0
            invariant
                out@.len() + checks@.len() == old_checks.len(),
                old_checks.len() <= u64::MAX,
                checks@ == old_checks.skip(out@.len() as int),
                forall|i: int| 0 <= i < out@.len() ==> self.check_monitor(i as nat, old_checks[i], #[trigger] out@[i]),
            decreases checks@.len(),
        {
            let c = checks.remove(0);
            assert(c == old_checks[out@.len() as int]);
            let i = out.len() as u64;
            out.push(self.to_monitor(i, c));
            assert(checks@ == old_checks.skip(out@.len() as int));
        }
        out
    }
}

/// A read-only key redacts each check's `uuid` and gives a `unique_key`
/// instead, so the list already polled tells the key's scope: any check with
/// a `uuid` means a read-write key; a non-empty list of checks that all have
/// only a `unique_key` means a read-only key; anything else tells nothing.
pub open spec fn checks_scope(checks: Seq<Check>) -> TokenScope {
    if exists|i: int| 0 <= i < checks.len() && (#[trigger] checks[i]).uuid is Some {
        TokenScope::Write
    } else if checks.len() > 0 && forall|i: int|
        0 <= i < checks.len() ==> (#[trigger] checks[i]).unique_key is Some {
        TokenScope::Read
    } else {
        TokenScope::Unknown
    }
}

pub fn scope_from_checks(checks: &Vec<Check>) -> (r: TokenScope)
    ensures
        r == checks_scope(checks@),
{
    let mut all_unique = true;
    let mut i: usize = 0;
    while i < checks.len()
        invariant
            i <= checks@.len(),
            forall|j: int| 0 <= j < i ==> (#[trigger] checks@[j]).uuid is None,
            all_unique == forall|j: int| 0 <= j < i ==> (#[trigger] checks@[j]).unique_key is Some,
        decreases checks@.len() - i,
    {
        if checks[i].uuid.is_some() {
            return TokenScope::Write;
        }
        if checks[i].unique_key.is_none() {
            all_unique = false;
        }
        i = i + 1;
    }
    if checks.len() > 0 && all_unique {
        TokenScope::Read
    } else {
        TokenScope::Unknown
    }
}

} // verus!
