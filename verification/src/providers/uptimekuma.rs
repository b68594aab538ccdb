//! Uptime Kuma adapter. Kuma has no stable public REST API; the usable surface
//! is the public status page JSON:
//!   GET {base}/api/status-page/{slug}            -> monitor names/groups
//!   GET {base}/api/status-page/heartbeat/{slug}  -> latest heartbeat per monitor
//!
//! The full status-page URL (".../status/{slug}") goes in `base_url`; only the
//! monitors published on that page are visible.

use vstd::prelude::*;
use vstd::string::*;

use crate::text::{chars_of, concat2, concat3, find, find_exec, find_from, trailing, i64_to_string, lemma_find_from, occurs_at, signed_decimal, str_eq, string_of, trim_end_char, trim_end_char_exec};
use super::{clone_opt, Monitor, MonitorStatus, ProviderConfig, ProviderError};

verus! {

pub struct UptimeKuma {
    pub id: String,
    pub label: String,
    pub base: String,
    pub slug: String,
}

/// Split ".../status/{slug}" (trailing slashes ignored) into the base before
/// "/status/" and the slug after it; both must be non-empty.
pub open spec fn status_url_parts(url: Seq<char>) -> Option<(Seq<char>, Seq<char>)> {
    let t = trim_end_char(url, '/');
    match find(t, "/status/"@) {
        Some(i) => {
            let base = t.take(i);
            let slug = t.skip(i + "/status/"@.len());
            if base.len() == 0 || slug.len() == 0 {
                None
            } else {
                Some((base, slug))
            }
        },
        None => None,
    }
}

/// What building from `cfg` yields: the (base, slug) pair, or the message of
/// the configuration error.
pub open spec fn kuma_outcome(cfg: ProviderConfig) -> Result<(Seq<char>, Seq<char>), Seq<char>> {
    match cfg.base_url {
        None => Err("set base_url to the status-page URL (.../status/{slug})"@),
        Some(u) => match status_url_parts(u@) {
            Some(p) => Ok(p),
            None => Err("could not parse a /status/{slug} from: "@ + u@),
        },
    }
}

/// Split "https://kuma.example.com/status/prod" into
/// ("https://kuma.example.com", "prod").
pub fn parse_status_url(url: &str) -> (r: Option<(String, String)>)
    ensures
        r matches Some(p) ==> status_url_parts(url@) == Some((p.0@, p.1@)),
        r is None ==> status_url_parts(url@) is None,
{
    let v = chars_of(url);
    let n = trim_end_char_exec(&v, '/');
    let trimmed = string_of(&v, 0, n);
    assert(v@.subrange(0, n as int) == v@.take(n as int));
    let t = chars_of(trimmed.as_str());
    let pat = chars_of("/status/");
    proof {
        lemma_find_from(t@, pat@, 0);
    }
    match find_exec(&t, &pat) {
        None => None,
        Some(i) => {
            assert(occurs_at(t@, pat@, i as int));
            let base = string_of(&t, 0, i);
            let slug = string_of(&t, i + pat.len(), t.len());
            assert(t@.subrange(0, i as int) == t@.take(i as int));
            assert(t@.subrange(i + pat@.len(), t@.len() as int) == t@.skip(i + pat@.len()));
            if base.as_str().unicode_len() == 0 || slug.as_str().unicode_len() == 0 {
                None
            } else {
                Some((base, slug))
            }
        },
    }
}

/// `find_from` gives the first occurrence at or after `from`.
proof fn lemma_find_first(s: Seq<char>, pat: Seq<char>, from: int, k: int)
    requires
        0 <= from <= k,
        occurs_at(s, pat, k),
        forall|j: int| from <= j < k ==> !occurs_at(s, pat, j),
    ensures
        find_from(s, pat, from) == Some(k),
    decreases k - from,
{
    if from < k {
        lemma_find_first(s, pat, from + 1, k);
    }
}

/// The status-page URL splits back into its parts: a URL that parses is its
/// base, "/status/" and its slug (trailing slashes aside), both non-empty;
/// and a base and a slug put together parse back into that base and slug,
/// when the slug does not end in '/' and the base holds no earlier
/// "/status/" (the first occurrence is the one between them).
pub proof fn law_status_url_round_trip(url: Seq<char>, base: Seq<char>, slug: Seq<char>)
    ensures
        status_url_parts(url) matches Some(p) ==> p.0.len() > 0 && p.1.len() > 0 && p.0 + "/status/"@ + p.1
            == trim_end_char(url, '/'),
        base.len() > 0 && slug.len() > 0 && slug.last() != '/' && find(base + "/status/"@, "/status/"@)
            == Some(base.len() as int) ==> status_url_parts(base + "/status/"@ + slug) == Some((base, slug)),
{
    let pat = "/status/"@;
    let t = trim_end_char(url, '/');
    lemma_find_from(t, pat, 0);
    if let Some(i) = find(t, pat) {
        assert(t.subrange(i, i + pat.len()) == pat);
        assert(t.take(i) + pat + t.skip(i + pat.len()) =~= t);
    }
    if base.len() > 0 && slug.len() > 0 && slug.last() != '/' && find(base + pat, pat) == Some(
        base.len() as int,
    ) {
        let bp = base + pat;
        let u = bp + slug;
        assert(u.last() == slug.last());
        assert(trailing(u, '/') == 0);
        assert(trim_end_char(u, '/') =~= u);
        lemma_find_from(bp, pat, 0);
        assert forall|j: int| 0 <= j <= base.len() implies occurs_at(u, pat, j) == occurs_at(bp, pat, j) by {
            if 0 <= j && j + pat.len() <= bp.len() {
                assert(u.subrange(j, j + pat.len()) =~= bp.subrange(j, j + pat.len()));
            }
        }
        lemma_find_first(u, pat, 0, base.len() as int);
        assert(u.take(base.len() as int) =~= base);
        assert(u.skip((base.len() + pat.len()) as int) =~= slug);
    }
}

impl UptimeKuma {
    /// This adapter was built from `cfg` and points at `parts`.
    pub open spec fn configured_from(&self, cfg: ProviderConfig, parts: (Seq<char>, Seq<char>)) -> bool {
        &&& self.id == cfg.id
        &&& self.label == cfg.label
        &&& self.base@ == parts.0
        &&& self.slug@ == parts.1
    }

    pub fn new(cfg: &ProviderConfig, secret: String) -> (r: Result<UptimeKuma, ProviderError>)
        ensures
            match kuma_outcome(*cfg) {
                Ok(parts) => r matches Ok(p) && p.configured_from(*cfg, parts),
                Err(m) => r matches Err(ProviderError::Config(e)) && e@ == m,
            },
    {
        let url = match &cfg.base_url {
            Some(u) => u,
            None => {
                return Err(
                    ProviderError::Config(
                        String::from_str("set base_url to the status-page URL (.../status/{slug})"),
                    ),
                );
            },
        };
        match parse_status_url(url.as_str()) {
            Some((base, slug)) => Ok(UptimeKuma { id: cfg.id.clone(), label: cfg.label.clone(), base, slug }),
            None => Err(
                ProviderError::Config(concat2("could not parse a /status/{slug} from: ", url.as_str())),
            ),
        }
    }

    /// The status page's monitor list endpoint.
    pub fn page_url(&self) -> (r: String)
        ensures
            r@ == self.base@ + "/api/status-page/"@ + self.slug@,
    {
        concat3(self.base.as_str(), "/api/status-page/", self.slug.as_str())
    }

    /// The status page's heartbeat endpoint.
    pub fn heartbeat_url(&self) -> (r: String)
        ensures
            r@ == self.base@ + "/api/status-page/heartbeat/"@ + self.slug@,
    {
        concat3(self.base.as_str(), "/api/status-page/heartbeat/", self.slug.as_str())
    }
}

/// One monitor listed on the status page.
pub struct KumaMonitor {
    pub id: i64,
    pub name: Option<String>,
    pub url: Option<String>,
}

/// One group of the status page.
pub struct KumaGroup {
    pub monitor_list: Vec<KumaMonitor>,
}

/// One heartbeat.
pub struct Heartbeat {
    pub status: i64,
    pub time: Option<String>,
}

/// The heartbeats of one monitor, under the monitor id's decimal key.
pub struct HeartbeatEntry {
    pub key: String,
    pub beats: Vec<Heartbeat>,
}

/// Kuma heartbeat status: 0 down, 1 up, 2 pending, 3 maintenance.
pub open spec fn kuma_status(code: i64) -> MonitorStatus {
    if code == 1 {
        MonitorStatus::Up
    } else if code == 0 {
        MonitorStatus::Down
    } else if code == 3 {
        MonitorStatus::Paused
    } else {
        MonitorStatus::Unknown
    }
}

pub fn map_status(code: i64) -> (r: MonitorStatus)
    ensures
        r == kuma_status(code),
{
    match code {
        1 => MonitorStatus::Up,
        0 => MonitorStatus::Down,
        3 => MonitorStatus::Paused,
        _ => MonitorStatus::Unknown,
    }
}

/// The monitors of all groups, in page order.
pub open spec fn flat(gs: Seq<KumaGroup>) -> Seq<KumaMonitor>
    decreases gs.len(),
{
    if gs.len() == 0 {
        Seq::empty()
    } else {
        flat(gs.drop_last()) + gs.last().monitor_list@
    }
}

/// The first heartbeat entry at or after `from` keyed `key`.
pub open spec fn entry_from(es: Seq<HeartbeatEntry>, key: Seq<char>, from: int) -> Option<int>
    decreases es.len() - from,
{
    if from < 0 || from >= es.len() {
        None
    } else if es[from].key@ == key {
        Some(from)
    } else {
        entry_from(es, key, from + 1)
    }
}

/// The first heartbeat entry keyed `key`.
pub open spec fn entry_for(es: Seq<HeartbeatEntry>, key: Seq<char>) -> Option<int> {
    entry_from(es, key, 0)
}

proof fn lemma_entry_from_bound(es: Seq<HeartbeatEntry>, key: Seq<char>, from: int)
    ensures
        entry_from(es, key, from) matches Some(i) ==> 0 <= i < es.len(),
    decreases es.len() - from,
{
    if from >= 0 && from < es.len() && es[from].key@ != key {
        lemma_entry_from_bound(es, key, from + 1);
    }
}

/// The latest heartbeat recorded for monitor `id`.
pub open spec fn latest_beat(es: Seq<HeartbeatEntry>, id: i64) -> Option<Heartbeat> {
    match entry_for(es, signed_decimal(id as int)) {
        Some(i) => if es[i].beats@.len() > 0 {
            Some(es[i].beats@.last())
        } else {
            None
        },
        None => None,
    }
}

/// The monitor a status-page entry normalizes to.
pub open spec fn kuma_monitor(page_url: Seq<char>, es: Seq<HeartbeatEntry>, k: KumaMonitor, m: Monitor) -> bool {
    let last = latest_beat(es, k.id);
    &&& m.id@ == signed_decimal(k.id as int)
    &&& m.name@ == match k.name {
        Some(n) => n@,
        None => "monitor "@ + signed_decimal(k.id as int),
    }
    &&& m.status == match last {
        Some(h) => kuma_status(h.status),
        None => MonitorStatus::Unknown,
    }
    &&& m.last_checked == match last {
        Some(h) => h.time,
        None => None,
    }
    &&& m.url == k.url
    &&& m.detail_url matches Some(d) && d@ == page_url
    &&& m.state_since is None
    &&& m.public_id is None
    &&& !m.is_muted
}

fn flatten(groups: Vec<KumaGroup>) -> (r: Vec<KumaMonitor>)
    ensures
        r@ == flat(groups@),
{
    let ghost gs = groups@;
    let mut groups = groups;
    let mut out: Vec<KumaMonitor> = Vec::new();
    let ghost mut k: int = 0;
    while groups.len() > 0
        invariant
            0 <= k,
            k + groups@.len() == gs.len(),
            groups@ == gs.skip(k),
            out@ == flat(gs.take(k)),
        decreases groups@.len(),
    {
        let mut g = groups.remove(0);
        assert(g == gs[k]);
        out.append(&mut g.monitor_list);
        assert(gs.take(k + 1).drop_last() == gs.take(k));
        proof {
            k = k + 1;
        }
        assert(groups@ == gs.skip(k));
    }
    assert(gs.take(k) == gs);
    out
}

fn find_entry(es: &Vec<HeartbeatEntry>, key: &str) -> (r: Option<usize>)
    ensures
        r matches Some(i) ==> entry_for(es@, key@) == Some(i as int) && i < es@.len(),
        r is None ==> entry_for(es@, key@) is None,
{
    let mut i: usize = 0;
    while i < es.len()
        invariant
            i <= es@.len(),
            entry_for(es@, key@) == entry_from(es@, key@, i as int),
        decreases es@.len() - i,
    {
        if str_eq(es[i].key.as_str(), key) {
            return Some(i);
        }
        i = i + 1;
    }
    None
}

fn to_monitor(page_url: &str, es: &Vec<HeartbeatEntry>, k: KumaMonitor) -> (m: Monitor)
    ensures
        kuma_monitor(page_url@, es@, k, m),
{
    let id = i64_to_string(k.id);
    let (status, last_checked) = match find_entry(es, id.as_str()) {
        Some(i) => {
            let n = es[i].beats.len();
            if n > 0 {
                let h = &es[i].beats[n - 1];
                (map_status(h.status), clone_opt(&h.time))
            } else {
                (MonitorStatus::Unknown, None)
            }
        },
        None => (MonitorStatus::Unknown, None),
    };
    let name = match k.name {
        Some(n) => n,
        None => concat2("monitor ", id.as_str()),
    };
    Monitor {
        id,
        name,
        status,
        last_checked,
        url: k.url,
        detail_url: Some(String::from_str(page_url)),
        state_since: None,
        public_id: None,
        is_muted: false,
    }
}

/// Normalize every monitor of every group, in page order, reading its status
/// from its latest heartbeat (Unknown when it has none).
pub fn monitors_from_page(page_url: &str, groups: Vec<KumaGroup>, beats: &Vec<HeartbeatEntry>) -> (r: Vec<Monitor>)
    ensures
        r@.len() == flat(groups@).len(),
        forall|i: int| 0 <= i < r@.len() ==> kuma_monitor(page_url@, beats@, flat(groups@)[i], #[trigger] r@[i]),
{
    let ms = flatten(groups);
    let ghost all = ms@;
    let mut ms = ms;
    let mut out: Vec<Monitor> = Vec::new();
    while ms.len() > 0
        invariant
            out@.len() + ms@.len() == all.len(),
            ms@ == all.skip(out@.len() as int),
            forall|i: int| 0 <= i < out@.len() ==> kuma_monitor(page_url@, beats@, all[i], #[trigger] out@[i]),
        decreases ms@.len(),
    {
        let k = ms.remove(0);
        assert(k == all[out@.len() as int]);
        out.push(to_monitor(page_url, beats, k));
        assert(ms@ == all.skip(out@.len() as int));
    }
    out
}

} // verus!
