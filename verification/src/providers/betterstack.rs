//! BetterStack (Better Uptime) adapter.
//!   GET {base}/api/v2/monitors   (Authorization: Bearer <token>)
//!   -> { data: [ { id, attributes: { url, pronounceable_name, status, ... } } ] }
//!
//! Default base is https://uptime.betterstack.com. The first page of monitors
//! is read.

use vstd::prelude::*;
use vstd::string::*;

use crate::text::{
    ascii_lower, ascii_lowercase, before_char, chars_of, concat2, concat3, find, find_exec,
    lemma_find_from, occurs_at, str_eq, string_of, trim_char, trim_char_exec, trim_end_char,
    trim_end_char_exec, trim_end_pat, trim_end_pat_exec, trim_ws, trim_ws_exec,
};
use super::{ov, status_error, http_status_error, ActionCaps, ActionOutcome, Monitor, MonitorAction, MonitorStatus, ProviderConfig, ProviderError};

verus! {

pub struct BetterStack {
    pub id: String,
    pub label: String,
    pub base: String,
    /// Team URL slug (e.g. "t550046"), supplied by the user; enables
    /// per-monitor deep-links when present.
    pub team: Option<String>,
    pub endpoint: String,
    pub token: String,
}

/// The team slug a user-supplied value names: either a bare slug or a pasted
/// dashboard URL containing "/team/<slug>/".
pub open spec fn team_slug(raw: Seq<char>) -> Option<Seq<char>> {
    let s = trim_char(trim_ws(raw), '/');
    if s.len() == 0 {
        None
    } else {
        let slug = match find(s, "/team/"@) {
            Some(i) => before_char(s.skip(i + "/team/"@.len()), '/'),
            None => before_char(s, '/'),
        };
        if slug.len() == 0 {
            None
        } else {
            Some(slug)
        }
    }
}

/// The base URL a configuration selects, without trailing slashes.
pub open spec fn base_of(cfg: ProviderConfig) -> Seq<char> {
    trim_end_char(
        match cfg.base_url {
            Some(b) => b@,
            None => "https://uptime.betterstack.com"@,
        },
        '/',
    )
}

/// The characters of `v[from..]` before the first `/`.
fn before_slash(v: &Vec<char>, from: usize) -> (r: String)
    requires
        from <= v@.len(),
    ensures
        r@ == before_char(v@.skip(from as int), '/'),
{
    let tail = string_of(v, from, v.len());
    let t = chars_of(tail.as_str());
    let slash = chars_of("/");
    proof {
        reveal_strlit("/");
        assert(slash@ == seq!['/']);
    }
    proof {
        lemma_find_from(t@, slash@, 0);
    }
    match find_exec(&t, &slash) {
        Some(i) => {
            assert(occurs_at(t@, slash@, i as int));
            string_of(&t, 0, i)
        },
        None => tail,
    }
}

/// Accept either a bare slug ("t550046") or a pasted dashboard URL containing
/// "/team/<slug>/", and return the slug.
pub fn normalize_team(raw: &str) -> (r: Option<String>)
    ensures
        ov(r) == team_slug(raw@),
{
    let v = chars_of(raw);
    let (a, b) = trim_ws_exec(&v);
    let t = string_of(&v, a, b);
    let tv = chars_of(t.as_str());
    let (c, d) = trim_char_exec(&tv, '/');
    let s = string_of(&tv, c, d);
    let sv = chars_of(s.as_str());
    proof {
        assert(t@ == trim_ws(raw@));
        assert(s@ == trim_char(trim_ws(raw@), '/'));
    }
    if sv.len() == 0 {
        return None;
    }
    let pat = chars_of("/team/");
    proof {
        lemma_find_from(sv@, pat@, 0);
    }
    let slug = match find_exec(&sv, &pat) {
        Some(i) => {
            assert(occurs_at(sv@, pat@, i as int));
            before_slash(&sv, i + pat.len())
        },
        None => before_slash(&sv, 0),
    };
    proof {
        assert(sv@.skip(0) == sv@);
    }
    if slug.as_str().unicode_len() == 0 {
        None
    } else {
        Some(slug)
    }
}

impl BetterStack {
    /// This adapter was built from `cfg` and `secret`.
    pub open spec fn configured_from(&self, cfg: ProviderConfig, secret: String) -> bool {
        &&& self.id == cfg.id
        &&& self.label == cfg.label
        &&& self.base@ == base_of(cfg)
        &&& ov(self.team) == match cfg.extra {
            Some(x) => team_slug(x@),
            None => None,
        }
        &&& self.endpoint@ == base_of(cfg) + "/api/v2/monitors"@
        &&& self.token == secret
    }

    pub fn new(cfg: &ProviderConfig, secret: String) -> (r: BetterStack)
        ensures
            r.configured_from(*cfg, secret),
    {
        let raw = match &cfg.base_url {
            Some(b) => b.clone(),
            None => String::from_str("https://uptime.betterstack.com"),
        };
        let rv = chars_of(raw.as_str());
        let n = trim_end_char_exec(&rv, '/');
        let base = string_of(&rv, 0, n);
        assert(rv@.subrange(0, n as int) == rv@.take(n as int));
        let team = match &cfg.extra {
            Some(x) => normalize_team(x.as_str()),
            None => None,
        };
        let endpoint = concat2(base.as_str(), "/api/v2/monitors");
        BetterStack {
            id: cfg.id.clone(),
            label: cfg.label.clone(),
            base,
            team,
            endpoint,
            token: secret,
        }
    }

    /// The `Authorization` header value.
    pub fn auth_header(&self) -> (r: String)
        ensures
            r@ == "Bearer "@ + self.token@,
    {
        concat2("Bearer ", self.token.as_str())
    }
}

/// One monitor of the list response, as plain values.
pub struct BsItem {
    pub id: String,
    pub url: Option<String>,
    pub pronounceable_name: Option<String>,
    pub status: Option<String>,
    pub last_checked_at: Option<String>,
}

/// BetterStack status: up / down / paused / pending / maintenance / validating,
/// compared without regard to ASCII case.
pub open spec fn bs_status(s: Option<Seq<char>>) -> MonitorStatus {
    match s {
        Some(raw) => {
            let l = ascii_lower(raw);
            if l == "up"@ {
                MonitorStatus::Up
            } else if l == "down"@ {
                MonitorStatus::Down
            } else if l == "paused"@ || l == "maintenance"@ {
                MonitorStatus::Paused
            } else {
                MonitorStatus::Unknown
            }
        },
        None => MonitorStatus::Unknown,
    }
}

pub fn map_status(s: &Option<String>) -> (r: MonitorStatus)
    ensures
        r == bs_status(ov(*s)),
{
    match s {
        Some(raw) => {
            let l = ascii_lowercase(raw.as_str());
            let ls = l.as_str();
            if str_eq(ls, "up") {
                MonitorStatus::Up
            } else if str_eq(ls, "down") {
                MonitorStatus::Down
            } else if str_eq(ls, "paused") || str_eq(ls, "maintenance") {
                MonitorStatus::Paused
            } else {
                MonitorStatus::Unknown
            }
        },
        None => MonitorStatus::Unknown,
    }
}

impl BetterStack {
    /// The monitor a list item normalizes to.
    pub open spec fn item_monitor(&self, item: BsItem, m: Monitor) -> bool {
        &&& m.id == item.id
        &&& m.name@ == match item.pronounceable_name {
            Some(n) => n@,
            None => match item.url {
                Some(u) => u@,
                None => "monitor "@ + item.id@,
            },
        }
        &&& m.status == bs_status(ov(item.status))
        &&& m.last_checked == item.last_checked_at
        &&& m.url == item.url
        &&& m.detail_url matches Some(d) && d@ == match self.team {
            Some(t) => self.base@ + "/team/"@ + t@ + "/monitors/"@ + item.id@,
            None => self.base@ + "/"@,
        }
        &&& m.state_since is None
        &&& m.public_id is None
        &&& !m.is_muted
    }

    fn to_monitor(&self, item: BsItem) -> (m: Monitor)
        ensures
            self.item_monitor(item, m),
    {
        let name = match &item.pronounceable_name {
            Some(n) => n.clone(),
            None => match &item.url {
                Some(u) => u.clone(),
                None => concat2("monitor ", item.id.as_str()),
            },
        };
        let detail = match &self.team {
            Some(t) => {
                let mut d = concat3(self.base.as_str(), "/team/", t.as_str());
                d.append("/monitors/");
                d.append(item.id.as_str());
                d
            },
            None => concat2(self.base.as_str(), "/"),
        };
        Monitor {
            status: map_status(&item.status),
            last_checked: item.last_checked_at,
            url: item.url,
            detail_url: Some(detail),
            name,
            id: item.id,
            state_since: None,
            public_id: None,
            is_muted: false,
        }
    }

    /// Normalize the list response, item by item, in order.
    pub fn monitors_from_items(&self, items: Vec<BsItem>) -> (r: Vec<Monitor>)
        ensures
            r@.len() == items@.len(),
            forall|i: int| 0 <= i < items@.len() ==> self.item_monitor(items@[i], #[trigger] r@[i]),
    {
        let ghost old_items = items@;
        let mut out: Vec<Monitor> = Vec::new();
        let mut items = items;
        while items.len() > 0
            invariant
                out@.len() + items@.len() == old_items.len(),
                items@ == old_items.skip(out@.len() as int),
                forall|i: int| 0 <= i < out@.len() ==> self.item_monitor(old_items[i], #[trigger] out@[i]),
            decreases items@.len(),
        {
            let item = items.remove(0);
            assert(item == old_items[out@.len() as int]);
            let m = self.to_monitor(item);
            out.push(m);
            assert(items@ == old_items.skip(out@.len() as int));
        }
        out
    }

    /// Just the monitor ids, in order.
    pub fn monitor_ids(items: Vec<BsItem>) -> (r: Vec<String>)
        ensures
            r@.len() == items@.len(),
            forall|i: int| 0 <= i < items@.len() ==> #[trigger] r@[i] == items@[i].id,
    {
        let mut r: Vec<String> = Vec::new();
        let mut i: usize = 0;
        while i < items.len()
            invariant
                i <= items@.len(),
                r@.len() == i,
                forall|j: int| 0 <= j < i ==> #[trigger] r@[j] == items@[j].id,
            decreases items@.len() - i,
        {
            r.push(items[i].id.clone());
            i = i + 1;
        }
        r
    }

    /// API host base (e.g. "https://uptime.betterstack.com/api/v2"), derived
    /// from the monitors endpoint.
    pub fn api_v2(&self) -> (r: String)
        ensures
            r@ == trim_end_pat(self.endpoint@, "/monitors"@),
    {
        let v = chars_of(self.endpoint.as_str());
        let pat = chars_of("/monitors");
        let n = trim_end_pat_exec(&v, &pat);
        string_of(&v, 0, n)
    }

    /// Latency series endpoint for one monitor.
    pub fn response_times_url(&self, id: &str) -> (r: String)
        ensures
            r@ == trim_end_pat(self.endpoint@, "/monitors"@) + "/monitors/"@ + id@
                + "/response-times"@,
    {
        let mut r = self.api_v2();
        r.append("/monitors/");
        r.append(id);
        r.append("/response-times");
        r
    }

    /// Availability (SLA) endpoint for one monitor.
    pub fn sla_url(&self, id: &str) -> (r: String)
        ensures
            r@ == trim_end_pat(self.endpoint@, "/monitors"@) + "/monitors/"@ + id@ + "/sla"@,
    {
        let mut r = self.api_v2();
        r.append("/monitors/");
        r.append(id);
        r.append("/sla");
        r
    }
}

impl BetterStack {
    /// Pause/resume via `PATCH /monitors/{id}`; no mute.
    pub fn capabilities(&self) -> (r: ActionCaps)
        ensures
            r.pause && !r.mute,
    {
        ActionCaps { pause: true, mute: false }
    }

    /// The endpoint an action on monitor `id` is sent to (`PATCH`).
    pub fn monitor_url(&self, id: &str) -> (r: String)
        ensures
            r@ == trim_end_pat(self.endpoint@, "/monitors"@) + "/monitors/"@ + id@,
    {
        let mut r = self.api_v2();
        r.append("/monitors/");
        r.append(id);
        r
    }
}

/// The `paused` value of the JSON body `{paused: bool}` an action sends:
/// pause sets it, resume clears it. Mute is not supported.
pub fn paused_flag(action: MonitorAction) -> (r: Result<bool, ProviderError>)
    ensures
        action is Pause ==> r == Ok::<bool, ProviderError>(true),
        action is Resume ==> r == Ok::<bool, ProviderError>(false),
        (action is Mute || action is Unmute) ==> (r matches Err(ProviderError::Config(m)) && m@
            == "BetterStack doesn't support mute."@),
{
    match action {
        MonitorAction::Pause => Ok(true),
        MonitorAction::Resume => Ok(false),
        MonitorAction::Mute { .. } | MonitorAction::Unmute => Err(
            ProviderError::Config(String::from_str("BetterStack doesn't support mute.")),
        ),
    }
}

/// A refused action. BetterStack has no read-only scope to ask about: a
/// token that may read but not write is refused with 401 or 403, which
/// means the token needs write access; any other status keeps its usual
/// meaning.
pub fn action_error(status: u16) -> (r: ProviderError)
    ensures
        (status == 401 || status == 403) ==> r == ProviderError::InsufficientScope,
        !(status == 401 || status == 403) ==> r == status_error(status),
{
    if status == 401 || status == 403 {
        ProviderError::InsufficientScope
    } else {
        http_status_error(status)
    }
}

/// The post-action state of a successful PATCH with `paused`.
pub fn action_outcome(paused: bool) -> (r: ActionOutcome)
    ensures
        r.is_paused == Some(paused),
        r.is_muted is None,
        r.changed,
{
    ActionOutcome { is_paused: Some(paused), is_muted: None, changed: true }
}

/// One region's latency series, reduced to what the choice depends on.
pub struct RegionSeries {
    pub region: Option<String>,
    /// Number of points in the series.
    pub points: usize,
}

/// The first region at or after `from` named `want` that has points.
pub open spec fn first_named_from(rs: Seq<RegionSeries>, want: Seq<char>, from: int) -> Option<int>
    decreases rs.len() - from,
{
    if from < 0 || from >= rs.len() {
        None
    } else if ov(rs[from].region) == Some(want) && rs[from].points > 0 {
        Some(from)
    } else {
        first_named_from(rs, want, from + 1)
    }
}

/// The first region named `want` that has points.
pub open spec fn first_named(rs: Seq<RegionSeries>, want: Seq<char>) -> Option<int> {
    first_named_from(rs, want, 0)
}

/// The first region at or after `from` with points.
pub open spec fn first_nonempty_from(rs: Seq<RegionSeries>, from: int) -> Option<int>
    decreases rs.len() - from,
{
    if from < 0 || from >= rs.len() {
        None
    } else if rs[from].points > 0 {
        Some(from)
    } else {
        first_nonempty_from(rs, from + 1)
    }
}

/// The first region with points.
pub open spec fn first_nonempty(rs: Seq<RegionSeries>) -> Option<int> {
    first_nonempty_from(rs, 0)
}

/// Which region's series represents the monitor: us, then eu, as, au, else
/// the first region with any points.
pub open spec fn representative(rs: Seq<RegionSeries>) -> Option<int> {
    if first_named(rs, "us"@) is Some {
        first_named(rs, "us"@)
    } else if first_named(rs, "eu"@) is Some {
        first_named(rs, "eu"@)
    } else if first_named(rs, "as"@) is Some {
        first_named(rs, "as"@)
    } else if first_named(rs, "au"@) is Some {
        first_named(rs, "au"@)
    } else {
        first_nonempty(rs)
    }
}

fn find_named(rs: &Vec<RegionSeries>, want: &str) -> (r: Option<usize>)
    ensures
        r matches Some(i) ==> first_named(rs@, want@) == Some(i as int),
        r is None ==> first_named(rs@, want@) is None,
{
    let mut i: usize = 0;
    while i < rs.len()
        invariant
            i <= rs@.len(),
            first_named(rs@, want@) == first_named_from(rs@, want@, i as int),
        decreases rs@.len() - i,
    {
        let hit = match &rs[i].region {
            Some(name) => str_eq(name.as_str(), want) && rs[i].points > 0,
            None => false,
        };
        if hit {
            return Some(i);
        }
        i = i + 1;
    }
    None
}

/// Pick ONE representative region's latency series: BetterStack checks each
/// region on its own schedule, so averaging across them would be meaningless.
/// Prefer us, eu, as, au, falling back to whatever has points.
pub fn representative_region(rs: &Vec<RegionSeries>) -> (r: Option<usize>)
    ensures
        r matches Some(i) ==> representative(rs@) == Some(i as int),
        r is None ==> representative(rs@) is None,
{
    if let Some(i) = find_named(rs, "us") {
        return Some(i);
    }
    if let Some(i) = find_named(rs, "eu") {
        return Some(i);
    }
    if let Some(i) = find_named(rs, "as") {
        return Some(i);
    }
    if let Some(i) = find_named(rs, "au") {
        return Some(i);
    }
    let mut i: usize = 0;
    while i < rs.len()
        invariant
            i <= rs@.len(),
            first_nonempty(rs@) == first_nonempty_from(rs@, i as int),
            first_named(rs@, "us"@) is None,
            first_named(rs@, "eu"@) is None,
            first_named(rs@, "as"@) is None,
            first_named(rs@, "au"@) is None,
        decreases rs@.len() - i,
    {
        if rs[i].points > 0 {
            return Some(i);
        }
        i = i + 1;
    }
    None
}

} // verus!
