//! Watch4.me adapter.
//!
//! Polls the status endpoint with conditional caching (ETag/304):
//!
//!   GET {base}/api/v1/monitors/status   (Authorization: Bearer w4m_<token>)
//!   -> 200 { monitors: [...] } + ETag header  (full list)
//!   -> 304 (empty body)                        (nothing changed: reuse cache)
//!
//! The adapter keeps the last ETag and the list it came with; a 304 replays
//! that list without touching a body.

use vstd::prelude::*;
use vstd::string::*;

use crate::text::{chars_of, concat2, concat3, decimal, signed_decimal, str_eq, string_of, trim_end_char, trim_end_char_exec, i64_to_string, push_decimal};
use super::{ov, clone_monitors, clone_opt, is_success_code, status_error, http_status_error, Monitor, MonitorAction, MonitorStatus, ProviderConfig, ProviderError, TokenScope};

verus! {

/// The plain view of a status verdict.
pub open spec fn verdict_view(r: Option<Result<Vec<Monitor>, ProviderError>>) -> Option<Result<Seq<Monitor>, ProviderError>> {
    match r {
        Some(Ok(v)) => Some(Ok(v@)),
        Some(Err(e)) => Some(Err(e)),
        None => None,
    }
}

/// Conditional-request cache: last ETag + the list it corresponds to.
pub struct StatusCache {
    pub etag: Option<String>,
    pub monitors: Vec<Monitor>,
}

pub struct Watch4Me {
    pub id: String,
    pub label: String,
    pub base: String,
    pub status_endpoint: String,
    pub dashboard_endpoint: String,
    pub token: String,
    pub cache: StatusCache,
}

/// The base URL a configuration selects, without trailing slashes.
pub open spec fn base_of(cfg: ProviderConfig) -> Seq<char> {
    trim_end_char(
        match cfg.base_url {
            Some(b) => b@,
            None => "https://watch4.me"@,
        },
        '/',
    )
}

impl Watch4Me {
    /// This adapter was built from `cfg` and `secret` and has seen no reply yet.
    pub open spec fn configured_from(&self, cfg: ProviderConfig, secret: String) -> bool {
        &&& self.id == cfg.id
        &&& self.label == cfg.label
        &&& self.base@ == base_of(cfg)
        &&& self.status_endpoint@ == base_of(cfg) + "/api/v1/monitors/status"@
        &&& self.dashboard_endpoint@ == base_of(cfg) + "/api/v1/dashboard/"@
        &&& self.token == secret
        &&& self.cache.etag is None
        &&& self.cache.monitors@.len() == 0
    }

    pub fn new(cfg: &ProviderConfig, secret: String) -> (r: Result<Watch4Me, ProviderError>)
        ensures
            r matches Ok(p) && p.configured_from(*cfg, secret),
    {
        let raw = match &cfg.base_url {
            Some(b) => b.clone(),
            None => String::from_str("https://watch4.me"),
        };
        let rv = chars_of(raw.as_str());
        let n = trim_end_char_exec(&rv, '/');
        let base = string_of(&rv, 0, n);
        assert(rv@.subrange(0, n as int) == rv@.take(n as int));
        Ok(
            Watch4Me {
                id: cfg.id.clone(),
                label: cfg.label.clone(),
                status_endpoint: concat2(base.as_str(), "/api/v1/monitors/status"),
                dashboard_endpoint: concat2(base.as_str(), "/api/v1/dashboard/"),
                base,
                token: secret,
                cache: StatusCache { etag: None, monitors: Vec::new() },
            },
        )
    }

    /// The dashboard page of a monitor, or the dashboard when it has no public id.
    pub open spec fn spec_deep_link(&self, public_id: Option<Seq<char>>) -> Seq<char> {
        match public_id {
            Some(pid) => self.base@ + "/monitors/"@ + pid + "/"@,
            None => self.base@ + "/dashboard"@,
        }
    }

    pub fn deep_link(&self, public_id: Option<&str>) -> (r: String)
        ensures
            r@ == self.spec_deep_link(
                match public_id {
                    Some(p) => Some(p@),
                    None => None,
                },
            ),
    {
        match public_id {
            Some(pid) => {
                let mut r = concat3(self.base.as_str(), "/monitors/", pid);
                r.append("/");
                r
            },
            None => concat2(self.base.as_str(), "/dashboard"),
        }
    }

    /// The `Authorization` header value.
    pub fn auth_header(&self) -> (r: String)
        ensures
            r@ == "Bearer "@ + self.token@,
    {
        concat2("Bearer ", self.token.as_str())
    }
}

/// One monitor of the status reply, as plain values.
pub struct MonitorStats {
    pub id: i64,
    pub public_id: Option<String>,
    pub name: Option<String>,
    pub url: Option<String>,
    pub is_up: bool,
    pub is_paused: bool,
    pub is_muted: bool,
    pub is_stale: bool,
    pub state_since: Option<String>,
    pub latest_check_at: Option<String>,
}

/// Paused wins; data too old to trust is Unknown rather than a guess.
pub open spec fn w4m_status(m: MonitorStats) -> MonitorStatus {
    if m.is_paused {
        MonitorStatus::Paused
    } else if m.is_stale {
        MonitorStatus::Unknown
    } else if m.is_up {
        MonitorStatus::Up
    } else {
        MonitorStatus::Down
    }
}

pub fn map_status(m: &MonitorStats) -> (r: MonitorStatus)
    ensures
        r == w4m_status(*m),
{
    if m.is_paused {
        MonitorStatus::Paused
    } else if m.is_stale {
        MonitorStatus::Unknown
    } else if m.is_up {
        MonitorStatus::Up
    } else {
        MonitorStatus::Down
    }
}

impl Watch4Me {
    /// The monitor a status entry normalizes to.
    pub open spec fn stats_monitor(&self, s: MonitorStats, m: Monitor) -> bool {
        &&& m.id@ == signed_decimal(s.id as int)
        &&& m.name@ == match s.name {
            Some(n) => n@,
            None => "monitor "@ + signed_decimal(s.id as int),
        }
        &&& m.status == w4m_status(s)
        &&& m.last_checked == s.latest_check_at
        &&& m.url == s.url
        &&& m.detail_url matches Some(d) && d@ == self.spec_deep_link(
            match s.public_id {
                Some(p) => Some(p@),
                None => None,
            },
        )
        &&& m.state_since == s.state_since
        &&& m.public_id == s.public_id
        &&& m.is_muted == s.is_muted
    }
}

impl MonitorStats {
    /// Normalize this entry; its public id is retained because the action
    /// endpoints key on it.
    pub fn into_monitor(self, owner: &Watch4Me) -> (m: Monitor)
        ensures
            owner.stats_monitor(self, m),
    {
        let status = map_status(&self);
        let detail_url = match &self.public_id {
            Some(p) => owner.deep_link(Some(p.as_str())),
            None => owner.deep_link(None),
        };
        let id = i64_to_string(self.id);
        let name = match self.name {
            Some(n) => n,
            None => concat2("monitor ", id.as_str()),
        };
        Monitor {
            name,
            status,
            last_checked: self.latest_check_at,
            url: self.url,
            detail_url: Some(detail_url),
            state_since: self.state_since,
            public_id: self.public_id,
            is_muted: self.is_muted,
            id,
        }
    }
}

impl Watch4Me {
    /// The ETag to send as `If-None-Match`, if a previous reply carried one.
    pub fn request_etag(&self) -> (r: Option<String>)
        ensures
            r == self.cache.etag,
    {
        clone_opt(&self.cache.etag)
    }

    /// How a reply status is judged before any body is read: a 304 replays the
    /// cached list, any other non-2xx is an error, and `None` means the body
    /// must be read.
    pub open spec fn status_verdict(&self, status: u16) -> Option<Result<Seq<Monitor>, ProviderError>> {
        if status == 304 {
            Some(Ok(self.cache.monitors@))
        } else if !is_success_code(status) {
            Some(Err(status_error(status)))
        } else {
            None
        }
    }

    /// Judge the reply's status before any body is read; `None` means the
    /// body must be read and handed to `accept_body`.
    pub fn on_status(&self, status: u16) -> (r: Option<Result<Vec<Monitor>, ProviderError>>)
        ensures
            verdict_view(r) == self.status_verdict(status),
    {
        if status == 304 {
            Some(Ok(clone_monitors(&self.cache.monitors)))
        } else if !(200 <= status && status < 300) {
            Some(Err(http_status_error(status)))
        } else {
            None
        }
    }

    /// `after` is this adapter once a 200 reply carrying `etag` and `stats`
    /// was accepted, and `reply` is the list that reply normalized to.
    pub open spec fn accepted(
        &self,
        after: Watch4Me,
        etag: Option<String>,
        stats: Seq<MonitorStats>,
        reply: Seq<Monitor>,
    ) -> bool {
        &&& reply.len() == stats.len()
        &&& forall|i: int| 0 <= i < stats.len() ==> self.stats_monitor(stats[i], #[trigger] reply[i])
        &&& after.cache.etag == etag
        &&& after.cache.monitors@ == reply
        &&& after.id == self.id
        &&& after.label == self.label
        &&& after.base == self.base
        &&& after.status_endpoint == self.status_endpoint
        &&& after.dashboard_endpoint == self.dashboard_endpoint
        &&& after.token == self.token
    }

    /// Normalize a fresh 200 reply and remember it with its ETag, so the next
    /// poll can go conditional.
    pub fn accept_body(&mut self, new_etag: Option<String>, stats: Vec<MonitorStats>) -> (r: Vec<Monitor>)
        ensures
            old(self).accepted(*final(self), new_etag, stats@, r@),
    {
        let ghost all = stats@;
        let mut stats = stats;
        let mut out: Vec<Monitor> = Vec::new();
        while stats.len() > 0
            invariant
                out@.len() + stats@.len() == all.len(),
                stats@ == all.skip(out@.len() as int),
                forall|i: int| 0 <= i < out@.len() ==> self.stats_monitor(all[i], #[trigger] out@[i]),
            decreases stats@.len(),
        {
            let s = stats.remove(0);
            assert(s == all[out@.len() as int]);
            out.push(s.into_monitor(self));
            assert(stats@ == all.skip(out@.len() as int));
        }
        self.cache.etag = new_etag;
        self.cache.monitors = clone_monitors(&out);
        out
    }

    /// The path verb of an action and its optional mute duration.
    pub open spec fn spec_action_url(&self, public_id: Seq<char>, action: MonitorAction) -> Seq<char> {
        let verb = match action {
            MonitorAction::Pause => "pause"@,
            MonitorAction::Resume => "resume"@,
            MonitorAction::Mute { .. } => "mute"@,
            MonitorAction::Unmute => "unmute"@,
        };
        let url = self.base@ + "/api/v1/monitors/"@ + public_id + "/"@ + verb;
        match action {
            MonitorAction::Mute { duration_secs: Some(secs) } => url + "?duration_seconds="@ + decimal(
                secs as nat,
            ),
            _ => url,
        }
    }

    /// `POST {base}/api/v1/monitors/{public_id}/{pause|resume|mute|unmute}`;
    /// mute takes `?duration_seconds=N` (omitted = indefinite).
    pub fn action_url(&self, public_id: &str, action: MonitorAction) -> (r: String)
        ensures
            r@ == self.spec_action_url(public_id@, action),
    {
        let verb = match action {
            MonitorAction::Pause => "pause",
            MonitorAction::Resume => "resume",
            MonitorAction::Mute { .. } => "mute",
            MonitorAction::Unmute => "unmute",
        };
        let mut url = concat3(self.base.as_str(), "/api/v1/monitors/", public_id);
        url.append("/");
        url.append(verb);
        if let MonitorAction::Mute { duration_secs: Some(secs) } = action {
            url.append("?duration_seconds=");
            push_decimal(&mut url, secs);
        }
        url
    }
}

/// The body of Watch4.me's uniform error envelope (`{"error":{...}}`).
pub struct ErrorBody {
    pub code: String,
    pub message: String,
}

/// The error a failed action reports: the envelope's scope and plan-limit
/// codes are specific; everything else falls back to the HTTP status.
pub fn action_error(status: u16, envelope: Option<ErrorBody>) -> (r: ProviderError)
    ensures
        match envelope {
            Some(b) => if b.code@ == "insufficient_scope"@ {
                r == ProviderError::InsufficientScope
            } else if b.code@ == "plan_limit"@ {
                r == ProviderError::PlanLimit(b.message)
            } else {
                r == status_error(status)
            },
            None => r == status_error(status),
        },
{
    if let Some(b) = envelope {
        if str_eq(b.code.as_str(), "insufficient_scope") {
            return ProviderError::InsufficientScope;
        }
        if str_eq(b.code.as_str(), "plan_limit") {
            return ProviderError::PlanLimit(b.message);
        }
    }
    http_status_error(status)
}

impl Watch4Me {
    /// The token introspection endpoint, `GET {base}/api/v1/token`.
    pub fn token_url(&self) -> (r: String)
        ensures
            r@ == self.base@ + "/api/v1/token"@,
    {
        concat2(self.base.as_str(), "/api/v1/token")
    }
}

/// The scope a token's `scope` field names.
pub open spec fn named_scope(scope: Option<Seq<char>>) -> TokenScope {
    if scope == Some("read"@) {
        TokenScope::Read
    } else if scope == Some("write"@) {
        TokenScope::Write
    } else {
        TokenScope::Unknown
    }
}

/// Judge the token introspection reply `{scope: "read"|"write", ...}`: a
/// non-2xx status is its usual error; otherwise the named scope ("read",
/// "write", anything else unknown).
pub fn token_scope(status: u16, scope: Option<String>) -> (r: Result<TokenScope, ProviderError>)
    ensures
        !is_success_code(status) ==> r == Err::<TokenScope, ProviderError>(status_error(status)),
        is_success_code(status) ==> r == Ok::<TokenScope, ProviderError>(named_scope(ov(scope))),
{
    if !(200 <= status && status < 300) {
        return Err(http_status_error(status));
    }
    match scope {
        Some(s) => if str_eq(s.as_str(), "read") {
            Ok(TokenScope::Read)
        } else if str_eq(s.as_str(), "write") {
            Ok(TokenScope::Write)
        } else {
            Ok(TokenScope::Unknown)
        },
        None => Ok(TokenScope::Unknown),
    }
}

} // verus!
