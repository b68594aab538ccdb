//! UptimeRobot adapter. POSTs to the v2 getMonitors endpoint with an account
//! API key (read-only is enough). UptimeRobot reports most failures as an
//! HTTP 200 whose body says `stat: "fail"`, so bodies are inspected.

use vstd::prelude::*;
use vstd::string::*;

use crate::text::{concat2, contains, contains_exec, decimal, lowercase, str_eq, to_lowercase, u64_to_string};
use super::{ActionCaps, ActionOutcome, Monitor, MonitorAction, MonitorStatus, ProviderConfig, ProviderError, TokenScope};

verus! {

pub struct UptimeRobot {
    pub id: String,
    pub label: String,
    pub api_key: String,
}

/// The read endpoint (monitors and their detail).
pub fn api_url() -> (r: &'static str)
    ensures
        r@ == "https://api.uptimerobot.com/v2/getMonitors"@,
{
    "https://api.uptimerobot.com/v2/getMonitors"
}

/// The write endpoint (pause/resume).
pub fn edit_url() -> (r: &'static str)
    ensures
        r@ == "https://api.uptimerobot.com/v2/editMonitor"@,
{
    "https://api.uptimerobot.com/v2/editMonitor"
}

/// The scope probe: `getAccountDetails` is write-gated and has no side
/// effect.
pub fn account_url() -> (r: &'static str)
    ensures
        r@ == "https://api.uptimerobot.com/v2/getAccountDetails"@,
{
    "https://api.uptimerobot.com/v2/getAccountDetails"
}

impl UptimeRobot {
    pub open spec fn spec_new(cfg: ProviderConfig, secret: String) -> UptimeRobot {
        UptimeRobot { id: cfg.id, label: cfg.label, api_key: secret }
    }

    pub fn new(cfg: &ProviderConfig, secret: String) -> (r: UptimeRobot)
        ensures
            r == Self::spec_new(*cfg, secret),
    {
        UptimeRobot { id: cfg.id.clone(), label: cfg.label.clone(), api_key: secret }
    }

    /// Pause/resume via editMonitor; no mute.
    pub fn capabilities(&self) -> (r: ActionCaps)
        ensures
            r.pause && !r.mute,
    {
        ActionCaps { pause: true, mute: false }
    }
}

/// One monitor of a getMonitors reply, as plain values.
pub struct RawMonitor {
    pub id: u64,
    pub friendly_name: String,
    pub url: Option<String>,
    pub status: i64,
}

/// The `error` object of a failed reply.
pub struct ApiError {
    pub error_type: String,
    pub message: String,
}

/// UptimeRobot status codes: 0 paused, 1 not-checked-yet, 2 up, 8 seems-down,
/// 9 down.
pub open spec fn ur_status(code: i64) -> MonitorStatus {
    if code == 2 {
        MonitorStatus::Up
    } else if code == 8 || code == 9 {
        MonitorStatus::Down
    } else if code == 0 {
        MonitorStatus::Paused
    } else {
        MonitorStatus::Unknown
    }
}

pub fn map_status(code: i64) -> (r: MonitorStatus)
    ensures
        r == ur_status(code),
{
    match code {
        2 => MonitorStatus::Up,
        8 | 9 => MonitorStatus::Down,
        0 => MonitorStatus::Paused,
        _ => MonitorStatus::Unknown,
    }
}

/// A 429 is rate limiting, reported before the body is read.
pub fn check_rate_limit(status: u16) -> (r: Result<(), ProviderError>)
    ensures
        status == 429 ==> r == Err::<(), ProviderError>(ProviderError::RateLimited),
        status != 429 ==> r is Ok,
{
    if status == 429 {
        Err(ProviderError::RateLimited)
    } else {
        Ok(())
    }
}

/// The message of a failed reply (empty when the reply carries no error).
pub open spec fn reply_message(error: Option<ApiError>) -> Seq<char> {
    match error {
        Some(e) => e.message@,
        None => Seq::empty(),
    }
}

/// The error type of a failed reply (empty when the reply carries no error).
pub open spec fn reply_type(error: Option<ApiError>) -> Seq<char> {
    match error {
        Some(e) => e.error_type@,
        None => Seq::empty(),
    }
}

/// Judge a read reply by its `stat`. A bad or insufficient key comes back as
/// an HTTP 200 whose body says `stat: "fail"` with error type
/// "not_authorized" (or a message about the api_key): that is an auth error.
/// Any other failure is an unexpected reply.
pub fn check_reply(stat: &str, error: Option<ApiError>) -> (r: Result<(), ProviderError>)
    ensures
        stat@ == "ok"@ ==> r is Ok,
        stat@ != "ok"@ && (reply_type(error) == "not_authorized"@ || contains(
            lowercase(reply_message(error)),
            "api_key"@,
        )) ==> r == Err::<(), ProviderError>(ProviderError::Auth),
        stat@ != "ok"@ && reply_type(error) != "not_authorized"@ && !contains(
            lowercase(reply_message(error)),
            "api_key"@,
        ) ==> (r matches Err(ProviderError::Decode(m)) && m@ == "api error: "@ + reply_message(error)),
{
    if str_eq(stat, "ok") {
        return Ok(());
    }
    let (ty, msg) = match error {
        Some(e) => (e.error_type, e.message),
        None => (String::new(), String::new()),
    };
    if str_eq(ty.as_str(), "not_authorized") {
        return Err(ProviderError::Auth);
    }
    let lower = to_lowercase(msg.as_str());
    if contains_exec(lower.as_str(), "api_key") {
        return Err(ProviderError::Auth);
    }
    Err(ProviderError::Decode(concat2("api error: ", msg.as_str())))
}

/// The monitor a raw entry normalizes to.
pub open spec fn raw_monitor(raw: RawMonitor, m: Monitor) -> bool {
    &&& m.id@ == decimal(raw.id as nat)
    &&& m.name == raw.friendly_name
    &&& m.status == ur_status(raw.status)
    &&& m.last_checked is None
    &&& m.url == raw.url
    &&& m.detail_url matches Some(d) && d@ == "https://dashboard.uptimerobot.com/monitors/"@
        + decimal(raw.id as nat)
    &&& m.state_since is None
    &&& m.public_id is None
    &&& !m.is_muted
}

fn to_monitor(raw: RawMonitor) -> (m: Monitor)
    ensures
        raw_monitor(raw, m),
{
    let id = u64_to_string(raw.id);
    // The dashboard route /monitors/<numeric id> opens that monitor directly.
    let detail = concat2("https://dashboard.uptimerobot.com/monitors/", id.as_str());
    Monitor {
        id,
        name: raw.friendly_name,
        status: map_status(raw.status),
        last_checked: None,
        url: raw.url,
        detail_url: Some(detail),
        state_since: None,
        public_id: None,
        is_muted: false,
    }
}

/// Normalize a successful reply's monitors, in order.
pub fn monitors_from_raw(raws: Vec<RawMonitor>) -> (r: Vec<Monitor>)
    ensures
        r@.len() == raws@.len(),
        forall|i: int| 0 <= i < raws@.len() ==> raw_monitor(raws@[i], #[trigger] r@[i]),
{
    let ghost old_raws = raws@;
    let mut out: Vec<Monitor> = Vec::new();
    let mut raws = raws;
    while raws.len() > 0
        invariant
            out@.len() + raws@.len() == old_raws.len(),
            raws@ == old_raws.skip(out@.len() as int),
            forall|i: int| 0 <= i < out@.len() ==> raw_monitor(old_raws[i], #[trigger] out@[i]),
        decreases raws@.len(),
    {
        let raw = raws.remove(0);
        assert(raw == old_raws[out@.len() as int]);
        out.push(to_monitor(raw));
        assert(raws@ == old_raws.skip(out@.len() as int));
    }
    out
}

/// The editMonitor `status` for an action: 0 = paused, 1 = active. Mute is
/// not supported.
pub fn edit_status(action: MonitorAction) -> (r: Result<String, ProviderError>)
    ensures
        action is Pause ==> (r matches Ok(s) && s@ == "0"@),
        action is Resume ==> (r matches Ok(s) && s@ == "1"@),
        (action is Mute || action is Unmute) ==> (r matches Err(ProviderError::Config(m)) && m@
            == "UptimeRobot doesn't support mute."@),
{
    match action {
        MonitorAction::Pause => Ok(String::from_str("0")),
        MonitorAction::Resume => Ok(String::from_str("1")),
        MonitorAction::Mute { .. } | MonitorAction::Unmute => Err(
            ProviderError::Config(String::from_str("UptimeRobot doesn't support mute.")),
        ),
    }
}

/// Judge an editMonitor reply. A read-only key is refused with type
/// "not_authorized" ("You are not allowed to perform this request").
pub fn check_edit_reply(stat: &str, error: Option<ApiError>) -> (r: Result<(), ProviderError>)
    ensures
        stat@ == "ok"@ ==> r is Ok,
        stat@ != "ok"@ ==> {
            let ty = reply_type(error);
            let msg = reply_message(error);
            if ty == "not_authorized"@ || contains(lowercase(msg), "not allowed"@) {
                r == Err::<(), ProviderError>(ProviderError::InsufficientScope)
            } else {
                r matches Err(ProviderError::Decode(m)) && m@ == "edit failed: "@ + msg
            }
        },
{
    if str_eq(stat, "ok") {
        return Ok(());
    }
    let (ty, msg) = match error {
        Some(e) => (e.error_type, e.message),
        None => (String::new(), String::new()),
    };
    let lower = to_lowercase(msg.as_str());
    if str_eq(ty.as_str(), "not_authorized") || contains_exec(lower.as_str(), "not allowed") {
        return Err(ProviderError::InsufficientScope);
    }
    Err(ProviderError::Decode(concat2("edit failed: ", msg.as_str())))
}

/// The post-action state of a successful edit with `status`.
pub fn edit_outcome(status: &str) -> (r: ActionOutcome)
    ensures
        r.is_paused == Some(status@ == "0"@),
        r.is_muted is None,
        r.changed,
{
    ActionOutcome { is_paused: Some(str_eq(status, "0")), is_muted: None, changed: true }
}

/// The key's scope from the `getAccountDetails` reply: a main key gets
/// `stat: "ok"`, a read-only key is refused with type "not_authorized";
/// any other reply tells nothing.
pub fn scope_from_account_reply(stat: &str, error: Option<ApiError>) -> (r: TokenScope)
    ensures
        stat@ == "ok"@ ==> r == TokenScope::Write,
        stat@ != "ok"@ && reply_type(error) == "not_authorized"@ ==> r == TokenScope::Read,
        stat@ != "ok"@ && reply_type(error) != "not_authorized"@ ==> r == TokenScope::Unknown,
{
    if str_eq(stat, "ok") {
        return TokenScope::Write;
    }
    let ty = match error {
        Some(e) => e.error_type,
        None => String::new(),
    };
    if str_eq(ty.as_str(), "not_authorized") {
        TokenScope::Read
    } else {
        TokenScope::Unknown
    }
}

} // verus!
