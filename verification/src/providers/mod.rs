//! The normalized monitor model every backend is folded into, the error
//! vocabulary the adapters share, and the factory that turns a persisted
//! provider configuration into a concrete adapter description.

pub mod betterstack;
pub mod healthchecks;
pub mod uptimekuma;
pub mod uptimerobot;
pub mod watch4me;

use vstd::prelude::*;
use vstd::string::*;

use crate::text::{concat2, decimal, push_decimal, str_eq};
use self::betterstack::BetterStack;
use self::healthchecks::Healthchecks;
use self::uptimekuma::{kuma_outcome, UptimeKuma};
use self::uptimerobot::UptimeRobot;
use self::watch4me::Watch4Me;

verus! {

/// Normalized status across every provider.
#[derive(Clone, Copy, Debug, PartialEq, Eq, Structural)]
pub enum MonitorStatus {
    Up,
    Down,
    Paused,
    Unknown,
}

/// The view of an optional string: its characters, if present.
pub open spec fn ov(o: Option<String>) -> Option<Seq<char>> {
    match o {
        Some(s) => Some(s@),
        None => None,
    }
}

/// A copy of an optional string.
pub fn clone_opt(o: &Option<String>) -> (r: Option<String>)
    ensures
        r == *o,
{
    match o {
        Some(s) => Some(s.clone()),
        None => None,
    }
}

/// A single monitored target, normalized from a provider's native response.
#[derive(Debug)]
pub struct Monitor {
    /// Provider-native stable id.
    pub id: String,
    pub name: String,
    pub status: MonitorStatus,
    /// ISO-8601 string of the last check, if the provider reports one.
    pub last_checked: Option<String>,
    /// The monitored URL/target, for display.
    pub url: Option<String>,
    /// A link into the provider's dashboard, for click-through.
    pub detail_url: Option<String>,
    /// ISO-8601 timestamp the current status began, if reported.
    pub state_since: Option<String>,
    /// Provider-native public id, distinct from `id` (Watch4.me keys its
    /// actions on it).
    pub public_id: Option<String>,
    /// Whether the monitor's alerts are muted at the provider.
    pub is_muted: bool,
}

impl Monitor {
    /// A field-by-field copy.
    pub fn duplicate(&self) -> (r: Monitor)
        ensures
            r == *self,
    {
        Monitor {
            id: self.id.clone(),
            name: self.name.clone(),
            status: self.status,
            last_checked: clone_opt(&self.last_checked),
            url: clone_opt(&self.url),
            detail_url: clone_opt(&self.detail_url),
            state_since: clone_opt(&self.state_since),
            public_id: clone_opt(&self.public_id),
            is_muted: self.is_muted,
        }
    }
}

/// A copy of a list of monitors.
pub fn clone_monitors(v: &Vec<Monitor>) -> (r: Vec<Monitor>)
    ensures
        r@ == v@,
{
    let mut r: Vec<Monitor> = Vec::new();
    let mut i: usize = 0;
    while i < v.len()
        invariant
            i <= v@.len(),
            r@ == v@.take(i as int),
        decreases v@.len() - i,
    {
        r.push(v[i].duplicate());
        assert(v@.take(i + 1) == v@.take(i as int).push(v@[i as int]));
        i = i + 1;
    }
    assert(v@.take(v@.len() as int) == v@);
    r
}

/// Errors a provider fetch can produce. Network and timeout failures are
/// folded by the poller into Unknown, never Down.
#[derive(Debug)]
pub enum ProviderError {
    Auth,
    RateLimited,
    Unreachable,
    Timeout,
    NotFound,
    Http(u16),
    Decode(String),
    Config(String),
    /// A write action was attempted with a read-only token.
    InsufficientScope,
    /// The provider refused an action against a plan limit; carries its message.
    PlanLimit(String),
}

/// The user-facing text of an error.
pub open spec fn error_message(e: ProviderError) -> Seq<char> {
    match e {
        ProviderError::Auth =>
            "The API key was rejected. Double-check you pasted the full, correct token."@,
        ProviderError::RateLimited => "Rate limited by the provider. Wait a moment and try again."@,
        ProviderError::Unreachable =>
            "Couldn't reach the server. Check the Base URL and your internet connection."@,
        ProviderError::Timeout => "The server took too long to respond."@,
        ProviderError::NotFound => "No API endpoint at that URL (404). Check the Base URL."@,
        ProviderError::Http(code) => "The server returned an error (HTTP "@ + decimal(code as nat)
            + ")."@,
        ProviderError::Decode(_) =>
            "Unexpected response from the server. Is the Base URL and provider type correct?"@,
        ProviderError::Config(m) => m@,
        ProviderError::InsufficientScope =>
            "This API token is read-only. Use a read+write token to control monitors."@,
        ProviderError::PlanLimit(m) => m@,
    }
}

impl ProviderError {
    /// The error a failed request maps to: a timeout, or "can't reach it" for
    /// every other transport failure (connection refused, DNS, TLS).
    pub fn from_transport(timed_out: bool) -> (r: ProviderError)
        ensures
            r == (if timed_out {
                ProviderError::Timeout
            } else {
                ProviderError::Unreachable
            }),
    {
        if timed_out {
            ProviderError::Timeout
        } else {
            ProviderError::Unreachable
        }
    }

    /// The text shown to the user for this error.
    pub fn message(&self) -> (r: String)
        ensures
            r@ == error_message(*self),
    {
        match self {
            ProviderError::Auth => String::from_str(
                "The API key was rejected. Double-check you pasted the full, correct token.",
            ),
            ProviderError::RateLimited => String::from_str(
                "Rate limited by the provider. Wait a moment and try again.",
            ),
            ProviderError::Unreachable => String::from_str(
                "Couldn't reach the server. Check the Base URL and your internet connection.",
            ),
            ProviderError::Timeout => String::from_str("The server took too long to respond."),
            ProviderError::NotFound => String::from_str(
                "No API endpoint at that URL (404). Check the Base URL.",
            ),
            ProviderError::Http(code) => {
                let mut r = String::from_str("The server returned an error (HTTP ");
                push_decimal(&mut r, *code as u64);
                r.append(").");
                r
            },
            ProviderError::Decode(_) => String::from_str(
                "Unexpected response from the server. Is the Base URL and provider type correct?",
            ),
            ProviderError::Config(m) => m.clone(),
            ProviderError::InsufficientScope => String::from_str(
                "This API token is read-only. Use a read+write token to control monitors.",
            ),
            ProviderError::PlanLimit(m) => m.clone(),
        }
    }
}

/// Whether an HTTP status code is a success (2xx).
pub open spec fn is_success_code(status: u16) -> bool {
    200 <= status && status < 300
}

/// The error a non-success HTTP status maps to.
pub open spec fn status_error(status: u16) -> ProviderError {
    if status == 401 || status == 403 {
        ProviderError::Auth
    } else if status == 404 {
        ProviderError::NotFound
    } else if status == 429 {
        ProviderError::RateLimited
    } else {
        ProviderError::Http(status)
    }
}

/// Map a non-success HTTP status to a user-facing error. Shared by all HTTP
/// adapters so the messages are consistent.
pub fn http_status_error(status: u16) -> (r: ProviderError)
    ensures
        r == status_error(status),
{
    if status == 401 || status == 403 {
        ProviderError::Auth
    } else if status == 404 {
        ProviderError::NotFound
    } else if status == 429 {
        ProviderError::RateLimited
    } else {
        ProviderError::Http(status)
    }
}

/// Accept a 2xx response; any other status becomes its user-facing error.
pub fn check_status(status: u16) -> (r: Result<(), ProviderError>)
    ensures
        is_success_code(status) ==> r is Ok,
        !is_success_code(status) ==> r == Err::<(), ProviderError>(status_error(status)),
{
    if 200 <= status && status < 300 {
        Ok(())
    } else {
        Err(http_status_error(status))
    }
}

/// Non-secret, persisted provider configuration. The API key lives in the OS
/// keychain, keyed by `id`, never here.
#[derive(Debug)]
pub struct ProviderConfig {
    pub id: String,
    pub kind: String,
    pub label: String,
    pub base_url: Option<String>,
    pub interval_secs: Option<u64>,
    /// Optional provider-specific value (e.g. BetterStack team slug).
    pub extra: Option<String>,
    /// User-chosen color for this provider's bar in the popover.
    pub color: Option<String>,
    /// Server-derived token scope: `"read"` | `"write"` | `None` (unknown).
    pub scope: Option<String>,
    /// Default mute duration in seconds (`None` = indefinite).
    pub mute_default_secs: Option<u64>,
}

impl ProviderConfig {
    /// A field-by-field copy.
    pub fn duplicate(&self) -> (r: ProviderConfig)
        ensures
            r == *self,
    {
        ProviderConfig {
            id: self.id.clone(),
            kind: self.kind.clone(),
            label: self.label.clone(),
            base_url: clone_opt(&self.base_url),
            interval_secs: self.interval_secs,
            extra: clone_opt(&self.extra),
            color: clone_opt(&self.color),
            scope: clone_opt(&self.scope),
            mute_default_secs: self.mute_default_secs,
        }
    }
}

/// A write action a provider may support against one monitor. `Mute`
/// carries an optional duration in seconds (`None` = indefinite).
#[derive(Clone, Copy, Debug)]
pub enum MonitorAction {
    Pause,
    Resume,
    Mute { duration_secs: Option<u64> },
    Unmute,
}

/// A token's capability scope, as best the app can determine it.
#[derive(Clone, Copy, Debug, PartialEq, Eq, Structural)]
pub enum TokenScope {
    Read,
    Write,
    Unknown,
}

impl TokenScope {
    /// The persisted string form (`ProviderConfig.scope`).
    pub fn as_config(self) -> (r: Option<String>)
        ensures
            self == TokenScope::Read ==> (r matches Some(s) && s@ == "read"@),
            self == TokenScope::Write ==> (r matches Some(s) && s@ == "write"@),
            self == TokenScope::Unknown ==> r is None,
    {
        match self {
            TokenScope::Read => Some(String::from_str("read")),
            TokenScope::Write => Some(String::from_str("write")),
            TokenScope::Unknown => None,
        }
    }
}

/// The authoritative post-action state a provider reports. Fields are `None`
/// when the action doesn't affect them.
#[derive(Debug)]
pub struct ActionOutcome {
    pub is_paused: Option<bool>,
    pub is_muted: Option<bool>,
    /// False when the monitor was already in the requested state.
    pub changed: bool,
}

impl Default for ActionOutcome {
    fn default() -> (r: ActionOutcome)
        ensures
            r.is_paused is None,
            r.is_muted is None,
            !r.changed,
    {
        ActionOutcome { is_paused: None, is_muted: None, changed: false }
    }
}

/// Which action buttons the UI shows for a provider.
#[derive(Clone, Copy, Debug)]
pub struct ActionCaps {
    pub pause: bool,
    pub mute: bool,
}

/// The adapter a configuration describes, ready to be paired with an HTTP
/// client.
pub enum ProviderSpec {
    UptimeRobot(UptimeRobot),
    Watch4Me(Watch4Me),
    UptimeKuma(UptimeKuma),
    BetterStack(BetterStack),
    Healthchecks(Healthchecks),
}

impl ProviderSpec {
    /// The owning configuration's id.
    pub fn id(&self) -> (r: &String)
        ensures
            r == self.spec_id(),
    {
        match self {
            ProviderSpec::UptimeRobot(p) => &p.id,
            ProviderSpec::Watch4Me(p) => &p.id,
            ProviderSpec::UptimeKuma(p) => &p.id,
            ProviderSpec::BetterStack(p) => &p.id,
            ProviderSpec::Healthchecks(p) => &p.id,
        }
    }

    pub open spec fn spec_id(&self) -> &String {
        match self {
            ProviderSpec::UptimeRobot(p) => &p.id,
            ProviderSpec::Watch4Me(p) => &p.id,
            ProviderSpec::UptimeKuma(p) => &p.id,
            ProviderSpec::BetterStack(p) => &p.id,
            ProviderSpec::Healthchecks(p) => &p.id,
        }
    }
}

/// Which adapter `build` picks for a configuration, or `None` when the kind is
/// not one the app knows.
pub open spec fn kind_of(cfg: ProviderConfig) -> Option<nat> {
    if cfg.kind@ == "uptimerobot"@ {
        Some(0)
    } else if cfg.kind@ == "watch4me"@ {
        Some(1)
    } else if cfg.kind@ == "uptimekuma"@ {
        Some(2)
    } else if cfg.kind@ == "betterstack"@ {
        Some(3)
    } else if cfg.kind@ == "healthchecks"@ {
        Some(4)
    } else {
        None
    }
}

/// `p` is the adapter that `build` makes from `cfg` and `secret`.
pub open spec fn built_as(cfg: ProviderConfig, secret: String, p: ProviderSpec) -> bool {
    if kind_of(cfg) == Some(0nat) {
        p matches ProviderSpec::UptimeRobot(a) && a == UptimeRobot::spec_new(cfg, secret)
    } else if kind_of(cfg) == Some(1nat) {
        p matches ProviderSpec::Watch4Me(a) && a.configured_from(cfg, secret)
    } else if kind_of(cfg) == Some(2nat) {
        match kuma_outcome(cfg) {
            Ok(parts) => p matches ProviderSpec::UptimeKuma(a) && a.configured_from(cfg, parts),
            Err(_) => false,
        }
    } else if kind_of(cfg) == Some(3nat) {
        p matches ProviderSpec::BetterStack(a) && a.configured_from(cfg, secret)
    } else if kind_of(cfg) == Some(4nat) {
        p matches ProviderSpec::Healthchecks(a) && a.configured_from(cfg, secret)
    } else {
        false
    }
}

/// Construct a provider from its config plus the secret pulled from the
/// keychain.
pub fn build(cfg: &ProviderConfig, secret: String) -> (r: Result<ProviderSpec, ProviderError>)
    ensures
        kind_of(*cfg) == Some(0nat) ==> (r matches Ok(ProviderSpec::UptimeRobot(p)) && p
            == UptimeRobot::spec_new(*cfg, secret)),
        kind_of(*cfg) == Some(1nat) ==> (r matches Ok(ProviderSpec::Watch4Me(p))
            && p.configured_from(*cfg, secret)),
        kind_of(*cfg) == Some(2nat) ==> match kuma_outcome(*cfg) {
            Ok(parts) => r matches Ok(ProviderSpec::UptimeKuma(p)) && p.configured_from(*cfg, parts),
            Err(m) => r matches Err(ProviderError::Config(e)) && e@ == m,
        },
        kind_of(*cfg) == Some(3nat) ==> (r matches Ok(ProviderSpec::BetterStack(p))
            && p.configured_from(*cfg, secret)),
        kind_of(*cfg) == Some(4nat) ==> (r matches Ok(ProviderSpec::Healthchecks(p))
            && p.configured_from(*cfg, secret)),
        kind_of(*cfg) is None ==> (r matches Err(ProviderError::Config(e)) && e@
            == "unknown provider kind: "@ + cfg.kind@),
        r matches Ok(p) ==> p.spec_id()@ == cfg.id@ && built_as(*cfg, secret, p),
{
    let kind = cfg.kind.as_str();
    if str_eq(kind, "uptimerobot") {
        Ok(ProviderSpec::UptimeRobot(UptimeRobot::new(cfg, secret)))
    } else if str_eq(kind, "watch4me") {
        match Watch4Me::new(cfg, secret) {
            Ok(p) => Ok(ProviderSpec::Watch4Me(p)),
            Err(e) => Err(e),
        }
    } else if str_eq(kind, "uptimekuma") {
        match UptimeKuma::new(cfg, secret) {
            Ok(p) => Ok(ProviderSpec::UptimeKuma(p)),
            Err(e) => Err(e),
        }
    } else if str_eq(kind, "betterstack") {
        Ok(ProviderSpec::BetterStack(BetterStack::new(cfg, secret)))
    } else if str_eq(kind, "healthchecks") {
        Ok(ProviderSpec::Healthchecks(Healthchecks::new(cfg, secret)))
    } else {
        Err(ProviderError::Config(concat2("unknown provider kind: ", kind)))
    }
}

/// UI-facing description of a provider kind, so the settings form can prefill
/// the label + base URL and show/hide fields.
pub struct ProviderMeta {
    pub kind: String,
    pub name: String,
    /// One-line description shown under the provider picker.
    pub help: String,
    /// Link to where the user gets their API key.
    pub docs_url: Option<String>,
    /// Prefilled into the Base URL field when this kind is chosen.
    pub default_base_url: Option<String>,
    pub base_url_placeholder: String,
    /// Base URL must be supplied by the user.
    pub requires_base_url: bool,
    /// This provider needs an API key/token.
    pub requires_secret: bool,
    pub secret_label: String,
    /// When set, the form shows an extra optional text field with this label.
    pub extra_label: Option<String>,
    pub extra_placeholder: String,
    pub extra_help: String,
}

/// The characters of a `ProviderMeta`, field by field.
pub struct MetaView {
    pub kind: Seq<char>,
    pub name: Seq<char>,
    pub help: Seq<char>,
    pub docs_url: Option<Seq<char>>,
    pub default_base_url: Option<Seq<char>>,
    pub base_url_placeholder: Seq<char>,
    pub requires_base_url: bool,
    pub requires_secret: bool,
    pub secret_label: Seq<char>,
    pub extra_label: Option<Seq<char>>,
    pub extra_placeholder: Seq<char>,
    pub extra_help: Seq<char>,
}

impl View for ProviderMeta {
    type V = MetaView;

    open spec fn view(&self) -> MetaView {
        MetaView {
            kind: self.kind@,
            name: self.name@,
            help: self.help@,
            docs_url: ov(self.docs_url),
            default_base_url: ov(self.default_base_url),
            base_url_placeholder: self.base_url_placeholder@,
            requires_base_url: self.requires_base_url,
            requires_secret: self.requires_secret,
            secret_label: self.secret_label@,
            extra_label: ov(self.extra_label),
            extra_placeholder: self.extra_placeholder@,
            extra_help: self.extra_help@,
        }
    }
}

/// A provider kind's description without the optional extra field.
pub open spec fn meta_view(
    kind: Seq<char>,
    name: Seq<char>,
    help: Seq<char>,
    docs_url: Option<Seq<char>>,
    default_base_url: Option<Seq<char>>,
    base_url_placeholder: Seq<char>,
    requires_base_url: bool,
    requires_secret: bool,
    secret_label: Seq<char>,
) -> MetaView {
    MetaView {
        kind,
        name,
        help,
        docs_url,
        default_base_url,
        base_url_placeholder,
        requires_base_url,
        requires_secret,
        secret_label,
        extra_label: None,
        extra_placeholder: Seq::empty(),
        extra_help: Seq::empty(),
    }
}

fn opt_string(o: Option<&str>) -> (r: Option<String>)
    ensures
        r matches Some(s) ==> o matches Some(t) && s@ == t@,
        r is None ==> o is None,
{
    match o {
        Some(t) => Some(String::from_str(t)),
        None => None,
    }
}

fn meta(
    kind: &str,
    name: &str,
    help: &str,
    docs_url: Option<&str>,
    default_base_url: Option<&str>,
    base_url_placeholder: &str,
    requires_base_url: bool,
    requires_secret: bool,
    secret_label: &str,
) -> (r: ProviderMeta)
    ensures
        r@ == meta_view(
            kind@,
            name@,
            help@,
            match docs_url {
                Some(t) => Some(t@),
                None => None,
            },
            match default_base_url {
                Some(t) => Some(t@),
                None => None,
            },
            base_url_placeholder@,
            requires_base_url,
            requires_secret,
            secret_label@,
        ),
{
    ProviderMeta {
        kind: String::from_str(kind),
        name: String::from_str(name),
        help: String::from_str(help),
        docs_url: opt_string(docs_url),
        default_base_url: opt_string(default_base_url),
        base_url_placeholder: String::from_str(base_url_placeholder),
        requires_base_url,
        requires_secret,
        secret_label: String::from_str(secret_label),
        extra_label: None,
        extra_placeholder: String::new(),
        extra_help: String::new(),
    }
}

/// The kinds the settings form offers, in order, with their prefills.
pub open spec fn offered_kinds() -> Seq<MetaView> {
    seq![
        meta_view(
            "uptimerobot"@,
            "UptimeRobot"@,
            "Reads your monitors via the UptimeRobot account API. A read-only key works."@,
            Some("https://uptimerobot.com/api/"@),
            None,
            ""@,
            false,
            true,
            "API key"@,
        ),
        meta_view(
            "watch4me"@,
            "Watch4.me"@,
            "Reads your Watch4.me monitors via the dashboard API using an API token."@,
            Some("https://watch4.me/api/"@),
            Some("https://watch4.me"@),
            "https://watch4.me"@,
            false,
            true,
            "API token (starts with w4m_)"@,
        ),
        MetaView {
            extra_label: Some("Team"@),
            extra_placeholder: "t550046"@,
            extra_help: "Optional, for click-through. The t\u{2026} segment from your BetterStack URL: uptime.betterstack.com/team/<this>/\u{2026}"@,
            ..meta_view(
                "betterstack"@,
                "BetterStack"@,
                "Reads your BetterStack Uptime monitors using an API token."@,
                Some("https://betterstack.com/docs/uptime/api/"@),
                Some("https://uptime.betterstack.com"@),
                "https://uptime.betterstack.com"@,
                false,
                true,
                "API token"@,
            )
        },
        meta_view(
            "healthchecks"@,
            "Healthchecks.io"@,
            "Reads your Healthchecks.io checks. A read-only key works; supports self-hosted."@,
            Some("https://healthchecks.io/docs/api/"@),
            Some("https://healthchecks.io"@),
            "https://healthchecks.io"@,
            false,
            true,
            "read-only API key"@,
        ),
    ]
}

/// The provider kinds the UI offers, with prefill + field metadata. Uptime
/// Kuma is deliberately not offered (its adapter still serves existing
/// configurations).
pub fn kinds_meta() -> (r: Vec<ProviderMeta>)
    ensures
        r@.len() == offered_kinds().len(),
        forall|i: int| 0 <= i < r@.len() ==> #[trigger] r@[i]@ == offered_kinds()[i],
{
    let mut kinds: Vec<ProviderMeta> = Vec::new();
    kinds.push(
        meta(
            "uptimerobot",
            "UptimeRobot",
            "Reads your monitors via the UptimeRobot account API. A read-only key works.",
            Some("https://uptimerobot.com/api/"),
            None,
            "",
            false,
            true,
            "API key",
        ),
    );
    kinds.push(
        meta(
            "watch4me",
            "Watch4.me",
            "Reads your Watch4.me monitors via the dashboard API using an API token.",
            Some("https://watch4.me/api/"),
            Some("https://watch4.me"),
            "https://watch4.me",
            false,
            true,
            "API token (starts with w4m_)",
        ),
    );
    let mut bs = meta(
        "betterstack",
        "BetterStack",
        "Reads your BetterStack Uptime monitors using an API token.",
        Some("https://betterstack.com/docs/uptime/api/"),
        Some("https://uptime.betterstack.com"),
        "https://uptime.betterstack.com",
        false,
        true,
        "API token",
    );
    // BetterStack monitor pages need a team URL slug the API doesn't expose,
    // so the user may supply it once (empty just means no deep-links).
    bs.extra_label = Some(String::from_str("Team"));
    bs.extra_placeholder = String::from_str("t550046");
    bs.extra_help = String::from_str(
        "Optional, for click-through. The t\u{2026} segment from your BetterStack URL: uptime.betterstack.com/team/<this>/\u{2026}",
    );
    kinds.push(bs);
    kinds.push(
        meta(
            "healthchecks",
            "Healthchecks.io",
            "Reads your Healthchecks.io checks. A read-only key works; supports self-hosted.",
            Some("https://healthchecks.io/docs/api/"),
            Some("https://healthchecks.io"),
            "https://healthchecks.io",
            false,
            true,
            "read-only API key",
        ),
    );
    assert(kinds@.len() == 4);
    kinds
}

} // verus!
