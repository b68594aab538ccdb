//! Rebuilding the live provider set from the persisted configurations, and
//! the defaults the settings fall back to.

use vstd::prelude::*;
use vstd::string::*;

use crate::providers::{build, built_as, kind_of, ProviderConfig, ProviderSpec};
use crate::providers::uptimekuma::kuma_outcome;
use crate::text::{concat3, str_eq};

verus! {

/// Whether API keys live in the OS keychain: release builds only. A debug
/// build's code signature changes on every rebuild, so it could not read back
/// what an earlier build stored there; it keeps keys in an owner-only file.
pub fn use_keychain(debug_assertions: bool) -> (r: bool)
    ensures
        r == !debug_assertions,
{
    !debug_assertions
}

/// What the keychain answered when asked for a provider's key.
pub enum KeychainRead {
    Found(String),
    /// The keychain holds no key for this provider.
    NoEntry,
    /// The keychain could not be read; carries the error's text.
    Failed(String),
}

/// What looking up a key does after asking the keychain.
pub enum SecretStep {
    /// The lookup is over, with this result.
    Done(Result<String, String>),
    /// Look in the key file: the key may come from an earlier build that kept
    /// keys there.
    ReadFile,
}

/// The keychain's answer decides the lookup, except that a missing entry
/// sends it on to the key file.
pub fn after_keychain_read(read: KeychainRead) -> (r: SecretStep)
    ensures
        match read {
            KeychainRead::Found(k) => r == SecretStep::Done(Ok(k)),
            KeychainRead::NoEntry => r is ReadFile,
            KeychainRead::Failed(e) => r == SecretStep::Done(Err(e)),
        },
{
    match read {
        KeychainRead::Found(k) => SecretStep::Done(Ok(k)),
        KeychainRead::NoEntry => SecretStep::ReadFile,
        KeychainRead::Failed(e) => SecretStep::Done(Err(e)),
    }
}

/// The key a keychain lookup returns once the file was read, and whether it
/// is copied into the keychain: a key found only in the file is returned and
/// migrated, so upgrading from a file-based build loses no key; none found
/// is an empty key.
pub fn after_file_read(file: Option<String>) -> (r: (String, bool))
    ensures
        file matches Some(k) ==> r.0 == k && r.1,
        file is None ==> r.0@.len() == 0 && !r.1,
{
    match file {
        Some(k) => (k, true),
        None => (String::new(), false),
    }
}

/// Whether transitions of monitors muted at their provider are kept out of
/// the notifications, when no preference is stored.
pub const SILENCE_MUTED_DEFAULT: bool = true;

/// Poll interval when none is stored.
pub const DEFAULT_INTERVAL_SECS: u64 = 60;

/// `build` succeeds for this configuration.
pub open spec fn builds(cfg: ProviderConfig) -> bool {
    &&& kind_of(cfg) is Some
    &&& kind_of(cfg) == Some(2nat) ==> kuma_outcome(cfg) is Ok
}

/// The ids of the configurations that build, in order.
pub open spec fn live_ids(cfgs: Seq<ProviderConfig>) -> Seq<Seq<char>>
    decreases cfgs.len(),
{
    if cfgs.len() == 0 {
        Seq::empty()
    } else {
        let r = live_ids(cfgs.drop_last());
        if builds(cfgs.last()) {
            r.push(cfgs.last().id@)
        } else {
            r
        }
    }
}

/// The positions of the configurations that build, in order.
pub open spec fn live_indices(cfgs: Seq<ProviderConfig>) -> Seq<int>
    decreases cfgs.len(),
{
    if cfgs.len() == 0 {
        Seq::empty()
    } else {
        let r = live_indices(cfgs.drop_last());
        if builds(cfgs.last()) {
            r.push(cfgs.len() - 1)
        } else {
            r
        }
    }
}

proof fn lemma_live_indices(cfgs: Seq<ProviderConfig>)
    ensures
        live_indices(cfgs).len() == live_ids(cfgs).len(),
        forall|k: int| 0 <= k < live_indices(cfgs).len() ==> 0 <= #[trigger] live_indices(cfgs)[k] < cfgs.len()
            && live_ids(cfgs)[k] == cfgs[live_indices(cfgs)[k]].id@ && builds(cfgs[live_indices(cfgs)[k]]),
        forall|k: int, l: int| 0 <= k < l < live_indices(cfgs).len() ==> #[trigger] live_indices(cfgs)[k] < #[trigger] live_indices(cfgs)[l],
    decreases cfgs.len(),
{
    if cfgs.len() > 0 {
        let p = cfgs.drop_last();
        lemma_live_indices(p);
        assert forall|k: int| 0 <= k < p.len() implies p[k] == cfgs[k] by {}
    }
}

/// Build an adapter for every configuration (with its secret, `secrets[i]`
/// for `configs[i]`), skipping those that fail; returns the adapters and the
/// ids of the configurations they came from, in order. The `i`-th adapter is
/// what `build` makes from the `i`-th configuration that builds, with that
/// configuration's own secret.
pub fn build_all(configs: &Vec<ProviderConfig>, secrets: Vec<String>) -> (r: (Vec<ProviderSpec>, Vec<String>))
    requires
        secrets@.len() == configs@.len(),
    ensures
        r.0@.len() == r.1@.len(),
        r.0@.len() == live_indices(configs@).len(),
        r.1@.map_values(|s: String| s@) == live_ids(configs@),
        forall|i: int| 0 <= i < r.0@.len() ==> (#[trigger] r.0@[i]).spec_id()@ == r.1@[i]@,
        forall|i: int|
            0 <= i < r.0@.len() ==> built_as(
                configs@[live_indices(configs@)[i]],
                secrets@[live_indices(configs@)[i]],
                #[trigger] r.0@[i],
            ),
        forall|k: int|
            0 <= k < r.0@.len() ==> 0 <= #[trigger] live_indices(configs@)[k] < configs@.len() && builds(
                configs@[live_indices(configs@)[k]],
            ),
        forall|k: int, l: int|
            0 <= k < l < r.0@.len() ==> #[trigger] live_indices(configs@)[k] < #[trigger] live_indices(
                configs@,
            )[l],
{
    proof {
        lemma_live_indices(configs@);
    }
    let ghost all = secrets@;
    let mut secrets = secrets;
    let mut specs: Vec<ProviderSpec> = Vec::new();
    let mut ids: Vec<String> = Vec::new();
    let mut i: usize = 0;
    while i < configs.len()
        invariant
            i <= configs@.len(),
            all.len() == configs@.len(),
            secrets@ == all.skip(i as int),
            specs@.len() == ids@.len(),
            specs@.len() == live_indices(configs@.take(i as int)).len(),
            ids@.map_values(|s: String| s@) == live_ids(configs@.take(i as int)),
            forall|j: int| 0 <= j < specs@.len() ==> (#[trigger] specs@[j]).spec_id()@ == ids@[j]@,
            forall|j: int|
                0 <= j < specs@.len() ==> built_as(
                    configs@[live_indices(configs@.take(i as int))[j]],
                    all[live_indices(configs@.take(i as int))[j]],
                    #[trigger] specs@[j],
                ),
        decreases configs@.len() - i,
    {
        let ghost li = live_indices(configs@.take(i as int));
        let secret = secrets.remove(0);
        assert(secret == all[i as int]);
        let cfg = &configs[i];
        let ghost before = ids@;
        assert(configs@.take(i + 1).drop_last() =~= configs@.take(i as int));
        assert(configs@.take(i + 1).last() == *cfg);
        assert(configs@.take(i + 1).len() - 1 == i);
        match build(cfg, secret) {
            Ok(p) => {
                assert(builds(*cfg));
                assert(live_indices(configs@.take(i + 1)) == li.push(i as int));
                ids.push(cfg.id.clone());
                specs.push(p);
                assert(ids@.map_values(|s: String| s@) =~= before.map_values(|s: String| s@).push(cfg.id@));
            },
            Err(_) => {
                assert(!builds(*cfg));
                assert(live_indices(configs@.take(i + 1)) == li);
            },
        }
        i = i + 1;
    }
    assert(configs@.take(i as int) =~= configs@);
    (specs, ids)
}

/// The display name of an OS as `std::env::consts::OS` names it.
pub open spec fn os_display(os: Seq<char>) -> Seq<char> {
    if os == "macos"@ {
        "macOS"@
    } else if os == "windows"@ {
        "Windows"@
    } else if os == "linux"@ {
        "Linux"@
    } else {
        os
    }
}

/// HTTP User-Agent sent to every provider, e.g.
/// "UptimeBar/0.4.0 (macOS; aarch64)".
pub fn user_agent(version: &str, os: &str, arch: &str) -> (r: String)
    ensures
        r@ == "UptimeBar/"@ + version@ + " ("@ + os_display(os@) + "; "@ + arch@ + ")"@,
{
    let shown = if str_eq(os, "macos") {
        "macOS"
    } else if str_eq(os, "windows") {
        "Windows"
    } else if str_eq(os, "linux") {
        "Linux"
    } else {
        os
    };
    let mut r = concat3("UptimeBar/", version, " (");
    r.append(shown);
    r.append("; ");
    r.append(arch);
    r.append(")");
    r
}

} // verus!
