//! Who may use the node's services.

use crate::auth::{
    auth_error_text, authority_of, net_hash_of, network_name, younger, AuthCache, AuthError,
    AuthNetwork, CachedIndex,
};
use crate::bytes::copy_bytes;
use crate::config::{
    requires_auth, first_named, ConfigHandle, DispatcherConfig, LocalServiceEntry, NodeConfig,
    ServicesConfig,
};
use crate::service_protocol::Response;
use crate::text::{join2, join3, same_text};
use vstd::prelude::*;
use vstd::string::*;
use vstd::utf8::encode_utf8;

verus! {

/// What the configuration says about authorization.
pub enum AuthState {
    /// The network is "none".
    Disabled,
    /// The network has a valid authority.
    Active(AuthNetwork),
    /// The network has no valid authority: services that require authorization are refused.
    Misconfigured(String),
}

/// Why a network's authority is not valid.
pub open spec fn misconfiguration(network: Seq<char>, authority: Option<Seq<char>>) -> Seq<char> {
    "鉴权网络 '"@ + network + (match authority {
        Some(_) => "' 权威公钥无效: "@ + auth_error_text(
            if network_name(network) {
                AuthError::InvalidAuthority
            } else {
                AuthError::InvalidName
            },
        ),
        None => "' 未配置权威公钥"@,
    })
}

/// Whether a state is the one that a configuration says.
pub open spec fn state_of(network: Seq<char>, authority: Option<Seq<char>>, state: AuthState) -> bool {
    if network == "none"@ {
        state is Disabled
    } else {
        match authority {
            Some(b64) => if network_name(network) && authority_of(b64) is Some {
                state matches AuthState::Active(net) && net.name@ == network && net.net_hash@ == net_hash_of(
                    network,
                ) && net.net_hash_is_segment() && authority_of(b64) == Some(net.authority@)
            } else {
                state matches AuthState::Misconfigured(reason) && reason@ == misconfiguration(
                    network,
                    authority,
                )
            },
            None => state matches AuthState::Misconfigured(reason) && reason@ == misconfiguration(
                network,
                authority,
            ),
        }
    }
}

/// The text of the authority of the configured network.
pub open spec fn configured_authority(config: NodeConfig) -> Option<Seq<char>> {
    let network = config.auth.network@;
    if config.auth.networks@.dom().contains(network) {
        Some(config.auth.networks@[network].authority@)
    } else {
        None
    }
}

/// Reads the configuration's state of authorization.
pub fn resolve_auth_state(config: &ConfigHandle) -> (r: AuthState)
    ensures
        state_of(config.inner.auth.network@, configured_authority(config.inner), r),
{
    let network = config.auth_network();
    if same_text(network.as_str(), "none") {
        return AuthState::Disabled;
    }
    match config.auth_authority(network.as_str()) {
        Some(authority) => match AuthNetwork::new(network.as_str(), authority.as_str()) {
            Ok(net) => AuthState::Active(net),
            Err(e) => {
                let tail = join2("' 权威公钥无效: ", e.text().as_str());
                let reason = join3("鉴权网络 '", network.as_str(), tail.as_str());
                AuthState::Misconfigured(reason)
            },
        },
        None => {
            let reason = join3("鉴权网络 '", network.as_str(), "' 未配置权威公钥");
            AuthState::Misconfigured(reason)
        },
    }
}

/// What is decided on one request.
pub enum Decision {
    Allow,
    /// The network does not protect the service: allow, and stop requiring authorization for it.
    AllowUnprotected,
    /// Refuse, for this reason.
    Deny(String),
}

/// What is decided, as plain data.
pub enum Verdict {
    Allow,
    AllowUnprotected,
    Deny(Seq<char>),
}

impl Decision {
    pub open spec fn view(&self) -> Verdict {
        match self {
            Decision::Allow => Verdict::Allow,
            Decision::AllowUnprotected => Verdict::AllowUnprotected,
            Decision::Deny(reason) => Verdict::Deny(reason@),
        }
    }
}

/// Whether the kept index is fresh and lists a service.
pub open spec fn freshly_listed(cache: AuthCache, service: Seq<char>, now: u64, ttl_secs: u64, clock: u64) -> bool {
    cache.kept_index() matches Some(i) && i.fresh(now, ttl_secs, clock) && i.services@.dom().contains(service)
}

/// Whether a service's kept whitelist is fresh.
pub open spec fn fresh_members(cache: AuthCache, service: Seq<char>, ttl_secs: u64, clock: u64) -> bool {
    let w = cache.kept_whitelists();
    w.dom().contains(service) && younger(w[service].fetched_at, clock, ttl_secs)
}

/// The decision on a peer's request for a service, from what is kept at a time. Without
/// authorization, and for a service that does not require it, everyone is allowed.
pub open spec fn decision(
    state: AuthState,
    required: bool,
    cache: Option<AuthCache>,
    peer: Seq<char>,
    service: Seq<char>,
    now: u64,
    ttl_secs: u64,
    clock: u64,
) -> Verdict {
    if state is Disabled || !required {
        Verdict::Allow
    } else if let AuthState::Misconfigured(reason) = state {
        Verdict::Deny(reason@)
    } else {
        match cache {
            None => Verdict::Deny("auth cache poisoned"@),
            Some(c) => match c.kept_index() {
                Some(i) => if !i.fresh(now, ttl_secs, clock) {
                    Verdict::Deny("auth index unavailable"@)
                } else if !i.services@.dom().contains(service) {
                    Verdict::AllowUnprotected
                } else if !fresh_members(c, service, ttl_secs, clock) {
                    Verdict::Deny("whitelist unavailable"@)
                } else if c.kept_whitelists()[service].members@.dom().contains(peer) {
                    Verdict::Allow
                } else {
                    Verdict::Deny("peer not authorized"@)
                },
                None => Verdict::Deny("auth index unavailable"@),
            },
        }
    }
}

/// What is kept, as an optional value.
pub open spec fn cache_value(cache: Option<&AuthCache>) -> Option<AuthCache> {
    match cache {
        Some(c) => Some(*c),
        None => None,
    }
}

/// Decides on a peer's request for a service, from what is kept; `cache` is nothing where it
/// cannot be read. `now` is the Unix time, `clock` the reading of the clock that ages the cache.
pub fn authorize(
    state: &AuthState,
    config: &ConfigHandle,
    cache: Option<&AuthCache>,
    peer: &str,
    service: &str,
    now: u64,
    clock: u64,
) -> (r: Decision)
    ensures
        r@ == decision(
            *state,
            requires_auth(config.inner.services.dispatcher.local_services@, service@),
            cache_value(cache),
            peer@,
            service@,
            now,
            config.inner.auth.cache_ttl_secs as u64,
            clock,
        ),
        state is Disabled ==> r is Allow,
        ({
            let ttl = config.inner.auth.cache_ttl_secs * 1_000_000_000;
            let required = exists|i: int|
                0 <= i < config.inner.services.dispatcher.local_services@.len() && (
                #[trigger] config.inner.services.dispatcher.local_services@[i]).name@ == service@
                    && config.inner.services.dispatcher.local_services@[i].require_auth;
            &&& !required ==> r is Allow
            &&& state is Active && required ==> (cache matches Some(c) ==> (c.kept_index() matches Some(i) ==> {
                let w = c.kept_whitelists();
                let counts = now <= i.expires_at && clock < i.fetched_at + ttl && ttl > 0;
                let listed = i.services@.dom().contains(service@);
                &&& r is Allow <==> counts && listed && w.dom().contains(service@) && clock < w[service@].fetched_at + ttl
                    && w[service@].members@.dom().contains(peer@)
                &&& r is AllowUnprotected <==> counts && !listed
            }))
        }),
{
    match state {
        AuthState::Disabled => {
            return Decision::Allow;
        },
        _ => {},
    }
    if !config.service_requires_auth(service) {
        return Decision::Allow;
    }
    match state {
        AuthState::Misconfigured(reason) => {
            return Decision::Deny(reason.clone());
        },
        _ => {},
    }
    let ttl: u64 = config.auth_cache_ttl() as u64;
    let cache = match cache {
        Some(c) => c,
        None => {
            return Decision::Deny("auth cache poisoned".to_owned());
        },
    };
    let index = match cache.fresh_index(now, ttl, clock) {
        Some(i) => i,
        None => {
            return Decision::Deny("auth index unavailable".to_owned());
        },
    };
    if !index.services.contains(service) {
        return Decision::AllowUnprotected;
    }
    let whitelist = match cache.fresh_whitelist(service, ttl, clock) {
        Some(w) => w,
        None => {
            return Decision::Deny("whitelist unavailable".to_owned());
        },
    };
    if whitelist.is_member(peer) {
        Decision::Allow
    } else {
        Decision::Deny("peer not authorized".to_owned())
    }
}

/// With authorization on, a service that requires it is closed unless what is kept opens it: a
/// peer is allowed only while the index is fresh and lists the service, and the service's whitelist
/// is fresh and has the peer; or while the index is fresh and does not list the service.
pub proof fn authorization_fails_closed(
    state: AuthState,
    cache: Option<AuthCache>,
    peer: Seq<char>,
    service: Seq<char>,
    now: u64,
    ttl_secs: u64,
    clock: u64,
)
    requires
        !(state is Disabled),
    ensures
        decision(state, true, cache, peer, service, now, ttl_secs, clock) is Allow ==> state is Active
            && (cache matches Some(c) && freshly_listed(c, service, now, ttl_secs, clock) && fresh_members(
            c,
            service,
            ttl_secs,
            clock,
        ) && c.kept_whitelists()[service].members@.dom().contains(peer)),
        decision(state, true, cache, peer, service, now, ttl_secs, clock) is AllowUnprotected ==> state is Active
            && (cache matches Some(c) && c.kept_index() matches Some(i) && i.fresh(now, ttl_secs, clock)
            && !i.services@.dom().contains(service)),
        cache matches Some(c) && c.kept_index() is None ==> decision(
            state,
            true,
            cache,
            peer,
            service,
            now,
            ttl_secs,
            clock,
        ) is Deny,
{
}

/// With authorization on, what is kept decides on a service that requires it. Nothing but a fresh index
/// counts; an index that does not list the service leaves it open. Of a listed service, exactly the
/// members of its fresh whitelist are allowed. Fresh is what was kept less than the given seconds ago,
/// and an index only up to its time.
pub proof fn members_are_allowed_while_records_are_fresh(
    net: AuthNetwork,
    cache: AuthCache,
    index: CachedIndex,
    peer: Seq<char>,
    service: Seq<char>,
    now: u64,
    ttl_secs: u64,
    clock: u64,
)
    requires
        cache.kept_index() == Some(index),
    ensures
        ({
            let verdict = decision(AuthState::Active(net), true, Some(cache), peer, service, now, ttl_secs, clock);
            let w = cache.kept_whitelists();
            let index_counts = now <= index.expires_at && ttl_secs > 0 && clock < index.fetched_at + ttl_secs * 1_000_000_000;
            let listed = index.services@.dom().contains(service);
            let list_counts = w.dom().contains(service) && clock < w[service].fetched_at + ttl_secs * 1_000_000_000;
            let member = w[service].members@.dom().contains(peer);
            &&& verdict is Allow <==> index_counts && listed && list_counts && member
            &&& verdict is AllowUnprotected <==> index_counts && !listed
            &&& verdict == Verdict::Deny("auth index unavailable"@) <==> !index_counts
            &&& index_counts && listed && !list_counts ==> verdict == Verdict::Deny("whitelist unavailable"@)
            &&& index_counts && listed && list_counts && !member ==> verdict == Verdict::Deny("peer not authorized"@)
        }),
{
    reveal_strlit("auth index unavailable");
    reveal_strlit("whitelist unavailable");
    reveal_strlit("peer not authorized");
    assert("auth index unavailable"@.len() == 22);
    assert("whitelist unavailable"@.len() == 21);
    assert("peer not authorized"@.len() == 19);
}

/// Everyone may use a service where authorization is off, and a service that requires none. Where the
/// configuration of authorization is wrong, every service that requires it is refused for that reason.
pub proof fn open_services_stay_open(
    state: AuthState,
    required: bool,
    cache: Option<AuthCache>,
    peer: Seq<char>,
    service: Seq<char>,
    now: u64,
    ttl_secs: u64,
    clock: u64,
)
    ensures
        state is Disabled ==> decision(state, required, cache, peer, service, now, ttl_secs, clock) is Allow,
        !required ==> decision(state, required, cache, peer, service, now, ttl_secs, clock) is Allow,
        required ==> (state matches AuthState::Misconfigured(why) ==> decision(
            state,
            required,
            cache,
            peer,
            service,
            now,
            ttl_secs,
            clock,
        ) == Verdict::Deny(why@)),
        required && state is Active && cache is None ==> decision(
            state,
            required,
            cache,
            peer,
            service,
            now,
            ttl_secs,
            clock,
        ) is Deny,
{
}

/// Authorization is off exactly for the network "none". Otherwise it is on exactly when the network has
/// an allowed name and a configured authority that is a key, and then it is on for that network with
/// that key.
pub proof fn state_follows_the_configuration(network: Seq<char>, authority: Option<Seq<char>>, state: AuthState)
    requires
        state_of(network, authority, state),
    ensures
        state is Disabled <==> network == "none"@,
        state is Active <==> network != "none"@ && network_name(network) && (authority matches Some(a) && authority_of(a) is Some),
        state matches AuthState::Active(net) ==> net.name@ == network && net.net_hash@ == net_hash_of(network)
            && authority_of(authority->0) == Some(net.authority@),
{
}

/// Without a refresh, access ends: a peer is refused once the kept index is past its time or was kept
/// for the given seconds, and a listed service once its kept whitelist was.
pub proof fn kept_records_lapse(
    state: AuthState,
    cache: AuthCache,
    peer: Seq<char>,
    service: Seq<char>,
    now: u64,
    ttl_secs: u64,
    clock: u64,
)
    requires
        !(state is Disabled),
    ensures
        cache.kept_index() matches Some(i) && (now > i.expires_at || clock >= i.fetched_at + ttl_secs * 1_000_000_000)
            ==> decision(state, true, Some(cache), peer, service, now, ttl_secs, clock) is Deny,
        freshly_listed(cache, service, now, ttl_secs, clock) && cache.kept_whitelists().dom().contains(service) && clock
            >= cache.kept_whitelists()[service].fetched_at + ttl_secs * 1_000_000_000 ==> decision(
            state,
            true,
            Some(cache),
            peer,
            service,
            now,
            ttl_secs,
            clock,
        ) is Deny,
{
}

/// What has lapsed stays so: time that passes makes nothing fresh again.
pub proof fn lapsing_is_final(
    index: CachedIndex,
    kept_at: u64,
    now: u64,
    later: u64,
    ttl_secs: u64,
    clock: u64,
    later_clock: u64,
)
    requires
        now <= later,
        clock <= later_clock,
    ensures
        !index.fresh(now, ttl_secs, clock) ==> !index.fresh(later, ttl_secs, later_clock),
        !younger(kept_at, clock, ttl_secs) ==> !younger(kept_at, later_clock, ttl_secs),
{
}

/// What is done with a request for a service.
pub enum InboundAction {
    /// Hand it to the dispatcher; `save` tells that the configuration changed and is to be saved.
    Forward { save: bool },
    /// Answer with this response; `reason` is why.
    Refuse { reason: String, response: Response },
}

/// Decides what is done with a peer's request for a service. A service that the network does not
/// protect stops requiring authorization; nothing else of the configuration changes.
pub fn handle_inbound(
    state: &AuthState,
    config: &mut ConfigHandle,
    cache: Option<&AuthCache>,
    peer: &str,
    service: &str,
    now: u64,
    clock: u64,
) -> (r: InboundAction)
    ensures
        ({
            let before = old(config).inner.services.dispatcher.local_services@;
            let after = final(config).inner.services.dispatcher.local_services@;
            let verdict = decision(
                *state,
                requires_auth(before, service@),
                cache_value(cache),
                peer@,
                service@,
                now,
                old(config).inner.auth.cache_ttl_secs as u64,
                clock,
            );
            match verdict {
                Verdict::Allow => r matches InboundAction::Forward { save } && !save && *final(config) == *old(config),
                Verdict::Deny(reason) => r matches InboundAction::Refuse { reason: why, response } && why@ == reason
                    && !response.success && response.data@ == encode_utf8("unauthorized: "@ + reason) && *final(config)
                    == *old(config),
                Verdict::AllowUnprotected => {
                    &&& r matches InboundAction::Forward { save } && (save <==> exists|i: int| #[trigger] first_named(before, service@, i) && before[i].require_auth)
                    &&& after.len() == before.len()
                    &&& forall|i: int| 0 <= i < before.len() ==> #[trigger] after[i] == (if first_named(before, service@, i) {
                        LocalServiceEntry { require_auth: false, ..before[i] }
                    } else {
                        before[i]
                    })
                    &&& final(config).inner == (NodeConfig {
                        services: ServicesConfig {
                            dispatcher: DispatcherConfig {
                                local_services: final(config).inner.services.dispatcher.local_services,
                                ..old(config).inner.services.dispatcher
                            },
                            ..old(config).inner.services
                        },
                        ..old(config).inner
                    })
                },
            }
        }),
{
    match authorize(state, config, cache, peer, service, now, clock) {
        Decision::Allow => InboundAction::Forward { save: false },
        Decision::AllowUnprotected => {
            let save = config.set_service_require_auth(service, false);
            InboundAction::Forward { save }
        },
        Decision::Deny(reason) => {
            let text = join2("unauthorized: ", reason.as_str());
            let response = Response { success: false, data: copy_bytes(text.as_str().as_bytes()) };
            InboundAction::Refuse { reason, response }
        },
    }
}

/// The response to a request that could not be handed to the dispatcher.
pub fn unavailable(error: &str) -> (r: Response)
    ensures
        !r.success,
        r.data@ == encode_utf8("service unavailable: "@ + error@),
{
    let text = join2("service unavailable: ", error);
    Response { success: false, data: copy_bytes(text.as_str().as_bytes()) }
}

/// The authority that counts is the one of the configured network, and why it does not count is told.
pub proof fn misconfigured_networks_are_told(config: NodeConfig, network: Seq<char>, authority: Option<Seq<char>>, state: AuthState)
    requires
        state_of(network, authority, state),
    ensures
        config.auth.networks@.dom().contains(config.auth.network@) ==> configured_authority(config) == Some(
            config.auth.networks@[config.auth.network@].authority@,
        ),
        !config.auth.networks@.dom().contains(config.auth.network@) ==> configured_authority(config) is None,
        network != "none"@ && authority is None ==> (state matches AuthState::Misconfigured(why) && why@ == "鉴权网络 '"@ + network
            + "' 未配置权威公钥"@),
        network != "none"@ && authority is Some && !network_name(network) ==> (state matches AuthState::Misconfigured(why) && why@
            == "鉴权网络 '"@ + network + ("' 权威公钥无效: "@ + "invalid network or service name"@)),
        network != "none"@ && network_name(network) ==> (authority matches Some(a) ==> (authority_of(a) is None
            ==> (state matches AuthState::Misconfigured(why) && why@ == "鉴权网络 '"@ + network + ("' 权威公钥无效: "@
            + "invalid authority public key"@)))),
{
}

/// A decision is what it says, with its reason.
pub proof fn decisions_say_what_they_are(d: Decision, cache: Option<&AuthCache>)
    ensures
        d is Allow <==> d@ is Allow,
        d is AllowUnprotected <==> d@ is AllowUnprotected,
        d matches Decision::Deny(why) ==> d@ == Verdict::Deny(why@),
        cache matches Some(c) ==> cache_value(cache) == Some(*c),
        cache is None ==> cache_value(cache) is None,
{
}

} // verus!
