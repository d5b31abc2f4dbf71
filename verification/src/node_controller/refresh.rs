//! Refreshing the kept authorization records from the distributed table.

use crate::auth::{
    authority_of, entries_fault, entry_map, entry_views, index_verdict, keys_are_paths, lists, members_parse,
    network_name, not_rolled_back, record_key, service_name, verify_index, verify_whitelist, whitelist_verdict,
    AuthCache, AuthError, AuthNetwork, EntryView, IndexDoc, IndexView, ServiceEntry,
};
use crate::bytes::copy_bytes;
use crate::config::{requires_auth, ConfigHandle, LocalServiceEntry};
use crate::lists::kept_exactly;
use crate::node_controller::authorize::{configured_authority, resolve_auth_state, state_of, AuthState};
use vstd::prelude::*;
use vstd::string::*;

verus! {

/// The nanoseconds that lie at least between two refreshes.
pub const AUTH_MIN_REFRESH_NANOS: u64 = 5_000_000_000;

/// How long to wait before the next refresh, when the last one is so long ago.
pub fn refresh_pause(since_last_nanos: u64) -> (r: u64)
    ensures
        r == (if since_last_nanos < AUTH_MIN_REFRESH_NANOS {
            AUTH_MIN_REFRESH_NANOS - since_last_nanos
        } else {
            0
        }),
        since_last_nanos < 5_000_000_000 ==> since_last_nanos + r == 5_000_000_000,
        since_last_nanos >= 5_000_000_000 ==> r == 0,
{
    if since_last_nanos < AUTH_MIN_REFRESH_NANOS {
        AUTH_MIN_REFRESH_NANOS - since_last_nanos
    } else {
        0
    }
}

/// A configured number of seconds between two runs: at least one.
pub fn at_least_one_second(secs: u32) -> (r: u32)
    ensures
        r == (if secs == 0 {
            1u32
        } else {
            secs
        }),
{
    if secs == 0 {
        1
    } else {
        secs
    }
}

/// The network whose records are to be refreshed, if authorization is on and configured.
pub fn refresh_target(config: &ConfigHandle) -> (r: Option<AuthNetwork>)
    ensures
        ({
            let network = config.inner.auth.network@;
            let authority = configured_authority(config.inner);
            match r {
                Some(net) => state_of(network, authority, AuthState::Active(net)),
                None => network == "none"@ || !network_name(network) || authority is None || authority_of(authority->0) is None,
            }
        }),
{
    let state = resolve_auth_state(config);
    match state {
        AuthState::Active(net) => Some(net),
        _ => None,
    }
}

/// What became of asking for a record.
pub enum Fetched {
    Found(Vec<u8>),
    NotFound,
    /// Asking failed, with this text.
    Failed(String),
}

/// A whitelist to ask for: the entry of the index, and the key.
pub struct WhitelistFetch {
    pub entry: ServiceEntry,
    pub key: String,
}

/// What became of the index.
pub enum IndexOutcome {
    NotFound,
    Failed(String),
    /// The record was refused.
    Refused(AuthError),
    /// The record is sound, but older than the one that is kept. No whitelist is asked for on its word.
    NotKept(AuthError),
    /// The record was kept. The whitelists to ask for next.
    Accepted { fetches: Vec<WhitelistFetch> },
}

/// The entries whose services require authorization here, in order.
pub open spec fn wanted(entries: Seq<EntryView>, local: Seq<LocalServiceEntry>) -> Seq<EntryView>
    decreases entries.len(),
{
    if entries.len() == 0 {
        Seq::empty()
    } else if requires_auth(local, entries.last().name) {
        wanted(entries.drop_last(), local).push(entries.last())
    } else {
        wanted(entries.drop_last(), local)
    }
}

/// Whether whitelists to ask for are those of some entries, each with its key.
pub open spec fn fetches_of(fetches: Seq<WhitelistFetch>, entries: Seq<EntryView>, net: AuthNetwork) -> bool {
    &&& fetches.len() == entries.len()
    &&& forall|i: int|
        0 <= i < fetches.len() ==> (#[trigger] fetches[i]).entry@ == entries[i] && fetches[i].key@ == record_key(
            net.net_hash@,
            entries[i].name,
        )
}

fn copy_entry(e: &ServiceEntry) -> (r: ServiceEntry)
    ensures
        r@ == e@,
{
    ServiceEntry { name: e.name.clone(), hash: copy_bytes(e.hash.as_slice()), length: e.length }
}

proof fn entry_is_sound(s: Seq<EntryView>, i: int)
    requires
        entries_fault(s) is None,
        0 <= i < s.len(),
    ensures
        service_name(s[i].name),
    decreases s.len(),
{
    if i > 0 {
        entry_is_sound(s.drop_first(), i - 1);
        assert(s.drop_first()[i - 1] == s[i]);
    }
}

fn plan_fetches(net: &AuthNetwork, doc: &IndexDoc, config: &ConfigHandle) -> (r: Vec<WhitelistFetch>)
    requires
        entries_fault(doc@.services) is None,
    ensures
        fetches_of(r@, wanted(doc@.services, config.inner.services.dispatcher.local_services@), *net),
{
    let ghost all = doc@.services;
    let ghost local = config.inner.services.dispatcher.local_services@;
    let mut out: Vec<WhitelistFetch> = Vec::new();
    let mut i: usize = 0;
    assert(all.subrange(0, 0) =~= Seq::<EntryView>::empty());
    while i < doc.services.len()
        invariant
            i <= doc.services@.len(),
            all == doc@.services,
            all.len() == doc.services@.len(),
            entries_fault(all) is None,
            local == config.inner.services.dispatcher.local_services@,
            fetches_of(out@, wanted(all.subrange(0, i as int), local), *net),
        decreases doc.services@.len() - i,
    {
        proof {
            let upto = all.subrange(0, i + 1);
            assert(upto.drop_last() =~= all.subrange(0, i as int));
            assert(upto.last() == doc.services@[i as int]@);
            entry_is_sound(all, i as int);
        }
        if config.service_requires_auth(doc.services[i].name.as_str()) {
            match net.service_key(doc.services[i].name.as_str()) {
                Ok(key) => out.push(WhitelistFetch { entry: copy_entry(&doc.services[i]), key }),
                Err(_) => {
                    assert(false);
                },
            }
        }
        i += 1;
    }
    assert(all.subrange(0, all.len() as int) =~= all);
    out
}

/// Judges the index that was fetched, keeps it, and says which whitelists to ask for. A refresh whose
/// index is not found, not sound or not kept leaves all that is kept as it was, and ends there: only
/// an index that was kept names whitelists to ask for.
pub fn index_fetched(
    net: &AuthNetwork,
    config: &ConfigHandle,
    cache: &mut AuthCache,
    fetched: Fetched,
    now: u64,
    clock: u64,
) -> (r: IndexOutcome)
    ensures
        final(cache).kept_whitelists() == old(cache).kept_whitelists(),
        not_rolled_back(*old(cache), *final(cache)),
        !(r is Accepted) ==> *final(cache) == *old(cache),
        match fetched {
            Fetched::NotFound => r is NotFound,
            Fetched::Failed(e) => r matches IndexOutcome::Failed(t) && t@ == e@,
            Fetched::Found(value) => match index_verdict(*net, value@, now) {
                Err(e) => r matches IndexOutcome::Refused(why) && why == e,
                Ok(v) => if old(cache).kept_index() matches Some(cur) && v.version < cur.version {
                    r matches IndexOutcome::NotKept(why) && why == AuthError::Rollback
                } else {
                    (r matches IndexOutcome::Accepted { fetches } && fetches_of(
                        fetches@,
                        wanted(v.services, config.inner.services.dispatcher.local_services@),
                        *net,
                    )) && kept_from(*final(cache), v, clock)
                },
            },
        },
{
    match fetched {
        Fetched::NotFound => IndexOutcome::NotFound,
        Fetched::Failed(e) => IndexOutcome::Failed(e),
        Fetched::Found(value) => match verify_index(net, value.as_slice(), now) {
            Err(e) => IndexOutcome::Refused(e),
            Ok(doc) => {
                let fetches = plan_fetches(net, &doc, config);
                let ghost v = doc@;
                let ghost entries = doc.services@;
                let r = cache.insert_index(doc, clock);
                proof {
                    entry_map_says(entries);
                }
                match r {
                    Ok(_) => IndexOutcome::Accepted { fetches },
                    Err(e) => IndexOutcome::NotKept(e),
                }
            },
        },
    }
}

/// Whether the kept index is the one that a document says, kept at a time.
pub open spec fn kept_from(cache: AuthCache, v: IndexView, clock: u64) -> bool {
    cache.kept_index() matches Some(new) && new.version == v.version && new.expires_at == v.expires_at
        && new.fetched_at == clock && new.services@.map_values(|e: ServiceEntry| e@) == entries_by_name(v.services)
}

/// What entries say, by name; of two with one name the later counts.
pub open spec fn entries_by_name(s: Seq<EntryView>) -> Map<Seq<char>, EntryView>
    decreases s.len(),
{
    if s.len() == 0 {
        Map::empty()
    } else {
        entries_by_name(s.drop_last()).insert(s.last().name, s.last())
    }
}

proof fn entry_map_says(s: Seq<ServiceEntry>)
    ensures
        entry_map(s).map_values(|e: ServiceEntry| e@) == entries_by_name(entry_views(s)),
    decreases s.len(),
{
    let views = entry_views(s);
    if s.len() > 0 {
        entry_map_says(s.drop_last());
        assert(views.drop_last() =~= entry_views(s.drop_last()));
        assert(views.last() == s.last()@);
    }
    assert(entry_map(s).map_values(|e: ServiceEntry| e@) =~= entries_by_name(views));
}

/// What became of one whitelist.
pub enum WhitelistOutcome {
    Kept,
    NotFound,
    Failed(String),
    /// The record was refused.
    Refused(AuthError),
    /// The record was accepted but not kept.
    NotKept(AuthError),
}

/// Judges a whitelist that was fetched, and keeps it. One that is not found, not accepted or not
/// kept leaves what is kept as it was.
pub fn whitelist_fetched(
    net: &AuthNetwork,
    fetch: &WhitelistFetch,
    cache: &mut AuthCache,
    fetched: Fetched,
    clock: u64,
) -> (r: WhitelistOutcome)
    ensures
        final(cache).kept_index() == old(cache).kept_index(),
        not_rolled_back(*old(cache), *final(cache)),
        !(r is Kept) ==> *final(cache) == *old(cache),
        match fetched {
            Fetched::NotFound => r is NotFound,
            Fetched::Failed(e) => r matches WhitelistOutcome::Failed(t) && t@ == e@,
            Fetched::Found(value) => match whitelist_verdict(*net, fetch.entry.name@, value@, fetch.entry@) {
                Err(e) => r matches WhitelistOutcome::Refused(why) && why == e,
                Ok(v) => {
                    let name = fetch.entry.name@;
                    let kept = old(cache).kept_whitelists();
                    let lower = kept.dom().contains(name) && v.version < kept[name].version;
                    if lower {
                        r matches WhitelistOutcome::NotKept(e) && e == AuthError::Rollback
                    } else if !members_parse(v.members) {
                        r matches WhitelistOutcome::NotKept(e) && e == AuthError::Malformed
                    } else {
                        let new = final(cache).kept_whitelists();
                        &&& r is Kept
                        &&& new.dom().contains(name)
                        &&& new == kept.insert(name, new[name])
                        &&& new[name].version == v.version
                        &&& new[name].fetched_at == clock
                        &&& forall|p: Seq<char>| #[trigger] new[name].members@.dom().contains(p) <==> lists(v.members, p)
                    }
                },
            },
        },
{
    match fetched {
        Fetched::NotFound => WhitelistOutcome::NotFound,
        Fetched::Failed(e) => WhitelistOutcome::Failed(e),
        Fetched::Found(value) => match verify_whitelist(
            net,
            fetch.entry.name.as_str(),
            value.as_slice(),
            &fetch.entry,
        ) {
            Err(e) => WhitelistOutcome::Refused(e),
            Ok(doc) => match cache.insert_whitelist(fetch.entry.name.as_str(), doc, clock) {
                Ok(_) => WhitelistOutcome::Kept,
                Err(e) => WhitelistOutcome::NotKept(e),
            },
        },
    }
}

proof fn wanted_is_filter(entries: Seq<EntryView>, local: Seq<LocalServiceEntry>)
    ensures
        wanted(entries, local) == entries.filter(|e: EntryView| requires_auth(local, e.name)),
    decreases entries.len(),
{
    reveal(Seq::filter);
    if entries.len() > 0 {
        wanted_is_filter(entries.drop_last(), local);
    }
}

/// The whitelists to ask for are those of exactly the entries whose services require authorization
/// here: none is left out, none is added, they come in the order of the index, and each is asked for
/// under the key of its own service.
pub proof fn protected_services_are_fetched(
    fetches: Seq<WhitelistFetch>,
    entries: Seq<EntryView>,
    local: Seq<LocalServiceEntry>,
    net: AuthNetwork,
)
    requires
        fetches_of(fetches, wanted(entries, local), net),
    ensures
        ({
            let required = |e: EntryView|
                exists|j: int| 0 <= j < local.len() && (#[trigger] local[j]).name@ == e.name && local[j].require_auth;
            &&& fetches.map_values(|f: WhitelistFetch| f.entry@) == entries.filter(required)
            &&& forall|i: int|
                0 <= i < entries.len() && required(#[trigger] entries[i]) ==> exists|k: int|
                    0 <= k < fetches.len() && (#[trigger] fetches[k]).entry@ == entries[i]
            &&& forall|k: int|
                0 <= k < fetches.len() ==> required((#[trigger] fetches[k]).entry@) && entries.contains(fetches[k].entry@)
                    && fetches[k].key@ == "/oahd/auth/"@ + net.net_hash@ + "/"@ + fetches[k].entry@.name
        }),
{
    let required = |e: EntryView|
        exists|j: int| 0 <= j < local.len() && (#[trigger] local[j]).name@ == e.name && local[j].require_auth;
    let pred = |e: EntryView| requires_auth(local, e.name);
    assert(required =~= pred);
    wanted_is_filter(entries, local);
    kept_exactly(entries, required);
    let kept = entries.filter(required);
    assert(fetches.map_values(|f: WhitelistFetch| f.entry@) =~= kept);
    assert forall|i: int| 0 <= i < entries.len() && required(#[trigger] entries[i]) implies exists|k: int|
        0 <= k < fetches.len() && (#[trigger] fetches[k]).entry@ == entries[i] by {
        assert(kept.contains(entries[i]));
        let k = choose|k: int| 0 <= k < kept.len() && kept[k] == entries[i];
        assert(fetches[k].entry@ == entries[i]);
    }
    assert forall|k: int| 0 <= k < fetches.len() implies required((#[trigger] fetches[k]).entry@) && entries.contains(
        fetches[k].entry@,
    ) && fetches[k].key@ == "/oahd/auth/"@ + net.net_hash@ + "/"@ + fetches[k].entry@.name by {
        keys_are_paths(net, fetches[k].entry@.name);
        assert(kept[k] == fetches[k].entry@);
    }
}

/// The kept index lists exactly the services of the document that was accepted, each with the last entry
/// of its name.
pub proof fn kept_index_is_the_accepted_one(cache: AuthCache, v: IndexView, clock: u64)
    requires
        kept_from(cache, v, clock),
    ensures
        cache.kept_index() matches Some(new) && new.version == v.version && new.expires_at == v.expires_at && new.fetched_at
            == clock && (forall|k: Seq<char>| #[trigger]
            new.services@.dom().contains(k) <==> exists|i: int| 0 <= i < v.services.len() && (#[trigger] v.services[i]).name == k)
            && (forall|i: int|
            0 <= i < v.services.len() && (forall|j: int| i < j < v.services.len() ==> (#[trigger] v.services[j]).name
                != v.services[i].name) ==> new.services@[(#[trigger] v.services[i]).name]@ == v.services[i]),
{
    let s = v.services;
    let new = cache.kept_index()->0;
    entries_by_name_are_last(s);
    let m = new.services@.map_values(|e: ServiceEntry| e@);
    assert forall|k: Seq<char>| #[trigger] new.services@.dom().contains(k) <==> exists|i: int|
        0 <= i < s.len() && (#[trigger] s[i]).name == k by {
        assert(m.dom().contains(k) == new.services@.dom().contains(k));
    }
    assert forall|i: int| 0 <= i < s.len() && (forall|j: int| i < j < s.len() ==> (#[trigger] s[j]).name != s[i].name) implies new.services@[(
    #[trigger] s[i]).name]@ == s[i] by {
        assert(m.dom().contains(s[i].name));
        assert(m[s[i].name] == new.services@[s[i].name]@);
    }
}

proof fn entries_by_name_are_last(s: Seq<EntryView>)
    ensures
        forall|k: Seq<char>| #[trigger] entries_by_name(s).dom().contains(k) <==> exists|i: int|
            0 <= i < s.len() && (#[trigger] s[i]).name == k,
        forall|i: int|
            0 <= i < s.len() && (forall|j: int| i < j < s.len() ==> (#[trigger] s[j]).name != s[i].name) ==> entries_by_name(
                s,
            )[(#[trigger] s[i]).name] == s[i],
    decreases s.len(),
{
    if s.len() > 0 {
        let rest = s.drop_last();
        entries_by_name_are_last(rest);
        assert forall|k: Seq<char>| #[trigger] entries_by_name(s).dom().contains(k) <==> exists|i: int|
            0 <= i < s.len() && (#[trigger] s[i]).name == k by {
            if entries_by_name(rest).dom().contains(k) {
                let i = choose|i: int| 0 <= i < rest.len() && (#[trigger] rest[i]).name == k;
                assert(s[i].name == k);
            }
            if exists|i: int| 0 <= i < s.len() && (#[trigger] s[i]).name == k {
                let i = choose|i: int| 0 <= i < s.len() && (#[trigger] s[i]).name == k;
                if i < rest.len() {
                    assert(rest[i].name == k);
                }
            }
            assert(s[s.len() - 1] == s.last());
        }
        assert forall|i: int|
            0 <= i < s.len() && (forall|j: int| i < j < s.len() ==> (#[trigger] s[j]).name != s[i].name) implies entries_by_name(
            s,
        )[(#[trigger] s[i]).name] == s[i] by {
            if i < rest.len() {
                assert(s[s.len() - 1].name != s[i].name);
                assert(rest[i] == s[i]);
                assert forall|j: int| i < j < rest.len() implies (#[trigger] rest[j]).name != rest[i].name by {
                    assert(s[j].name != s[i].name);
                }
            }
        }
    }
}

} // verus!
