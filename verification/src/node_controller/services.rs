//! Announcing the node's services in the distributed table.

use crate::auth::{is_valid_service_name, service_name};
use crate::config::{ConfigHandle, LocalServiceEntry};
use crate::json::{json_of_texts, json_texts, texts_from_json, texts_to_json};
use crate::text::{join2, same_text, text_views};
use vstd::prelude::*;
use vstd::string::*;

verus! {

/// What the key under which a service's providers announce themselves starts with.
pub const SERVICE_KEY_PREFIX: &'static str = "/oahd/service/";

/// The key of the record that lists the services of the network.
pub const SERVICE_TYPES_KEY: &'static str = "/oahd/service/types";

/// The key under which a service's providers announce themselves.
pub open spec fn provider_key_text(service: Seq<char>) -> Seq<char> {
    SERVICE_KEY_PREFIX@ + service
}

/// The key under which a service's providers announce themselves.
pub fn provider_key(service: &str) -> (r: String)
    ensures
        r@ == provider_key_text(service@),
        r@ == "/oahd/service/"@ + service@,
{
    join2(SERVICE_KEY_PREFIX, service)
}

/// The names of the entries that are names of services, in order.
pub open spec fn valid_names(services: Seq<LocalServiceEntry>) -> Seq<Seq<char>>
    decreases services.len(),
{
    if services.len() == 0 {
        Seq::empty()
    } else if service_name(services.last().name@) {
        valid_names(services.drop_last()).push(services.last().name@)
    } else {
        valid_names(services.drop_last())
    }
}

/// The names of the local services to announce. Where there are none, nothing is announced.
pub fn announced_services(config: &ConfigHandle) -> (r: Vec<String>)
    ensures
        text_views(r@) == valid_names(config.inner.services.dispatcher.local_services@),
{
    let services = &config.inner.services.dispatcher.local_services;
    let mut out: Vec<String> = Vec::new();
    let mut i: usize = 0;
    assert(services@.subrange(0, 0) =~= Seq::<LocalServiceEntry>::empty());
    assert(text_views(out@) =~= valid_names(services@.subrange(0, 0)));
    while i < services.len()
        invariant
            i <= services@.len(),
            text_views(out@) == valid_names(services@.subrange(0, i as int)),
        decreases services@.len() - i,
    {
        proof {
            let upto = services@.subrange(0, i + 1);
            assert(upto.drop_last() =~= services@.subrange(0, i as int));
            assert(upto.last() == services@[i as int]);
        }
        if is_valid_service_name(services[i].name.as_str()) {
            let ghost before = out@;
            out.push(services[i].name.clone());
            assert(text_views(out@) =~= text_views(before).push(services@[i as int].name@));
        }
        i += 1;
    }
    assert(services@.subrange(0, services@.len() as int) =~= services@);
    out
}

/// The services that a record lists; none where there is no record or it is no such list.
pub open spec fn listed_types(record: Option<Seq<u8>>) -> Seq<Seq<char>> {
    match record {
        Some(bytes) => match json_texts(bytes) {
            Some(t) => t,
            None => Seq::empty(),
        },
        None => Seq::empty(),
    }
}

/// Reads the services that a record lists.
pub fn types_in(record: Option<Vec<u8>>) -> (r: Vec<String>)
    ensures
        text_views(r@) == listed_types(crate::bytes::optional_bytes_view(record)),
{
    match record {
        Some(bytes) => match texts_from_json(bytes.as_slice()) {
            Some(t) => t,
            None => {
                let none: Vec<String> = Vec::new();
                assert(text_views(none@) =~= Seq::<Seq<char>>::empty());
                none
            },
        },
        None => {
            let none: Vec<String> = Vec::new();
            assert(text_views(none@) =~= Seq::<Seq<char>>::empty());
            none
        },
    }
}

/// A list with this node's services at its end, each unless it is there already.
pub open spec fn merged(existing: Seq<Seq<char>>, mine: Seq<Seq<char>>) -> Seq<Seq<char>>
    decreases mine.len(),
{
    if mine.len() == 0 {
        existing
    } else {
        let before = merged(existing, mine.drop_last());
        if before.contains(mine.last()) {
            before
        } else {
            before.push(mine.last())
        }
    }
}

fn holds_text(list: &Vec<String>, text: &str) -> (r: bool)
    ensures
        r == text_views(list@).contains(text@),
{
    let ghost all = text_views(list@);
    let mut i: usize = 0;
    while i < list.len()
        invariant
            i <= list@.len(),
            all == text_views(list@),
            forall|j: int| 0 <= j < i ==> all[j] != text@,
        decreases list@.len() - i,
    {
        assert(all[i as int] == list@[i as int]@);
        if same_text(list[i].as_str(), text) {
            return true;
        }
        i += 1;
    }
    false
}

/// The record that lists the services of the network, with this node's services in it: the bytes
/// to store under its key, from those that were found there.
pub fn merge_types(record: Option<Vec<u8>>, mine: &Vec<String>) -> (r: Vec<u8>)
    ensures
        ({
            let all = merged(listed_types(crate::bytes::optional_bytes_view(record)), text_views(mine@));
            r@ == json_of_texts(all) && json_texts(r@) == Some(all)
        }),
{
    let mut types = types_in(record);
    let ghost existing = text_views(types@);
    let ghost names = text_views(mine@);
    let mut i: usize = 0;
    assert(names.subrange(0, 0) =~= Seq::<Seq<char>>::empty());
    while i < mine.len()
        invariant
            i <= mine@.len(),
            names == text_views(mine@),
            text_views(types@) == merged(existing, names.subrange(0, i as int)),
        decreases mine@.len() - i,
    {
        proof {
            let upto = names.subrange(0, i + 1);
            assert(upto.drop_last() =~= names.subrange(0, i as int));
            assert(upto.last() == mine@[i as int]@);
        }
        if !holds_text(&types, mine[i].as_str()) {
            let ghost before = types@;
            types.push(mine[i].clone());
            assert(text_views(types@) =~= text_views(before).push(mine@[i as int]@));
        }
        i += 1;
    }
    assert(names.subrange(0, names.len() as int) =~= names);
    texts_to_json(&types)
}

/// Merging keeps what was listed in front, has every service of this node, adds no service twice,
/// and changes nothing when it is done again.
pub proof fn merging_keeps_and_has_all(existing: Seq<Seq<char>>, mine: Seq<Seq<char>>)
    ensures
        merged(existing, mine).len() >= existing.len(),
        merged(existing, mine).subrange(0, existing.len() as int) == existing,
        forall|i: int| 0 <= i < mine.len() ==> merged(existing, mine).contains(#[trigger] mine[i]),
        existing.no_duplicates() ==> merged(existing, mine).no_duplicates(),
        merged(merged(existing, mine), mine) == merged(existing, mine),
    decreases mine.len(),
{
    merging_has_all(existing, mine);
    merging_what_is_there(merged(existing, mine), mine);
}

proof fn merging_has_all(existing: Seq<Seq<char>>, mine: Seq<Seq<char>>)
    ensures
        merged(existing, mine).len() >= existing.len(),
        merged(existing, mine).subrange(0, existing.len() as int) == existing,
        forall|i: int| 0 <= i < mine.len() ==> merged(existing, mine).contains(#[trigger] mine[i]),
        existing.no_duplicates() ==> merged(existing, mine).no_duplicates(),
    decreases mine.len(),
{
    if mine.len() == 0 {
        assert(existing.subrange(0, existing.len() as int) =~= existing);
    } else {
        let rest = mine.drop_last();
        merging_has_all(existing, rest);
        let before = merged(existing, rest);
        let after = merged(existing, mine);
        assert(after.subrange(0, existing.len() as int) =~= before.subrange(0, existing.len() as int));
        assert forall|i: int| 0 <= i < mine.len() implies after.contains(#[trigger] mine[i]) by {
            if i < rest.len() {
                assert(rest[i] == mine[i]);
                let k = choose|k: int| 0 <= k < before.len() && before[k] == mine[i];
                assert(after[k] == mine[i]);
            } else if !before.contains(mine.last()) {
                assert(after[before.len() as int] == mine[i]);
            }
        }
    }
}

proof fn merging_what_is_there(list: Seq<Seq<char>>, mine: Seq<Seq<char>>)
    requires
        forall|i: int| 0 <= i < mine.len() ==> list.contains(#[trigger] mine[i]),
    ensures
        merged(list, mine) == list,
    decreases mine.len(),
{
    if mine.len() > 0 {
        let rest = mine.drop_last();
        assert forall|i: int| 0 <= i < rest.len() implies list.contains(#[trigger] rest[i]) by {
            assert(rest[i] == mine[i]);
        }
        merging_what_is_there(list, rest);
        assert(list.contains(mine[mine.len() - 1]));
    }
}

/// The announced services are exactly the local services with a service's name, in order, each under
/// its own name.
pub proof fn every_named_service_is_announced(services: Seq<LocalServiceEntry>)
    ensures
        valid_names(services) == services.filter(|e: LocalServiceEntry| service_name(e.name@)).map_values(
            |e: LocalServiceEntry| e.name@,
        ),
        forall|i: int|
            0 <= i < services.len() && service_name((#[trigger] services[i]).name@) ==> valid_names(services).contains(
                services[i].name@,
            ),
        forall|k: int|
            0 <= k < valid_names(services).len() ==> service_name(#[trigger] valid_names(services)[k]) && exists|i: int|
                0 <= i < services.len() && (#[trigger] services[i]).name@ == valid_names(services)[k],
    decreases services.len(),
{
    reveal(Seq::filter);
    let keep = |e: LocalServiceEntry| service_name(e.name@);
    let name = |e: LocalServiceEntry| e.name@;
    if services.len() > 0 {
        let rest = services.drop_last();
        let last = services.len() - 1;
        every_named_service_is_announced(rest);
        let a = valid_names(rest);
        let b = valid_names(services);
        assert(services[last] == services.last());
        if keep(services.last()) {
            assert(rest.filter(keep).push(services.last()).map_values(name) =~= rest.filter(keep).map_values(name).push(
                services.last().name@,
            ));
        }
        assert forall|i: int| 0 <= i < services.len() && service_name((#[trigger] services[i]).name@) implies b.contains(
            services[i].name@,
        ) by {
            if i < last {
                assert(rest[i] == services[i]);
                let k = choose|k: int| 0 <= k < a.len() && a[k] == services[i].name@;
                assert(b[k] == services[i].name@);
            } else {
                assert(b[b.len() - 1] == services[i].name@);
            }
        }
        assert forall|k: int| 0 <= k < b.len() implies service_name(#[trigger] b[k]) && exists|i: int|
            0 <= i < services.len() && (#[trigger] services[i]).name@ == b[k] by {
            if k < a.len() {
                assert(b[k] == a[k]);
                let i = choose|i: int| 0 <= i < rest.len() && (#[trigger] rest[i]).name@ == a[k];
                assert(services[i].name@ == b[k]);
            } else {
                assert(services[last].name@ == b[k]);
            }
        }
    } else {
        assert(services.filter(keep).map_values(name) =~= Seq::<Seq<char>>::empty());
    }
}

/// Merging adds nothing but services of this node that were not listed.
pub proof fn merging_adds_only_mine(existing: Seq<Seq<char>>, mine: Seq<Seq<char>>)
    ensures
        forall|k: int|
            existing.len() <= k < merged(existing, mine).len() ==> mine.contains(#[trigger] merged(existing, mine)[k])
                && !existing.contains(merged(existing, mine)[k]),
    decreases mine.len(),
{
    if mine.len() > 0 {
        let rest = mine.drop_last();
        merging_adds_only_mine(existing, rest);
        merging_has_all(existing, rest);
        let before = merged(existing, rest);
        let after = merged(existing, mine);
        assert forall|k: int| 0 <= k < existing.len() implies #[trigger] before[k] == existing[k] by {
            assert(before.subrange(0, existing.len() as int)[k] == existing[k]);
        }
        assert forall|k: int| existing.len() <= k < after.len() implies mine.contains(#[trigger] after[k])
            && !existing.contains(after[k]) by {
            if k < before.len() {
                assert(after[k] == before[k]);
                let m = choose|m: int| 0 <= m < rest.len() && rest[m] == before[k];
                assert(mine[m] == after[k]);
            } else {
                assert(mine[mine.len() - 1] == after[k]);
                if existing.contains(after[k]) {
                    let m = choose|m: int| 0 <= m < existing.len() && existing[m] == after[k];
                    assert(before[m] == after[k]);
                }
            }
        }
    }
}

/// A service's providers announce themselves under its name behind the network's prefix, and the list
/// of services has a key of its own. A record that is no list of texts, or is not there, lists nothing.
pub proof fn service_keys(service: Seq<char>, bytes: Seq<u8>)
    ensures
        provider_key_text(service) == "/oahd/service/"@ + service,
        SERVICE_TYPES_KEY@ == "/oahd/service/types"@,
        listed_types(None) == Seq::<Seq<char>>::empty(),
        json_texts(bytes) is None ==> listed_types(Some(bytes)) == Seq::<Seq<char>>::empty(),
        json_texts(bytes) matches Some(t) ==> listed_types(Some(bytes)) == t,
{
}

} // verus!
