//! Announcements of services in the distributed table, one's own and those of others.

use crate::auth::now_unix;
use crate::bytes::{copy_bytes, push_bytes};
use crate::json::{
    json_encoding, nested_deeper, text_list, texts_tree, tree_nested, write_json, JsonTree, JsonView,
    ObjectBuilder, MAX_JSON_DEPTH,
};
use crate::name_map::NameMap;
use crate::text::{copy_texts, lossy_text, starts_with, strip_prefix, text_of_bytes, text_views};
use vstd::prelude::*;
use vstd::string::*;
use vstd::utf8::encode_utf8;

verus! {

/// Well-known services.
pub const SERVICE_COLD_STORAGE: &'static str = "cold-storage";

pub const SERVICE_OCR: &'static str = "ocr";

pub const SERVICE_RELAY: &'static str = "relay";

/// What the key of an announcement starts with.
pub const SD_KEY_PREFIX: &'static str = "/oahd/sd/";

/// Whether announcements are used, which services this node announces, and for how many seconds.
#[derive(Debug)]
pub struct ServiceDiscoveryConfig {
    pub enabled: bool,
    pub services: Vec<String>,
    pub record_ttl_secs: u64,
}

/// An announcement.
#[derive(Debug)]
pub struct ServiceInfo {
    pub service_type: String,
    /// The peer id of the provider.
    pub provider: String,
    /// The addresses of the service.
    pub addrs: Vec<String>,
    /// The version of the provider's program.
    pub version: String,
    pub metadata: NameMap<String>,
    /// When it was announced, in Unix seconds.
    pub timestamp: u64,
    /// For how many seconds it holds.
    pub ttl: u64,
}

/// The key of a service's announcements.
pub open spec fn announcement_key(service_type: Seq<char>) -> Seq<u8> {
    encode_utf8(SD_KEY_PREFIX@) + encode_utf8(service_type)
}

/// The members of the JSON object that an announcement is written as.
pub open spec fn info_json(i: ServiceInfo) -> Map<Seq<char>, JsonView> {
    map![
        "service_type"@ => JsonView::Text(i.service_type@),
        "provider"@ => JsonView::Text(i.provider@),
        "addrs"@ => text_list(text_views(i.addrs@)),
        "version"@ => JsonView::Text(i.version@),
        "metadata"@ => JsonView::Object(metadata_json(i.metadata@)),
        "timestamp"@ => JsonView::Number(i.timestamp),
        "ttl"@ => JsonView::Number(i.ttl)
    ]
}

/// The members of the JSON object that metadata is written as.
pub open spec fn metadata_json(m: Map<Seq<char>, String>) -> Map<Seq<char>, JsonView> {
    m.map_values(|t: String| JsonView::Text(t@))
}

/// The bytes of the record that an announcement is stored as.
pub open spec fn info_bytes(i: ServiceInfo) -> Seq<u8> {
    json_encoding(JsonView::Object(info_json(i)))
}

/// A record of the distributed table.
#[derive(Debug)]
pub struct AnnounceRecord {
    pub key: Vec<u8>,
    pub value: Vec<u8>,
}

/// Whether a record is the one of an announcement.
pub open spec fn record_of(r: AnnounceRecord, i: ServiceInfo) -> bool {
    r.key@ == announcement_key(i.service_type@) && r.value@ == info_bytes(i)
}

fn metadata_tree(m: &NameMap<String>) -> (r: JsonTree)
    ensures
        r@ == JsonView::Object(metadata_json(m@)),
        tree_nested(r, 1),
{
    let n: usize = m.len();
    let ghost order = m.order();
    let mut o = ObjectBuilder::new();
    let mut i: usize = 0;
    while i < n
        invariant
            i <= n,
            n == order.len(),
            order == m.order(),
            o.nested_to(0),
            forall|k: Seq<char>| order.contains(k) <==> m@.dom().contains(k),
            forall|k: Seq<char>| #[trigger] o@.dom().contains(k) <==> order.subrange(0, i as int).contains(k),
            forall|k: Seq<char>| #[trigger] o@.dom().contains(k) ==> o@[k] == JsonView::Text(m@[k]@),
        decreases n - i,
    {
        let ghost before = order.subrange(0, i as int);
        let ghost after = order.subrange(0, i + 1);
        proof {
            assert(after =~= before.push(order[i as int]));
            assert forall|k: Seq<char>| after.contains(k) <==> before.contains(k) || k == order[i as int] by {
                if before.contains(k) {
                    let j = choose|j: int| 0 <= j < before.len() && before[j] == k;
                    assert(after[j] == k);
                }
                if after.contains(k) && k != order[i as int] {
                    let j = choose|j: int| 0 <= j < after.len() && after[j] == k;
                    assert(before[j] == k);
                }
                assert(after[i as int] == order[i as int]);
            }
        }
        o.put(m.key_at(i).as_str(), JsonTree::Text(m.value_at(i).clone()));
        i += 1;
    }
    proof {
        assert(order.subrange(0, n as int) =~= order);
        assert(o@ =~= metadata_json(m@));
        assert(o.nested_to(0));
    }
    o.object()
}

impl ServiceInfo {
    /// The record of the announcement: its key, and the announcement as a JSON object.
    pub fn record(&self) -> (r: AnnounceRecord)
        ensures
            record_of(r, *self),
    {
        let mut o = ObjectBuilder::new();
        o.put("service_type", JsonTree::Text(self.service_type.clone()));
        o.put("provider", JsonTree::Text(self.provider.clone()));
        o.put("addrs", texts_tree(&self.addrs));
        o.put("version", JsonTree::Text(self.version.clone()));
        o.put("metadata", metadata_tree(&self.metadata));
        o.put("timestamp", JsonTree::Number(self.timestamp));
        o.put("ttl", JsonTree::Number(self.ttl));
        assert(o.nested_to(1));
        let t = o.object();
        proof {
            nested_deeper(t, 2, MAX_JSON_DEPTH as nat);
        }
        AnnounceRecord { key: ServiceInfo::record_key(self.service_type.as_str()), value: write_json(&t) }
    }

    /// Whether the end of the announcement is a time that can be written.
    pub open spec fn bounded(&self) -> bool {
        self.timestamp + self.ttl <= u64::MAX
    }

    /// Whether the announcement is past its end.
    pub open spec fn expired(&self, now: u64) -> bool {
        now > self.timestamp + self.ttl
    }

    /// An announcement made at a time, by a program of some version.
    pub fn new(
        service_type: &str,
        provider: &str,
        addrs: Vec<String>,
        metadata: NameMap<String>,
        ttl: u64,
        now: u64,
        version: &str,
    ) -> (r: Self)
        ensures
            r.service_type@ == service_type@,
            r.provider@ == provider@,
            r.addrs == addrs,
            r.version@ == version@,
            r.metadata == metadata,
            r.timestamp == now,
            r.ttl == ttl,
    {
        ServiceInfo {
            service_type: service_type.to_owned(),
            provider: provider.to_owned(),
            addrs,
            version: version.to_owned(),
            metadata,
            timestamp: now,
            ttl,
        }
    }

    /// Whether the announcement is past its end at a time.
    pub fn is_expired_at(&self, now: u64) -> (r: bool)
        requires
            self.bounded(),
        ensures
            r == self.expired(now),
    {
        now > self.timestamp + self.ttl
    }

    /// Whether the announcement is past its end now.
    pub fn is_expired(&self) -> (r: bool)
        requires
            self.bounded(),
        ensures
            exists|now: u64| r == #[trigger] self.expired(now),
    {
        let now: u64 = now_unix();
        self.is_expired_at(now)
    }

    /// The key of a service's announcements.
    pub fn record_key(service_type: &str) -> (r: Vec<u8>)
        ensures
            r@ == announcement_key(service_type@),
    {
        let mut key = copy_bytes(SD_KEY_PREFIX.as_bytes());
        push_bytes(&mut key, service_type.as_bytes());
        key
    }
}

/// The announcements of this node, and those that were found.
pub struct ServiceDiscovery {
    pub config: ServiceDiscoveryConfig,
    pub local_peer_id: String,
    /// One's own, by service.
    pub local_services: NameMap<ServiceInfo>,
    /// Those that were found, by service.
    pub cached_services: NameMap<Vec<ServiceInfo>>,
}

/// Whether every announcement that was found has an end that can be written.
pub open spec fn all_bounded(m: Map<Seq<char>, Vec<ServiceInfo>>) -> bool {
    forall|k: Seq<char>, i: int|
        m.dom().contains(k) && 0 <= i < m[k]@.len() ==> (#[trigger] m[k]@[i]).bounded()
}

/// The announcements that are not past their end, in order.
pub open spec fn live(infos: Seq<ServiceInfo>, now: u64) -> Seq<ServiceInfo>
    decreases infos.len(),
{
    if infos.len() == 0 {
        Seq::empty()
    } else if infos.last().expired(now) {
        live(infos.drop_last(), now)
    } else {
        live(infos.drop_last(), now).push(infos.last())
    }
}

/// How many announcements are past their end.
pub open spec fn expired_in(order: Seq<Seq<char>>, m: Map<Seq<char>, Vec<ServiceInfo>>, now: u64) -> nat
    decreases order.len(),
{
    if order.len() == 0 {
        0
    } else {
        let infos = m[order.last()]@;
        expired_in(order.drop_last(), m, now) + (infos.len() - live(infos, now).len()) as nat
    }
}

proof fn live_is_shorter(infos: Seq<ServiceInfo>, now: u64)
    ensures
        live(infos, now).len() <= infos.len(),
    decreases infos.len(),
{
    if infos.len() > 0 {
        live_is_shorter(infos.drop_last(), now);
    }
}

/// What is live is not past its end; and what is not past its end is live.
pub proof fn live_is_exact(infos: Seq<ServiceInfo>, now: u64)
    ensures
        live(infos, now).len() <= infos.len(),
        forall|i: int| 0 <= i < live(infos, now).len() ==> !(#[trigger] live(infos, now)[i]).expired(now) && infos.contains(
            live(infos, now)[i],
        ),
        forall|i: int| 0 <= i < infos.len() && !(#[trigger] infos[i]).expired(now) ==> live(infos, now).contains(infos[i]),
    decreases infos.len(),
{
    if infos.len() > 0 {
        let before = infos.drop_last();
        live_is_exact(before, now);
        let l = live(before, now);
        let all = live(infos, now);
        assert forall|i: int| 0 <= i < all.len() implies !(#[trigger] all[i]).expired(now) && infos.contains(all[i]) by {
            if i < l.len() {
                assert(all[i] == l[i]);
                let k = choose|k: int| 0 <= k < before.len() && before[k] == l[i];
                assert(infos[k] == all[i]);
            } else {
                assert(infos[infos.len() - 1] == all[i]);
            }
        }
        assert forall|i: int| 0 <= i < infos.len() && !(#[trigger] infos[i]).expired(now) implies all.contains(infos[i]) by {
            if i < before.len() {
                assert(before[i] == infos[i]);
                let k = choose|k: int| 0 <= k < l.len() && l[k] == infos[i];
                assert(all[k] == infos[i]);
            } else {
                assert(all[l.len() as int] == infos[i]);
            }
        }
    }
}

/// Whether an announcement is the one of a service that a new node makes.
pub open spec fn fresh_announcement(info: ServiceInfo, service: Seq<char>, peer: Seq<char>, ttl: u64, now: u64, version: Seq<char>) -> bool {
    &&& info.service_type@ == service
    &&& info.provider@ == peer
    &&& info.addrs@.len() == 0
    &&& info.version@ == version
    &&& info.metadata@ == Map::<Seq<char>, String>::empty()
    &&& info.timestamp == now
    &&& info.ttl == ttl
}

/// An announcement with other addresses.
pub open spec fn with_addrs(a: ServiceInfo, b: ServiceInfo, addrs: Seq<String>) -> bool {
    b == (ServiceInfo { addrs: b.addrs, ..a }) && b.addrs@ == addrs
}

impl ServiceDiscovery {
    /// Announces each configured service, without addresses yet.
    pub fn new(config: ServiceDiscoveryConfig, local_peer_id: String, now: u64, version: &str) -> (r: Self)
        ensures
            r.config == config,
            r.local_peer_id == local_peer_id,
            r.cached_services@ == Map::<Seq<char>, Vec<ServiceInfo>>::empty(),
            forall|k: Seq<char>| #[trigger]
                r.local_services@.dom().contains(k) <==> exists|i: int|
                    0 <= i < config.services@.len() && (#[trigger] config.services@[i])@ == k,
            forall|k: Seq<char>| #[trigger]
                r.local_services@.dom().contains(k) ==> fresh_announcement(
                    r.local_services@[k],
                    k,
                    local_peer_id@,
                    config.record_ttl_secs,
                    now,
                    version@,
                ),
    {
        let mut local_services: NameMap<ServiceInfo> = NameMap::new();
        let mut i: usize = 0;
        while i < config.services.len()
            invariant
                i <= config.services@.len(),
                forall|k: Seq<char>| #[trigger]
                    local_services@.dom().contains(k) <==> exists|j: int|
                        0 <= j < i && (#[trigger] config.services@[j])@ == k,
                forall|k: Seq<char>| #[trigger]
                    local_services@.dom().contains(k) ==> fresh_announcement(
                        local_services@[k],
                        k,
                        local_peer_id@,
                        config.record_ttl_secs,
                        now,
                        version@,
                    ),
            decreases config.services@.len() - i,
        {
            let service = config.services[i].clone();
            let none: Vec<String> = Vec::new();
            let info = ServiceInfo::new(
                service.as_str(),
                local_peer_id.as_str(),
                none,
                NameMap::new(),
                config.record_ttl_secs,
                now,
                version,
            );
            let ghost before = local_services@;
            let ghost name = service@;
            local_services.insert(service, info);
            proof {
                assert forall|k: Seq<char>| #[trigger] local_services@.dom().contains(k) <==> exists|j: int|
                    0 <= j < i + 1 && (#[trigger] config.services@[j])@ == k by {
                    if before.dom().contains(k) {
                        let j = choose|j: int| 0 <= j < i && (#[trigger] config.services@[j])@ == k;
                        assert(config.services@[j]@ == k);
                    }
                    if k == name {
                        assert(config.services@[i as int]@ == k);
                    }
                }
            }
            i += 1;
        }
        ServiceDiscovery { config, local_peer_id, local_services, cached_services: NameMap::new() }
    }

    /// Sets the addresses of every announcement of this node.
    pub fn set_addresses(&mut self, addrs: &Vec<String>)
        ensures
            final(self).local_services@.dom() == old(self).local_services@.dom(),
            forall|k: Seq<char>| #[trigger]
                old(self).local_services@.dom().contains(k) ==> with_addrs(
                    old(self).local_services@[k],
                    final(self).local_services@[k],
                    addrs@,
                ),
            *final(self) == (ServiceDiscovery { local_services: final(self).local_services, ..*old(self) }),
    {
        let keys = self.local_services.keys();
        let ghost o = self.local_services.order();
        let ghost m = self.local_services@;
        let mut i: usize = 0;
        while i < keys.len()
            invariant
                i <= keys@.len(),
                keys@.map_values(|t: String| t@) == o,
                o.no_duplicates(),
                forall|k: Seq<char>| o.contains(k) <==> m.dom().contains(k),
                self.local_services@.dom() =~= m.dom(),
                forall|j: int|
                    0 <= j < i ==> with_addrs(m[#[trigger] o[j]], self.local_services@[o[j]], addrs@),
                forall|j: int| i <= j < o.len() ==> self.local_services@[#[trigger] o[j]] == m[o[j]],
                *self == (ServiceDiscovery { local_services: self.local_services, ..*old(self) }),
            decreases keys@.len() - i,
        {
            let ghost k = o[i as int];
            assert(keys@[i as int]@ == k);
            assert(o.contains(k));
            match self.local_services.remove(keys[i].as_str()) {
                Some(info) => {
                    let updated = ServiceInfo {
                        service_type: info.service_type,
                        provider: info.provider,
                        addrs: copy_texts(addrs),
                        version: info.version,
                        metadata: info.metadata,
                        timestamp: info.timestamp,
                        ttl: info.ttl,
                    };
                    self.local_services.insert(keys[i].clone(), updated);
                },
                None => {
                    assert(false);
                },
            }
            i += 1;
        }
        proof {
            assert forall|k: Seq<char>| #[trigger] m.dom().contains(k) implies with_addrs(
                m[k],
                self.local_services@[k],
                addrs@,
            ) by {
                assert(o.contains(k));
                let j = choose|j: int| 0 <= j < o.len() && o[j] == k;
                assert(with_addrs(m[o[j]], self.local_services@[o[j]], addrs@));
            }
        }
    }

    /// What this node is to announce: the record of each announcement.
    pub fn get_announce_records(&self) -> (r: Vec<AnnounceRecord>)
        ensures
            r@.len() == self.local_services.order().len(),
            forall|i: int|
                0 <= i < r@.len() ==> record_of(
                    #[trigger] r@[i],
                    self.local_services@[self.local_services.order()[i]],
                ),
    {
        let n: usize = self.local_services.len();
        let mut out: Vec<AnnounceRecord> = Vec::new();
        let mut i: usize = 0;
        while i < n
            invariant
                n == self.local_services.order().len(),
                i <= n,
                out@.len() == i,
                forall|j: int|
                    0 <= j < i ==> record_of(
                        #[trigger] out@[j],
                        self.local_services@[self.local_services.order()[j]],
                    ),
            decreases n - i,
        {
            out.push(self.local_services.value_at(i).record());
            i += 1;
        }
        out
    }

    /// The key to ask for a service's announcements, unless announcements are off.
    pub fn query_service(&self, service_type: &str) -> (r: Option<Vec<u8>>)
        ensures
            match r {
                Some(key) => self.config.enabled && key@ == announcement_key(service_type@),
                None => !self.config.enabled,
            },
    {
        if !self.config.enabled {
            return None;
        }
        Some(ServiceInfo::record_key(service_type))
    }

    /// Keeps an announcement that was found under a key, unless the key is none of an announcement,
    /// the record was none, or it is past its end. It is kept for the service that the key names.
    pub fn handle_get_record_ok(&mut self, key: &[u8], info: Option<ServiceInfo>, now: u64)
        requires
            info matches Some(i) ==> i.bounded(),
        ensures
            ({
                let text = lossy_text(key@);
                let service = text.subrange(SD_KEY_PREFIX@.len() as int, text.len() as int);
                let before = old(self).cached_services@;
                let after = final(self).cached_services@;
                if starts_with(text, SD_KEY_PREFIX@) && (info matches Some(i) && !i.expired(now)) {
                    &&& after.dom().contains(service)
                    &&& after == before.insert(service, after[service])
                    &&& after[service]@ == (if before.dom().contains(service) {
                        before[service]@.push(info->0)
                    } else {
                        seq![info->0]
                    })
                } else {
                    *final(self) == *old(self)
                }
            }),
            *final(self) == (ServiceDiscovery { cached_services: final(self).cached_services, ..*old(self) }),
            all_bounded(old(self).cached_services@) ==> all_bounded(final(self).cached_services@),
    {
        let text = text_of_bytes(key);
        let service = match strip_prefix(text.as_str(), SD_KEY_PREFIX) {
            Some(s) => s,
            None => {
                return;
            },
        };
        let info = match info {
            Some(i) => i,
            None => {
                return;
            },
        };
        if info.is_expired_at(now) {
            return;
        }
        let ghost before = self.cached_services@;
        let mut infos: Vec<ServiceInfo> = match self.cached_services.remove(service.as_str()) {
            Some(v) => v,
            None => Vec::new(),
        };
        infos.push(info);
        let ghost name = service@;
        self.cached_services.insert(service, infos);
        proof {
            let after = self.cached_services@;
            assert(after =~= before.insert(name, after[name]));
            assert(!before.dom().contains(name) ==> after[name]@ =~= seq![info]);
            if all_bounded(before) {
                assert forall|k: Seq<char>, i: int| after.dom().contains(k) && 0 <= i < after[k]@.len() implies (#[trigger] after[k]@[i]).bounded() by {
                    if k == name {
                        if before.dom().contains(name) && i < before[name]@.len() {
                            assert(before[name]@[i].bounded());
                        }
                    } else {
                        assert(before[k]@[i].bounded());
                    }
                }
            }
        }
    }

    /// The announcements of a service that were found and are not past their end.
    pub fn get_cached_providers(&self, service_type: &str, now: u64) -> (r: Vec<&ServiceInfo>)
        requires
            all_bounded(self.cached_services@),
        ensures
            ({
                let found = if self.cached_services@.dom().contains(service_type@) {
                    live(self.cached_services@[service_type@]@, now)
                } else {
                    Seq::empty()
                };
                r@.len() == found.len() && forall|i: int| 0 <= i < r@.len() ==> *(#[trigger] r@[i]) == found[i]
            }),
    {
        let mut out: Vec<&ServiceInfo> = Vec::new();
        match self.cached_services.get(service_type) {
            Some(infos) => {
                let mut i: usize = 0;
                assert(infos@.subrange(0, 0) =~= Seq::<ServiceInfo>::empty());
                while i < infos.len()
                    invariant
                        i <= infos@.len(),
                        forall|j: int| 0 <= j < infos@.len() ==> (#[trigger] infos@[j]).bounded(),
                        out@.len() == live(infos@.subrange(0, i as int), now).len(),
                        forall|j: int|
                            0 <= j < out@.len() ==> *(#[trigger] out@[j]) == live(infos@.subrange(0, i as int), now)[j],
                    decreases infos@.len() - i,
                {
                    proof {
                        let upto = infos@.subrange(0, i + 1);
                        assert(upto.drop_last() =~= infos@.subrange(0, i as int));
                        assert(upto.last() == infos@[i as int]);
                    }
                    if !infos[i].is_expired_at(now) {
                        out.push(&infos[i]);
                    }
                    i += 1;
                }
                assert(infos@.subrange(0, infos@.len() as int) =~= infos@);
            },
            None => {},
        }
        out
    }

    /// All announcements that were found and are not past their end.
    pub fn get_all_cached(&self, now: u64) -> (r: Vec<&ServiceInfo>)
        requires
            all_bounded(self.cached_services@),
        ensures
            ({
                let found = all_live(self.cached_services.order(), self.cached_services@, now);
                r@.len() == found.len() && forall|i: int| 0 <= i < r@.len() ==> *(#[trigger] r@[i]) == found[i]
            }),
    {
        let n: usize = self.cached_services.len();
        let ghost o = self.cached_services.order();
        let ghost m = self.cached_services@;
        let mut out: Vec<&ServiceInfo> = Vec::new();
        let mut k: usize = 0;
        assert(o.subrange(0, 0) =~= Seq::<Seq<char>>::empty());
        while k < n
            invariant
                n == o.len(),
                o == self.cached_services.order(),
                m == self.cached_services@,
                k <= n,
                all_bounded(m),
                out@.len() == all_live(o.subrange(0, k as int), m, now).len(),
                forall|j: int|
                    0 <= j < out@.len() ==> *(#[trigger] out@[j]) == all_live(o.subrange(0, k as int), m, now)[j],
            decreases n - k,
        {
            let infos = self.cached_services.value_at(k);
            let ghost had = all_live(o.subrange(0, k as int), m, now);
            proof {
                let upto = o.subrange(0, k + 1);
                assert(upto.drop_last() =~= o.subrange(0, k as int));
                assert(upto.last() == o[k as int]);
                assert forall|j: int| 0 <= j < infos@.len() implies (#[trigger] infos@[j]).bounded() by {
                    assert(m[o[k as int]]@[j].bounded());
                }
            }
            let mut i: usize = 0;
            assert(infos@.subrange(0, 0) =~= Seq::<ServiceInfo>::empty());
            while i < infos.len()
                invariant
                    i <= infos@.len(),
                    forall|j: int| 0 <= j < infos@.len() ==> (#[trigger] infos@[j]).bounded(),
                    out@.len() == (had + live(infos@.subrange(0, i as int), now)).len(),
                    forall|j: int|
                        0 <= j < out@.len() ==> *(#[trigger] out@[j]) == (had + live(
                            infos@.subrange(0, i as int),
                            now,
                        ))[j],
                decreases infos@.len() - i,
            {
                proof {
                    let upto = infos@.subrange(0, i + 1);
                    assert(upto.drop_last() =~= infos@.subrange(0, i as int));
                    assert(upto.last() == infos@[i as int]);
                }
                if !infos[i].is_expired_at(now) {
                    out.push(&infos[i]);
                }
                i += 1;
            }
            assert(infos@.subrange(0, infos@.len() as int) =~= infos@);
            k += 1;
        }
        assert(o.subrange(0, n as int) =~= o);
        out
    }

    /// Whether this node announces a service.
    pub fn has_local_service(&self, service_type: &str) -> (r: bool)
        ensures
            r == self.local_services@.dom().contains(service_type@),
    {
        self.local_services.contains(service_type)
    }

    /// All announcements of this node.
    pub fn list_local_services(&self) -> (r: Vec<&ServiceInfo>)
        ensures
            r@.len() == self.local_services.order().len(),
            forall|i: int|
                0 <= i < r@.len() ==> *(#[trigger] r@[i]) == self.local_services@[self.local_services.order()[i]],
    {
        let n: usize = self.local_services.len();
        let mut out: Vec<&ServiceInfo> = Vec::new();
        let mut i: usize = 0;
        while i < n
            invariant
                n == self.local_services.order().len(),
                i <= n,
                out@.len() == i,
                forall|j: int|
                    0 <= j < i ==> *(#[trigger] out@[j]) == self.local_services@[self.local_services.order()[j]],
            decreases n - i,
        {
            out.push(self.local_services.value_at(i));
            i += 1;
        }
        out
    }

    /// Whether announcements are used.
    pub fn is_enabled(&self) -> (r: bool)
        ensures
            r == self.config.enabled,
    {
        self.config.enabled
    }

    /// Takes out the announcements that are past their end, and the services without any left. Says
    /// how many announcements it took out. All that are not past their end stay, in their order, and so
    /// does everything else. Nothing past its end is left: doing it again at that time takes nothing out.
    pub fn purge_expired_cache(&mut self, now: u64) -> (r: usize)
        requires
            all_bounded(old(self).cached_services@),
            expired_in(old(self).cached_services.order(), old(self).cached_services@, now) <= usize::MAX,
        ensures
            r as nat == expired_in(old(self).cached_services.order(), old(self).cached_services@, now),
            ({
                let before = old(self).cached_services@;
                let after = final(self).cached_services@;
                &&& forall|k: Seq<char>| #[trigger]
                    after.dom().contains(k) <==> before.dom().contains(k) && live(before[k]@, now).len() > 0
                &&& forall|k: Seq<char>| #[trigger] after.dom().contains(k) ==> after[k]@ == live(before[k]@, now)
            }),
            all_bounded(final(self).cached_services@),
            all_live(final(self).cached_services.order(), final(self).cached_services@, now)
                == all_live(old(self).cached_services.order(), old(self).cached_services@, now),
            expired_in(final(self).cached_services.order(), final(self).cached_services@, now) == 0,
            *final(self) == (ServiceDiscovery { cached_services: final(self).cached_services, ..*old(self) }),
    {
        let keys = self.cached_services.keys();
        let ghost o = self.cached_services.order();
        let ghost m = self.cached_services@;
        let mut kept: NameMap<Vec<ServiceInfo>> = NameMap::new();
        let mut total: usize = 0;
        let mut i: usize = 0;
        assert(o.subrange(0, 0) =~= Seq::<Seq<char>>::empty());
        assert forall|j: int| 0 <= j < o.len() implies m.dom().contains(#[trigger] o[j]) by {
            assert(o.contains(o[j]));
        }
        while i < keys.len()
            invariant
                i <= keys@.len(),
                keys@.map_values(|t: String| t@) == o,
                o.no_duplicates(),
                forall|k: Seq<char>| o.contains(k) <==> m.dom().contains(k),
                all_bounded(m),
                expired_in(o, m, now) <= usize::MAX,
                total as nat == expired_in(o.subrange(0, i as int), m, now),
                forall|j: int| i <= j < o.len() ==> self.cached_services@.dom().contains(#[trigger] o[j])
                    && self.cached_services@[o[j]] == m[o[j]],
                forall|k: Seq<char>| #[trigger]
                    kept@.dom().contains(k) <==> o.subrange(0, i as int).contains(k) && live(m[k]@, now).len() > 0,
                forall|k: Seq<char>| #[trigger] kept@.dom().contains(k) ==> kept@[k]@ == live(m[k]@, now),
                forall|j: int| 0 <= j < kept.order().len() ==> kept@.dom().contains(#[trigger] kept.order()[j]),
                all_live(kept.order(), kept@, now) == all_live(o.subrange(0, i as int), m, now),
                *self == (ServiceDiscovery { cached_services: self.cached_services, ..*old(self) }),
            decreases keys@.len() - i,
        {
            let ghost k = o[i as int];
            let ghost before = o.subrange(0, i as int);
            let ghost after = o.subrange(0, i + 1);
            proof {
                assert(keys@[i as int]@ == k);
                assert(o.contains(k));
                assert(after.drop_last() =~= before);
                assert(after =~= before.push(k));
                assert forall|q: Seq<char>| after.contains(q) <==> before.contains(q) || q == k by {
                    if before.contains(q) {
                        let j = choose|j: int| 0 <= j < before.len() && before[j] == q;
                        assert(after[j] == q);
                    }
                    if after.contains(q) && q != k {
                        let j = choose|j: int| 0 <= j < after.len() && after[j] == q;
                        assert(before[j] == q);
                    }
                    assert(after[i as int] == k);
                }
                expired_grows(o, m, now, i + 1);
            }
            match self.cached_services.remove(keys[i].as_str()) {
                Some(infos) => {
                    proof {
                        assert forall|j: int| 0 <= j < infos@.len() implies (#[trigger] infos@[j]).bounded() by {
                            assert(m[k]@[j].bounded());
                        }
                        live_is_shorter(infos@, now);
                    }
                    let all: usize = infos.len();
                    let left = keep_live(infos, now);
                    total = total + (all - left.len());
                    proof {
                        live_again(m[k]@, now);
                        live_of_others(kept.order(), kept@, k, left, now);
                        assert(kept.order().push(k).drop_last() =~= kept.order());
                    }
                    if left.len() > 0 {
                        kept.insert(keys[i].clone(), left);
                    }
                },
                None => {
                    assert(false);
                },
            }
            i += 1;
        }
        assert(o.subrange(0, o.len() as int) =~= o);
        proof {
            let after = kept@;
            let order = kept.order();
            assert forall|k: Seq<char>, i: int| after.dom().contains(k) && 0 <= i < after[k]@.len() implies (#[trigger] after[k]@[i]).bounded() by {
                live_is_exact(m[k]@, now);
                let j = choose|j: int| 0 <= j < m[k]@.len() && m[k]@[j] == live(m[k]@, now)[i];
                assert(m[k]@[j].bounded());
            }
            assert forall|i: int| 0 <= i < order.len() implies live(after[#[trigger] order[i]]@, now) == after[order[i]]@ by {
                assert(after.dom().contains(order[i]));
                live_again(m[order[i]]@, now);
            }
            none_expired(order, after, now);
        }
        self.cached_services = kept;
        total
    }

    /// Sets the addresses of every announcement of this node, and gives what is to be announced.
    pub fn reannounce(&mut self, addrs: &Vec<String>) -> (r: Vec<AnnounceRecord>)
        ensures
            final(self).local_services@.dom() == old(self).local_services@.dom(),
            forall|k: Seq<char>| #[trigger]
                old(self).local_services@.dom().contains(k) ==> with_addrs(
                    old(self).local_services@[k],
                    final(self).local_services@[k],
                    addrs@,
                ),
            *final(self) == (ServiceDiscovery { local_services: final(self).local_services, ..*old(self) }),
            r@.len() == final(self).local_services.order().len(),
            forall|i: int|
                0 <= i < r@.len() ==> record_of(
                    #[trigger] r@[i],
                    final(self).local_services@[final(self).local_services.order()[i]],
                ),
    {
        self.set_addresses(addrs);
        self.get_announce_records()
    }

    /// Announces one more service of this node; an announcement of that service is replaced. The
    /// record to announce.
    pub fn add_local_service(
        &mut self,
        service_type: &str,
        addrs: Vec<String>,
        metadata: NameMap<String>,
        now: u64,
        version: &str,
    ) -> (r: AnnounceRecord)
        ensures
            r.key@ == announcement_key(service_type@),
            record_of(r, final(self).local_services@[service_type@]),
            ({
                let after = final(self).local_services@;
                let info = after[service_type@];
                &&& after == old(self).local_services@.insert(service_type@, info)
                &&& info.service_type@ == service_type@
                &&& info.provider@ == old(self).local_peer_id@
                &&& info.addrs == addrs
                &&& info.version@ == version@
                &&& info.metadata == metadata
                &&& info.timestamp == now
                &&& info.ttl == old(self).config.record_ttl_secs
            }),
            *final(self) == (ServiceDiscovery { local_services: final(self).local_services, ..*old(self) }),
    {
        let info = ServiceInfo::new(
            service_type,
            self.local_peer_id.as_str(),
            addrs,
            metadata,
            self.config.record_ttl_secs,
            now,
            version,
        );
        let record = info.record();
        self.local_services.insert(service_type.to_owned(), info);
        record
    }
}

/// All announcements of some services that are not past their end, in order.
pub open spec fn all_live(order: Seq<Seq<char>>, m: Map<Seq<char>, Vec<ServiceInfo>>, now: u64) -> Seq<ServiceInfo>
    decreases order.len(),
{
    if order.len() == 0 {
        Seq::empty()
    } else {
        all_live(order.drop_last(), m, now) + live(m[order.last()]@, now)
    }
}

/// What is not past its end stays so at the same time.
proof fn live_again(infos: Seq<ServiceInfo>, now: u64)
    ensures
        live(live(infos, now), now) == live(infos, now),
    decreases infos.len(),
{
    if infos.len() > 0 {
        live_again(infos.drop_last(), now);
        let before = live(infos.drop_last(), now);
        assert(before.push(infos.last()).drop_last() =~= before);
    }
}

/// What some services have does not depend on what another has.
proof fn live_of_others(
    order: Seq<Seq<char>>,
    m: Map<Seq<char>, Vec<ServiceInfo>>,
    k: Seq<char>,
    infos: Vec<ServiceInfo>,
    now: u64,
)
    requires
        !m.dom().contains(k),
        forall|i: int| 0 <= i < order.len() ==> m.dom().contains(#[trigger] order[i]),
    ensures
        all_live(order, m.insert(k, infos), now) == all_live(order, m, now),
    decreases order.len(),
{
    if order.len() > 0 {
        assert(m.dom().contains(order[order.len() - 1]));
        assert forall|i: int| 0 <= i < order.len() - 1 implies m.dom().contains(#[trigger] order.drop_last()[i]) by {
            assert(m.dom().contains(order[i]));
        }
        live_of_others(order.drop_last(), m, k, infos, now);
    }
}

proof fn none_expired(order: Seq<Seq<char>>, m: Map<Seq<char>, Vec<ServiceInfo>>, now: u64)
    requires
        forall|i: int| 0 <= i < order.len() ==> live(m[#[trigger] order[i]]@, now) == m[order[i]]@,
    ensures
        expired_in(order, m, now) == 0,
    decreases order.len(),
{
    if order.len() > 0 {
        let before = order.drop_last();
        assert forall|i: int| 0 <= i < before.len() implies live(m[#[trigger] before[i]]@, now) == m[before[i]]@ by {
            assert(order[i] == before[i]);
        }
        none_expired(before, m, now);
        assert(live(m[order[order.len() - 1]]@, now) == m[order[order.len() - 1]]@);
    }
}

proof fn expired_grows(o: Seq<Seq<char>>, m: Map<Seq<char>, Vec<ServiceInfo>>, now: u64, i: int)
    requires
        0 <= i <= o.len(),
    ensures
        expired_in(o.subrange(0, i), m, now) <= expired_in(o, m, now),
    decreases o.len() - i,
{
    if i < o.len() {
        expired_grows(o, m, now, i + 1);
        assert(o.subrange(0, i + 1).drop_last() =~= o.subrange(0, i));
    } else {
        assert(o.subrange(0, i) =~= o);
    }
}

fn keep_live(infos: Vec<ServiceInfo>, now: u64) -> (r: Vec<ServiceInfo>)
    requires
        forall|j: int| 0 <= j < infos@.len() ==> (#[trigger] infos@[j]).bounded(),
    ensures
        r@ == live(infos@, now),
{
    let ghost all = infos@;
    let mut out: Vec<ServiceInfo> = Vec::new();
    assert(all.subrange(0, 0) =~= Seq::<ServiceInfo>::empty());
    for info in it: infos
        invariant
            it.seq() == all,
            forall|j: int| 0 <= j < all.len() ==> (#[trigger] all[j]).bounded(),
            out@ == live(all.subrange(0, it.index()), now),
    {
        proof {
            let upto = all.subrange(0, it.index() + 1);
            assert(upto.drop_last() =~= all.subrange(0, it.index()));
            assert(upto.last() == info);
            assert(all[it.index()].bounded());
        }
        if !info.is_expired_at(now) {
            out.push(info);
        }
    }
    assert(all.subrange(0, all.len() as int) =~= all);
    out
}

/// What is live of some announcements are, in order, those whose time of announcement and seconds to
/// hold are not over.
pub proof fn live_holds_until_its_end(infos: Seq<ServiceInfo>, now: u64)
    ensures
        live(infos, now) == infos.filter(|i: ServiceInfo| now <= i.timestamp + i.ttl),
    decreases infos.len(),
{
    reveal(Seq::filter);
    if infos.len() > 0 {
        live_holds_until_its_end(infos.drop_last(), now);
    }
}

/// An announcement is past its end from the second after its last one on, and not before.
pub proof fn announcement_ends_after_its_seconds(i: ServiceInfo, now: u64)
    ensures
        i.expired(now) <==> now > i.timestamp + i.ttl,
        i.bounded() <==> i.timestamp + i.ttl <= u64::MAX,
{
}

/// All that is live are the live announcements of each service, one service after the other: an
/// announcement is there exactly when it was found for some service and is not past its end. What is
/// past its end and what is live make up all that was found.
pub proof fn all_live_are_found(order: Seq<Seq<char>>, m: Map<Seq<char>, Vec<ServiceInfo>>, now: u64, info: ServiceInfo)
    ensures
        all_live(order, m, now).contains(info) <==> now <= info.timestamp + info.ttl && exists|k: int|
            0 <= k < order.len() && m[#[trigger] order[k]]@.contains(info),
        order.len() > 0 ==> all_live(order, m, now) == all_live(order.drop_last(), m, now) + m[order.last()]@.filter(
            |i: ServiceInfo| now <= i.timestamp + i.ttl,
        ),
        order.len() > 0 ==> expired_in(order, m, now) == expired_in(order.drop_last(), m, now) + m[order.last()]@.filter(
            |i: ServiceInfo| now > i.timestamp + i.ttl,
        ).len(),
        order.len() == 0 ==> expired_in(order, m, now) == 0 && all_live(order, m, now).len() == 0,
    decreases order.len(),
{
    if order.len() > 0 {
        let rest = order.drop_last();
        let last = order.len() - 1;
        let infos = m[order.last()]@;
        assert(order[last] == order.last());
        all_live_are_found(rest, m, now, info);
        live_holds_until_its_end(infos, now);
        live_is_exact(infos, now);
        live_and_past(infos, now);
        let a = all_live(rest, m, now);
        let b = live(infos, now);
        let all = all_live(order, m, now);
        assert(all == a + b);
        if all.contains(info) {
            let k = choose|k: int| 0 <= k < all.len() && all[k] == info;
            if k < a.len() {
                assert(a[k] == info);
                let j = choose|j: int| 0 <= j < rest.len() && m[#[trigger] rest[j]]@.contains(info);
                assert(m[order[j]]@.contains(info));
            } else {
                assert(b[k - a.len()] == info);
                assert(m[order[last]]@.contains(info));
            }
        }
        if now <= info.timestamp + info.ttl && exists|k: int| 0 <= k < order.len() && m[#[trigger] order[k]]@.contains(info) {
            let k = choose|k: int| 0 <= k < order.len() && m[#[trigger] order[k]]@.contains(info);
            if k < last {
                assert(m[rest[k]]@.contains(info));
                let j = choose|j: int| 0 <= j < a.len() && a[j] == info;
                assert(all[j] == info);
            } else {
                let j = choose|j: int| 0 <= j < infos.len() && infos[j] == info;
                assert(!infos[j].expired(now));
                assert(b.contains(infos[j]));
                let i = choose|i: int| 0 <= i < b.len() && b[i] == info;
                assert(all[a.len() + i] == info);
            }
        }
    }
}

proof fn live_and_past(infos: Seq<ServiceInfo>, now: u64)
    ensures
        infos.len() == live(infos, now).len() + infos.filter(|i: ServiceInfo| now > i.timestamp + i.ttl).len(),
    decreases infos.len(),
{
    reveal(Seq::filter);
    if infos.len() > 0 {
        live_and_past(infos.drop_last(), now);
    }
}

/// An announcement is stored under its service's name behind the network's prefix, as a JSON object
/// with these members and no others; with other addresses it says the same of all else.
pub proof fn announcement_says_what_it_is(i: ServiceInfo, b: ServiceInfo, addrs: Seq<String>, r: AnnounceRecord)
    ensures
        announcement_key(i.service_type@) == encode_utf8("/oahd/sd/"@) + encode_utf8(i.service_type@),
        record_of(r, i) <==> r.key@ == announcement_key(i.service_type@) && r.value@ == json_encoding(
            JsonView::Object(
                map![
                    "service_type"@ => JsonView::Text(i.service_type@),
                    "provider"@ => JsonView::Text(i.provider@),
                    "addrs"@ => text_list(text_views(i.addrs@)),
                    "version"@ => JsonView::Text(i.version@),
                    "metadata"@ => JsonView::Object(i.metadata@.map_values(|t: String| JsonView::Text(t@))),
                    "timestamp"@ => JsonView::Number(i.timestamp),
                    "ttl"@ => JsonView::Number(i.ttl)
                ],
            ),
        ),
        with_addrs(i, b, addrs) <==> b.addrs@ == addrs && b.service_type == i.service_type && b.provider == i.provider
            && b.version == i.version && b.metadata == i.metadata && b.timestamp == i.timestamp && b.ttl == i.ttl,
        SD_KEY_PREFIX@ == "/oahd/sd/"@,
        SERVICE_COLD_STORAGE@ == "cold-storage"@,
        SERVICE_OCR@ == "ocr"@,
        SERVICE_RELAY@ == "relay"@,
{
}

/// A new node's announcement of a service names the service, the node and its version, holds for the
/// seconds it was given from now on, and has no addresses and no metadata yet.
pub proof fn fresh_announcement_is_plain(
    info: ServiceInfo,
    service: Seq<char>,
    peer: Seq<char>,
    ttl: u64,
    now: u64,
    version: Seq<char>,
)
    ensures
        fresh_announcement(info, service, peer, ttl, now, version) <==> info.service_type@ == service && info.provider@ == peer
            && info.version@ == version && info.timestamp == now && info.ttl == ttl && info.addrs@.len() == 0
            && info.metadata@ == Map::<Seq<char>, String>::empty(),
{
}

} // verus!
