//! The JSON form of the node's answers to commands.

use crate::json::{
    json_encoding, nested_deeper, text_list, texts_tree, tree_nested, write_json, JsonTree, JsonView,
    ObjectBuilder, MAX_JSON_DEPTH,
};
use crate::multiaddr::{ip_display, IpAddr};
use crate::node_controller::commands::{AuthLabel, AuthReport, CacheReport, IndexReport, Reply, WhitelistReport};
use crate::text::text_views;
use vstd::prelude::*;
use vstd::string::*;

verus! {

/// The text of an IP address, or null.
pub open spec fn ip_json(ip: Option<IpAddr>) -> JsonView {
    match ip {
        Some(ip) => JsonView::Text(ip_display(ip)),
        None => JsonView::Null,
    }
}

/// The name of a state of authorization.
pub open spec fn label_text(l: AuthLabel) -> Seq<char> {
    match l {
        AuthLabel::Disabled => "disabled"@,
        AuthLabel::Active => "active"@,
        AuthLabel::Misconfigured => "misconfigured"@,
    }
}

/// The object of a report on the index.
pub open spec fn index_json(r: IndexReport) -> JsonView {
    JsonView::Object(
        map![
            "version"@ => JsonView::Number(r.version),
            "expires_at"@ => JsonView::Number(r.expires_at),
            "age_secs"@ => JsonView::Number(r.age_secs),
            "services"@ => JsonView::Number(r.services as u64),
            "fresh"@ => JsonView::Bool(r.fresh)
        ],
    )
}

/// The object of a report on a whitelist.
pub open spec fn whitelist_json(r: WhitelistReport) -> JsonView {
    JsonView::Object(
        map![
            "version"@ => JsonView::Number(r.version),
            "members"@ => JsonView::Number(r.members as u64),
            "age_secs"@ => JsonView::Number(r.age_secs)
        ],
    )
}

/// The objects of the reports on whitelists, by service.
pub open spec fn whitelists_json(s: Seq<(String, WhitelistReport)>) -> Map<Seq<char>, JsonView>
    decreases s.len(),
{
    if s.len() == 0 {
        Map::empty()
    } else {
        whitelists_json(s.drop_last()).insert(s.last().0@, whitelist_json(s.last().1))
    }
}

/// An object with the members of a report on what is kept.
pub open spec fn with_cache(m: Map<Seq<char>, JsonView>, r: CacheReport) -> Map<Seq<char>, JsonView> {
    let with_index = match r.index {
        Some(i) => m.insert("index"@, index_json(i)),
        None => m,
    };
    with_index.insert("cached_whitelists"@, JsonView::Object(whitelists_json(r.whitelists@))).insert(
        "required_but_not_in_index"@,
        text_list(text_views(r.not_in_index@)),
    )
}

/// The members of a report on authorization.
pub open spec fn auth_json(r: AuthReport) -> Map<Seq<char>, JsonView> {
    let base = map![
        "network"@ => JsonView::Text(r.network@),
        "state"@ => JsonView::Text(label_text(r.state)),
        "local_required"@ => text_list(text_views(r.local_required@))
    ];
    let with_detail = match r.detail {
        Some(d) => base.insert("detail"@, JsonView::Text(d@)),
        None => base,
    };
    match r.cache {
        Some(c) => with_cache(with_detail, c),
        None => with_detail,
    }
}

/// The members of the object that an answer is written as. An answer that is bytes already has
/// none.
pub open spec fn reply_json(reply: Reply) -> Map<Seq<char>, JsonView> {
    match reply {
        Reply::Bytes(_) => Map::empty(),
        Reply::PublicIp { ipv4, ipv6 } => map!["ipv4"@ => ip_json(ipv4), "ipv6"@ => ip_json(ipv6)],
        Reply::Outcome { success, error } => match error {
            Some(e) => map!["success"@ => JsonView::Bool(success), "error"@ => JsonView::Text(e@)],
            None => map!["success"@ => JsonView::Bool(success)],
        },
        Reply::RelayStatus { need_relay, target, active, pending } => map![
            "need_relay"@ => JsonView::Bool(need_relay),
            "target"@ => JsonView::Number(target as u64),
            "active"@ => text_list(text_views(active@)),
            "pending"@ => text_list(text_views(pending@))
        ],
        Reply::PqStatus { enabled, transport, identity, required } => map![
            "enabled"@ => JsonView::Bool(enabled),
            "transport"@ => JsonView::Bool(transport),
            "identity"@ => JsonView::Bool(identity),
            "required"@ => JsonView::Bool(required)
        ],
        Reply::AuthStatus(report) => auth_json(report),
        Reply::Added { key } => map!["success"@ => JsonView::Bool(true), "key"@ => JsonView::Text(key@)],
        Reply::Key { key, value, providers } => {
            let base = map!["key"@ => JsonView::Text(key@)];
            let with_value = match value {
                Some(v) => base.insert("value"@, JsonView::Text(v.text@)).insert("value_b64"@, JsonView::Text(v.b64@)),
                None => base,
            };
            if providers@.len() > 0 {
                with_value.insert("providers"@, text_list(text_views(providers@)))
            } else {
                with_value
            }
        },
    }
}

fn ip_tree(ip: Option<IpAddr>) -> (r: JsonTree)
    ensures
        r@ == ip_json(ip),
        tree_nested(r, 0),
{
    match ip {
        Some(ip) => JsonTree::Text(ip.to_text()),
        None => JsonTree::Null,
    }
}

fn index_tree(r: &IndexReport) -> (t: JsonTree)
    ensures
        t@ == index_json(*r),
        tree_nested(t, 1),
{
    let mut o = ObjectBuilder::new();
    o.put("version", JsonTree::Number(r.version));
    o.put("expires_at", JsonTree::Number(r.expires_at));
    o.put("age_secs", JsonTree::Number(r.age_secs));
    o.put("services", JsonTree::Number(r.services as u64));
    o.put("fresh", JsonTree::Bool(r.fresh));
    assert(o.nested_to(0));
    o.object()
}

fn whitelist_tree(r: &WhitelistReport) -> (t: JsonTree)
    ensures
        t@ == whitelist_json(*r),
        tree_nested(t, 1),
{
    let mut o = ObjectBuilder::new();
    o.put("version", JsonTree::Number(r.version));
    o.put("members", JsonTree::Number(r.members as u64));
    o.put("age_secs", JsonTree::Number(r.age_secs));
    assert(o.nested_to(0));
    o.object()
}

fn whitelists_tree(s: &Vec<(String, WhitelistReport)>) -> (t: JsonTree)
    ensures
        t@ == JsonView::Object(whitelists_json(s@)),
        tree_nested(t, 2),
{
    let mut o = ObjectBuilder::new();
    let mut i: usize = 0;
    assert(s@.subrange(0, 0) =~= Seq::<(String, WhitelistReport)>::empty());
    while i < s.len()
        invariant
            i <= s@.len(),
            o@ == whitelists_json(s@.subrange(0, i as int)),
            o.nested_to(1),
        decreases s@.len() - i,
    {
        proof {
            let upto = s@.subrange(0, i + 1);
            assert(upto.drop_last() =~= s@.subrange(0, i as int));
            assert(upto.last() == s@[i as int]);
        }
        o.put(s[i].0.as_str(), whitelist_tree(&s[i].1));
        i += 1;
    }
    assert(s@.subrange(0, s@.len() as int) =~= s@);
    assert(o.nested_to(1));
    o.object()
}

fn put_cache(o: &mut ObjectBuilder, r: &CacheReport)
    ensures
        final(o)@ == with_cache(old(o)@, *r),
        old(o).nested_to(2) ==> final(o).nested_to(2),
{
    match &r.index {
        Some(i) => o.put("index", index_tree(i)),
        None => {},
    }
    o.put("cached_whitelists", whitelists_tree(&r.whitelists));
    o.put("required_but_not_in_index", texts_tree(&r.not_in_index));
}

fn auth_tree(r: &AuthReport) -> (t: JsonTree)
    ensures
        t@ == JsonView::Object(auth_json(*r)),
        tree_nested(t, 3),
{
    let state = match r.state {
        AuthLabel::Disabled => "disabled",
        AuthLabel::Active => "active",
        AuthLabel::Misconfigured => "misconfigured",
    };
    let mut o = ObjectBuilder::new();
    o.put("network", JsonTree::Text(r.network.clone()));
    o.put("state", JsonTree::Text(state.to_owned()));
    o.put("local_required", texts_tree(&r.local_required));
    match &r.detail {
        Some(d) => o.put("detail", JsonTree::Text(d.clone())),
        None => {},
    }
    match &r.cache {
        Some(c) => put_cache(&mut o, c),
        None => {},
    }
    assert(o.nested_to(2));
    o.object()
}

fn reply_tree(reply: &Reply) -> (t: JsonTree)
    ensures
        t@ == JsonView::Object(reply_json(*reply)),
        tree_nested(t, 3),
{
    let mut o = ObjectBuilder::new();
    match reply {
        Reply::Bytes(_) => {},
        Reply::PublicIp { ipv4, ipv6 } => {
            o.put("ipv4", ip_tree(*ipv4));
            o.put("ipv6", ip_tree(*ipv6));
        },
        Reply::Outcome { success, error } => {
            o.put("success", JsonTree::Bool(*success));
            match error {
                Some(e) => o.put("error", JsonTree::Text(e.clone())),
                None => {},
            }
        },
        Reply::RelayStatus { need_relay, target, active, pending } => {
            o.put("need_relay", JsonTree::Bool(*need_relay));
            o.put("target", JsonTree::Number(*target as u64));
            o.put("active", texts_tree(active));
            o.put("pending", texts_tree(pending));
        },
        Reply::PqStatus { enabled, transport, identity, required } => {
            o.put("enabled", JsonTree::Bool(*enabled));
            o.put("transport", JsonTree::Bool(*transport));
            o.put("identity", JsonTree::Bool(*identity));
            o.put("required", JsonTree::Bool(*required));
        },
        Reply::AuthStatus(report) => {
            return auth_tree(report);
        },
        Reply::Added { key } => {
            o.put("success", JsonTree::Bool(true));
            o.put("key", JsonTree::Text(key.clone()));
        },
        Reply::Key { key, value, providers } => {
            o.put("key", JsonTree::Text(key.clone()));
            match value {
                Some(v) => {
                    o.put("value", JsonTree::Text(v.text.clone()));
                    o.put("value_b64", JsonTree::Text(v.b64.clone()));
                },
                None => {},
            }
            if providers.len() > 0 {
                o.put("providers", texts_tree(providers));
            }
        },
    }
    assert(o.nested_to(2));
    o.object()
}

/// The bytes of an answer: those that it is, or its JSON object.
pub fn reply_bytes(reply: Reply) -> (r: Vec<u8>)
    ensures
        match reply {
            Reply::Bytes(b) => r@ == b@,
            _ => r@ == json_encoding(JsonView::Object(reply_json(reply))),
        },
{
    match reply {
        Reply::Bytes(b) => b,
        other => {
            let t = reply_tree(&other);
            proof {
                nested_deeper(t, 3, MAX_JSON_DEPTH as nat);
            }
            write_json(&t)
        },
    }
}

/// What the node's answers have in their objects: these members and no others.
pub proof fn replies_have_these_members(reply: Reply)
    ensures
        reply matches Reply::PublicIp { ipv4, ipv6 } ==> reply_json(reply) == map![
            "ipv4"@ => match ipv4 {
                Some(ip) => JsonView::Text(ip_display(ip)),
                None => JsonView::Null,
            },
            "ipv6"@ => match ipv6 {
                Some(ip) => JsonView::Text(ip_display(ip)),
                None => JsonView::Null,
            }
        ],
        reply matches Reply::Outcome { success, error } ==> (error is None ==> reply_json(reply) == map![
            "success"@ => JsonView::Bool(success)
        ]),
        reply matches Reply::Outcome { success, error } ==> (error matches Some(e) ==> reply_json(reply) == map![
            "success"@ => JsonView::Bool(success),
            "error"@ => JsonView::Text(e@)
        ]),
        reply matches Reply::RelayStatus { need_relay, target, active, pending } ==> reply_json(reply) == map![
            "need_relay"@ => JsonView::Bool(need_relay),
            "target"@ => JsonView::Number(target as u64),
            "active"@ => text_list(text_views(active@)),
            "pending"@ => text_list(text_views(pending@))
        ],
        reply matches Reply::PqStatus { enabled, transport, identity, required } ==> reply_json(reply) == map![
            "enabled"@ => JsonView::Bool(enabled),
            "transport"@ => JsonView::Bool(transport),
            "identity"@ => JsonView::Bool(identity),
            "required"@ => JsonView::Bool(required)
        ],
        reply matches Reply::Added { key } ==> reply_json(reply) == map![
            "success"@ => JsonView::Bool(true),
            "key"@ => JsonView::Text(key@)
        ],
        reply matches Reply::AuthStatus(r) ==> reply_json(reply) == auth_json(r),
{
}

/// The answer for a key has the key, its value as text and as Base64 where it has one, and who provides
/// it where somebody does.
pub proof fn key_replies_have_what_was_found(reply: Reply)
    ensures
        reply matches Reply::Key { key, value, providers } ==> {
            let m = reply_json(reply);
            &&& m.dom().contains("key"@) && m["key"@] == JsonView::Text(key@)
            &&& (value matches Some(v) ==> m.dom().contains("value"@) && m["value"@] == JsonView::Text(v.text@)
                && m.dom().contains("value_b64"@) && m["value_b64"@] == JsonView::Text(v.b64@))
            &&& (value is None ==> !m.dom().contains("value"@) && !m.dom().contains("value_b64"@))
            &&& (providers@.len() > 0 ==> m.dom().contains("providers"@) && m["providers"@] == text_list(
                text_views(providers@),
            ))
            &&& (providers@.len() == 0 ==> !m.dom().contains("providers"@))
            &&& m.dom().subset_of(set!["key"@, "value"@, "value_b64"@, "providers"@])
        },
{
    reveal_strlit("key");
    reveal_strlit("value");
    reveal_strlit("value_b64");
    reveal_strlit("providers");
    assert("key"@.len() == 3 && "value"@.len() == 5 && "value_b64"@.len() == 9 && "providers"@.len() == 9);
    assert("value_b64"@[0] == 'v' && "providers"@[0] == 'p');
}

/// The report on authorization has the network, the state and the services that are required here; the
/// detail where there is one; and of what is kept the index where there is one, the whitelists by
/// service, and the required services that the index lacks.
pub proof fn auth_report_has_these_members(r: AuthReport)
    ensures
        ({
            let m = auth_json(r);
            &&& m.dom().contains("network"@) && m["network"@] == JsonView::Text(r.network@)
            &&& m.dom().contains("state"@) && m["state"@] == JsonView::Text(
                match r.state {
                    AuthLabel::Disabled => "disabled"@,
                    AuthLabel::Active => "active"@,
                    AuthLabel::Misconfigured => "misconfigured"@,
                },
            )
            &&& m.dom().contains("local_required"@) && m["local_required"@] == text_list(text_views(r.local_required@))
            &&& (r.detail matches Some(d) ==> m.dom().contains("detail"@) && m["detail"@] == JsonView::Text(d@))
            &&& (r.detail is None ==> !m.dom().contains("detail"@))
            &&& (r.cache is None ==> !m.dom().contains("index"@) && !m.dom().contains("cached_whitelists"@) && !m.dom().contains(
                "required_but_not_in_index"@,
            ))
            &&& (r.cache matches Some(c) ==> {
                &&& m.dom().contains("cached_whitelists"@) && m["cached_whitelists"@] == JsonView::Object(
                    whitelists_json(c.whitelists@),
                )
                &&& m.dom().contains("required_but_not_in_index"@) && m["required_but_not_in_index"@] == text_list(
                    text_views(c.not_in_index@),
                )
                &&& (c.index is None ==> !m.dom().contains("index"@))
                &&& (c.index matches Some(i) ==> m.dom().contains("index"@) && m["index"@] == JsonView::Object(
                    map![
                        "version"@ => JsonView::Number(i.version),
                        "expires_at"@ => JsonView::Number(i.expires_at),
                        "age_secs"@ => JsonView::Number(i.age_secs),
                        "services"@ => JsonView::Number(i.services as u64),
                        "fresh"@ => JsonView::Bool(i.fresh)
                    ],
                ))
            })
        }),
{
    reveal_strlit("network");
    reveal_strlit("state");
    reveal_strlit("local_required");
    reveal_strlit("detail");
    reveal_strlit("index");
    reveal_strlit("cached_whitelists");
    reveal_strlit("required_but_not_in_index");
    assert("network"@.len() == 7 && "state"@.len() == 5 && "local_required"@.len() == 14 && "detail"@.len() == 6 && "index"@.len()
        == 5 && "cached_whitelists"@.len() == 17 && "required_but_not_in_index"@.len() == 25);
    assert("state"@[0] == 's' && "index"@[0] == 'i');
}

/// Every whitelist that is reported stands under its service, the last of its name.
pub proof fn whitelists_stand_under_their_service(s: Seq<(String, WhitelistReport)>, i: int)
    ensures
        forall|k: Seq<char>| #[trigger]
            whitelists_json(s).dom().contains(k) <==> exists|j: int| 0 <= j < s.len() && (#[trigger] s[j]).0@ == k,
        0 <= i < s.len() && (forall|j: int| i < j < s.len() ==> (#[trigger] s[j]).0@ != s[i].0@) ==> whitelists_json(s)[s[i].0@]
            == JsonView::Object(
            map![
                "version"@ => JsonView::Number(s[i].1.version),
                "members"@ => JsonView::Number(s[i].1.members as u64),
                "age_secs"@ => JsonView::Number(s[i].1.age_secs)
            ],
        ),
    decreases s.len(),
{
    if s.len() > 0 {
        let rest = s.drop_last();
        let last = s.len() - 1;
        whitelists_stand_under_their_service(rest, i);
        assert(s[last] == s.last());
        assert forall|j: int| 0 <= j < rest.len() implies #[trigger] rest[j] == s[j] by {}
        assert forall|k: Seq<char>| #[trigger] whitelists_json(s).dom().contains(k) <==> exists|j: int|
            0 <= j < s.len() && (#[trigger] s[j]).0@ == k by {
            if whitelists_json(rest).dom().contains(k) {
                let j = choose|j: int| 0 <= j < rest.len() && (#[trigger] rest[j]).0@ == k;
                assert(s[j].0@ == k);
            }
            if k == s.last().0@ {
                assert(s[last].0@ == k);
            }
            if exists|j: int| 0 <= j < s.len() && (#[trigger] s[j]).0@ == k {
                let j = choose|j: int| 0 <= j < s.len() && (#[trigger] s[j]).0@ == k;
                if j < last {
                    assert(rest[j].0@ == k);
                }
            }
        }
        if 0 <= i < last && (forall|j: int| i < j < s.len() ==> (#[trigger] s[j]).0@ != s[i].0@) {
            assert(s[last].0@ != s[i].0@);
            assert(rest[i] == s[i]);
            assert forall|j: int| i < j < rest.len() implies (#[trigger] rest[j]).0@ != rest[i].0@ by {
                assert(s[j].0@ != s[i].0@);
            }
        }
    }
}

} // verus!
