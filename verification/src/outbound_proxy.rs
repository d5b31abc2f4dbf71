//! The local control port: one JSON object per line, one answer per line.

use crate::crypto::{base64_decode, base64_decoding, parse_peer_id, peer_id_of_text, PeerId};
use crate::json::{
    json_encoding, json_members, nested_deeper, text_member, tree_nested, write_json, Json, JsonTree,
    JsonView, LeafView, ObjectBuilder, MAX_JSON_DEPTH,
};
use crate::text::{is_trimmed, join2, same_text, trim};
use vstd::prelude::*;
use vstd::string::*;
use vstd::utf8::encode_utf8;

verus! {

/// Whether and where the control port listens.
#[derive(Debug)]
pub struct OutboundProxyConfig {
    pub enabled: bool,
    pub bind: String,
    pub port: u16,
}

/// What became of one line.
#[derive(Debug)]
pub struct ProxyResult {
    pub success: bool,
    pub message: String,
    pub data: Option<JsonTree>,
}

impl ProxyResult {
    /// Whether what the node gave is not nested too deep to be part of an answer.
    pub open spec fn fits(&self) -> bool {
        self.data matches Some(t) ==> tree_nested(t, MAX_DATA_DEPTH as nat)
    }

    /// Whether what the node gave is not nested too deep to be part of an answer.
    pub fn is_fit(&self) -> (r: bool)
        ensures
            r == self.fits(),
    {
        match &self.data {
            Some(t) => t.is_nested(MAX_DATA_DEPTH),
            None => true,
        }
    }
}

/// How deep lists and objects may stand in each other in what the node gives.
pub const MAX_DATA_DEPTH: usize = 254;

/// What is asked of the node for a line.
#[derive(Debug, Clone)]
pub enum ProxyCommand {
    /// Who provides a service.
    DiscoverServices { service: String },
    /// A request to one peer's service.
    SendRequest { peer: PeerId, service: String, payload: Vec<u8> },
}

/// What to do with a line.
pub enum ProxyStep {
    /// An empty line: nothing.
    Skip,
    /// Answer at once.
    Reply(ProxyResult),
    /// Ask the node, then answer.
    Ask(ProxyCommand),
}

/// Whether a step is the answer that something failed.
pub open spec fn refused(r: ProxyStep, message: Seq<char>) -> bool {
    r matches ProxyStep::Reply(x) && !x.success && x.message@ == message && x.data is None
}

/// The text of a member, and no text where it is missing or is none.
pub open spec fn text_or_empty(m: Seq<(Seq<char>, LeafView)>, name: Seq<char>) -> Seq<char> {
    match text_member(m, name) {
        Some(t) => t,
        None => Seq::empty(),
    }
}

/// Whether a step is what a `request` line asks for.
pub open spec fn request_stepped(m: Seq<(Seq<char>, LeafView)>, r: ProxyStep) -> bool {
    let peer = text_or_empty(m, "peer"@);
    let service = text_or_empty(m, "service"@);
    if peer.len() == 0 || service.len() == 0 {
        refused(r, "缺少 peer 或 service 字段"@)
    } else {
        match peer_id_of_text(peer) {
            Err(_) => refused(r, "无效的 PeerId: "@ + peer),
            Ok(id) => match base64_decoding(text_or_empty(m, "payload"@)) {
                Err(e) => refused(r, "payload base64 解码失败: "@ + e),
                Ok(bytes) => r matches ProxyStep::Ask(ProxyCommand::SendRequest { peer: p, service: s, payload: b })
                    && p@ == id && s@ == service && b@ == bytes,
            },
        }
    }
}

/// Whether a step is what a line without white space around it asks for.
pub open spec fn line_stepped(line: Seq<char>, r: ProxyStep) -> bool {
    if line.len() == 0 {
        r is Skip
    } else {
        match json_members(encode_utf8(line)) {
            Err(e) => refused(r, "JSON 解析错误: "@ + e),
            Ok(m) => {
                let kind = text_or_empty(m, "type"@);
                if kind == "discover"@ {
                    let service = text_or_empty(m, "service"@);
                    if service.len() == 0 {
                        refused(r, "缺少 service 字段"@)
                    } else {
                        r matches ProxyStep::Ask(ProxyCommand::DiscoverServices { service: s }) && s@ == service
                    }
                } else if kind == "request"@ {
                    request_stepped(m, r)
                } else if kind == "ping"@ {
                    r matches ProxyStep::Reply(x) && x.success && x.message@ == "pong"@ && x.data is None
                } else {
                    refused(r, "未知命令类型: "@ + kind)
                }
            },
        }
    }
}

fn refuse(message: String) -> (r: ProxyStep)
    ensures
        refused(r, message@),
{
    ProxyStep::Reply(ProxyResult { success: false, message, data: None })
}

fn member_text(json: &Json, name: &str) -> (r: String)
    ensures
        r@ == text_or_empty(json@, name@),
{
    match json.text(name) {
        Some(t) => t,
        None => String::new(),
    }
}

fn step_request(json: &Json) -> (r: ProxyStep)
    ensures
        request_stepped(json@, r),
{
    let peer_text = member_text(json, "peer");
    let service = member_text(json, "service");
    if peer_text.as_str().is_empty() || service.as_str().is_empty() {
        return refuse("缺少 peer 或 service 字段".to_owned());
    }
    let peer = match parse_peer_id(peer_text.as_str()) {
        Ok(p) => p,
        Err(_) => {
            return refuse(join2("无效的 PeerId: ", peer_text.as_str()));
        },
    };
    match base64_decode(member_text(json, "payload").as_str()) {
        Ok(payload) => ProxyStep::Ask(ProxyCommand::SendRequest { peer, service, payload }),
        Err(e) => refuse(join2("payload base64 解码失败: ", e.as_str())),
    }
}

/// Decides what to do with a line.
pub fn proxy_line(line: &str) -> (r: ProxyStep)
    ensures
        exists|t: Seq<char>| #[trigger] is_trimmed(line@, t) && line_stepped(t, r),
{
    let trimmed = trim(line);
    let ghost t = trimmed@;
    let step = step_trimmed(trimmed.as_str());
    assert(is_trimmed(line@, t) && line_stepped(t, step));
    step
}

fn step_trimmed(line: &str) -> (r: ProxyStep)
    ensures
        line_stepped(line@, r),
{
    if line.is_empty() {
        return ProxyStep::Skip;
    }
    let json = match Json::from_bytes(line.as_bytes()) {
        Ok(j) => j,
        Err(e) => {
            return refuse(join2("JSON 解析错误: ", e.as_str()));
        },
    };
    let kind = member_text(&json, "type");
    if same_text(kind.as_str(), "discover") {
        let service = member_text(&json, "service");
        if service.as_str().is_empty() {
            return refuse("缺少 service 字段".to_owned());
        }
        return ProxyStep::Ask(ProxyCommand::DiscoverServices { service });
    }
    if same_text(kind.as_str(), "request") {
        return step_request(&json);
    }
    if same_text(kind.as_str(), "ping") {
        return ProxyStep::Reply(ProxyResult { success: true, message: "pong".to_owned(), data: None });
    }
    refuse(join2("未知命令类型: ", kind.as_str()))
}

/// What became of asking the node.
pub enum ProxyOutcome {
    Answered(ProxyResult),
    /// The node could not be asked.
    NotConnected,
    /// The node did not answer.
    NoAnswer,
}

/// The result of a line for which the node was asked.
pub fn proxy_answer(outcome: ProxyOutcome) -> (r: ProxyResult)
    ensures
        r.success == succeeded(outcome),
        r.message@ == outcome_message(outcome),
        r.data == outcome_data(outcome),
{
    match outcome {
        ProxyOutcome::Answered(x) => x,
        ProxyOutcome::NotConnected => ProxyResult {
            success: false,
            message: "出站代理未连接到 P2P 节点".to_owned(),
            data: None,
        },
        ProxyOutcome::NoAnswer => ProxyResult { success: false, message: "P2P 节点未响应".to_owned(), data: None },
    }
}

/// The members of the answer that says whether a line has worked, with a message, and with what the
/// node gave where it gave something.
pub open spec fn said_json(success: bool, message: Seq<char>, data: Option<JsonTree>) -> Map<Seq<char>, JsonView> {
    let base = map!["success"@ => JsonView::Bool(success), "message"@ => JsonView::Text(message)];
    match data {
        Some(t) => base.insert("data"@, t@),
        None => base,
    }
}

/// The members of the answer that says what became of a line.
pub open spec fn result_json(x: ProxyResult) -> Map<Seq<char>, JsonView> {
    said_json(x.success, x.message@, x.data)
}

/// The answer that says what became of a line.
pub fn result_line(x: ProxyResult) -> (r: Vec<u8>)
    requires
        x.fits(),
    ensures
        r@ == json_encoding(JsonView::Object(result_json(x))),
{
    let mut o = ObjectBuilder::new();
    o.put("success", JsonTree::Bool(x.success));
    o.put("message", JsonTree::Text(x.message));
    match x.data {
        Some(t) => o.put("data", t),
        None => {},
    }
    assert(o.nested_to(MAX_DATA_DEPTH as nat));
    let t = o.object();
    proof {
        assert(tree_nested(t, MAX_DATA_DEPTH as nat + 1));
        nested_deeper(t, MAX_DATA_DEPTH as nat + 1, MAX_JSON_DEPTH as nat);
    }
    write_json(&t)
}

/// Whether asking the node has worked.
pub open spec fn succeeded(outcome: ProxyOutcome) -> bool {
    outcome matches ProxyOutcome::Answered(x) && x.success
}

/// What the node gave.
pub open spec fn outcome_data(outcome: ProxyOutcome) -> Option<JsonTree> {
    match outcome {
        ProxyOutcome::Answered(x) => x.data,
        _ => None,
    }
}

/// What is said of an outcome.
pub open spec fn outcome_message(outcome: ProxyOutcome) -> Seq<char> {
    match outcome {
        ProxyOutcome::Answered(x) => x.message@,
        ProxyOutcome::NotConnected => "出站代理未连接到 P2P 节点"@,
        ProxyOutcome::NoAnswer => "P2P 节点未响应"@,
    }
}

/// The list of providers that the node gave: a list as it is, another value as a list of it alone,
/// and an empty one where it gave nothing.
pub open spec fn providers_json(data: Option<JsonTree>) -> JsonView {
    match data {
        Some(t) => if t is Array {
            t@
        } else {
            JsonView::Array(seq![t@])
        },
        None => JsonView::Array(Seq::empty()),
    }
}

/// What the node gave, null where it gave nothing.
pub open spec fn data_json(data: Option<JsonTree>) -> JsonView {
    match data {
        Some(t) => t@,
        None => JsonView::Null,
    }
}

/// The members of the answer to a line for which the node was asked. Where that has worked, it is for
/// `discover` the service and its providers, and for `request` what the peer gave and the number of
/// the request. Otherwise it says why not.
pub open spec fn answer_json(asked: ProxyCommand, outcome: ProxyOutcome, request_id: u64) -> Map<Seq<char>, JsonView> {
    let data = outcome_data(outcome);
    if succeeded(outcome) {
        match asked {
            ProxyCommand::DiscoverServices { service } => map![
                "type"@ => JsonView::Text("discover_result"@),
                "success"@ => JsonView::Bool(true),
                "service"@ => JsonView::Text(service@),
                "providers"@ => providers_json(data)
            ],
            ProxyCommand::SendRequest { .. } => map![
                "type"@ => JsonView::Text("response"@),
                "success"@ => JsonView::Bool(true),
                "data"@ => data_json(data),
                "request_id"@ => JsonView::Number(request_id)
            ],
        }
    } else {
        said_json(false, outcome_message(outcome), data)
    }
}

fn providers_tree(data: Option<JsonTree>) -> (r: JsonTree)
    requires
        data matches Some(t) ==> tree_nested(t, MAX_DATA_DEPTH as nat),
    ensures
        r@ == providers_json(data),
        tree_nested(r, MAX_DATA_DEPTH as nat + 1),
{
    match data {
        Some(t) => match t {
            JsonTree::Array(v) => {
                let list = JsonTree::Array(v);
                proof {
                    nested_deeper(list, MAX_DATA_DEPTH as nat, MAX_DATA_DEPTH as nat + 1);
                }
                list
            },
            other => {
                let ghost said = other@;
                let mut one: Vec<JsonTree> = Vec::new();
                one.push(other);
                let list = JsonTree::Array(one);
                assert(list@->Array_0 =~= seq![said]);
                list
            },
        },
        None => {
            let none: Vec<JsonTree> = Vec::new();
            let list = JsonTree::Array(none);
            assert(list@->Array_0 =~= Seq::<JsonView>::empty());
            list
        },
    }
}

/// Whether what the node gave for an outcome is not nested too deep to be part of an answer.
pub open spec fn outcome_fits(outcome: ProxyOutcome) -> bool {
    outcome_data(outcome) matches Some(t) ==> tree_nested(t, MAX_DATA_DEPTH as nat)
}

/// The answer to a line for which the node was asked, whatever became of asking it.
pub fn proxy_reply(asked: &ProxyCommand, outcome: ProxyOutcome, request_id: u64) -> (r: Vec<u8>)
    requires
        outcome_fits(outcome),
    ensures
        r@ == json_encoding(JsonView::Object(answer_json(*asked, outcome, request_id))),
{
    let x = proxy_answer(outcome);
    if !x.success {
        return result_line(x);
    }
    let mut o = ObjectBuilder::new();
    match asked {
        ProxyCommand::DiscoverServices { service } => {
            o.put("type", JsonTree::Text("discover_result".to_owned()));
            o.put("success", JsonTree::Bool(true));
            o.put("service", JsonTree::Text(service.clone()));
            o.put("providers", providers_tree(x.data));
        },
        ProxyCommand::SendRequest { .. } => {
            let data = match x.data {
                Some(t) => {
                    proof {
                        nested_deeper(t, MAX_DATA_DEPTH as nat, MAX_DATA_DEPTH as nat + 1);
                    }
                    t
                },
                None => JsonTree::Null,
            };
            o.put("type", JsonTree::Text("response".to_owned()));
            o.put("success", JsonTree::Bool(true));
            o.put("data", data);
            o.put("request_id", JsonTree::Number(request_id));
        },
    }
    assert(o.nested_to(MAX_DATA_DEPTH as nat + 1));
    let t = o.object();
    assert(tree_nested(t, MAX_DATA_DEPTH as nat + 2));
    write_json(&t)
}

/// What a line asks for: an empty line nothing; a `ping` is answered; `discover` asks for the service
/// that it names, and `request` for the service of the peer that it names, with the bytes of its payload.
/// A line that lacks what it needs, or is none of these, is refused and nothing is asked.
pub proof fn lines_ask_for_what_they_name(line: Seq<char>, r: ProxyStep)
    requires
        line_stepped(line, r),
    ensures
        r is Skip <==> line.len() == 0,
        r matches ProxyStep::Ask(ProxyCommand::DiscoverServices { service }) ==> (json_members(encode_utf8(line)) matches Ok(m)
            && text_member(m, "type"@) == Some("discover"@) && text_member(m, "service"@) == Some(service@)
            && service@.len() > 0),
        r matches ProxyStep::Ask(ProxyCommand::SendRequest { peer, service, payload }) ==> (json_members(
            encode_utf8(line),
        ) matches Ok(m) && text_member(m, "type"@) == Some("request"@) && text_member(m, "service"@) == Some(service@)
            && service@.len() > 0 && (text_member(m, "peer"@) matches Some(p) && p.len() > 0 && peer_id_of_text(p) == Ok::<
            Seq<char>,
            Seq<char>,
        >(peer@)) && base64_decoding(
            match text_member(m, "payload"@) {
                Some(t) => t,
                None => Seq::empty(),
            },
        ) == Ok::<Seq<u8>, Seq<char>>(payload@)),
        r matches ProxyStep::Reply(x) ==> (x.success <==> (json_members(encode_utf8(line)) matches Ok(m) && text_member(
            m,
            "type"@,
        ) == Some("ping"@))),
        r matches ProxyStep::Reply(x) ==> x.data is None && (x.success ==> x.message@ == "pong"@),
{
    reveal_strlit("discover");
    reveal_strlit("request");
    reveal_strlit("ping");
    assert("discover"@.len() == 8 && "request"@.len() == 7 && "ping"@.len() == 4);
}

/// What must be asked is asked: a line that names what it needs is never refused.
pub proof fn good_lines_are_not_refused(line: Seq<char>, m: Seq<(Seq<char>, LeafView)>, r: ProxyStep)
    requires
        line_stepped(line, r),
        line.len() > 0,
        json_members(encode_utf8(line)) == Ok::<Seq<(Seq<char>, LeafView)>, Seq<char>>(m),
    ensures
        text_member(m, "type"@) == Some("discover"@) && (text_member(m, "service"@) matches Some(s) && s.len() > 0)
            ==> (r matches ProxyStep::Ask(ProxyCommand::DiscoverServices { service }) && Some(service@) == text_member(
            m,
            "service"@,
        )),
        text_member(m, "type"@) == Some("request"@) && (text_member(m, "service"@) matches Some(s) && s.len() > 0) && (
        text_member(m, "peer"@) matches Some(p) && p.len() > 0 && peer_id_of_text(p) is Ok) && (text_member(
            m,
            "payload"@,
        ) matches Some(t) && base64_decoding(t) is Ok) ==> r is Ask,
        text_member(m, "type"@) == Some("ping"@) ==> (r matches ProxyStep::Reply(x) && x.success && x.message@ == "pong"@),
        text_member(m, "type"@) == Some("discover"@) && !(text_member(m, "service"@) matches Some(s) && s.len() > 0)
            ==> (r matches ProxyStep::Reply(x) && !x.success && x.message@ == "缺少 service 字段"@),
        text_member(m, "type"@) == Some("request"@) && !(text_member(m, "service"@) matches Some(s) && s.len() > 0)
            ==> (r matches ProxyStep::Reply(x) && !x.success && x.message@ == "缺少 peer 或 service 字段"@),
        text_member(m, "type"@) == Some("request"@) && !(text_member(m, "peer"@) matches Some(s) && s.len() > 0)
            ==> (r matches ProxyStep::Reply(x) && !x.success && x.message@ == "缺少 peer 或 service 字段"@),
        text_member(m, "type"@) == Some("request"@) && (text_member(m, "service"@) matches Some(s) && s.len() > 0) && (
        text_member(m, "peer"@) matches Some(p) && p.len() > 0 && peer_id_of_text(p) is Err) ==> (r matches ProxyStep::Reply(x)
            && !x.success && x.message@ == "无效的 PeerId: "@ + text_member(m, "peer"@)->0),
        text_member(m, "type"@) is None ==> (r matches ProxyStep::Reply(x) && !x.success && x.message@ == "未知命令类型: "@),
{
    reveal_strlit("discover");
    reveal_strlit("request");
    reveal_strlit("ping");
    assert("discover"@.len() == 8 && "request"@.len() == 7 && "ping"@.len() == 4);
    assert("未知命令类型: "@ + Seq::<char>::empty() =~= "未知命令类型: "@);
}

/// A line that is no JSON object is refused with the parser's words.
pub proof fn other_lines_are_refused(line: Seq<char>, r: ProxyStep)
    requires
        line_stepped(line, r),
        line.len() > 0,
    ensures
        json_members(encode_utf8(line)) matches Err(e) ==> (r matches ProxyStep::Reply(x) && !x.success && x.message@
            == "JSON 解析错误: "@ + e && x.data is None),
{
}

/// What the node gave is handed on: the providers of a service under its name, and a peer's data under
/// the number of the request. Where asking has not worked, the answer says why, with what was given.
pub proof fn answers_hand_on_what_was_given(asked: ProxyCommand, outcome: ProxyOutcome, request_id: u64)
    ensures
        ({
            let answer = answer_json(asked, outcome, request_id);
            &&& (outcome matches ProxyOutcome::Answered(x) ==> (x.success ==> (asked matches ProxyCommand::DiscoverServices { service } ==> {
                &&& answer.dom() == set!["type"@, "success"@, "service"@, "providers"@]
                &&& answer["type"@] == JsonView::Text("discover_result"@)
                &&& answer["success"@] == JsonView::Bool(true)
                &&& answer["service"@] == JsonView::Text(service@)
                &&& answer["providers"@] == (match x.data {
                    Some(t) => if t is Array {
                        t@
                    } else {
                        JsonView::Array(seq![t@])
                    },
                    None => JsonView::Array(Seq::empty()),
                })
            })))
            &&& (outcome matches ProxyOutcome::Answered(x) ==> (x.success && asked is SendRequest ==> {
                &&& answer.dom() == set!["type"@, "success"@, "data"@, "request_id"@]
                &&& answer["type"@] == JsonView::Text("response"@)
                &&& answer["success"@] == JsonView::Bool(true)
                &&& answer["data"@] == (match x.data {
                    Some(t) => t@,
                    None => JsonView::Null,
                })
                &&& answer["request_id"@] == JsonView::Number(request_id)
            }))
            &&& (outcome matches ProxyOutcome::Answered(x) ==> (!x.success ==> answer["success"@] == JsonView::Bool(false)
                && answer["message"@] == JsonView::Text(x.message@) && (x.data matches Some(t) ==> answer.dom().contains("data"@)
                && answer["data"@] == t@) && (x.data is None ==> answer.dom() == set!["success"@, "message"@])))
            &&& (outcome is NotConnected ==> answer.dom() == set!["success"@, "message"@] && answer["success"@]
                == JsonView::Bool(false) && answer["message"@] == JsonView::Text("出站代理未连接到 P2P 节点"@))
            &&& (outcome is NoAnswer ==> answer.dom() == set!["success"@, "message"@] && answer["success"@] == JsonView::Bool(
                false,
            ) && answer["message"@] == JsonView::Text("P2P 节点未响应"@))
        }),
{
    reveal_strlit("type");
    reveal_strlit("success");
    reveal_strlit("service");
    reveal_strlit("providers");
    reveal_strlit("data");
    reveal_strlit("request_id");
    reveal_strlit("message");
    assert("type"@[0] == 't' && "data"@[0] == 'd');
    assert("success"@[1] == 'u' && "service"@[1] == 'e' && "message"@[0] == 'm' && "success"@[0] == 's' && "service"@[0] == 's');
    assert("type"@.len() == 4 && "data"@.len() == 4 && "success"@.len() == 7 && "service"@.len() == 7 && "message"@.len() == 7
        && "providers"@.len() == 9 && "request_id"@.len() == 10);
}

/// The result of a line says whether it worked and what was said, and has what was given where
/// something was; and what the node gives may stand 254 deep in itself.
pub proof fn results_say_what_became(x: ProxyResult)
    ensures
        x.data is None ==> result_json(x) == map!["success"@ => JsonView::Bool(x.success), "message"@ => JsonView::Text(x.message@)],
        x.data matches Some(t) ==> result_json(x) == map![
            "success"@ => JsonView::Bool(x.success),
            "message"@ => JsonView::Text(x.message@)
        ].insert("data"@, t@),
        x.fits() <==> (x.data matches Some(t) ==> tree_nested(t, 254)),
{
}

} // verus!
