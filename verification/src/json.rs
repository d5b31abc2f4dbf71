//! JSON values as far as the node reads and writes them.

use crate::members::{last_place, last_place_is_last};
use crate::text::{same_text, text_views};
use serde_json::Value;
use vstd::prelude::*;
use vstd::string::*;

verus! {

/// A member's value, as far as the node looks into it.
#[derive(Debug)]
pub enum Leaf {
    Null,
    Bool(bool),
    Number,
    Text(String),
    Array,
    Object,
}

/// What a member's value is.
pub enum LeafView {
    Null,
    Bool(bool),
    Number,
    Text(Seq<char>),
    Array,
    Object,
}

impl Leaf {
    pub open spec fn view(&self) -> LeafView {
        match self {
            Leaf::Null => LeafView::Null,
            Leaf::Bool(b) => LeafView::Bool(*b),
            Leaf::Number => LeafView::Number,
            Leaf::Text(t) => LeafView::Text(t@),
            Leaf::Array => LeafView::Array,
            Leaf::Object => LeafView::Object,
        }
    }
}

/// The members of a JSON object; a value that is no object has none.
#[derive(Debug)]
pub struct Json {
    pub members: Vec<(String, Leaf)>,
}

impl Json {
    pub open spec fn view(&self) -> Seq<(Seq<char>, LeafView)> {
        self.members@.map_values(|m: (String, Leaf)| (m.0@, m.1@))
    }
}

/// The member of a name.
pub open spec fn member_of(m: Seq<(Seq<char>, LeafView)>, name: Seq<char>) -> Option<LeafView>
    decreases m.len(),
{
    if m.len() == 0 {
        None
    } else if m[0].0 == name {
        Some(m[0].1)
    } else {
        member_of(m.drop_first(), name)
    }
}

/// The text of a member; nothing where the member is missing or is no text.
pub open spec fn text_member(m: Seq<(Seq<char>, LeafView)>, name: Seq<char>) -> Option<Seq<char>> {
    match member_of(m, name) {
        Some(LeafView::Text(t)) => Some(t),
        _ => None,
    }
}

/// The members of the JSON object that some bytes are, nothing where they are another JSON value, or
/// the text of the error that refuses them.
pub uninterp spec fn json_object(bytes: Seq<u8>) -> Result<Option<Seq<(Seq<char>, LeafView)>>, Seq<char>>;

/// The members of the JSON value that some bytes are, none where it is no object; or the text of the
/// error that refuses them.
pub open spec fn json_members(bytes: Seq<u8>) -> Result<Seq<(Seq<char>, LeafView)>, Seq<char>> {
    match json_object(bytes) {
        Ok(Some(m)) => Ok(m),
        Ok(None) => Ok(Seq::empty()),
        Err(e) => Err(e),
    }
}

/// What the members of an optional object say.
pub open spec fn optional_json(j: Option<Json>) -> Option<Seq<(Seq<char>, LeafView)>> {
    match j {
        Some(j) => Some(j@),
        None => None,
    }
}

/// `serde_json::from_slice` into a `serde_json::Value`, of which the members of an object are
/// given, each with the kind of its value, and texts and truth values in full; nothing for a value
/// of another kind.
#[verifier::external_body]
fn read_json(bytes: &[u8]) -> (r: Result<Option<Json>, String>)
    ensures
        r is Ok <==> json_object(bytes@) is Ok,
        r is Ok ==> json_object(bytes@)->Ok_0 == optional_json(r->Ok_0),
        r is Err ==> json_object(bytes@)->Err_0 == r->Err_0@,
{
    let object = match serde_json::from_slice::<Value>(bytes) {
        Ok(Value::Object(object)) => object,
        Ok(_) => return Ok(None),
        Err(e) => return Err(e.to_string()),
    };
    let members = object.into_iter().map(|(k, v)| match v {
        Value::Null => (k, Leaf::Null),
        Value::Bool(b) => (k, Leaf::Bool(b)),
        Value::Number(_) => (k, Leaf::Number),
        Value::String(t) => (k, Leaf::Text(t)),
        Value::Array(_) => (k, Leaf::Array),
        Value::Object(_) => (k, Leaf::Object),
    });
    Ok(Some(Json { members: members.collect() }))
}

/// The texts of the JSON array that some bytes are, if they are one of texts only.
pub uninterp spec fn json_texts(bytes: Seq<u8>) -> Option<Seq<Seq<char>>>;

/// `serde_json::from_slice` into a `Vec<String>`.
#[verifier::external_body]
fn read_texts(bytes: &[u8]) -> (r: Option<Vec<String>>)
    ensures
        match r {
            Some(t) => json_texts(bytes@) == Some(text_views(t@)),
            None => json_texts(bytes@) is None,
        },
{
    serde_json::from_slice::<Vec<String>>(bytes).ok()
}

/// The JSON array of some texts.
pub uninterp spec fn json_of_texts(texts: Seq<Seq<char>>) -> Seq<u8>;

/// `serde_json::to_vec` of a `Vec<String>`, which does not fail; reading it gives the texts back.
#[verifier::external_body]
fn write_texts(texts: &Vec<String>) -> (r: Vec<u8>)
    ensures
        r@ == json_of_texts(text_views(texts@)),
        json_texts(r@) == Some(text_views(texts@)),
{
    serde_json::to_vec(texts).expect("a list of texts has a JSON form")
}

impl Json {
    /// Reads the members of a JSON value; one that is no object has none.
    pub fn from_bytes(bytes: &[u8]) -> (r: Result<Json, String>)
        ensures
            match r {
                Ok(j) => json_members(bytes@) == Ok::<Seq<(Seq<char>, LeafView)>, Seq<char>>(j@),
                Err(e) => json_members(bytes@) == Err::<Seq<(Seq<char>, LeafView)>, Seq<char>>(e@),
            },
    {
        match read_json(bytes) {
            Ok(Some(j)) => Ok(j),
            Ok(None) => {
                let none = Json { members: Vec::new() };
                assert(none@ =~= Seq::<(Seq<char>, LeafView)>::empty());
                Ok(none)
            },
            Err(e) => Err(e),
        }
    }

    /// The member of a name.
    pub fn get(&self, name: &str) -> (r: Option<&Leaf>)
        ensures
            match r {
                Some(l) => member_of(self@, name@) == Some(l@),
                None => member_of(self@, name@) is None,
            },
    {
        let ghost all = self@;
        let mut i: usize = 0;
        assert(all.subrange(0, all.len() as int) =~= all);
        while i < self.members.len()
            invariant
                i <= self.members@.len(),
                all == self@,
                all.len() == self.members@.len(),
                member_of(all, name@) == member_of(all.subrange(i as int, all.len() as int), name@),
            decreases self.members@.len() - i,
        {
            proof {
                let rest = all.subrange(i as int, all.len() as int);
                assert(rest[0] == all[i as int]);
                assert(rest.drop_first() =~= all.subrange(i + 1, all.len() as int));
            }
            if same_text(self.members[i].0.as_str(), name) {
                return Some(&self.members[i].1);
            }
            i += 1;
        }
        None
    }

    /// The text of a member.
    pub fn text(&self, name: &str) -> (r: Option<String>)
        ensures
            r.deep_view() == text_member(self@, name@),
    {
        match self.get(name) {
            Some(Leaf::Text(t)) => Some(t.clone()),
            _ => None,
        }
    }
}

/// Reads a JSON array of texts.
pub fn texts_from_json(bytes: &[u8]) -> (r: Option<Vec<String>>)
    ensures
        match r {
            Some(t) => json_texts(bytes@) == Some(text_views(t@)),
            None => json_texts(bytes@) is None,
        },
{
    read_texts(bytes)
}

/// Writes texts as a JSON array.
pub fn texts_to_json(texts: &Vec<String>) -> (r: Vec<u8>)
    ensures
        r@ == json_of_texts(text_views(texts@)),
        json_texts(r@) == Some(text_views(texts@)),
{
    write_texts(texts)
}

/// What a JSON value says, as far as the node writes it. The order of an object's members does not
/// count.
pub enum JsonView {
    Null,
    Bool(bool),
    Number(u64),
    /// A number below zero.
    Negative(i64),
    Text(Seq<char>),
    Array(Seq<JsonView>),
    Object(Map<Seq<char>, JsonView>),
}

/// A JSON value, as far as the node writes it.
#[derive(Debug)]
pub enum JsonTree {
    Null,
    Bool(bool),
    Number(u64),
    /// A number that may be below zero.
    Signed(i64),
    Text(String),
    Array(Vec<JsonTree>),
    Object(Vec<(String, JsonTree)>),
}

impl JsonTree {
    pub open spec fn view(&self) -> JsonView
        decreases self,
    {
        match self {
            JsonTree::Null => JsonView::Null,
            JsonTree::Bool(b) => JsonView::Bool(*b),
            JsonTree::Number(n) => JsonView::Number(*n),
            JsonTree::Signed(n) => if *n < 0 {
                JsonView::Negative(*n)
            } else {
                JsonView::Number(*n as u64)
            },
            JsonTree::Text(t) => JsonView::Text(t@),
            JsonTree::Array(v) => JsonView::Array(
                Seq::new(
                    v@.len(),
                    |i: int|
                        if 0 <= i < v@.len() {
                            v@[i].view()
                        } else {
                            JsonView::Null
                        },
                ),
            ),
            JsonTree::Object(v) => JsonView::Object(
                Map::new(
                    |k: Seq<char>| last_place(v@, k) >= 0,
                    |k: Seq<char>|
                        {
                            let i = last_place(v@, k);
                            if 0 <= i < v@.len() {
                                v@[i].1.view()
                            } else {
                                JsonView::Null
                            }
                        },
                ),
            ),
        }
    }
}

/// How deep lists and objects of a value may stand in each other.
pub const MAX_JSON_DEPTH: usize = 256;

/// Whether lists and objects of a value stand in each other at most so deep.
pub open spec fn nested(v: JsonView, depth: nat) -> bool
    decreases depth,
{
    match v {
        JsonView::Array(s) => depth > 0 && forall|i: int|
            0 <= i < s.len() ==> nested(#[trigger] s[i], (depth - 1) as nat),
        JsonView::Object(m) => depth > 0 && forall|k: Seq<char>| #[trigger]
            m.dom().contains(k) ==> nested(m[k], (depth - 1) as nat),
        _ => true,
    }
}

/// Whether lists and objects of a tree stand in each other at most so deep, members that do not count
/// among them.
pub open spec fn tree_nested(t: JsonTree, depth: nat) -> bool
    decreases depth,
{
    match t {
        JsonTree::Array(v) => depth > 0 && forall|i: int|
            0 <= i < v@.len() ==> tree_nested(#[trigger] v@[i], (depth - 1) as nat),
        JsonTree::Object(v) => depth > 0 && forall|i: int|
            0 <= i < v@.len() ==> tree_nested((#[trigger] v@[i]).1, (depth - 1) as nat),
        _ => true,
    }
}

/// What is nested at most so deep is also nested at most deeper.
pub proof fn nested_deeper(t: JsonTree, a: nat, b: nat)
    requires
        tree_nested(t, a),
        a <= b,
    ensures
        tree_nested(t, b),
    decreases a,
{
    match t {
        JsonTree::Array(v) => {
            assert forall|i: int| 0 <= i < v@.len() implies tree_nested(#[trigger] v@[i], (b - 1) as nat) by {
                nested_deeper(v@[i], (a - 1) as nat, (b - 1) as nat);
            }
        },
        JsonTree::Object(v) => {
            assert forall|i: int| 0 <= i < v@.len() implies tree_nested((#[trigger] v@[i]).1, (b - 1) as nat) by {
                nested_deeper(v@[i].1, (a - 1) as nat, (b - 1) as nat);
            }
        },
        _ => {},
    }
}

/// What stands in a list or an object is nested less deep.
proof fn part_nested(t: JsonTree, i: int, depth: nat)
    requires
        tree_nested(t, depth),
    ensures
        t matches JsonTree::Array(v) ==> (0 <= i < v@.len() ==> tree_nested(v@[i], (depth - 1) as nat)),
        t matches JsonTree::Object(v) ==> (0 <= i < v@.len() ==> tree_nested(v@[i].1, (depth - 1) as nat)),
{
}

/// A tree says nothing that is nested deeper than the tree.
proof fn nested_says_nested(t: JsonTree, depth: nat)
    requires
        tree_nested(t, depth),
    ensures
        nested(t@, depth),
    decreases depth,
{
    match t {
        JsonTree::Array(v) => {
            let s = t@->Array_0;
            assert forall|i: int| 0 <= i < s.len() implies nested(#[trigger] s[i], (depth - 1) as nat) by {
                nested_says_nested(v@[i], (depth - 1) as nat);
            }
        },
        JsonTree::Object(v) => {
            let m = t@->Object_0;
            assert forall|k: Seq<char>| #[trigger] m.dom().contains(k) implies nested(m[k], (depth - 1) as nat) by {
                last_place_is_last(v@, k);
                nested_says_nested(v@[last_place(v@, k)].1, (depth - 1) as nat);
            }
        },
        _ => {},
    }
}

impl JsonTree {
    /// Whether lists and objects of the tree stand in each other at most so deep.
    pub fn is_nested(&self, depth: usize) -> (r: bool)
        ensures
            r == tree_nested(*self, depth as nat),
        decreases depth,
    {
        match self {
            JsonTree::Array(v) => {
                if depth == 0 {
                    return false;
                }
                let mut i: usize = 0;
                while i < v.len()
                    invariant
                        i <= v@.len(),
                        depth > 0,
                        *self == JsonTree::Array(*v),
                        forall|j: int| 0 <= j < i ==> tree_nested(#[trigger] v@[j], (depth - 1) as nat),
                    decreases v@.len() - i,
                {
                    if !v[i].is_nested(depth - 1) {
                        proof {
                            if tree_nested(*self, depth as nat) {
                                part_nested(*self, i as int, depth as nat);
                            }
                        }
                        return false;
                    }
                    i += 1;
                }
                true
            },
            JsonTree::Object(v) => {
                if depth == 0 {
                    return false;
                }
                let mut i: usize = 0;
                while i < v.len()
                    invariant
                        i <= v@.len(),
                        depth > 0,
                        *self == JsonTree::Object(*v),
                        forall|j: int| 0 <= j < i ==> tree_nested((#[trigger] v@[j]).1, (depth - 1) as nat),
                    decreases v@.len() - i,
                {
                    if !v[i].1.is_nested(depth - 1) {
                        proof {
                            if tree_nested(*self, depth as nat) {
                                part_nested(*self, i as int, depth as nat);
                            }
                        }
                        return false;
                    }
                    i += 1;
                }
                true
            },
            _ => true,
        }
    }
}

/// `serde_json::Value`, a JSON value as `serde_json` holds it.
#[verifier::external_type_specification]
#[verifier::external_body]
pub struct ExJsonValue(serde_json::Value);

/// What a `serde_json::Value` made of a tree says.
pub uninterp spec fn json_content(v: serde_json::Value) -> JsonView;

/// The bytes that `serde_json::to_vec` writes for what a value says.
pub uninterp spec fn json_encoding(v: JsonView) -> Seq<u8>;

/// Builds the `serde_json::Value` of a tree, variant by variant. Of two members with one name the
/// later counts.
#[verifier::external_body]
fn json_to_value(t: &JsonTree) -> (r: serde_json::Value)
    requires
        tree_nested(*t, MAX_JSON_DEPTH as nat),
    ensures
        json_content(r) == t@,
{
    match t {
        JsonTree::Null => Value::Null,
        JsonTree::Bool(b) => Value::Bool(*b),
        JsonTree::Number(n) => Value::Number((*n).into()),
        JsonTree::Signed(n) => Value::Number((*n).into()),
        JsonTree::Text(t) => Value::String(t.clone()),
        JsonTree::Array(s) => Value::Array(s.iter().map(json_to_value).collect()),
        JsonTree::Object(m) => Value::Object(m.iter().map(|(k, v)| (k.clone(), json_to_value(v))).collect()),
    }
}

/// `serde_json::to_vec` of a value, which does not fail. It writes the members of an object in the
/// order of their names, so that the bytes depend on what the value says alone.
#[verifier::external_body]
fn json_write(v: &serde_json::Value) -> (r: Vec<u8>)
    requires
        nested(json_content(*v), MAX_JSON_DEPTH as nat),
    ensures
        r@ == json_encoding(json_content(*v)),
{
    serde_json::to_vec(v).expect("a JSON value has a JSON form")
}

/// Writes a JSON value.
pub fn write_json(t: &JsonTree) -> (r: Vec<u8>)
    requires
        tree_nested(*t, MAX_JSON_DEPTH as nat),
    ensures
        r@ == json_encoding(t@),
{
    let v = json_to_value(t);
    proof {
        nested_says_nested(*t, MAX_JSON_DEPTH as nat);
    }
    json_write(&v)
}

/// The list of some texts.
pub open spec fn text_list(texts: Seq<Seq<char>>) -> JsonView {
    JsonView::Array(texts.map_values(|t: Seq<char>| JsonView::Text(t)))
}

/// The list of some texts.
pub fn texts_tree(texts: &Vec<String>) -> (r: JsonTree)
    ensures
        r@ == text_list(text_views(texts@)),
        tree_nested(r, 1),
{
    let mut v: Vec<JsonTree> = Vec::new();
    let mut i: usize = 0;
    while i < texts.len()
        invariant
            i <= texts@.len(),
            v@.len() == i,
            forall|j: int| 0 <= j < i ==> (#[trigger] v@[j])@ == JsonView::Text(texts@[j]@),
        decreases texts@.len() - i,
    {
        v.push(JsonTree::Text(texts[i].clone()));
        i += 1;
    }
    let r = JsonTree::Array(v);
    assert forall|i: int| 0 <= i < v@.len() implies tree_nested(#[trigger] v@[i], 0) by {
        assert(v@[i]@ is Text);
    }
    assert(r@->Array_0 =~= text_list(text_views(texts@))->Array_0);
    r
}

/// An object being built.
pub struct ObjectBuilder {
    members: Vec<(String, JsonTree)>,
}

impl ObjectBuilder {
    pub closed spec fn view(&self) -> Map<Seq<char>, JsonView> {
        JsonTree::Object(self.members)@->Object_0
    }

    /// Whether lists and objects of the members stand in each other at most so deep.
    pub closed spec fn nested_to(&self, depth: nat) -> bool {
        forall|i: int| 0 <= i < self.members@.len() ==> tree_nested((#[trigger] self.members@[i]).1, depth)
    }

    /// An empty object.
    pub fn new() -> (r: Self)
        ensures
            r@ == Map::<Seq<char>, JsonView>::empty(),
            forall|d: nat| #[trigger] r.nested_to(d),
    {
        let r = ObjectBuilder { members: Vec::new() };
        assert(r@ =~= Map::<Seq<char>, JsonView>::empty());
        r
    }

    /// Adds a member.
    pub fn put(&mut self, name: &str, value: JsonTree)
        ensures
            final(self)@ == old(self)@.insert(name@, value@),
            forall|d: nat| old(self).nested_to(d) && tree_nested(value, d) ==> #[trigger] final(self).nested_to(d),
            forall|d: nat, e: nat| #![trigger final(self).nested_to(d), tree_nested(value, e)]
                e <= d && old(self).nested_to(d) && tree_nested(value, e) ==> final(self).nested_to(d),
    {
        let member = (name.to_owned(), value);
        let ghost before = self.members;
        self.members.push(member);
        proof {
            let a = self@;
            let b = old(self)@.insert(name@, value@);
            assert(self.members@.drop_last() =~= before@);
            assert forall|k: Seq<char>| a.dom().contains(k) == b.dom().contains(k) by {
                last_place_is_last(before@, k);
                last_place_is_last(self.members@, k);
            }
            assert forall|k: Seq<char>| a.dom().contains(k) implies a[k] == b[k] by {
                last_place_is_last(before@, k);
                last_place_is_last(self.members@, k);
            }
            assert(a =~= b);
            assert forall|d: nat, e: nat| e <= d && #[trigger] tree_nested(value, e) implies #[trigger] tree_nested(value, d) by {
                nested_deeper(value, e, d);
            }
        }
    }

    /// The object.
    pub fn object(self) -> (r: JsonTree)
        ensures
            r@ == JsonView::Object(self@),
            forall|d: nat| #[trigger] self.nested_to(d) ==> tree_nested(r, d + 1),
    {
        JsonTree::Object(self.members)
    }
}

/// A member is the first of its name; and a text is given only where the member is a text.
pub proof fn first_member_counts(m: Seq<(Seq<char>, LeafView)>, name: Seq<char>, i: int)
    ensures
        member_of(m, name) is None <==> forall|j: int| 0 <= j < m.len() ==> (#[trigger] m[j]).0 != name,
        0 <= i < m.len() && m[i].0 == name && (forall|j: int| 0 <= j < i ==> (#[trigger] m[j]).0 != name) ==> member_of(m, name)
            == Some(m[i].1),
        member_of(m, name) matches Some(LeafView::Text(t)) ==> text_member(m, name) == Some(t),
        text_member(m, name) matches Some(t) ==> member_of(m, name) == Some(LeafView::Text(t)),
    decreases m.len(),
{
    if m.len() > 0 {
        let rest = m.drop_first();
        first_member_counts(rest, name, i - 1);
        assert forall|j: int| 0 <= j < rest.len() implies #[trigger] rest[j] == m[j + 1] by {}
        if m[0].0 != name {
            if forall|j: int| 0 <= j < rest.len() ==> (#[trigger] rest[j]).0 != name {
                assert forall|j: int| 0 <= j < m.len() implies (#[trigger] m[j]).0 != name by {
                    if j > 0 {
                        assert(rest[j - 1].0 != name);
                    }
                }
            } else {
                let j = choose|j: int| 0 <= j < rest.len() && (#[trigger] rest[j]).0 == name;
                assert(m[j + 1].0 == name);
            }
            if 1 <= i < m.len() && (forall|j: int| 0 <= j < i ==> (#[trigger] m[j]).0 != name) {
                assert forall|j: int| 0 <= j < i - 1 implies (#[trigger] rest[j]).0 != name by {
                    assert(m[j + 1].0 != name);
                }
                assert(rest[i - 1] == m[i]);
            }
        }
    }
}

/// The members of bytes that are an object are its members; other JSON has none, and what is no JSON is
/// refused. A list of texts has each text, in order.
pub proof fn members_are_those_of_the_object(bytes: Seq<u8>, texts: Seq<Seq<char>>)
    ensures
        json_object(bytes) matches Ok(Some(m)) ==> json_members(bytes) == Ok::<Seq<(Seq<char>, LeafView)>, Seq<char>>(m),
        json_object(bytes) == Ok::<Option<Seq<(Seq<char>, LeafView)>>, Seq<char>>(None) ==> json_members(bytes) == Ok::<
            Seq<(Seq<char>, LeafView)>,
            Seq<char>,
        >(Seq::empty()),
        json_object(bytes) matches Err(e) ==> json_members(bytes) == Err::<Seq<(Seq<char>, LeafView)>, Seq<char>>(e),
        text_list(texts) is Array && text_list(texts)->Array_0.len() == texts.len(),
        forall|i: int| 0 <= i < texts.len() ==> #[trigger] text_list(texts)->Array_0[i] == JsonView::Text(texts[i]),
{
}

/// What a JSON value says: an object has for each name the last member of it, a list each of its
/// elements, and the members that were read are those of the object, in order.
pub proof fn trees_say_their_members(t: JsonTree, j: Json)
    ensures
        t matches JsonTree::Bool(b) ==> t@ == JsonView::Bool(b),
        t matches JsonTree::Number(n) ==> t@ == JsonView::Number(n),
        t matches JsonTree::Signed(n) ==> (n < 0 ==> t@ == JsonView::Negative(n)),
        t matches JsonTree::Text(s) ==> t@ == JsonView::Text(s@),
        t is Null ==> t@ is Null,
        t matches JsonTree::Array(v) ==> (t@ matches JsonView::Array(s) && s.len() == v@.len() && forall|i: int|
            0 <= i < v@.len() ==> #[trigger] s[i] == v@[i]@),
        t matches JsonTree::Object(v) ==> (t@ matches JsonView::Object(m) && forall|k: Seq<char>|
            #![trigger m.dom().contains(k)]
            (m.dom().contains(k) <==> last_place(v@, k) >= 0) && (m.dom().contains(k) && last_place(v@, k) < v@.len() ==> m[k]
                == v@[last_place(v@, k)].1@)),
        j@.len() == j.members@.len(),
        forall|i: int|
            0 <= i < j.members@.len() ==> (#[trigger] j@[i]).0 == j.members@[i].0@ && j@[i].1 == j.members@[i].1@,
{
}

} // verus!
