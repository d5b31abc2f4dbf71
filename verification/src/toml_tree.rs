//! TOML values as plain data, and their text.
//!
//! Text is turned into values and back by `toml`; this module holds the values, and reads fields out
//! of tables.

use crate::members::{find_last, last_place, last_place_is_last};
use crate::text::text_views;
use toml::de::DeValue;
use toml::Value;
use vstd::prelude::*;
use vstd::string::*;

verus! {

/// What a TOML value says. The order of a table's members does not count.
pub enum TomlView {
    Text(Seq<char>),
    Int(i64),
    Bool(bool),
    Array(Seq<TomlView>),
    Table(Map<Seq<char>, TomlView>),
    /// A date, a time, or both.
    Time,
    /// A floating-point number, or one that does not fit: no configuration holds one.
    Other,
}

/// A TOML value.
#[derive(Debug)]
pub enum Toml {
    Text(String),
    Int(i64),
    Bool(bool),
    Array(Vec<Toml>),
    Table(Vec<(String, Toml)>),
    Time,
    Other,
}

impl Toml {
    pub open spec fn view(&self) -> TomlView
        decreases self,
    {
        match self {
            Toml::Text(t) => TomlView::Text(t@),
            Toml::Int(n) => TomlView::Int(*n),
            Toml::Bool(b) => TomlView::Bool(*b),
            Toml::Array(v) => TomlView::Array(
                Seq::new(
                    v@.len(),
                    |i: int|
                        if 0 <= i < v@.len() {
                            v@[i].view()
                        } else {
                            TomlView::Other
                        },
                ),
            ),
            Toml::Table(v) => TomlView::Table(
                Map::new(
                    |k: Seq<char>| last_place(v@, k) >= 0,
                    |k: Seq<char>|
                        {
                            let i = last_place(v@, k);
                            if 0 <= i < v@.len() {
                                v@[i].1.view()
                            } else {
                                TomlView::Other
                            }
                        },
                ),
            ),
            Toml::Time => TomlView::Time,
            Toml::Other => TomlView::Other,
        }
    }
}

/// Whether a value is a text, a number or a truth value.
pub open spec fn scalar(t: TomlView) -> bool {
    t is Text || t is Int || t is Bool
}

/// Whether a table has only scalar members.
pub open spec fn flat(t: TomlView) -> bool {
    t matches TomlView::Table(m) && forall|k: Seq<char>| #[trigger] m.dom().contains(k) ==> scalar(m[k])
}

/// Whether a value is made of scalars, lists of texts, lists of tables with scalar members, and
/// tables, nested at most `depth` deep.
pub open spec fn plain_toml(t: TomlView, depth: nat) -> bool
    decreases depth,
{
    match t {
        TomlView::Array(s) => {
            ||| forall|i: int| 0 <= i < s.len() ==> (#[trigger] s[i]) is Text
            ||| s.len() > 0 && forall|i: int| 0 <= i < s.len() ==> flat(#[trigger] s[i])
        },
        TomlView::Table(m) => depth > 0 && forall|k: Seq<char>| #[trigger]
            m.dom().contains(k) ==> plain_toml(m[k], (depth - 1) as nat),
        _ => scalar(t),
    }
}

/// Whether a value can be written: it is a plain table, nested at most eight deep.
pub open spec fn writable_toml(t: TomlView) -> bool {
    t is Table && plain_toml(t, 8)
}

/// `toml::Value`, a TOML value as `toml` holds it.
#[verifier::external_type_specification]
#[verifier::external_body]
pub struct ExTomlValue(Value);

/// What a `toml::Value` made of a tree holds.
pub uninterp spec fn toml_content(v: Value) -> TomlView;

/// `toml::de::DeValue`, a TOML value as `toml`'s parser holds it.
#[verifier::external_type_specification]
#[verifier::external_body]
pub struct ExDeValue<'i>(DeValue<'i>);

/// What a `toml::de::DeValue` holds.
pub uninterp spec fn parsed_content(v: DeValue) -> TomlView;

/// The table that `toml::de::DeTable::parse` reads from a text, or the text of the error that refuses
/// it.
pub uninterp spec fn toml_reading(text: Seq<char>) -> Result<TomlView, Seq<char>>;

/// Takes a `toml::de::DeValue` apart, variant by variant. Its content is what the value says; a
/// number that does not fit is told apart no further.
#[verifier::external_body]
fn toml_from_parsed(v: DeValue) -> (r: Toml)
    ensures
        r@ == parsed_content(v),
{
    match v {
        DeValue::String(t) => Toml::Text(t.into_owned()),
        DeValue::Integer(n) => i64::from_str_radix(n.as_str(), n.radix()).map_or(Toml::Other, Toml::Int),
        DeValue::Boolean(b) => Toml::Bool(b),
        DeValue::Array(s) => Toml::Array(s.into_iter().map(|v| toml_from_parsed(v.into_inner())).collect()),
        DeValue::Table(m) => Toml::Table(
            m.into_iter().map(|(k, v)| (k.into_inner().into_owned(), toml_from_parsed(v.into_inner()))).collect(),
        ),
        DeValue::Float(_) => Toml::Other,
        DeValue::Datetime(_) => Toml::Time,
    }
}

/// Builds the `toml::Value` of a value, variant by variant. Its content is the value, for values
/// that can be written.
#[verifier::external_body]
fn toml_to_value(t: &Toml) -> (r: Value)
    ensures
        writable_toml(t@) ==> toml_content(r) == t@,
{
    match t {
        Toml::Text(t) => Value::String(t.clone()),
        Toml::Int(n) => Value::Integer(*n),
        Toml::Bool(b) => Value::Boolean(*b),
        Toml::Array(s) => Value::Array(s.iter().map(toml_to_value).collect()),
        Toml::Table(m) => Value::Table(m.iter().map(|(k, v)| (k.clone(), toml_to_value(v))).collect()),
        Toml::Time | Toml::Other => Value::String(String::new()),
    }
}

/// `toml::de::DeTable::parse`, with which `toml::from_str` starts: the table or the refusal depends
/// on the text alone.
#[verifier::external_body]
fn toml_read<'i>(text: &'i str) -> (r: Result<DeValue<'i>, String>)
    ensures
        match r {
            Ok(v) => toml_reading(text@) == Ok::<TomlView, Seq<char>>(parsed_content(v)),
            Err(e) => toml_reading(text@) == Err::<TomlView, Seq<char>>(e@),
        },
{
    match toml::de::DeTable::parse(text) {
        Ok(t) => Ok(DeValue::Table(t.into_inner())),
        Err(e) => Err(e.to_string()),
    }
}

/// `toml::to_string_pretty`: it writes a value that can be written without fail, and
/// `toml::de::DeTable::parse` reads the same content back.
#[verifier::external_body]
fn toml_write(v: &Value) -> (r: Result<String, String>)
    ensures
        writable_toml(toml_content(*v)) ==> r is Ok,
        writable_toml(toml_content(*v)) ==> toml_reading(r->Ok_0@) is Ok,
        writable_toml(toml_content(*v)) ==> toml_reading(r->Ok_0@)->Ok_0 == toml_content(*v),
{
    toml::to_string_pretty(v).map_err(|e| e.to_string())
}

/// Reads a table; the error is the text with which the text is refused.
pub fn parse_toml(text: &str) -> (r: Result<Toml, String>)
    ensures
        match r {
            Ok(t) => toml_reading(text@) == Ok::<TomlView, Seq<char>>(t@),
            Err(e) => toml_reading(text@) == Err::<TomlView, Seq<char>>(e@),
        },
{
    match toml_read(text) {
        Ok(v) => Ok(toml_from_parsed(v)),
        Err(e) => Err(e),
    }
}

/// Writes a table. Reading it gives the same table back.
pub fn write_toml(t: &Toml) -> (r: Result<String, String>)
    ensures
        writable_toml(t@) ==> (r matches Ok(text) && toml_reading(text@) == Ok::<TomlView, Seq<char>>(t@)),
{
    let v = toml_to_value(t);
    toml_write(&v)
}

/// A table with one more member.
pub proof fn table_push(v: Vec<(String, Toml)>, w: Vec<(String, Toml)>, member: (String, Toml))
    requires
        w@ == v@.push(member),
    ensures
        Toml::Table(w)@->Table_0 == Toml::Table(v)@->Table_0.insert(member.0@, member.1@),
{
    let a = Toml::Table(w)@->Table_0;
    let b = Toml::Table(v)@->Table_0.insert(member.0@, member.1@);
    assert(w@.drop_last() =~= v@);
    assert forall|k: Seq<char>| a.dom().contains(k) == b.dom().contains(k) by {
        last_place_is_last(v@, k);
        last_place_is_last(w@, k);
    }
    assert forall|k: Seq<char>| a.dom().contains(k) implies a[k] == b[k] by {
        last_place_is_last(v@, k);
        last_place_is_last(w@, k);
    }
    assert(a =~= b);
}

/// A table being built.
pub struct TableBuilder {
    members: Vec<(String, Toml)>,
}

impl TableBuilder {
    pub closed spec fn view(&self) -> Map<Seq<char>, TomlView> {
        Toml::Table(self.members)@->Table_0
    }

    /// An empty table.
    pub fn new() -> (r: Self)
        ensures
            r@ == Map::<Seq<char>, TomlView>::empty(),
    {
        let r = TableBuilder { members: Vec::new() };
        assert(r@ =~= Map::<Seq<char>, TomlView>::empty());
        r
    }

    /// Adds a member.
    pub fn put(&mut self, name: &str, value: Toml)
        ensures
            final(self)@ == old(self)@.insert(name@, value@),
    {
        let member = (name.to_owned(), value);
        let ghost before = self.members;
        self.members.push(member);
        proof {
            table_push(before, self.members, member);
        }
    }

    /// The table.
    pub fn table(self) -> (r: Toml)
        ensures
            r@ == TomlView::Table(self@),
    {
        Toml::Table(self.members)
    }
}

/// Looks a member up.
pub fn toml_get<'a>(members: &'a Vec<(String, Toml)>, name: &str) -> (r: Option<&'a Toml>)
    ensures
        ({
            let m = Toml::Table(*members)@->Table_0;
            match r {
                Some(t) => m.dom().contains(name@) && m[name@] == t@,
                None => !m.dom().contains(name@),
            }
        }),
{
    match find_last(members, name) {
        Some(i) => Some(&members[i].1),
        None => None,
    }
}

/// The elements of a list, as what they say.
pub open spec fn toml_views(s: Seq<Toml>) -> Seq<TomlView> {
    s.map_values(|t: Toml| t@)
}

/// A list says what its elements say.
pub proof fn array_view(t: Toml)
    ensures
        t matches Toml::Array(v) ==> t@ == TomlView::Array(toml_views(v@)),
{
    if let Toml::Array(v) = t {
        assert(t@->Array_0 =~= toml_views(v@));
    }
}

/// The truth value of a member, or a default where it is missing; nothing where it is of another
/// kind.
pub open spec fn bool_or(m: Map<Seq<char>, TomlView>, name: Seq<char>, default: bool) -> Option<bool> {
    if !m.dom().contains(name) {
        Some(default)
    } else {
        match m[name] {
            TomlView::Bool(b) => Some(b),
            _ => None,
        }
    }
}

/// The number of a member, or a default where it is missing; nothing where it is of another kind or
/// does not fit.
pub open spec fn uint_or(m: Map<Seq<char>, TomlView>, name: Seq<char>, default: u32) -> Option<u32> {
    if !m.dom().contains(name) {
        Some(default)
    } else {
        match m[name] {
            TomlView::Int(n) => if 0 <= n <= u32::MAX {
                Some(n as u32)
            } else {
                None
            },
            _ => None,
        }
    }
}

/// The text of a member, or a default where it is missing; nothing where it is of another kind.
pub open spec fn text_or(m: Map<Seq<char>, TomlView>, name: Seq<char>, default: Seq<char>) -> Option<Seq<char>> {
    if !m.dom().contains(name) {
        Some(default)
    } else {
        match m[name] {
            TomlView::Text(t) => Some(t),
            _ => None,
        }
    }
}

/// What the elements of a list give to some names, in order. A name beyond the elements gets nothing,
/// and an element beyond the names is passed over.
pub open spec fn placed(names: Seq<Seq<char>>, s: Seq<TomlView>) -> Map<Seq<char>, TomlView>
    decreases names.len(),
{
    if names.len() == 0 {
        Map::empty()
    } else if names.len() <= s.len() {
        placed(names.drop_last(), s).insert(names.last(), s[names.len() - 1])
    } else {
        placed(names.drop_last(), s)
    }
}

/// The fields that a value gives to some names: a table by name, a list by place, and a time none.
/// Nothing where the value is of another kind.
pub open spec fn fields_of(t: TomlView, names: Seq<Seq<char>>) -> Option<Map<Seq<char>, TomlView>> {
    match t {
        TomlView::Table(m) => Some(m),
        TomlView::Array(s) => Some(placed(names, s)),
        TomlView::Time => Some(Map::empty()),
        _ => None,
    }
}

/// The fields of a section, none where it is missing; nothing where it cannot be one.
pub open spec fn section(
    m: Map<Seq<char>, TomlView>,
    name: Seq<char>,
    names: Seq<Seq<char>>,
) -> Option<Map<Seq<char>, TomlView>> {
    if !m.dom().contains(name) {
        Some(Map::empty())
    } else {
        fields_of(m[name], names)
    }
}

/// The members of a table, none where it is missing; nothing where it is no table.
pub open spec fn table_or_empty(m: Map<Seq<char>, TomlView>, name: Seq<char>) -> Option<Map<Seq<char>, TomlView>> {
    if !m.dom().contains(name) {
        Some(Map::empty())
    } else {
        match m[name] {
            TomlView::Table(t) => Some(t),
            _ => None,
        }
    }
}

/// The elements of a list, none where it is missing; nothing where it is no list.
pub open spec fn list_or_empty(m: Map<Seq<char>, TomlView>, name: Seq<char>) -> Option<Seq<TomlView>> {
    if !m.dom().contains(name) {
        Some(Seq::empty())
    } else {
        match m[name] {
            TomlView::Array(s) => Some(s),
            _ => None,
        }
    }
}

/// The members of a table, as what they say.
pub open spec fn table_view(v: Vec<(String, Toml)>) -> Map<Seq<char>, TomlView> {
    Toml::Table(v)@->Table_0
}

/// Members with the same names have the last of a name at the same place.
proof fn same_last_place(v: Seq<(String, Toml)>, w: Seq<(String, Toml)>, name: Seq<char>)
    requires
        v.len() == w.len(),
        forall|i: int| 0 <= i < v.len() ==> (#[trigger] v[i]).0@ == w[i].0@,
    ensures
        last_place(v, name) == last_place(w, name),
    decreases v.len(),
{
    if v.len() > 0 {
        same_last_place(v.drop_last(), w.drop_last(), name);
    }
}

/// Tables whose members say the same say the same.
proof fn same_table(v: Vec<(String, Toml)>, w: Vec<(String, Toml)>)
    requires
        v@.len() == w@.len(),
        forall|i: int| 0 <= i < v@.len() ==> (#[trigger] v@[i]).0@ == w@[i].0@ && v@[i].1@ == w@[i].1@,
    ensures
        table_view(v) == table_view(w),
{
    assert forall|k: Seq<char>| last_place(v@, k) == #[trigger] last_place(w@, k) by {
        same_last_place(v@, w@, k);
    }
    assert forall|k: Seq<char>| table_view(v).dom().contains(k) implies table_view(v)[k] == table_view(w)[k] by {
        last_place_is_last(v@, k);
        let i = last_place(v@, k);
        assert(v@[i].1@ == w@[i].1@);
    }
    assert(table_view(v) =~= table_view(w));
}

/// A value that says the same.
fn copy_toml(t: &Toml) -> (r: Toml)
    ensures
        r@ == t@,
    decreases t,
{
    match t {
        Toml::Text(s) => Toml::Text(s.clone()),
        Toml::Int(n) => Toml::Int(*n),
        Toml::Bool(b) => Toml::Bool(*b),
        Toml::Array(v) => {
            let r = Toml::Array(copy_list(v));
            proof {
                array_view(r);
                array_view(*t);
            }
            r
        },
        Toml::Table(v) => {
            let out = copy_members(v);
            assert(t@ == TomlView::Table(table_view(*v)));
            let r = Toml::Table(out);
            assert(r@ == TomlView::Table(table_view(out)));
            r
        },
        Toml::Time => Toml::Time,
        Toml::Other => Toml::Other,
    }
}

/// A list that says the same.
fn copy_list(v: &Vec<Toml>) -> (r: Vec<Toml>)
    ensures
        toml_views(r@) == toml_views(v@),
    decreases v,
{
    let mut out: Vec<Toml> = Vec::new();
    let mut i: usize = 0;
    while i < v.len()
        invariant
            i <= v@.len(),
            out@.len() == i,
            forall|j: int| 0 <= j < i ==> (#[trigger] out@[j])@ == v@[j]@,
        decreases v@.len() - i,
    {
        out.push(copy_toml(&v[i]));
        i += 1;
    }
    assert(toml_views(out@) =~= toml_views(v@));
    out
}

/// Members that say the same.
fn copy_members(v: &Vec<(String, Toml)>) -> (r: Vec<(String, Toml)>)
    ensures
        table_view(r) == table_view(*v),
    decreases v,
{
    let mut out: Vec<(String, Toml)> = Vec::new();
    let mut i: usize = 0;
    while i < v.len()
        invariant
            i <= v@.len(),
            out@.len() == i,
            forall|j: int| 0 <= j < i ==> (#[trigger] out@[j]).0@ == v@[j].0@ && out@[j].1@ == v@[j].1@,
        decreases v@.len() - i,
    {
        let member = (v[i].0.clone(), copy_toml(&v[i].1));
        out.push(member);
        i += 1;
    }
    proof {
        same_table(out, *v);
    }
    out
}

/// Some names, as texts.
pub open spec fn name_views(names: Seq<&str>) -> Seq<Seq<char>> {
    names.map_values(|n: &str| n@)
}

/// Reads the fields that a value gives to some names.
pub fn read_fields(t: &Toml, names: &Vec<&str>) -> (r: Option<Vec<(String, Toml)>>)
    ensures
        match r {
            Some(v) => fields_of(t@, name_views(names@)) == Some(table_view(v)),
            None => fields_of(t@, name_views(names@)) is None,
        },
{
    match t {
        Toml::Table(v) => {
            assert(t@ == TomlView::Table(table_view(*v)));
            Some(copy_members(v))
        },
        Toml::Array(v) => {
            let ghost all = name_views(names@);
            let ghost s = toml_views(v@);
            proof {
                array_view(*t);
                assert(all.subrange(0, 0) =~= Seq::<Seq<char>>::empty());
            }
            let mut fields = TableBuilder::new();
            let mut i: usize = 0;
            while i < names.len()
                invariant
                    i <= names@.len(),
                    all == name_views(names@),
                    s == toml_views(v@),
                    fields@ == placed(all.subrange(0, i as int), s),
                decreases names@.len() - i,
            {
                proof {
                    assert(all.subrange(0, i + 1).drop_last() =~= all.subrange(0, i as int));
                    assert(all.subrange(0, i + 1).last() == names@[i as int]@);
                }
                if i < v.len() {
                    fields.put(names[i], copy_toml(&v[i]));
                }
                i += 1;
            }
            assert(all.subrange(0, names@.len() as int) =~= all);
            Some(fields.members)
        },
        Toml::Time => {
            let none = TableBuilder::new();
            Some(none.members)
        },
        _ => None,
    }
}

/// Reads the fields of a section.
pub fn read_section(m: &Vec<(String, Toml)>, name: &str, names: &Vec<&str>) -> (r: Option<Vec<(String, Toml)>>)
    ensures
        match r {
            Some(v) => section(table_view(*m), name@, name_views(names@)) == Some(table_view(v)),
            None => section(table_view(*m), name@, name_views(names@)) is None,
        },
{
    match toml_get(m, name) {
        None => {
            let none = TableBuilder::new();
            Some(none.members)
        },
        Some(t) => read_fields(t, names),
    }
}

/// Reads a truth value.
pub fn read_bool_or(m: &Vec<(String, Toml)>, name: &str, default: bool) -> (r: Option<bool>)
    ensures
        r == bool_or(table_view(*m), name@, default),
{
    match toml_get(m, name) {
        None => Some(default),
        Some(Toml::Bool(b)) => Some(*b),
        Some(_) => None,
    }
}

/// Reads a number.
pub fn read_uint_or(m: &Vec<(String, Toml)>, name: &str, default: u32) -> (r: Option<u32>)
    ensures
        r == uint_or(table_view(*m), name@, default),
{
    match toml_get(m, name) {
        None => Some(default),
        Some(Toml::Int(n)) => if 0 <= *n && *n <= u32::MAX as i64 {
            Some(*n as u32)
        } else {
            None
        },
        Some(_) => None,
    }
}

/// Reads a text.
pub fn read_text_or(m: &Vec<(String, Toml)>, name: &str, default: &str) -> (r: Option<String>)
    ensures
        r.deep_view() == text_or(table_view(*m), name@, default@),
{
    match toml_get(m, name) {
        None => Some(default.to_owned()),
        Some(Toml::Text(t)) => Some(t.clone()),
        Some(_) => None,
    }
}

/// Reads a list of texts as such.
pub fn texts_in_list(v: &Vec<Toml>) -> (r: Option<Vec<String>>)
    ensures
        match r {
            Some(t) => list_texts(toml_views(v@)) == Some(text_views(t@)),
            None => list_texts(toml_views(v@)) is None,
        },
{
    let ghost s = toml_views(v@);
    let mut out: Vec<String> = Vec::new();
    let mut i: usize = 0;
    while i < v.len()
        invariant
            i <= v@.len(),
            s == toml_views(v@),
            out@.len() == i,
            forall|j: int| 0 <= j < i ==> #[trigger] s[j] == TomlView::Text(out@[j]@),
        decreases v@.len() - i,
    {
        match &v[i] {
            Toml::Text(t) => {
                assert(s[i as int] == TomlView::Text(t@));
                out.push(t.clone());
            },
            _ => {
                assert(!(s[i as int] is Text));
                return None;
            },
        }
        i += 1;
    }
    assert(text_views(out@) =~= s.map_values(|t: TomlView| t->Text_0));
    Some(out)
}

/// The texts that the elements of a list are, if each is one.
pub open spec fn list_texts(s: Seq<TomlView>) -> Option<Seq<Seq<char>>> {
    if forall|i: int| 0 <= i < s.len() ==> (#[trigger] s[i]) is Text {
        Some(s.map_values(|t: TomlView| t->Text_0))
    } else {
        None
    }
}

/// A member counts where it has its kind, a default where it is missing, and nothing where it is of
/// another kind; a number fits 32 bits and is not negative.
pub proof fn members_count_or_default(m: Map<Seq<char>, TomlView>, name: Seq<char>, b: bool, n: u32, t: Seq<char>)
    ensures
        !m.dom().contains(name) ==> bool_or(m, name, b) == Some(b) && uint_or(m, name, n) == Some(n) && text_or(m, name, t)
            == Some(t) && table_or_empty(m, name) == Some(Map::<Seq<char>, TomlView>::empty()) && list_or_empty(m, name)
            == Some(Seq::<TomlView>::empty()),
        m.dom().contains(name) ==> (match m[name] {
            TomlView::Bool(v) => bool_or(m, name, b) == Some(v),
            _ => bool_or(m, name, b) is None,
        }) && (match m[name] {
            TomlView::Int(v) => if 0 <= v <= 4_294_967_295 {
                uint_or(m, name, n) is Some && uint_or(m, name, n)->0 == v
            } else {
                uint_or(m, name, n) is None
            },
            _ => uint_or(m, name, n) is None,
        }) && (match m[name] {
            TomlView::Text(v) => text_or(m, name, t) == Some(v),
            _ => text_or(m, name, t) is None,
        }) && (match m[name] {
            TomlView::Table(v) => table_or_empty(m, name) == Some(v),
            _ => table_or_empty(m, name) is None,
        }) && (match m[name] {
            TomlView::Array(v) => list_or_empty(m, name) == Some(v),
            _ => list_or_empty(m, name) is None,
        }),
{
}

/// A section is a table with its members, or a list that gives its elements to the names in order, or
/// not there; a time has no members, and nothing else is a section.
pub proof fn sections_are_tables_or_lists(
    m: Map<Seq<char>, TomlView>,
    name: Seq<char>,
    names: Seq<Seq<char>>,
    s: Seq<TomlView>,
    i: int,
)
    ensures
        !m.dom().contains(name) ==> section(m, name, names) == Some(Map::<Seq<char>, TomlView>::empty()),
        m.dom().contains(name) ==> (m[name] matches TomlView::Table(t) ==> section(m, name, names) == Some(t)),
        m.dom().contains(name) ==> (m[name] matches TomlView::Array(v) ==> section(m, name, names) == Some(placed(names, v))),
        m.dom().contains(name) && m[name] is Time ==> section(m, name, names) == Some(Map::<Seq<char>, TomlView>::empty()),
        m.dom().contains(name) && !(m[name] is Table) && !(m[name] is Array) && !(m[name] is Time) ==> section(m, name, names) is None,
        names.no_duplicates() && 0 <= i < names.len() && i < s.len() ==> placed(names, s).dom().contains(names[i]) && placed(
            names,
            s,
        )[names[i]] == s[i],
        names.no_duplicates() && s.len() <= i < names.len() ==> !placed(names, s).dom().contains(names[i]),
        forall|k: Seq<char>| #[trigger] placed(names, s).dom().contains(k) ==> names.contains(k),
    decreases names.len(),
{
    if names.len() > 0 {
        let rest = names.drop_last();
        let last = names.len() - 1;
        assert(names[last] == names.last());
        assert forall|j: int| 0 <= j < rest.len() implies #[trigger] rest[j] == names[j] by {}
        sections_are_tables_or_lists(m, name, rest, s, i);
        assert forall|k: Seq<char>| #[trigger] placed(names, s).dom().contains(k) implies names.contains(k) by {
            if placed(rest, s).dom().contains(k) {
                let j = choose|j: int| 0 <= j < rest.len() && rest[j] == k;
                assert(names[j] == k);
            }
        }
        if names.no_duplicates() {
            assert(rest.no_duplicates());
            if 0 <= i < last {
                assert(names[i] != names[last]);
            } else if i == last {
                if placed(rest, s).dom().contains(names[last]) {
                    let j = choose|j: int| 0 <= j < rest.len() && rest[j] == names[last];
                    assert(names[j] != names[last]);
                }
            }
        }
    }
}

/// The texts of a list are its elements, in order, where each of them is a text.
pub proof fn texts_of_a_list(s: Seq<TomlView>, texts: Seq<Seq<char>>)
    ensures
        list_texts(s) == Some(texts) <==> s.len() == texts.len() && forall|i: int|
            0 <= i < s.len() ==> #[trigger] s[i] == TomlView::Text(texts[i]),
{
    if s.len() == texts.len() && forall|i: int| 0 <= i < s.len() ==> #[trigger] s[i] == TomlView::Text(texts[i]) {
        assert(s.map_values(|t: TomlView| t->Text_0) =~= texts);
    }
}

/// What a TOML value says is what it holds; a table has for each name the last member of it.
pub proof fn values_say_what_they_hold(t: Toml)
    ensures
        t matches Toml::Text(s) ==> t@ == TomlView::Text(s@),
        t matches Toml::Int(n) ==> t@ == TomlView::Int(n),
        t matches Toml::Bool(b) ==> t@ == TomlView::Bool(b),
        t is Time ==> t@ is Time,
        t matches Toml::Array(v) ==> (t@ matches TomlView::Array(s) && s.len() == v@.len() && forall|i: int|
            0 <= i < v@.len() ==> #[trigger] s[i] == v@[i]@),
        t matches Toml::Table(v) ==> (t@ matches TomlView::Table(m) && forall|k: Seq<char>|
            #![trigger m.dom().contains(k)]
            (m.dom().contains(k) <==> last_place(v@, k) >= 0) && (m.dom().contains(k) && last_place(v@, k) < v@.len() ==> m[k]
                == v@[last_place(v@, k)].1@)),
{
}

} // verus!
