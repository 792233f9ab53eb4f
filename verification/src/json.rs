//! JSON values as plain data.
//!
//! Parsing is serde_json's work; what comes out is copied into a type of this
//! library, and everything that reads a message works on that.

use vstd::prelude::*;

use crate::level::Level;
use crate::list::{first, first_is_at};
use crate::text;

verus! {

/// A number: as an unsigned or signed integer where it is one, and as a double.
#[derive(Clone, Copy, Debug, PartialEq, Eq, Structural)]
pub struct JsonNumber {
    pub unsigned: Option<u64>,
    pub signed: Option<i64>,
    pub double: Option<Level>,
}

/// A JSON value.
#[derive(Debug, PartialEq, Eq)]
pub enum Json {
    Null,
    Bool(bool),
    Number(JsonNumber),
    Str(String),
    Array(Vec<Json>),
    Object(Vec<(String, Json)>),
}

/// What a JSON value holds.
pub enum JsonView {
    Null,
    Bool(bool),
    Number(JsonNumber),
    Str(Seq<char>),
    Array(Seq<JsonView>),
    Object(Seq<(Seq<char>, JsonView)>),
}

impl Json {
    /// What the value holds.
    pub open spec fn tree(self) -> JsonView
        decreases self,
    {
        match self {
            Json::Null => JsonView::Null,
            Json::Bool(b) => JsonView::Bool(b),
            Json::Number(n) => JsonView::Number(n),
            Json::Str(s) => JsonView::Str(s@),
            Json::Array(v) => JsonView::Array(
                Seq::new(
                    v@.len(),
                    |i: int|
                        if 0 <= i < v@.len() {
                            v@[i].tree()
                        } else {
                            JsonView::Null
                        },
                ),
            ),
            Json::Object(v) => JsonView::Object(
                Seq::new(
                    v@.len(),
                    |i: int|
                        if 0 <= i < v@.len() {
                            (v@[i].0@, v@[i].1.tree())
                        } else {
                            (Seq::empty(), JsonView::Null)
                        },
                ),
            ),
        }
    }
}

/// The member of a name.
pub open spec fn member_is(key: Seq<char>) -> spec_fn((Seq<char>, JsonView)) -> bool {
    |m: (Seq<char>, JsonView)| m.0 == key
}

impl JsonView {
    /// The member of an object; null where there is none, or no object.
    pub open spec fn member(self, key: Seq<char>) -> JsonView {
        match self {
            JsonView::Object(s) => {
                let i = first(s, member_is(key));
                if i < s.len() {
                    s[i].1
                } else {
                    JsonView::Null
                }
            },
            _ => JsonView::Null,
        }
    }

    pub open spec fn string(self) -> Option<Seq<char>> {
        match self {
            JsonView::Str(s) => Some(s),
            _ => None,
        }
    }

    pub open spec fn boolean(self) -> Option<bool> {
        match self {
            JsonView::Bool(b) => Some(b),
            _ => None,
        }
    }

    pub open spec fn unsigned(self) -> Option<u64> {
        match self {
            JsonView::Number(n) => n.unsigned,
            _ => None,
        }
    }

    pub open spec fn number(self) -> Option<Level> {
        match self {
            JsonView::Number(n) => n.double,
            _ => None,
        }
    }

    /// The items of an array; none where there is no array.
    pub open spec fn items(self) -> Seq<JsonView> {
        match self {
            JsonView::Array(s) => s,
            _ => Seq::empty(),
        }
    }
}

impl Json {
    /// The member of an object.
    pub fn get(&self, key: &str) -> (r: Option<&Json>)
        ensures
            r is Some ==> r->0.tree() == self.tree().member(key@),
            r is None ==> self.tree().member(key@) is Null,
    {
        match self {
            Json::Object(v) => {
                let ghost s = self.tree()->Object_0;
                let mut i: usize = 0;
                while i < v.len() && !text::same(v[i].0.as_str(), key)
                    invariant
                        i <= v@.len(),
                        s.len() == v@.len(),
                        *self == Json::Object(*v),
                        s == self.tree()->Object_0,
                        forall|j: int| 0 <= j < i ==> !member_is(key@)(#[trigger] s[j]),
                    decreases v@.len() - i,
                {
                    assert(s[i as int].0 == v@[i as int].0@);
                    i = i + 1;
                }
                proof {
                    if i < v@.len() {
                        assert(s[i as int].0 == v@[i as int].0@);
                    }
                    first_is_at(s, member_is(key@), i as int);
                }
                if i < v.len() {
                    Some(&v[i].1)
                } else {
                    None
                }
            },
            _ => None,
        }
    }

    /// A member that is a string.
    pub fn get_str(&self, key: &str) -> (r: Option<&str>)
        ensures
            r is Some <==> self.tree().member(key@).string() is Some,
            r is Some ==> r->0@ == self.tree().member(key@).string()->0,
    {
        match self.get(key) {
            Some(Json::Str(s)) => Some(s.as_str()),
            _ => None,
        }
    }

    /// A member that is a truth value.
    pub fn get_bool(&self, key: &str) -> (r: Option<bool>)
        ensures
            r == self.tree().member(key@).boolean(),
    {
        match self.get(key) {
            Some(Json::Bool(b)) => Some(*b),
            _ => None,
        }
    }

    /// A member that is an unsigned integer.
    pub fn get_unsigned(&self, key: &str) -> (r: Option<u64>)
        ensures
            r == self.tree().member(key@).unsigned(),
    {
        match self.get(key) {
            Some(Json::Number(n)) => n.unsigned,
            _ => None,
        }
    }

    /// A member that is a number.
    pub fn get_number(&self, key: &str) -> (r: Option<Level>)
        ensures
            r == self.tree().member(key@).number(),
    {
        match self.get(key) {
            Some(Json::Number(n)) => n.double,
            _ => None,
        }
    }

    /// A member that is an array.
    pub fn get_items(&self, key: &str) -> (r: Option<&Vec<Json>>)
        ensures
            r is Some ==> {
                &&& r->0@.len() == self.tree().member(key@).items().len()
                &&& forall|i: int|
                    0 <= i < r->0@.len() ==> (#[trigger] r->0@[i]).tree() == self.tree().member(key@).items()[i]
            },
            r is None ==> self.tree().member(key@).items().len() == 0,
    {
        match self.get(key) {
            Some(Json::Array(v)) => Some(v),
            _ => None,
        }
    }
}

// ---- Building ---------------------------------------------------------------

/// An unsigned number.
pub open spec fn uint_tree(n: u64) -> JsonView {
    JsonView::Number(JsonNumber { unsigned: Some(n), signed: None, double: None })
}

/// A signed number.
pub open spec fn int_tree(n: i64) -> JsonView {
    JsonView::Number(JsonNumber { unsigned: None, signed: Some(n), double: None })
}

/// A double.
pub open spec fn double_tree(v: Level) -> JsonView {
    JsonView::Number(JsonNumber { unsigned: None, signed: None, double: Some(v) })
}

/// The members of an object under construction, as plain values.
pub open spec fn member_trees(s: Seq<(String, Json)>) -> Seq<(Seq<char>, JsonView)> {
    Seq::new(s.len(), |i: int| (s[i].0@, s[i].1.tree()))
}

/// The items of an array under construction, as plain values.
pub open spec fn item_trees(s: Seq<Json>) -> Seq<JsonView> {
    Seq::new(s.len(), |i: int| s[i].tree())
}

impl Json {
    /// An unsigned number.
    pub fn uint(n: u64) -> (r: Json)
        ensures
            r.tree() == uint_tree(n),
    {
        Json::Number(JsonNumber { unsigned: Some(n), signed: None, double: None })
    }

    /// A signed number.
    pub fn sint(n: i64) -> (r: Json)
        ensures
            r.tree() == int_tree(n),
    {
        Json::Number(JsonNumber { unsigned: None, signed: Some(n), double: None })
    }

    /// A double.
    pub fn double(v: Level) -> (r: Json)
        ensures
            r.tree() == double_tree(v),
    {
        Json::Number(JsonNumber { unsigned: None, signed: None, double: Some(v) })
    }

    /// A text.
    pub fn text(s: &str) -> (r: Json)
        ensures
            r.tree() == JsonView::Str(s@),
    {
        Json::Str(text::copy(s))
    }

    /// An object of some members.
    pub fn object(members: Vec<(String, Json)>) -> (r: Json)
        ensures
            r.tree() == JsonView::Object(member_trees(members@)),
    {
        let r = Json::Object(members);
        assert(r.tree()->Object_0 =~= member_trees(members@));
        r
    }

    /// An array of some items.
    pub fn array(items: Vec<Json>) -> (r: Json)
        ensures
            r.tree() == JsonView::Array(item_trees(items@)),
    {
        let r = Json::Array(items);
        assert(r.tree()->Array_0 =~= item_trees(items@));
        r
    }
}

/// Add a member to an object under construction.
pub fn put_member(members: &mut Vec<(String, Json)>, key: &str, value: Json)
    ensures
        member_trees(final(members)@) == member_trees(old(members)@).push((key@, value.tree())),
{
    let ghost v = value.tree();
    members.push((text::copy(key), value));
    assert(member_trees(members@) =~= member_trees(old(members)@).push((key@, v)));
}

/// Add an item to an array under construction.
pub fn put_item(items: &mut Vec<Json>, value: Json)
    ensures
        item_trees(final(items)@) == item_trees(old(items)@).push(value.tree()),
{
    let ghost v = value.tree();
    items.push(value);
    assert(item_trees(items@) =~= item_trees(old(items)@).push(v));
}

// ---- Parsing ----------------------------------------------------------------

/// serde_json's value, carried through as it is.
#[verifier::external_type_specification]
#[verifier::external_body]
pub struct ExValue(serde_json::Value);

/// What a text is as JSON, by serde_json; nothing where it is not JSON.
pub uninterp spec fn json_value(text: Seq<char>) -> Option<JsonView>;

/// What a value of serde_json holds.
pub uninterp spec fn contents(v: serde_json::Value) -> JsonView;

/// The outermost layer of a value of serde_json.
pub enum Layer {
    Null,
    Bool(bool),
    Number(JsonNumber),
    Str(String),
    Array(Vec<serde_json::Value>),
    Object(Vec<(String, serde_json::Value)>),
}

impl Layer {
    /// What the value holds, layer by layer.
    pub open spec fn tree(self) -> JsonView {
        match self {
            Layer::Null => JsonView::Null,
            Layer::Bool(b) => JsonView::Bool(b),
            Layer::Number(n) => JsonView::Number(n),
            Layer::Str(s) => JsonView::Str(s@),
            Layer::Array(v) => JsonView::Array(Seq::new(v@.len(), |i: int| contents(v@[i]))),
            Layer::Object(v) => JsonView::Object(
                Seq::new(v@.len(), |i: int| (v@[i].0@, contents(v@[i].1))),
            ),
        }
    }
}

/// `serde_json::from_str`, asked for a `serde_json::Value`. Whether the text is
/// JSON, and what the value holds, depends on the text alone.
#[verifier::external_body]
fn parse_value(text: &str) -> (r: Option<serde_json::Value>)
    ensures
        match r {
            Some(v) => json_value(text@) == Some(contents(v)),
            None => json_value(text@) is None,
        },
{
    serde_json::from_str::<serde_json::Value>(text).ok()
}

/// The variant of a `serde_json::Value` with what it carries: the members of
/// an object in the order in which the map hands them out, and a number as
/// `Number::as_u64`, `Number::as_i64` and `Number::as_f64` give it.
#[verifier::external_body]
fn outer_layer(v: serde_json::Value) -> (r: Layer)
    ensures
        contents(v) == r.tree(),
{
    match v {
        serde_json::Value::Null => Layer::Null,
        serde_json::Value::Bool(b) => Layer::Bool(b),
        serde_json::Value::Number(n) => Layer::Number(
            JsonNumber {
                unsigned: n.as_u64(),
                signed: n.as_i64(),
                double: n.as_f64().map(|x| Level { bits: x.to_bits() }),
            },
        ),
        serde_json::Value::String(s) => Layer::Str(s),
        serde_json::Value::Array(a) => Layer::Array(a),
        serde_json::Value::Object(m) => Layer::Object(m.into_iter().collect()),
    }
}

/// A value of serde_json as plain data.
fn plain(v: serde_json::Value) -> (r: Json)
    ensures
        r.tree() == contents(v),
    decreases contents(v),
{
    let ghost whole = contents(v);
    match outer_layer(v) {
        Layer::Null => Json::Null,
        Layer::Bool(b) => Json::Bool(b),
        Layer::Number(n) => Json::Number(n),
        Layer::Str(s) => Json::Str(s),
        Layer::Array(a) => {
            let mut out: Vec<Json> = Vec::new();
            let ghost all = a@;
            for x in it: a
                invariant
                    it.seq() == all,
                    whole == contents(v),
                    whole == JsonView::Array(Seq::new(all.len(), |i: int| contents(all[i]))),
                    out@.len() == it.index(),
                    forall|j: int| 0 <= j < out@.len() ==> (#[trigger] out@[j]).tree() == contents(all[j]),
            {
                proof {
                    let s = whole->Array_0;
                    let k = it.index() as int;
                    assert(s[k] == contents(x));
                    assert(decreases_to!(s => s[k]));
                    assert(decreases_to!(whole => s[k]));
                }
                out.push(plain(x));
            }
            let r = Json::Array(out);
            assert(r.tree()->Array_0 =~= whole->Array_0);
            r
        },
        Layer::Object(a) => {
            let mut out: Vec<(String, Json)> = Vec::new();
            let ghost all = a@;
            for x in it: a
                invariant
                    it.seq() == all,
                    whole == contents(v),
                    whole == JsonView::Object(Seq::new(all.len(), |i: int| (all[i].0@, contents(all[i].1)))),
                    out@.len() == it.index(),
                    forall|j: int|
                        0 <= j < out@.len() ==> (#[trigger] out@[j]).0@ == all[j].0@ && out@[j].1.tree()
                            == contents(all[j].1),
            {
                proof {
                    let s = whole->Object_0;
                    let k = it.index() as int;
                    assert(s[k].1 == contents(x.1));
                    assert(decreases_to!(s => s[k]));
                    assert(decreases_to!(s[k] => s[k].1));
                    assert(decreases_to!(whole => s[k]));
                }
                let (key, value) = x;
                out.push((key, plain(value)));
            }
            let r = Json::Object(out);
            assert(r.tree()->Object_0 =~= whole->Object_0);
            r
        },
    }
}

/// A text as JSON.
pub fn parse(text: &str) -> (r: Option<Json>)
    ensures
        r is Some <==> json_value(text@) is Some,
        r is Some ==> json_value(text@) == Some(r->0.tree()),
{
    match parse_value(text) {
        Some(v) => Some(plain(v)),
        None => None,
    }
}

} // verus!
