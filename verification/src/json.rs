//! JSON documents as plain values, and how the rest of the library reads them.

use crate::text;
use vstd::prelude::*;

verus! {

/// A JSON number: what it is as an integer, where it is one that fits, and how
/// it is written.
#[derive(Debug)]
pub struct JsonNumber {
    pub signed: Option<i64>,
    pub unsigned: Option<u64>,
    pub written: String,
}

/// A JSON document.
#[derive(Debug)]
pub enum Json {
    Null,
    Bool(bool),
    Number(JsonNumber),
    Str(String),
    Array(Vec<Json>),
    Object(Vec<(String, Json)>),
}

/// A JSON document as a mathematical value.
pub enum Document {
    Null,
    Bool(bool),
    Number { signed: Option<i64>, unsigned: Option<u64>, written: Seq<char> },
    Str(Seq<char>),
    Array(Seq<Document>),
    Object(Seq<(Seq<char>, Document)>),
}

impl View for Json {
    type V = Document;

    open spec fn view(&self) -> Document {
        self.document()
    }
}

impl Json {
    pub open spec fn document(self) -> Document
        decreases self,
    {
        match self {
            Json::Null => Document::Null,
            Json::Bool(b) => Document::Bool(b),
            Json::Number(n) => Document::Number {
                signed: n.signed,
                unsigned: n.unsigned,
                written: n.written@,
            },
            Json::Str(s) => Document::Str(s@),
            Json::Array(items) => Document::Array(
                Seq::new(
                    items@.len(),
                    |i: int|
                        if 0 <= i < items@.len() {
                            items@[i].document()
                        } else {
                            Document::Null
                        },
                ),
            ),
            Json::Object(members) => Document::Object(
                Seq::new(
                    members@.len(),
                    |i: int|
                        if 0 <= i < members@.len() {
                            (members@[i].0@, members@[i].1.document())
                        } else {
                            (Seq::empty(), Document::Null)
                        },
                ),
            ),
        }
    }
}

/// The documents of the items of an array.
pub open spec fn documents(items: Seq<Json>) -> Seq<Document> {
    items.map_values(|item: Json| item@)
}

/// The document under an optional reference.
pub open spec fn document_of(j: Option<&Json>) -> Option<Document> {
    match j {
        Some(j) => Some(j@),
        None => None,
    }
}

pub open spec fn text_of(s: Option<&str>) -> Option<Seq<char>> {
    match s {
        Some(s) => Some(s@),
        None => None,
    }
}

/// `i` is the first place at which the key stands.
pub open spec fn first_member(
    members: Seq<(Seq<char>, Document)>,
    key: Seq<char>,
    i: int,
) -> bool {
    &&& 0 <= i < members.len()
    &&& members[i].0 == key
    &&& forall|j: int| 0 <= j < i ==> (#[trigger] members[j]).0 != key
}

impl Document {
    /// The member of an object under this key.
    pub open spec fn member(self, key: Seq<char>) -> Option<Document> {
        match self {
            Document::Object(members) => if exists|i: int| first_member(members, key, i) {
                Some(members[choose|i: int| first_member(members, key, i)].1)
            } else {
                None
            },
            _ => None,
        }
    }

    pub open spec fn string(self) -> Option<Seq<char>> {
        match self {
            Document::Str(s) => Some(s),
            _ => None,
        }
    }

    pub open spec fn array(self) -> Option<Seq<Document>> {
        match self {
            Document::Array(items) => Some(items),
            _ => None,
        }
    }

    pub open spec fn boolean(self) -> Option<bool> {
        match self {
            Document::Bool(b) => Some(b),
            _ => None,
        }
    }

    pub open spec fn int64(self) -> Option<i64> {
        match self {
            Document::Number { signed, .. } => signed,
            _ => None,
        }
    }

    pub open spec fn uint64(self) -> Option<u64> {
        match self {
            Document::Number { unsigned, .. } => unsigned,
            _ => None,
        }
    }

    /// The text under this key, if there is one.
    pub open spec fn string_at(self, key: Seq<char>) -> Option<Seq<char>> {
        match self.member(key) {
            Some(m) => m.string(),
            None => None,
        }
    }

    /// The text under this key, or this one in its place.
    pub open spec fn string_or(self, key: Seq<char>, otherwise: Seq<char>) -> Seq<char> {
        match self.string_at(key) {
            Some(s) => s,
            None => otherwise,
        }
    }

    /// The integer under this key, if there is one.
    pub open spec fn int_at(self, key: Seq<char>) -> Option<i64> {
        match self.member(key) {
            Some(m) => m.int64(),
            None => None,
        }
    }

    /// The array under this key, if there is one.
    pub open spec fn array_at(self, key: Seq<char>) -> Option<Seq<Document>> {
        match self.member(key) {
            Some(m) => m.array(),
            None => None,
        }
    }
}

impl Json {
    pub fn get(&self, key: &str) -> (r: Option<&Json>)
        ensures
            document_of(r) == self@.member(key@),
    {
        match self {
            Json::Object(members) => {
                let ghost all = self@->Object_0;
                let mut i: usize = 0;
                while i < members.len()
                    invariant
                        i <= members@.len(),
                        *self == Json::Object(*members),
                        self@ == Document::Object(all),
                        forall|j: int| 0 <= j < i ==> (#[trigger] all[j]).0 != key@,
                    decreases members@.len() - i,
                {
                    assert(all[i as int] == (members@[i as int].0@, members@[i as int].1@));
                    if text::same(members[i].0.as_str(), key) {
                        assert(first_member(all, key@, i as int));
                        return Some(&members[i].1);
                    }
                    i += 1;
                }
                assert(forall|j: int| !first_member(all, key@, j));
                None
            },
            _ => None,
        }
    }

    pub fn as_str(&self) -> (r: Option<&str>)
        ensures
            text_of(r) == self@.string(),
    {
        match self {
            Json::Str(s) => Some(s.as_str()),
            _ => None,
        }
    }

    pub fn as_array(&self) -> (r: Option<&Vec<Json>>)
        ensures
            match r {
                Some(items) => self@.array() == Some(documents(items@)),
                None => self@.array() is None,
            },
    {
        match self {
            Json::Array(items) => {
                assert(self@->Array_0 =~= documents(items@));
                Some(items)
            },
            _ => None,
        }
    }

    pub fn as_bool(&self) -> (r: Option<bool>)
        ensures
            r == self@.boolean(),
    {
        match self {
            Json::Bool(b) => Some(*b),
            _ => None,
        }
    }

    pub fn as_i64(&self) -> (r: Option<i64>)
        ensures
            r == self@.int64(),
    {
        match self {
            Json::Number(n) => n.signed,
            _ => None,
        }
    }

    pub fn as_u64(&self) -> (r: Option<u64>)
        ensures
            r == self@.uint64(),
    {
        match self {
            Json::Number(n) => n.unsigned,
            _ => None,
        }
    }

    pub fn str_at(&self, key: &str) -> (r: Option<&str>)
        ensures
            text_of(r) == self@.string_at(key@),
    {
        match self.get(key) {
            Some(m) => m.as_str(),
            None => None,
        }
    }

    pub fn str_or<'a>(&'a self, key: &str, otherwise: &'a str) -> (r: &'a str)
        ensures
            r@ == self@.string_or(key@, otherwise@),
    {
        match self.str_at(key) {
            Some(s) => s,
            None => otherwise,
        }
    }

    pub fn i64_at(&self, key: &str) -> (r: Option<i64>)
        ensures
            r == self@.int_at(key@),
    {
        match self.get(key) {
            Some(m) => m.as_i64(),
            None => None,
        }
    }

    pub fn array_at(&self, key: &str) -> (r: Option<&Vec<Json>>)
        ensures
            match r {
                Some(items) => self@.array_at(key@) == Some(documents(items@)),
                None => self@.array_at(key@) is None,
            },
    {
        match self.get(key) {
            Some(m) => m.as_array(),
            None => None,
        }
    }

    /// Takes the member under this key out of an object, leaving nothing else.
    pub fn into_member(self, key: &str) -> (r: Option<Json>)
        ensures
            match r {
                Some(m) => self@.member(key@) == Some(m@),
                None => self@.member(key@) is None,
            },
    {
        let ghost whole = self@;
        match self {
            Json::Object(members) => {
                let ghost all = whole->Object_0;
                let mut members = members;
                let ghost listed = members@;
                let mut i: usize = 0;
                while i < members.len()
                    invariant
                        members@ == listed,
                        i <= members@.len(),
                        whole == self@,
                        whole == Document::Object(all),
                        all.len() == listed.len(),
                        forall|j: int|
                            0 <= j < listed.len() ==> #[trigger] all[j] == (
                                listed[j].0@,
                                listed[j].1@,
                            ),
                        forall|j: int| 0 <= j < i ==> (#[trigger] all[j]).0 != key@,
                    decreases members@.len() - i,
                {
                    if text::same(members[i].0.as_str(), key) {
                        assert(first_member(all, key@, i as int));
                        let (_, member) = members.remove(i);
                        return Some(member);
                    }
                    i += 1;
                }
                assert(forall|j: int| !first_member(all, key@, j));
                None
            },
            _ => None,
        }
    }

    /// An integer as a JSON number.
    pub fn from_i64(n: i64) -> (r: Json)
        ensures
            r@ == number(n),
    {
        Json::Number(
            JsonNumber {
                signed: Some(n),
                unsigned: if n >= 0 {
                    Some(n as u64)
                } else {
                    None
                },
                written: text::write_i64(n),
            },
        )
    }
}

/// The JSON number that an integer is.
pub open spec fn number(n: i64) -> Document {
    Document::Number {
        signed: Some(n),
        unsigned: if n >= 0 {
            Some(n as u64)
        } else {
            None
        },
        written: text::decimal_int(n as int),
    }
}

// ── Reading text ──

/// The document that a text writes, or nothing where the text is no JSON.
pub uninterp spec fn parsed(text: Seq<char>) -> Option<Document>;

/// What a value of `serde_json` holds.
pub uninterp spec fn held(value: serde_json::Value) -> Document;

/// A value of `serde_json`; [`converted`] takes it apart.
#[verifier::external_type_specification]
#[verifier::external_body]
pub struct ExValue(serde_json::Value);

/// `serde_json::from_str` into a `serde_json::Value`: the text decides alone
/// whether it is JSON and which document it writes.
#[verifier::external_body]
fn read(text: &str) -> (r: Option<serde_json::Value>)
    ensures
        match r {
            Some(value) => parsed(text@) == Some(held(value)),
            None => parsed(text@) is None,
        },
{
    serde_json::from_str::<serde_json::Value>(text).ok()
}

/// Moves a `serde_json::Value` into the library's own type, variant by variant.
/// A number is carried by `Number::as_i64`, `Number::as_u64` and its written
/// form.
#[verifier::external_body]
fn converted(value: serde_json::Value) -> (r: Json)
    ensures
        r@ == held(value),
{
    match value {
        serde_json::Value::Null => Json::Null,
        serde_json::Value::Bool(b) => Json::Bool(b),
        serde_json::Value::Number(n) => Json::Number(
            JsonNumber { signed: n.as_i64(), unsigned: n.as_u64(), written: n.to_string() },
        ),
        serde_json::Value::String(s) => Json::Str(s),
        serde_json::Value::Array(items) => Json::Array(items.into_iter().map(converted).collect()),
        serde_json::Value::Object(members) => Json::Object(
            members.into_iter().map(|(key, member)| (key, converted(member))).collect(),
        ),
    }
}

/// The document that a text writes, if it is JSON.
pub fn parse(text: &str) -> (r: Option<Json>)
    ensures
        match r {
            Some(json) => parsed(text@) == Some(json@),
            None => parsed(text@) is None,
        },
{
    match read(text) {
        Some(value) => Some(converted(value)),
        None => None,
    }
}

} // verus!
