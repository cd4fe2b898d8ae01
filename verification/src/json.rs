//! JSON values.
//!
//! `JsonValue` is the library's own JSON tree, viewed as the mathematical
//! [`Json`]. Numbers are kept as the exact text they were written with, so
//! that they are reproduced unchanged. Objects keep their entries in order.
//! Serialization follows the compact form of `serde_json::to_string`.

use vstd::prelude::*;
use crate::text::{push_char, str_chars};

verus! {

/// Mathematical JSON value.
pub enum Json {
    Null,
    Bool(bool),
    Number(Seq<char>),
    Str(Seq<char>),
    Array(Seq<Json>),
    Object(Seq<(Seq<char>, Json)>),
}

/// A JSON value.
#[derive(Debug, PartialEq)]
pub enum JsonValue {
    Null,
    Bool(bool),
    /// A number, as its JSON text.
    Number(String),
    String(String),
    Array(Vec<JsonValue>),
    /// Object entries in order; keys are unique.
    Object(Vec<(String, JsonValue)>),
}

/// The mathematical value of a JSON tree.
pub open spec fn json_of(v: JsonValue) -> Json
    decreases v,
{
    match v {
        JsonValue::Null => Json::Null,
        JsonValue::Bool(b) => Json::Bool(b),
        JsonValue::Number(n) => Json::Number(n@),
        JsonValue::String(s) => Json::Str(s@),
        JsonValue::Array(items) => Json::Array(
            Seq::new(
                items@.len(),
                |i: int|
                    if 0 <= i < items@.len() {
                        json_of(items@[i])
                    } else {
                        Json::Null
                    },
            ),
        ),
        JsonValue::Object(es) => Json::Object(
            Seq::new(
                es@.len(),
                |i: int|
                    if 0 <= i < es@.len() {
                        (es@[i].0@, json_of(es@[i].1))
                    } else {
                        (Seq::empty(), Json::Null)
                    },
            ),
        ),
    }
}

impl View for JsonValue {
    type V = Json;

    open spec fn view(&self) -> Json {
        json_of(*self)
    }
}

/// The view of an array, element by element.
pub(crate) proof fn lemma_array_view(v: Vec<JsonValue>)
    ensures
        JsonValue::Array(v)@ == Json::Array(Seq::new(v@.len(), |i: int| v@[i]@)),
{
    let a = Seq::new(
        v@.len(),
        |i: int|
            if 0 <= i < v@.len() {
                json_of(v@[i])
            } else {
                Json::Null
            },
    );
    let j = json_of(JsonValue::Array(v));
    assert(j matches Json::Array(s) && s =~= Seq::new(v@.len(), |i: int| v@[i]@));
}

/// The view of an object, entry by entry.
pub(crate) proof fn lemma_object_view(v: Vec<(String, JsonValue)>)
    ensures
        JsonValue::Object(v)@ == Json::Object(Seq::new(v@.len(), |i: int| (v@[i].0@, v@[i].1@))),
{
    let a = Seq::new(
        v@.len(),
        |i: int|
            if 0 <= i < v@.len() {
                (v@[i].0@, json_of(v@[i].1))
            } else {
                (Seq::empty(), Json::Null)
            },
    );
    let j = json_of(JsonValue::Object(v));
    assert(j matches Json::Object(s) && s =~= Seq::new(v@.len(), |i: int| (v@[i].0@, v@[i].1@)));
}

pub open spec fn opt_json_view(o: Option<JsonValue>) -> Option<Json> {
    match o {
        Some(j) => Some(j@),
        None => None,
    }
}

// ─── Lookup ─────────────────────────────────────────────────────────────────

/// Index of the first entry with key `key`, if any.
pub open spec fn entry_index(es: Seq<(Seq<char>, Json)>, key: Seq<char>) -> Option<int>
    decreases es.len(),
{
    if es.len() == 0 {
        None
    } else {
        match entry_index(es.drop_last(), key) {
            Some(i) => Some(i),
            None => if es.last().0 == key {
                Some(es.len() - 1)
            } else {
                None
            },
        }
    }
}

/// `Value::get(key)`: the value of `key` when `j` is an object that has it.
pub open spec fn json_get(j: Json, key: Seq<char>) -> Option<Json> {
    match j {
        Json::Object(es) => match entry_index(es, key) {
            Some(i) => Some(es[i].1),
            None => None,
        },
        _ => None,
    }
}

/// `Value::as_str`.
pub open spec fn json_as_str(j: Json) -> Option<Seq<char>> {
    match j {
        Json::Str(s) => Some(s),
        _ => None,
    }
}

/// `Value::as_bool`.
pub open spec fn json_as_bool(j: Json) -> Option<bool> {
    match j {
        Json::Bool(b) => Some(b),
        _ => None,
    }
}

/// `v.get(key).and_then(as_str)`.
pub open spec fn json_get_str(j: Json, key: Seq<char>) -> Option<Seq<char>> {
    match json_get(j, key) {
        Some(v) => json_as_str(v),
        None => None,
    }
}

pub(crate) proof fn lemma_entry_index_bounds(es: Seq<(Seq<char>, Json)>, key: Seq<char>)
    ensures
        entry_index(es, key) matches Some(i) ==> 0 <= i < es.len() && es[i].0 == key,
        entry_index(es, key) is None ==> forall|k: int| 0 <= k < es.len() ==> es[k].0 != key,
        entry_index(es, key) matches Some(i) ==> forall|k: int| 0 <= k < i ==> es[k].0 != key,
    decreases es.len(),
{
    if es.len() > 0 {
        lemma_entry_index_bounds(es.drop_last(), key);
        assert forall|k: int| 0 <= k < es.len() - 1 implies es[k] == es.drop_last()[k] by {}
    }
}

/// The mathematical entries of an object's entry list.
pub open spec fn entries_view(es: Seq<(String, JsonValue)>) -> Seq<(Seq<char>, Json)> {
    Seq::new(es.len(), |i: int| (es[i].0@, es[i].1@))
}

/// Look up `key` among object entries: the value of the first entry with
/// that key.
pub fn entries_get<'a>(es: &'a Vec<(String, JsonValue)>, key: &str) -> (r: Option<&'a JsonValue>)
    ensures
        match r {
            Some(v) => json_get(Json::Object(entries_view(es@)), key@) == Some(v@),
            None => json_get(Json::Object(entries_view(es@)), key@) is None,
        },
{
    let ghost ves = entries_view(es@);
    proof {
        lemma_entry_index_bounds(ves, key@);
    }
    let mut i: usize = 0;
    while i < es.len()
        invariant
            i <= es.len(),
            ves == entries_view(es@),
            forall|k: int| 0 <= k < i ==> ves[k].0 != key@,
            entry_index(ves, key@) matches Some(j) ==> 0 <= j < ves.len() && ves[j].0 == key@
                && forall|k: int| 0 <= k < j ==> ves[k].0 != key@,
            entry_index(ves, key@) is None ==> forall|k: int| 0 <= k < ves.len() ==> ves[k].0 != key@,
        decreases es.len() - i,
    {
        if str_eq(es[i].0.as_str(), key) {
            assert(ves[i as int].0 == key@);
            assert(entry_index(ves, key@) == Some(i as int));
            return Some(&es[i].1);
        }
        i = i + 1;
    }
    None
}

/// The object with the given entries.
pub fn object_of(es: Vec<(String, JsonValue)>) -> (j: JsonValue)
    ensures
        j@ == Json::Object(entries_view(es@)),
{
    proof {
        lemma_object_view(es);
        assert(entries_view(es@) =~= Seq::new(es@.len(), |i: int| (es@[i].0@, es@[i].1@)));
    }
    JsonValue::Object(es)
}

/// The array with the given items.
pub fn array_of(items: Vec<JsonValue>) -> (j: JsonValue)
    ensures
        j@ == Json::Array(items@.map_values(|v: JsonValue| v@)),
{
    proof {
        lemma_array_view(items);
        assert(items@.map_values(|v: JsonValue| v@) =~= Seq::new(items@.len(), |i: int| items@[i]@));
    }
    JsonValue::Array(items)
}

impl JsonValue {
    /// Look up `key` in an object.
    pub fn get(&self, key: &str) -> (r: Option<&JsonValue>)
        ensures
            match r {
                Some(v) => json_get(self@, key@) == Some(v@),
                None => json_get(self@, key@) is None,
            },
    {
        match self {
            JsonValue::Object(es) => {
                proof {
                    lemma_object_view(*es);
                    assert(entries_view(es@) =~= Seq::new(es@.len(), |i: int| (es@[i].0@, es@[i].1@)));
                }
                entries_get(es, key)
            },
            _ => None,
        }
    }

    /// The string, when this is a JSON string.
    pub fn as_str(&self) -> (r: Option<&str>)
        ensures
            match r {
                Some(s) => json_as_str(self@) == Some(s@),
                None => json_as_str(self@) is None,
            },
    {
        match self {
            JsonValue::String(s) => Some(s.as_str()),
            _ => None,
        }
    }

    /// The boolean, when this is a JSON boolean.
    pub fn as_bool(&self) -> (r: Option<bool>)
        ensures
            r == json_as_bool(self@),
    {
        match self {
            JsonValue::Bool(b) => Some(*b),
            _ => None,
        }
    }

    /// Whether this is `null`.
    pub fn is_null(&self) -> (b: bool)
        ensures
            b == (self@ is Null),
    {
        match self {
            JsonValue::Null => true,
            _ => false,
        }
    }

    /// `v.get(key).and_then(as_str)`, owned.
    pub fn get_str(&self, key: &str) -> (r: Option<String>)
        ensures
            match r {
                Some(s) => json_get_str(self@, key@) == Some(s@),
                None => json_get_str(self@, key@) is None,
            },
    {
        match self.get(key) {
            Some(v) => match v.as_str() {
                Some(s) => Some(String::from_str(s)),
                None => None,
            },
            None => None,
        }
    }

    /// Whether two JSON values are equal (`Value == Value`).
    #[verifier::loop_isolation(false)]
    pub fn json_eq(&self, other: &JsonValue) -> (r: bool)
        ensures
            r == (self@ == other@),
        decreases self,
    {
        match (self, other) {
            (JsonValue::Null, JsonValue::Null) => true,
            (JsonValue::Bool(x), JsonValue::Bool(y)) => *x == *y,
            (JsonValue::Number(x), JsonValue::Number(y)) => str_eq(x.as_str(), y.as_str()),
            (JsonValue::String(x), JsonValue::String(y)) => str_eq(x.as_str(), y.as_str()),
            (JsonValue::Array(xs), JsonValue::Array(ys)) => {
                proof {
                    lemma_array_view(*xs);
                    lemma_array_view(*ys);
                }
                if xs.len() != ys.len() {
                    assert(Seq::new(xs@.len(), |k: int| xs@[k]@).len() != Seq::new(ys@.len(), |k: int| ys@[k]@).len());
                    return false;
                }
                let mut i: usize = 0;
                while i < xs.len()
                    invariant
                        i <= xs.len(),
                        xs.len() == ys.len(),
                        forall|k: int| 0 <= k < i ==> (#[trigger] xs@[k])@ == ys@[k]@,
                    decreases xs.len() - i,
                {
                    if !xs[i].json_eq(&ys[i]) {
                        assert(Seq::new(xs@.len(), |k: int| xs@[k]@)[i as int] != Seq::new(ys@.len(), |k: int| ys@[k]@)[i as int]);
                        return false;
                    }
                    i = i + 1;
                }
                assert(Seq::new(xs@.len(), |k: int| xs@[k]@) =~= Seq::new(ys@.len(), |k: int| ys@[k]@));
                true
            },
            (JsonValue::Object(xs), JsonValue::Object(ys)) => {
                proof {
                    lemma_object_view(*xs);
                    lemma_object_view(*ys);
                }
                if xs.len() != ys.len() {
                    assert(Seq::new(xs@.len(), |k: int| (xs@[k].0@, xs@[k].1@)).len() != Seq::new(ys@.len(), |k: int| (ys@[k].0@, ys@[k].1@)).len());
                    return false;
                }
                let mut i: usize = 0;
                while i < xs.len()
                    invariant
                        i <= xs.len(),
                        xs.len() == ys.len(),
                        forall|k: int| 0 <= k < i ==> (#[trigger] xs@[k]).0@ == ys@[k].0@ && xs@[k].1@ == ys@[k].1@,
                    decreases xs.len() - i,
                {
                    if !str_eq(xs[i].0.as_str(), ys[i].0.as_str()) || !xs[i].1.json_eq(&ys[i].1) {
                        assert(Seq::new(xs@.len(), |k: int| (xs@[k].0@, xs@[k].1@))[i as int] != Seq::new(ys@.len(), |k: int| (ys@[k].0@, ys@[k].1@))[i as int]);
                        return false;
                    }
                    i = i + 1;
                }
                assert(Seq::new(xs@.len(), |k: int| (xs@[k].0@, xs@[k].1@)) =~= Seq::new(ys@.len(), |k: int| (ys@[k].0@, ys@[k].1@)));
                true
            },
            _ => false,
        }
    }

    /// A copy of this value.
    #[verifier::loop_isolation(false)]
    pub fn deep_clone(&self) -> (r: JsonValue)
        ensures
            r@ == self@,
        decreases self,
    {
        match self {
            JsonValue::Null => JsonValue::Null,
            JsonValue::Bool(b) => JsonValue::Bool(*b),
            JsonValue::Number(n) => JsonValue::Number(n.clone()),
            JsonValue::String(s) => JsonValue::String(s.clone()),
            JsonValue::Array(v) => {
                let mut out: Vec<JsonValue> = Vec::new();
                let mut i: usize = 0;
                while i < v.len()
                    invariant
                        i <= v.len(),
                        out@.len() == i,
                        forall|k: int| 0 <= k < i ==> (#[trigger] out@[k])@ == v@[k]@,
                    decreases v.len() - i,
                {
                    out.push(v[i].deep_clone());
                    i = i + 1;
                }
                let r = JsonValue::Array(out);
                assert(r@ == self@) by {
                    lemma_array_view(out);
                    lemma_array_view(*v);
                    assert(Seq::new(out@.len(), |k: int| out@[k]@) =~= Seq::new(
                        v@.len(),
                        |k: int| v@[k]@,
                    ));
                }
                r
            },
            JsonValue::Object(v) => {
                let mut out: Vec<(String, JsonValue)> = Vec::new();
                let mut i: usize = 0;
                while i < v.len()
                    invariant
                        i <= v.len(),
                        out@.len() == i,
                        forall|k: int|
                            0 <= k < i ==> (#[trigger] out@[k]).0@ == v@[k].0@ && out@[k].1@
                                == v@[k].1@,
                    decreases v.len() - i,
                {
                    let e = (v[i].0.clone(), v[i].1.deep_clone());
                    out.push(e);
                    i = i + 1;
                }
                let r = JsonValue::Object(out);
                assert(r@ == self@) by {
                    lemma_object_view(out);
                    lemma_object_view(*v);
                    assert(Seq::new(out@.len(), |k: int| (out@[k].0@, out@[k].1@)) =~= Seq::new(
                        v@.len(),
                        |k: int| (v@[k].0@, v@[k].1@),
                    ));
                }
                r
            },
        }
    }
}

impl Clone for JsonValue {
    fn clone(&self) -> (r: Self)
        ensures
            r@ == self@,
    {
        self.deep_clone()
    }
}

/// Copy of an optional JSON value.
pub fn clone_opt_json(o: &Option<JsonValue>) -> (r: Option<JsonValue>)
    ensures
        opt_json_view(r) == opt_json_view(*o),
{
    match o {
        Some(j) => Some(j.deep_clone()),
        None => None,
    }
}

/// Equality of two string slices (`str == str`), character by character.
pub(crate) fn str_eq(a: &str, b: &str) -> (r: bool)
    ensures
        r == (a@ == b@),
{
    let av = str_chars(a);
    let bv = str_chars(b);
    crate::sse::chars_equal(av.as_slice(), bv.as_slice())
}

// ─── Parsing ────────────────────────────────────────────────────────────────

#[verifier::external_type_specification]
#[verifier::external_body]
pub struct ExSerdeJsonValue(serde_json::Value);

/// What `serde_json::from_str` makes of `text` as a JSON value: the value
/// the text denotes (numbers as serde_json writes them back), or none when
/// the text is not a JSON document.
pub uninterp spec fn spec_parse_json(text: Seq<char>) -> Option<Json>;

/// The library's copy of a `serde_json::Value`, node for node.
#[verifier::external_body]
fn from_serde_value(v: serde_json::Value) -> JsonValue {
    match v {
        serde_json::Value::Null => JsonValue::Null,
        serde_json::Value::Bool(b) => JsonValue::Bool(b),
        serde_json::Value::Number(n) => JsonValue::Number(n.to_string()),
        serde_json::Value::String(s) => JsonValue::String(s),
        serde_json::Value::Array(a) => JsonValue::Array(a.into_iter().map(from_serde_value).collect()),
        serde_json::Value::Object(m) => JsonValue::Object(m.into_iter().map(|(k, v)| (k, from_serde_value(v))).collect()),
    }
}

/// `serde_json::from_str::<serde_json::Value>`: the parsed value, or none
/// when `text` is not JSON. The result is named by `spec_parse_json`.
#[verifier::external_body]
pub(crate) fn parse_json(text: &str) -> (r: Option<JsonValue>)
    ensures
        opt_json_view(r) == spec_parse_json(text@),
{
    serde_json::from_str::<serde_json::Value>(text).ok().map(from_serde_value)
}

// ─── Serialization ──────────────────────────────────────────────────────────

pub open spec fn hex_digit(n: u32) -> char {
    if n < 10 {
        (('0' as u32) + n) as char
    } else {
        (('a' as u32) + n - 10) as char
    }
}

/// How one character of a string is written inside JSON quotes.
pub open spec fn spec_escape_char(c: char) -> Seq<char> {
    if c == '"' {
        seq!['\\', '"']
    } else if c == '\\' {
        seq!['\\', '\\']
    } else if c == '\n' {
        seq!['\\', 'n']
    } else if c == '\r' {
        seq!['\\', 'r']
    } else if c == '\t' {
        seq!['\\', 't']
    } else if c == '\u{08}' {
        seq!['\\', 'b']
    } else if c == '\u{0C}' {
        seq!['\\', 'f']
    } else if (c as u32) < 0x20 {
        seq!['\\', 'u', '0', '0', hex_digit((c as u32) / 16), hex_digit((c as u32) % 16)]
    } else {
        seq![c]
    }
}

/// The escaped body of a JSON string.
pub open spec fn spec_escape(s: Seq<char>) -> Seq<char>
    decreases s.len(),
{
    if s.len() == 0 {
        Seq::empty()
    } else {
        spec_escape(s.drop_last()) + spec_escape_char(s.last())
    }
}

/// A quoted JSON string.
pub open spec fn spec_quote(s: Seq<char>) -> Seq<char> {
    seq!['"'] + spec_escape(s) + seq!['"']
}

fn write_escaped_char(out: &mut String, c: char)
    ensures
        final(out)@ == old(out)@ + spec_escape_char(c),
{
    if c == '"' {
        push_char(out, '\\');
        push_char(out, '"');
    } else if c == '\\' {
        push_char(out, '\\');
        push_char(out, '\\');
    } else if c == '\n' {
        push_char(out, '\\');
        push_char(out, 'n');
    } else if c == '\r' {
        push_char(out, '\\');
        push_char(out, 'r');
    } else if c == '\t' {
        push_char(out, '\\');
        push_char(out, 't');
    } else if c == '\u{08}' {
        push_char(out, '\\');
        push_char(out, 'b');
    } else if c == '\u{0C}' {
        push_char(out, '\\');
        push_char(out, 'f');
    } else if (c as u32) < 0x20 {
        let n = c as u32;
        push_char(out, '\\');
        push_char(out, 'u');
        push_char(out, '0');
        push_char(out, '0');
        push_char(out, hex_char(n / 16));
        push_char(out, hex_char(n % 16));
    } else {
        push_char(out, c);
    }
}

fn hex_char(n: u32) -> (c: char)
    requires
        n < 16,
    ensures
        c == hex_digit(n),
{
    if n < 10 {
        ((('0' as u32) + n) as u8) as char
    } else {
        ((('a' as u32) + n - 10) as u8) as char
    }
}

/// Write the escaped body of `s`.
pub fn write_escaped(out: &mut String, s: &str)
    ensures
        final(out)@ == old(out)@ + spec_escape(s@),
{
    let cs = str_chars(s);
    let ghost start = out@;
    let mut i: usize = 0;
    assert(cs@.subrange(0, 0) =~= Seq::<char>::empty());
    while i < cs.len()
        invariant
            i <= cs.len(),
            cs@ == s@,
            out@ == start + spec_escape(cs@.subrange(0, i as int)),
        decreases cs.len() - i,
    {
        assert(cs@.subrange(0, i + 1).drop_last() == cs@.subrange(0, i as int));
        write_escaped_char(out, cs[i]);
        i = i + 1;
        assert(out@ =~= start + spec_escape(cs@.subrange(0, i as int)));
    }
    assert(cs@.subrange(0, cs@.len() as int) == cs@);
}

/// Write a quoted JSON string.
pub fn write_quoted(out: &mut String, s: &str)
    ensures
        final(out)@ == old(out)@ + spec_quote(s@),
{
    push_char(out, '"');
    write_escaped(out, s);
    push_char(out, '"');
    assert(final(out)@ =~= old(out)@ + spec_quote(s@)) by {
    }
}

/// The text `serde_json` writes for the JSON value `j` (compact, object
/// keys in its map order).
pub uninterp spec fn spec_json_to_string(j: Json) -> Seq<char>;

/// The `serde_json::Value` with the same nodes: numbers read from their
/// text (null where the text is no number), objects built entry by entry.
#[verifier::external_body]
fn to_serde_value(j: &JsonValue) -> serde_json::Value {
    match j {
        JsonValue::Null => serde_json::Value::Null,
        JsonValue::Bool(b) => serde_json::Value::Bool(*b),
        JsonValue::Number(t) => t.parse::<serde_json::Number>().map(serde_json::Value::Number).unwrap_or(serde_json::Value::Null),
        JsonValue::String(s) => serde_json::Value::String(s.clone()),
        JsonValue::Array(a) => serde_json::Value::Array(a.iter().map(to_serde_value).collect()),
        JsonValue::Object(es) => serde_json::Value::Object(es.iter().map(|(k, v)| (k.clone(), to_serde_value(v))).collect()),
    }
}

/// `serde_json::Value`'s `to_string` (compact `serde_json` text), on the
/// value converted node for node. Claimed: the text depends on the value
/// alone and is named by `spec_json_to_string`.
#[verifier::external_body]
fn json_to_string(j: &JsonValue) -> (s: String)
    ensures
        s@ == spec_json_to_string(j@),
{
    to_serde_value(j).to_string()
}

impl JsonValue {
    /// The compact JSON text of this value, as `serde_json` writes it.
    pub fn to_json_string(&self) -> (s: String)
        ensures
            s@ == spec_json_to_string(self@),
    {
        json_to_string(self)
    }
}

} // verus!
