//! Values flowing between workflow nodes, and node inputs and outputs.

use vstd::prelude::*;
use crate::json::{Json, JsonValue, json_as_bool, json_get, object_of, entries_view};
use crate::sse::{parse_u64, spec_parse_u64};
use crate::text::{push_char, spec_decimal, str_chars, string_from_chars, write_decimal};

verus! {

/// A typed runtime value flowing between nodes.
#[derive(Debug, Clone, PartialEq)]
pub enum RuntimeValue {
    Null,
    Bool(bool),
    Integer(i64),
    /// A number that is not an integer, as its JSON text.
    Number(String),
    String(String),
    Json(JsonValue),
    Message { role: String, content: String },
}

impl Default for RuntimeValue {
    fn default() -> (v: Self)
        ensures
            v is Null,
    {
        RuntimeValue::Null
    }
}

/// The decimal text of an integer.
pub open spec fn spec_int_text(n: int) -> Seq<char> {
    if n < 0 {
        seq!['-'] + spec_decimal((-n) as nat)
    } else {
        spec_decimal(n as nat)
    }
}

/// `Number::as_i64` on the JSON text of a number: an optional `-` and
/// decimal digits, with a value that fits in an `i64`.
pub open spec fn spec_as_i64(t: Seq<char>) -> Option<i64> {
    if t.len() > 0 && t[0] == '-' {
        let ds = t.drop_first();
        if ds.len() > 0 && ds[0] != '+' {
            match spec_parse_u64(ds) {
                Some(v) => if v <= 9223372036854775808u64 {
                    Some((-(v as int)) as i64)
                } else {
                    None
                },
                None => None,
            }
        } else {
            None
        }
    } else if t.len() > 0 && t[0] != '+' {
        match spec_parse_u64(t) {
            Some(v) => if v <= 9223372036854775807u64 {
                Some(v as i64)
            } else {
                None
            },
            None => None,
        }
    } else {
        None
    }
}

/// The JSON form of a runtime value.
pub open spec fn spec_to_json(v: RuntimeValue) -> Json {
    match v {
        RuntimeValue::Null => Json::Null,
        RuntimeValue::Bool(b) => Json::Bool(b),
        RuntimeValue::Integer(n) => Json::Number(spec_int_text(n as int)),
        RuntimeValue::Number(t) => Json::Number(t@),
        RuntimeValue::String(s) => Json::Str(s@),
        RuntimeValue::Json(j) => j@,
        RuntimeValue::Message { role, content } => Json::Object(
            seq![("content"@, Json::Str(content@)), ("role"@, Json::Str(role@))],
        ),
    }
}

/// `r` is the runtime value of the JSON value `j`: null, booleans and
/// strings map to their own kind, a number to an integer when it is one
/// that fits, and anything else is kept as JSON.
pub open spec fn from_json_rel(j: Json, r: RuntimeValue) -> bool {
    match j {
        Json::Null => r is Null,
        Json::Bool(b) => r == RuntimeValue::Bool(b),
        Json::Number(t) => match spec_as_i64(t) {
            Some(i) => r == RuntimeValue::Integer(i),
            None => r matches RuntimeValue::Number(x) && x@ == t,
        },
        Json::Str(s) => r matches RuntimeValue::String(x) && x@ == s,
        _ => r matches RuntimeValue::Json(x) && x@ == j,
    }
}

/// The JSON form of the runtime value of `j`.
pub open spec fn normalize(j: Json) -> Json {
    match j {
        Json::Number(t) => match spec_as_i64(t) {
            Some(i) => Json::Number(spec_int_text(i as int)),
            None => j,
        },
        _ => j,
    }
}

/// Whether the JSON text of a number denotes zero: its digits before any
/// exponent are all `0`.
pub open spec fn is_zero_number(t: Seq<char>) -> bool {
    forall|i: int|
        0 <= i < t.len() && (forall|k: int| 0 <= k <= i ==> t[k] != 'e' && t[k] != 'E') ==> ('1' <= #[trigger] t[i] <= '9' ==> false)
}

/// `RuntimeValue::as_bool`: the truth value of a runtime value, where it
/// has one.
pub open spec fn spec_as_bool(v: RuntimeValue) -> Option<bool> {
    match v {
        RuntimeValue::Bool(b) => Some(b),
        RuntimeValue::Integer(n) => Some(n != 0),
        RuntimeValue::Number(t) => Some(!is_zero_number(t@)),
        RuntimeValue::String(s) => if s@ == "true"@ || s@ == "1"@ || s@ == "yes"@ {
            Some(true)
        } else if s@ == "false"@ || s@ == "0"@ || s@ == "no"@ || s@ == ""@ {
            Some(false)
        } else {
            None
        },
        RuntimeValue::Null => Some(false),
        RuntimeValue::Json(j) => json_as_bool(j@),
        RuntimeValue::Message { .. } => None,
    }
}

/// `str::split(c)`: the pieces of `s` between occurrences of `c`.
pub open spec fn split_on(s: Seq<char>, c: char) -> Seq<Seq<char>>
    decreases s.len(),
{
    if s.len() == 0 {
        seq![Seq::empty()]
    } else {
        let init = split_on(s.drop_last(), c);
        if s.last() == c {
            init.push(Seq::empty())
        } else {
            init.update(init.len() - 1, init.last().push(s.last()))
        }
    }
}

/// The value at a path of object keys.
pub open spec fn json_path(j: Json, keys: Seq<Seq<char>>) -> Option<Json>
    decreases keys.len(),
{
    if keys.len() == 0 {
        Some(j)
    } else {
        match json_get(j, keys[0]) {
            Some(k) => json_path(k, keys.drop_first()),
            None => None,
        }
    }
}

proof fn lemma_split_nonempty(s: Seq<char>, c: char)
    ensures
        split_on(s, c).len() >= 1,
    decreases s.len(),
{
    if s.len() > 0 {
        lemma_split_nonempty(s.drop_last(), c);
    }
}

/// Append the decimal text of an integer.
pub(crate) fn write_int(out: &mut String, n: i64)
    ensures
        final(out)@ == old(out)@ + spec_int_text(n as int),
{
    if n < 0 {
        push_char(out, '-');
        let m: u64 = if n == i64::MIN {
            9223372036854775808u64
        } else {
            (-n) as u64
        };
        assert(m as int == -(n as int));
        write_decimal(out, m);
        assert(final(out)@ =~= old(out)@ + spec_int_text(n as int));
    } else {
        write_decimal(out, n as u64);
    }
}

/// `Number::as_i64` on the JSON text of a number.
pub(crate) fn number_as_i64(t: &str) -> (r: Option<i64>)
    ensures
        r == spec_as_i64(t@),
{
    let cs = str_chars(t);
    if cs.len() > 0 && cs[0] == '-' {
        let mut head = cs;
        let dcs = head.split_off(1);
        assert(dcs@ =~= t@.drop_first());
        if dcs.len() > 0 && dcs[0] != '+' {
            match parse_u64(dcs.as_slice()) {
                Some(v) => {
                    if v <= 9223372036854775808u64 {
                        if v == 9223372036854775808u64 {
                            Some(i64::MIN)
                        } else {
                            Some(-(v as i64))
                        }
                    } else {
                        None
                    }
                },
                None => None,
            }
        } else {
            None
        }
    } else if cs.len() > 0 && cs[0] != '+' {
        match parse_u64(cs.as_slice()) {
            Some(v) => {
                if v <= 9223372036854775807u64 {
                    Some(v as i64)
                } else {
                    None
                }
            },
            None => None,
        }
    } else {
        None
    }
}

/// Whether the JSON text of a number denotes zero.
fn number_is_zero(t: &str) -> (z: bool)
    ensures
        z == is_zero_number(t@),
{
    let cs = str_chars(t);
    let mut i: usize = 0;
    while i < cs.len()
        invariant
            i <= cs@.len(),
            cs@ == t@,
            forall|k: int| 0 <= k < i ==> cs@[k] != 'e' && cs@[k] != 'E',
            forall|k: int| 0 <= k < i ==> !('1' <= #[trigger] cs@[k] <= '9'),
        decreases cs@.len() - i,
    {
        let c = cs[i];
        if c == 'e' || c == 'E' {
            return true;
        }
        if '1' <= c && c <= '9' {
            return false;
        }
        i = i + 1;
    }
    true
}

/// `a` and `b` hold the same value.
pub open spec fn same_value(a: RuntimeValue, b: RuntimeValue) -> bool {
    match (a, b) {
        (RuntimeValue::Null, RuntimeValue::Null) => true,
        (RuntimeValue::Bool(x), RuntimeValue::Bool(y)) => x == y,
        (RuntimeValue::Integer(x), RuntimeValue::Integer(y)) => x == y,
        (RuntimeValue::Number(x), RuntimeValue::Number(y)) => x@ == y@,
        (RuntimeValue::String(x), RuntimeValue::String(y)) => x@ == y@,
        (RuntimeValue::Json(x), RuntimeValue::Json(y)) => x@ == y@,
        (RuntimeValue::Message { role: r1, content: c1 }, RuntimeValue::Message { role: r2, content: c2 }) => r1@ == r2@ && c1@ == c2@,
        _ => false,
    }
}

impl RuntimeValue {
    /// A copy of this value.
    pub fn copy(&self) -> (r: RuntimeValue)
        ensures
            same_value(r, *self),
    {
        match self {
            RuntimeValue::Null => RuntimeValue::Null,
            RuntimeValue::Bool(b) => RuntimeValue::Bool(*b),
            RuntimeValue::Integer(n) => RuntimeValue::Integer(*n),
            RuntimeValue::Number(t) => RuntimeValue::Number(t.clone()),
            RuntimeValue::String(s) => RuntimeValue::String(s.clone()),
            RuntimeValue::Json(j) => RuntimeValue::Json(j.deep_clone()),
            RuntimeValue::Message { role, content } => RuntimeValue::Message { role: role.clone(), content: content.clone() },
        }
    }

    /// The runtime value of a JSON value.
    pub fn from_json(v: JsonValue) -> (r: Self)
        ensures
            from_json_rel(v@, r),
    {
        match v {
            JsonValue::Null => RuntimeValue::Null,
            JsonValue::Bool(b) => RuntimeValue::Bool(b),
            JsonValue::Number(n) => match number_as_i64(n.as_str()) {
                Some(i) => RuntimeValue::Integer(i),
                None => RuntimeValue::Number(n),
            },
            JsonValue::String(s) => RuntimeValue::String(s),
            other => RuntimeValue::Json(other),
        }
    }

    /// The JSON form of this value.
    pub fn to_json(&self) -> (j: JsonValue)
        ensures
            j@ == spec_to_json(*self),
    {
        match self {
            RuntimeValue::Null => JsonValue::Null,
            RuntimeValue::Bool(b) => JsonValue::Bool(*b),
            RuntimeValue::Integer(n) => {
                let mut t = String::new();
                write_int(&mut t, *n);
                JsonValue::Number(t)
            },
            RuntimeValue::Number(t) => JsonValue::Number(t.clone()),
            RuntimeValue::String(s) => JsonValue::String(s.clone()),
            RuntimeValue::Json(v) => v.deep_clone(),
            RuntimeValue::Message { role, content } => {
                let es = vec![
                    (String::from_str("content"), JsonValue::String(content.clone())),
                    (String::from_str("role"), JsonValue::String(role.clone())),
                ];
                assert(entries_view(es@) =~= seq![("content"@, Json::Str(content@)), ("role"@, Json::Str(role@))]);
                object_of(es)
            },
        }
    }

    /// The text, when this is a string or a JSON string.
    pub fn as_text(&self) -> (r: Option<&str>)
        ensures
            match *self {
                RuntimeValue::String(s) => r matches Some(t) && t@ == s@,
                RuntimeValue::Json(j) => match j@ {
                    Json::Str(s) => r matches Some(t) && t@ == s,
                    _ => r is None,
                },
                _ => r is None,
            },
    {
        match self {
            RuntimeValue::String(s) => Some(s.as_str()),
            RuntimeValue::Json(JsonValue::String(s)) => Some(s.as_str()),
            _ => None,
        }
    }

    /// The truth value of this value, where it has one.
    pub fn as_bool(&self) -> (r: Option<bool>)
        ensures
            r == spec_as_bool(*self),
    {
        match self {
            RuntimeValue::Bool(b) => Some(*b),
            RuntimeValue::Integer(n) => Some(*n != 0),
            RuntimeValue::Number(t) => Some(!number_is_zero(t.as_str())),
            RuntimeValue::String(s) => {
                let t = s.as_str();
                if crate::json::str_eq(t, "true") || crate::json::str_eq(t, "1") || crate::json::str_eq(t, "yes") {
                    Some(true)
                } else if crate::json::str_eq(t, "false") || crate::json::str_eq(t, "0") || crate::json::str_eq(t, "no") || crate::json::str_eq(t, "") {
                    Some(false)
                } else {
                    None
                }
            },
            RuntimeValue::Null => Some(false),
            RuntimeValue::Json(v) => v.as_bool(),
            RuntimeValue::Message { .. } => None,
        }
    }

    /// The value at a dotted path of object keys in this value's JSON form.
    pub fn get_field(&self, field: &str) -> (r: Option<RuntimeValue>)
        ensures
            match json_path(spec_to_json(*self), split_on(field@, '.')) {
                Some(j) => r matches Some(x) && from_json_rel(j, x),
                None => r is None,
            },
    {
        let v = self.to_json();
        let parts = split_dots(field);
        let ghost keys = parts@.map_values(|p: String| p@);
        let mut current: &JsonValue = &v;
        let mut i: usize = 0;
        assert(keys.subrange(0, keys.len() as int) =~= keys);
        while i < parts.len()
            invariant
                i <= parts@.len(),
                keys == parts@.map_values(|p: String| p@),
                keys == split_on(field@, '.'),
                json_path(spec_to_json(*self), keys) == json_path(current@, keys.subrange(i as int, keys.len() as int)),
            decreases parts@.len() - i,
        {
            proof {
                assert(keys.subrange(i as int, keys.len() as int).drop_first() =~= keys.subrange(i + 1, keys.len() as int));
                assert(keys.subrange(i as int, keys.len() as int)[0] == parts@[i as int]@);
            }
            match current.get(parts[i].as_str()) {
                Some(next) => {
                    current = next;
                },
                None => {
                    return None;
                },
            }
            i = i + 1;
        }
        assert(keys.subrange(keys.len() as int, keys.len() as int) =~= Seq::<Seq<char>>::empty());
        Some(RuntimeValue::from_json(current.deep_clone()))
    }
}

/// Split a field path at each `.`.
fn split_dots(field: &str) -> (parts: Vec<String>)
    ensures
        parts@.map_values(|p: String| p@) == split_on(field@, '.'),
{
    let cs = str_chars(field);
    let mut parts: Vec<String> = Vec::new();
    let mut cur: Vec<char> = Vec::new();
    let mut i: usize = 0;
    assert(cs@.subrange(0, 0) =~= Seq::<char>::empty());
    while i < cs.len()
        invariant
            i <= cs@.len(),
            cs@ == field@,
            parts@.map_values(|p: String| p@).push(cur@) == split_on(cs@.subrange(0, i as int), '.'),
        decreases cs@.len() - i,
    {
        let ghost pre = cs@.subrange(0, i as int);
        proof {
            assert(cs@.subrange(0, i + 1).drop_last() =~= pre);
            lemma_split_nonempty(pre, '.');
        }
        let c = cs[i];
        if c == '.' {
            let piece = string_from_chars(cur.as_slice());
            parts.push(piece);
            cur = Vec::new();
            assert(parts@.map_values(|p: String| p@).push(cur@) =~= split_on(pre, '.').push(Seq::empty()));
        } else {
            let ghost old_parts = parts@.map_values(|p: String| p@);
            let ghost old_cur = cur@;
            cur.push(c);
            assert(parts@.map_values(|p: String| p@).push(cur@) =~= old_parts.push(old_cur).update(old_parts.len() as int, old_cur.push(c)));
        }
        i = i + 1;
    }
    assert(cs@.subrange(0, cs@.len() as int) =~= cs@);
    let last = string_from_chars(cur.as_slice());
    let ghost before = parts@.map_values(|p: String| p@);
    parts.push(last);
    assert(parts@.map_values(|p: String| p@) =~= before.push(cur@));
    parts
}

/// Input to a node: a runtime value and the port it arrived on.
#[derive(Debug, Clone)]
pub struct NodeInput {
    /// The port this input arrived on (if an edge names one).
    pub port: Option<String>,
    /// The runtime value.
    pub value: RuntimeValue,
}

impl NodeInput {
    /// An input on no particular port.
    pub fn message(value: RuntimeValue) -> (r: Self)
        ensures
            r.port is None,
            r.value == value,
    {
        NodeInput { port: None, value }
    }

    /// An input on the port `port`.
    pub fn on_port(port: &str, value: RuntimeValue) -> (r: Self)
        ensures
            r.port matches Some(p) && p@ == port@,
            r.value == value,
    {
        NodeInput { port: Some(String::from_str(port)), value }
    }
}

/// Output of a node: a runtime value and the port it leaves on.
#[derive(Debug, Clone)]
pub struct NodeOutput {
    /// The port this output is on.
    pub port: Option<String>,
    /// The runtime value.
    pub value: RuntimeValue,
}

impl NodeOutput {
    /// An output on no particular port.
    pub fn message(value: RuntimeValue) -> (r: Self)
        ensures
            r.port is None,
            r.value == value,
    {
        NodeOutput { port: None, value }
    }

    /// An output on the port `port`.
    pub fn on_port(port: &str, value: RuntimeValue) -> (r: Self)
        ensures
            r.port matches Some(p) && p@ == port@,
            r.value == value,
    {
        NodeOutput { port: Some(String::from_str(port)), value }
    }
}

/// Reading a JSON value into a runtime value and writing it back gives the
/// value itself, but for an integer, which is written in its plain decimal
/// form.
pub proof fn json_round_trip(j: Json, r: RuntimeValue)
    requires
        from_json_rel(j, r),
    ensures
        spec_to_json(r) == normalize(j),
{
}

} // verus!
