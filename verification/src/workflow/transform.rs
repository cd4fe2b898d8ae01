//! Transform nodes: reshape a runtime value by extraction, merging or
//! filtering.

use vstd::prelude::*;
use crate::adapters::openai_responses::{insert_by_key, key_less, key_lt, lemma_insert_by_key};
use crate::json::{
    Json, JsonValue, array_of, entries_view, entry_index, json_get, json_get_str, lemma_array_view,
    lemma_entry_index_bounds, lemma_object_view, object_of, str_eq,
};
use crate::workflow::error::NodeError;
use crate::workflow::nodes::{NodeInput, NodeOutput, RuntimeValue, from_json_rel, normalize, spec_to_json};
use crate::workflow::schema::{TransformConfig, TransformOperation};

verus! {

/// `m` with `k` set to `v`: the value of the first entry with key `k`
/// replaced where there is one, the entry inserted in key order where there
/// is none (a `serde_json::Map` insertion).
pub open spec fn map_insert(m: Seq<(Seq<char>, Json)>, k: Seq<char>, v: Json) -> Seq<(Seq<char>, Json)> {
    match entry_index(m, k) {
        Some(i) => m.update(i, (k, v)),
        None => insert_by_key(m, (k, v)),
    }
}

/// `m` with each entry of `es` set in turn.
pub open spec fn map_insert_all(m: Seq<(Seq<char>, Json)>, es: Seq<(Seq<char>, Json)>) -> Seq<(Seq<char>, Json)>
    decreases es.len(),
{
    if es.len() == 0 {
        m
    } else {
        let init = map_insert_all(m, es.drop_last());
        map_insert(init, es.last().0, es.last().1)
    }
}

/// The entries of the objects among `items`, merged in order.
pub open spec fn merge_items(items: Seq<Json>) -> Seq<(Seq<char>, Json)>
    decreases items.len(),
{
    if items.len() == 0 {
        Seq::empty()
    } else {
        let init = merge_items(items.drop_last());
        match items.last() {
            Json::Object(es) => map_insert_all(init, es),
            _ => init,
        }
    }
}

/// The items that are neither null nor the empty string.
pub open spec fn kept_items(items: Seq<Json>) -> Seq<Json>
    decreases items.len(),
{
    if items.len() == 0 {
        Seq::empty()
    } else {
        let init = kept_items(items.drop_last());
        match items.last() {
            Json::Null => init,
            Json::Str(s) => if s.len() == 0 {
                init
            } else {
                init.push(items.last())
            },
            _ => init.push(items.last()),
        }
    }
}

/// `r` is what the operation makes of the value `v`. Extraction reads the
/// member named by a JSON object's `field` string (null when absent);
/// merging joins the objects of a JSON array into one object; filtering
/// drops the null and empty-string items of a JSON array. Any other value
/// passes through.
pub open spec fn transforms(op: TransformOperation, v: RuntimeValue, r: RuntimeValue) -> bool {
    match op {
        TransformOperation::Passthrough => r == v,
        TransformOperation::Extract => match v {
            RuntimeValue::Json(obj) => match json_get_str(obj@, "field"@) {
                Some(f) => match json_get(obj@, f) {
                    Some(x) => from_json_rel(x, r),
                    None => r is Null,
                },
                None => r == v,
            },
            _ => r == v,
        },
        TransformOperation::Merge => match v {
            RuntimeValue::Json(j) => match j@ {
                Json::Array(items) => r matches RuntimeValue::Json(m) && m@ == Json::Object(merge_items(items)),
                _ => r == v,
            },
            _ => r == v,
        },
        TransformOperation::Filter => match v {
            RuntimeValue::Json(j) => match j@ {
                Json::Array(items) => r matches RuntimeValue::Json(m) && m@ == Json::Array(kept_items(items)),
                _ => r == v,
            },
            _ => r == v,
        },
    }
}

/// Set `k` to `v` among object entries.
fn entries_insert(es: &mut Vec<(String, JsonValue)>, k: &String, v: &JsonValue)
    ensures
        entries_view(final(es)@) == map_insert(entries_view(old(es)@), k@, v@),
{
    let ghost m = entries_view(es@);
    let mut i: usize = 0;
    while i < es.len()
        invariant
            i <= es@.len(),
            es@ == old(es)@,
            m == entries_view(es@),
            forall|q: int| 0 <= q < i ==> m[q].0 != k@,
        decreases es@.len() - i,
    {
        if str_eq(es[i].0.as_str(), k.as_str()) {
            assert(m[i as int].0 == k@);
            proof {
                lemma_entry_index_bounds(m, k@);
            }
            assert(entry_index(m, k@) == Some(i as int));
            es.set(i, (k.clone(), v.deep_clone()));
            assert(entries_view(es@) =~= m.update(i as int, (k@, v@)));
            return;
        }
        i = i + 1;
    }
    proof {
        lemma_entry_index_bounds(m, k@);
    }
    assert(entry_index(m, k@) is None);
    let mut p: usize = 0;
    while p < es.len() && !key_less(k.as_str(), es[p].0.as_str())
        invariant
            p <= es@.len(),
            es@ == old(es)@,
            m == entries_view(es@),
            forall|q: int| 0 <= q < p ==> !key_lt(k@, #[trigger] m[q].0),
        decreases es@.len() - p,
    {
        p = p + 1;
    }
    proof {
        lemma_insert_by_key(m, (k@, v@), p as int);
    }
    es.insert(p, (k.clone(), v.deep_clone()));
    assert(entries_view(es@) =~= m.subrange(0, p as int) + seq![(k@, v@)] + m.subrange(p as int, m.len() as int));
}

/// The entries of the objects among `items`, merged in order.
fn merge_objects(items: &Vec<JsonValue>) -> (r: Vec<(String, JsonValue)>)
    ensures
        entries_view(r@) == merge_items(items@.map_values(|j: JsonValue| j@)),
{
    let ghost iv = items@.map_values(|j: JsonValue| j@);
    let mut merged: Vec<(String, JsonValue)> = Vec::new();
    let mut i: usize = 0;
    assert(entries_view(merged@) =~= merge_items(iv.take(0)));
    while i < items.len()
        invariant
            i <= items@.len(),
            iv == items@.map_values(|j: JsonValue| j@),
            entries_view(merged@) == merge_items(iv.take(i as int)),
        decreases items@.len() - i,
    {
        assert(iv.take(i + 1).drop_last() =~= iv.take(i as int));
        assert(iv.take(i + 1).last() == items@[i as int]@);
        match &items[i] {
            JsonValue::Object(es) => {
                let ghost base = entries_view(merged@);
                let ghost ev = entries_view(es@);
                proof {
                    lemma_object_view(*es);
                    assert(ev =~= Seq::new(es@.len(), |q: int| (es@[q].0@, es@[q].1@)));
                }
                let mut j: usize = 0;
                assert(ev.take(0) =~= Seq::<(Seq<char>, Json)>::empty());
                while j < es.len()
                    invariant
                        j <= es@.len(),
                        ev == entries_view(es@),
                        entries_view(merged@) == map_insert_all(base, ev.take(j as int)),
                    decreases es@.len() - j,
                {
                    assert(ev.take(j + 1).drop_last() =~= ev.take(j as int));
                    entries_insert(&mut merged, &es[j].0, &es[j].1);
                    j = j + 1;
                }
                assert(ev.take(es@.len() as int) =~= ev);
            },
            _ => {},
        }
        i = i + 1;
    }
    assert(iv.take(items@.len() as int) =~= iv);
    merged
}

/// The items that are neither null nor the empty string.
fn keep_present(items: &Vec<JsonValue>) -> (r: Vec<JsonValue>)
    ensures
        r@.map_values(|j: JsonValue| j@) == kept_items(items@.map_values(|j: JsonValue| j@)),
{
    let ghost iv = items@.map_values(|j: JsonValue| j@);
    let mut kept: Vec<JsonValue> = Vec::new();
    let mut i: usize = 0;
    assert(kept@.map_values(|j: JsonValue| j@) =~= kept_items(iv.take(0)));
    while i < items.len()
        invariant
            i <= items@.len(),
            iv == items@.map_values(|j: JsonValue| j@),
            kept@.map_values(|j: JsonValue| j@) == kept_items(iv.take(i as int)),
        decreases items@.len() - i,
    {
        assert(iv.take(i + 1).drop_last() =~= iv.take(i as int));
        assert(iv.take(i + 1).last() == items@[i as int]@);
        let keep = match &items[i] {
            JsonValue::Null => false,
            JsonValue::String(s) => s.as_str().unicode_len() > 0,
            _ => true,
        };
        if keep {
            let ghost before = kept@;
            kept.push(items[i].deep_clone());
            assert(kept@.map_values(|j: JsonValue| j@) =~= before.map_values(|j: JsonValue| j@).push(items@[i as int]@));
        }
        i = i + 1;
    }
    assert(iv.take(items@.len() as int) =~= iv);
    kept
}

/// What the operation `op` makes of the value `v`.
pub fn transform_value(op: TransformOperation, v: RuntimeValue) -> (r: RuntimeValue)
    ensures
        transforms(op, v, r),
{
    match op {
        TransformOperation::Passthrough => v,
        TransformOperation::Extract => {
            let extracted = match &v {
                RuntimeValue::Json(obj) => match obj.get_str("field") {
                    Some(f) => match obj.get(f.as_str()) {
                        Some(x) => Some(RuntimeValue::from_json(x.deep_clone())),
                        None => Some(RuntimeValue::Null),
                    },
                    None => None,
                },
                _ => None,
            };
            match extracted {
                Some(r) => r,
                None => v,
            }
        },
        TransformOperation::Merge => {
            let merged = match &v {
                RuntimeValue::Json(JsonValue::Array(items)) => {
                    proof {
                        lemma_array_view(*items);
                        assert(items@.map_values(|j: JsonValue| j@) =~= Seq::new(items@.len(), |q: int| items@[q]@));
                    }
                    Some(RuntimeValue::Json(object_of(merge_objects(items))))
                },
                _ => None,
            };
            match merged {
                Some(r) => r,
                None => v,
            }
        },
        TransformOperation::Filter => {
            let filtered = match &v {
                RuntimeValue::Json(JsonValue::Array(items)) => {
                    proof {
                        lemma_array_view(*items);
                        assert(items@.map_values(|j: JsonValue| j@) =~= Seq::new(items@.len(), |q: int| items@[q]@));
                    }
                    Some(RuntimeValue::Json(array_of(keep_present(items))))
                },
                _ => None,
            };
            match filtered {
                Some(r) => r,
                None => v,
            }
        },
    }
}

/// Run a transform node: its output, on no particular port, is what the
/// configured operation makes of the input's value.
pub fn execute(config: &TransformConfig, input: NodeInput) -> (r: Result<NodeOutput, NodeError>)
    ensures
        r matches Ok(o) && o.port is None && transforms(config.operation, input.value, o.value),
{
    Ok(NodeOutput::message(transform_value(config.operation, input.value)))
}

/// Extraction gives back the named member itself: when a JSON object's
/// `field` string names a member that is present, the result's JSON form
/// is that member's value (an integer written in its plain decimal form),
/// whatever its kind, and the result is null only for a null member; when
/// the member is absent, the result is null.
pub proof fn extract_returns_named_member(v: RuntimeValue, r: RuntimeValue)
    requires
        transforms(TransformOperation::Extract, v, r),
        v matches RuntimeValue::Json(obj) && json_get_str(obj@, "field"@) is Some,
    ensures
        ({
            let obj = v->Json_0;
            let f = json_get_str(obj@, "field"@)->0;
            match json_get(obj@, f) {
                Some(x) => spec_to_json(r) == normalize(x) && ((r is Null) == (x == Json::Null)),
                None => r is Null,
            }
        }),
{
    let obj = v->Json_0;
    let f = json_get_str(obj@, "field"@)->0;
    match json_get(obj@, f) {
        Some(x) => {
            crate::workflow::nodes::json_round_trip(x, r);
        },
        None => {},
    }
}

} // verus!
