//! Condition nodes: a field of the input compared with a configured value,
//! the answer sent out on the `true` or `false` port.
//!
//! Comparisons of numbers that are not integers are made in floating
//! point; what is decided here hands such a comparison over as the two
//! numbers' texts.

use vstd::prelude::*;
use crate::json::{Json, JsonValue};
use crate::text::contains_seq;
use crate::workflow::error::NodeError;
use crate::workflow::nodes::{
    NodeOutput, RuntimeValue, json_path, spec_as_i64, spec_int_text, spec_to_json, split_on, from_json_rel,
};
use crate::workflow::schema::{ConditionConfig, ConditionOp};

verus! {

/// A condition, decided as far as it can be without floating point.
#[derive(Debug)]
pub enum ConditionEval {
    /// The condition's answer.
    Decided(bool),
    /// The answer is whether the two numbers, read as `f64`, are equal; its
    /// negation when `negate` is set.
    NumbersEqual { left: String, right: String, negate: bool },
    /// The answer is whether `left` is greater than `right` (less, when
    /// `greater` is not set), both read as `f64`.
    Ordered { left: String, right: String, greater: bool },
}

/// The text of an ordered operand: an integer's decimal text, a number's
/// JSON text, and `0` for anything else.
pub open spec fn operand_text(v: RuntimeValue) -> Seq<char> {
    match v {
        RuntimeValue::Integer(i) => spec_int_text(i as int),
        _ => match spec_to_json(v) {
            Json::Number(t) => t,
            _ => "0"@,
        },
    }
}

/// The number text of a configured value, `0` when it is no number.
pub open spec fn value_number_text(j: Json) -> Seq<char> {
    match j {
        Json::Number(t) => t,
        _ => "0"@,
    }
}

/// The text of a string value, empty for anything else.
pub open spec fn text_or_empty(v: RuntimeValue) -> Seq<char> {
    match v {
        RuntimeValue::String(s) => s@,
        RuntimeValue::Json(j) => match j@ {
            Json::Str(s) => s,
            _ => Seq::empty(),
        },
        _ => Seq::empty(),
    }
}

/// A configured string, empty for anything else.
pub open spec fn needle_or_empty(j: Json) -> Seq<char> {
    match j {
        Json::Str(s) => s,
        _ => Seq::empty(),
    }
}

/// Whether the field value `rv` equals the configured value `c`: an
/// integer against a number by integer value, a non-integer against a
/// number in floating point (left open here), anything else by JSON
/// equality.
pub open spec fn equality_eval(rv: RuntimeValue, c: Json, negate: bool, r: ConditionEval) -> bool {
    match (rv, c) {
        (RuntimeValue::Integer(a), Json::Number(n)) => r == ConditionEval::Decided((spec_as_i64(n) == Some(a)) != negate),
        (RuntimeValue::Number(a), Json::Number(n)) => r matches ConditionEval::NumbersEqual { left, right, negate: ng }
            && left@ == a@ && right@ == n && ng == negate,
        _ => r == ConditionEval::Decided((spec_to_json(rv) == c) != negate),
    }
}

/// `r` is the condition `config` on the input value `v`, decided as far as
/// it can be: a missing field is empty and fails every other comparison;
/// an ordered comparison reads both sides as numbers, `0` where one is
/// none; a containment test reads both sides as text, empty where one is
/// none; emptiness means a null JSON form.
pub open spec fn condition_eval(config: ConditionConfig, v: RuntimeValue, r: ConditionEval) -> bool {
    match json_path(spec_to_json(v), split_on(config.field@, '.')) {
        None => r == ConditionEval::Decided(config.operator == ConditionOp::IsEmpty),
        Some(j) => exists|rv: RuntimeValue| #[trigger] from_json_rel(j, rv) && field_eval(config, rv, r),
    }
}

/// `r` is the condition `config` on the field value `rv`.
pub open spec fn field_eval(config: ConditionConfig, rv: RuntimeValue, r: ConditionEval) -> bool {
    match config.operator {
        ConditionOp::Equal => equality_eval(rv, config.value@, false, r),
        ConditionOp::NotEqual => equality_eval(rv, config.value@, true, r),
        ConditionOp::GreaterThan => r matches ConditionEval::Ordered { left, right, greater }
            && left@ == operand_text(rv) && right@ == value_number_text(config.value@) && greater,
        ConditionOp::LessThan => r matches ConditionEval::Ordered { left, right, greater }
            && left@ == operand_text(rv) && right@ == value_number_text(config.value@) && !greater,
        ConditionOp::Contains => r == ConditionEval::Decided(contains_seq(text_or_empty(rv), needle_or_empty(config.value@))),
        ConditionOp::NotContains => r == ConditionEval::Decided(!contains_seq(text_or_empty(rv), needle_or_empty(config.value@))),
        ConditionOp::IsEmpty => r == ConditionEval::Decided(spec_to_json(rv) == Json::Null),
        ConditionOp::IsNotEmpty => r == ConditionEval::Decided(spec_to_json(rv) != Json::Null),
    }
}

/// Whether the condition's field value equals the configured value.
fn evaluate_equality(rv: &RuntimeValue, c: &JsonValue, negate: bool) -> (r: ConditionEval)
    ensures
        equality_eval(*rv, c@, negate, r),
{
    match (rv, c) {
        (RuntimeValue::Integer(a), JsonValue::Number(n)) => {
            let same = match crate::workflow::nodes::number_as_i64(n.as_str()) {
                Some(x) => x == *a,
                None => false,
            };
            ConditionEval::Decided(same != negate)
        },
        (RuntimeValue::Number(a), JsonValue::Number(n)) => ConditionEval::NumbersEqual {
            left: a.clone(),
            right: n.clone(),
            negate,
        },
        _ => {
            let j = rv.to_json();
            ConditionEval::Decided(j.json_eq(c) != negate)
        },
    }
}

/// The text of an ordered operand.
fn operand(rv: &RuntimeValue) -> (t: String)
    ensures
        t@ == operand_text(*rv),
{
    match rv {
        RuntimeValue::Integer(i) => {
            let mut t = String::new();
            crate::workflow::nodes::write_int(&mut t, *i);
            t
        },
        _ => match rv.to_json() {
            JsonValue::Number(t) => t,
            _ => String::from_str("0"),
        },
    }
}

/// The condition on the field value `rv`.
fn evaluate_field(config: &ConditionConfig, rv: &RuntimeValue) -> (r: ConditionEval)
    ensures
        field_eval(*config, *rv, r),
{
    match config.operator {
        ConditionOp::Equal => evaluate_equality(rv, &config.value, false),
        ConditionOp::NotEqual => evaluate_equality(rv, &config.value, true),
        ConditionOp::GreaterThan | ConditionOp::LessThan => {
            let right = match &config.value {
                JsonValue::Number(t) => t.clone(),
                _ => String::from_str("0"),
            };
            ConditionEval::Ordered {
                left: operand(rv),
                right,
                greater: config.operator == ConditionOp::GreaterThan,
            }
        },
        ConditionOp::Contains | ConditionOp::NotContains => {
            proof {
                reveal_strlit("");
            }
            let text = match rv.as_text() {
                Some(t) => t,
                None => "",
            };
            let needle = match config.value.as_str() {
                Some(t) => t,
                None => "",
            };
            assert(text@ == text_or_empty(*rv));
            assert(needle@ == needle_or_empty(config.value@));
            let found = crate::text::str_contains(text, needle);
            ConditionEval::Decided(if config.operator == ConditionOp::Contains { found } else { !found })
        },
        ConditionOp::IsEmpty => ConditionEval::Decided(rv.to_json().is_null()),
        ConditionOp::IsNotEmpty => ConditionEval::Decided(!rv.to_json().is_null()),
    }
}

/// Decide a condition on an input value as far as it can be without
/// floating point.
pub fn evaluate_condition(config: &ConditionConfig, value: &RuntimeValue) -> (r: ConditionEval)
    ensures
        condition_eval(*config, *value, r),
{
    match value.get_field(config.field.as_str()) {
        None => ConditionEval::Decided(config.operator == ConditionOp::IsEmpty),
        Some(rv) => evaluate_field(config, &rv),
    }
}

/// The output of a condition node with the answer `result`: the answer
/// itself, on the port named after it.
pub fn condition_output(result: bool) -> (r: Result<NodeOutput, NodeError>)
    ensures
        r matches Ok(o) && (o.value == RuntimeValue::Bool(result)
            && (o.port matches Some(p) && p@ == (if result { "true"@ } else { "false"@ }))),
{
    let port = if result { "true" } else { "false" };
    Ok(NodeOutput::on_port(port, RuntimeValue::Bool(result)))
}

/// Emptiness tests look at the field alone: `IsNotEmpty` holds exactly when
/// the field is present in the input with a value other than null, and
/// `IsEmpty` exactly when it does not.
pub proof fn emptiness_tests_field_presence(config: ConditionConfig, value: RuntimeValue, r: ConditionEval)
    requires
        config.operator == ConditionOp::IsEmpty || config.operator == ConditionOp::IsNotEmpty,
        condition_eval(config, value, r),
    ensures
        ({
            let present = json_path(spec_to_json(value), split_on(config.field@, '.')) matches Some(j) && j != Json::Null;
            r == ConditionEval::Decided(if config.operator == ConditionOp::IsNotEmpty {
                present
            } else {
                !present
            })
        }),
{
    match json_path(spec_to_json(value), split_on(config.field@, '.')) {
        None => {},
        Some(j) => {
            let rv = choose|rv: RuntimeValue| #[trigger] from_json_rel(j, rv) && field_eval(config, rv, r);
            crate::workflow::nodes::json_round_trip(j, rv);
            assert((spec_to_json(rv) == Json::Null) == (j == Json::Null));
        },
    }
}

} // verus!
