//! Filters over a document's metadata.
//!
//! A filter is a list of conditions that must all hold. A condition names a
//! field of the metadata object and tests its value; a condition on a field
//! that the metadata lacks does not hold. `Contains` holds where any one of
//! its values is found.

use vstd::prelude::*;
use vstd::utf8::encode_utf8;
use crate::document::Document;
use crate::ieee::{compare_doubles, double_order};
use crate::json::{
    json_equal,
    json_get,
    lemma_array_view,
    JsonModel,
    JsonNumber,
    JsonValue,
};

verus! {

/// The bounds of a range; an absent bound does not constrain.
#[derive(Debug)]
pub struct RangeValue {
    /// The least value admitted.
    pub min: Option<JsonValue>,
    /// The greatest value admitted.
    pub max: Option<JsonValue>,
}

/// One test on a field of the metadata.
#[derive(Debug)]
pub enum FilterCondition {
    /// The field equals the value.
    Equals(String, JsonValue),
    /// The field lies within the bounds.
    Range(String, RangeValue),
    /// The field, if an array, holds one of the values; if not, equals one.
    Contains(String, Vec<JsonValue>),
    /// One of the conditions holds.
    Or(Vec<FilterCondition>),
}

/// Conditions that must all hold.
#[derive(Debug)]
pub struct Filter {
    pub conditions: Vec<FilterCondition>,
}

/// The bits of the double nearest to an integer, as `serde_json` converts a
/// number that holds this integer.
pub uninterp spec fn double_of_integer(n: int) -> u64;

/// The double by which a number is ordered.
pub open spec fn number_as_double(n: JsonNumber) -> u64 {
    match n {
        JsonNumber::PosInt(u) => double_of_integer(u as int),
        JsonNumber::NegInt(i) => double_of_integer(i as int),
        JsonNumber::Float(bits) => bits,
    }
}

/// Lexicographic order of byte strings: -1, 0 or 1.
pub open spec fn bytes_order(a: Seq<u8>, b: Seq<u8>) -> int
    decreases a.len(),
{
    if a.len() == 0 {
        if b.len() == 0 {
            0
        } else {
            -1
        }
    } else if b.len() == 0 {
        1
    } else if a[0] < b[0] {
        -1
    } else if a[0] > b[0] {
        1
    } else {
        bytes_order(a.subrange(1, a.len() as int), b.subrange(1, b.len() as int))
    }
}

/// How two values compare: numbers as doubles, strings by their UTF-8 bytes,
/// and anything else as equal.
pub open spec fn json_order(a: JsonModel, b: JsonModel) -> int {
    match (a, b) {
        (JsonModel::Number(x), JsonModel::Number(y)) => double_order(
            number_as_double(x),
            number_as_double(y),
        ),
        (JsonModel::String(x), JsonModel::String(y)) => bytes_order(
            encode_utf8(x),
            encode_utf8(y),
        ),
        _ => 0,
    }
}

/// Whether a value lies within the bounds, each bound included.
pub open spec fn in_range(value: JsonModel, range: RangeValue) -> bool {
    &&& range.min matches Some(min) ==> json_order(value, min@) >= 0
    &&& range.max matches Some(max) ==> json_order(value, max@) <= 0
}

/// Whether one of `items` equals `value`.
pub open spec fn array_has(items: Seq<JsonModel>, value: JsonModel) -> bool {
    exists|j: int| 0 <= j < items.len() && json_equal(#[trigger] items[j], value)
}

/// Whether the field's value holds any of `values`: as an item where it is
/// an array, as itself where it is not.
pub open spec fn contains_any(field_value: JsonModel, values: Seq<JsonValue>) -> bool {
    match field_value {
        JsonModel::Array(items) => exists|i: int|
            0 <= i < values.len() && array_has(items, (#[trigger] values[i])@),
        _ => exists|i: int|
            0 <= i < values.len() && json_equal((#[trigger] values[i])@, field_value),
    }
}

/// Whether the metadata meets a condition.
pub open spec fn condition_matches(metadata: JsonModel, condition: FilterCondition) -> bool
    decreases condition,
{
    match condition {
        FilterCondition::Equals(field, value) => match json_get(metadata, field@) {
            Some(found) => json_equal(found, value@),
            None => false,
        },
        FilterCondition::Range(field, range) => match json_get(metadata, field@) {
            Some(found) => in_range(found, range),
            None => false,
        },
        FilterCondition::Contains(field, values) => match json_get(metadata, field@) {
            Some(found) => contains_any(found, values@),
            None => false,
        },
        FilterCondition::Or(conditions) => exists|i: int|
            0 <= i < conditions.len() && condition_matches(metadata, #[trigger] conditions[i]),
    }
}

/// Whether the metadata meets every condition of a filter.
pub open spec fn filter_matches(metadata: JsonModel, filter: Filter) -> bool {
    forall|i: int|
        0 <= i < filter.conditions.len() ==> condition_matches(
            metadata,
            #[trigger] filter.conditions[i],
        )
}

/// Calls `serde_json::Number::from_i128` and then `Number::as_f64`: an
/// integer that fits `u64` or `i64` becomes a number, and the number is read
/// as the nearest double. The result is that double's bit pattern.
#[verifier::external_body]
fn integer_as_double(n: i128) -> (bits: Option<u64>)
    requires
        i64::MIN <= n <= u64::MAX,
    ensures
        bits == Some(double_of_integer(n as int)),
{
    let number = serde_json::Number::from_i128(n)?;
    let value = number.as_f64()?;
    Some(value.to_bits())
}

/// The double by which a number is ordered.
pub fn number_double(n: &JsonNumber) -> (r: Option<u64>)
    ensures
        r == Some(number_as_double(*n)),
{
    match n {
        JsonNumber::PosInt(u) => integer_as_double(*u as i128),
        JsonNumber::NegInt(i) => integer_as_double(*i as i128),
        JsonNumber::Float(bits) => Some(*bits),
    }
}

/// Compares two byte strings lexicographically.
pub fn compare_bytes(a: &[u8], b: &[u8]) -> (r: i8)
    ensures
        r == bytes_order(a@, b@),
{
    let mut i: usize = 0;
    assert(a@.subrange(0, a@.len() as int) =~= a@);
    assert(b@.subrange(0, b@.len() as int) =~= b@);
    while i < a.len() && i < b.len()
        invariant
            i <= a.len(),
            i <= b.len(),
            bytes_order(a@, b@) == bytes_order(
                a@.subrange(i as int, a@.len() as int),
                b@.subrange(i as int, b@.len() as int),
            ),
        decreases a.len() - i,
    {
        let ghost ra = a@.subrange(i as int, a@.len() as int);
        let ghost rb = b@.subrange(i as int, b@.len() as int);
        assert(ra[0] == a@[i as int]);
        assert(rb[0] == b@[i as int]);
        assert(ra.subrange(1, ra.len() as int) =~= a@.subrange(i + 1, a@.len() as int));
        assert(rb.subrange(1, rb.len() as int) =~= b@.subrange(i + 1, b@.len() as int));
        if a[i] < b[i] {
            return -1;
        }
        if a[i] > b[i] {
            return 1;
        }
        i += 1;
    }
    if i < b.len() {
        -1
    } else if i < a.len() {
        1
    } else {
        0
    }
}

/// Compares two JSON values: -1, 0 or 1 where the first is less than, equal
/// to or greater than the second. Two numbers compare as doubles, two strings
/// by their bytes; any other pair compares as equal.
pub fn compare_json_values(a: &JsonValue, b: &JsonValue) -> (r: i8)
    ensures
        r == json_order(a@, b@),
{
    match (a, b) {
        (JsonValue::Number(x), JsonValue::Number(y)) => {
            match (number_double(x), number_double(y)) {
                (Some(p), Some(q)) => compare_doubles(p, q),
                _ => 0,
            }
        },
        (JsonValue::String(x), JsonValue::String(y)) => {
            compare_bytes(x.as_str().as_bytes(), y.as_str().as_bytes())
        },
        _ => 0,
    }
}

/// Tests whether a value lies within the bounds.
pub fn value_in_range(value: &JsonValue, range: &RangeValue) -> (r: bool)
    ensures
        r == in_range(value@, *range),
{
    let above = match &range.min {
        Some(min) => compare_json_values(value, min) >= 0,
        None => true,
    };
    let below = match &range.max {
        Some(max) => compare_json_values(value, max) <= 0,
        None => true,
    };
    above && below
}

/// Tests whether one of `items` equals `value`.
pub fn array_contains(items: &Vec<JsonValue>, value: &JsonValue) -> (r: bool)
    ensures
        r == exists|j: int| 0 <= j < items.len() && json_equal((#[trigger] items[j])@, value@),
{
    let mut j: usize = 0;
    while j < items.len()
        invariant
            j <= items.len(),
            forall|k: int| 0 <= k < j ==> !json_equal((#[trigger] items[k])@, value@),
        decreases items.len() - j,
    {
        if items[j].equals(value) {
            return true;
        }
        j += 1;
    }
    false
}

/// Tests whether the field's value holds any of `values`.
pub fn value_contains_any(field_value: &JsonValue, values: &Vec<JsonValue>) -> (r: bool)
    ensures
        r == contains_any(field_value@, values@),
{
    match field_value {
        JsonValue::Array(items) => {
            proof {
                lemma_array_view(*field_value);
            }
            let ghost model_items = field_value@->Array_0;
            let mut i: usize = 0;
            while i < values.len()
                invariant
                    i <= values.len(),
                    *field_value == JsonValue::Array(*items),
                    field_value@ == JsonModel::Array(model_items),
                    model_items.len() == items.len(),
                    forall|k: int|
                        0 <= k < items.len() ==> model_items[k] == (#[trigger] items[k])@,
                    forall|k: int| 0 <= k < i ==> !array_has(model_items, (#[trigger] values[k])@),
                decreases values.len() - i,
            {
                let found = array_contains(items, &values[i]);
                proof {
                    let value = values[i as int]@;
                    if found {
                        let j = choose|j: int|
                            0 <= j < items.len() && json_equal((#[trigger] items[j])@, value);
                        assert(json_equal(model_items[j], value));
                    } else {
                        assert forall|j: int| 0 <= j < model_items.len() implies !json_equal(
                            #[trigger] model_items[j],
                            value,
                        ) by {
                            assert(model_items[j] == items[j]@);
                        }
                    }
                }
                if found {
                    return true;
                }
                i += 1;
            }
            false
        },
        _ => {
            let mut i: usize = 0;
            assert(!(field_value@ is Array));
            while i < values.len()
                invariant
                    i <= values.len(),
                    !(field_value@ is Array),
                    forall|k: int|
                        0 <= k < i ==> !json_equal((#[trigger] values[k])@, field_value@),
                decreases values.len() - i,
            {
                if values[i].equals(field_value) {
                    assert(!(field_value@ is Array));
                    assert(json_equal(values@[i as int]@, field_value@));
                    return true;
                }
                i += 1;
            }
            false
        },
    }
}

/// Tests whether a document's metadata meets a condition.
pub fn matches_condition(document: &Document, condition: &FilterCondition) -> (r: bool)
    ensures
        r == condition_matches(document.metadata@, *condition),
    decreases condition,
{
    match condition {
        FilterCondition::Equals(field, value) => {
            match document.metadata.get(field) {
                Some(found) => found.equals(value),
                None => false,
            }
        },
        FilterCondition::Range(field, range) => {
            match document.metadata.get(field) {
                Some(found) => value_in_range(found, range),
                None => false,
            }
        },
        FilterCondition::Contains(field, values) => {
            match document.metadata.get(field) {
                Some(found) => value_contains_any(found, values),
                None => false,
            }
        },
        FilterCondition::Or(conditions) => {
            let mut i: usize = 0;
            while i < conditions.len()
                invariant
                    i <= conditions.len(),
                    *condition == FilterCondition::Or(*conditions),
                    forall|k: int|
                        0 <= k < i ==> !condition_matches(
                            document.metadata@,
                            #[trigger] conditions[k],
                        ),
                decreases conditions.len() - i,
            {
                let nested = &conditions[i];
                assert(decreases_to!(*conditions => conditions[i as int]));
                assert(decreases_to!(*condition => condition->Or_0));
                if matches_condition(document, nested) {
                    return true;
                }
                i += 1;
            }
            false
        },
    }
}

/// Tests whether a document's metadata meets every condition of a filter. A
/// filter without conditions is met by every document.
pub fn matches_filter(document: &Document, filter: &Filter) -> (r: bool)
    ensures
        r == filter_matches(document.metadata@, *filter),
{
    let mut i: usize = 0;
    while i < filter.conditions.len()
        invariant
            i <= filter.conditions.len(),
            forall|k: int|
                0 <= k < i ==> condition_matches(
                    document.metadata@,
                    #[trigger] filter.conditions[k],
                ),
        decreases filter.conditions.len() - i,
    {
        if !matches_condition(document, &filter.conditions[i]) {
            return false;
        }
        i += 1;
    }
    true
}

/// A filter without conditions is met by any metadata.
pub proof fn lemma_empty_filter_matches(metadata: JsonModel, filter: Filter)
    requires
        filter.conditions.len() == 0,
    ensures
        filter_matches(metadata, filter),
{
}

/// An `Equals` condition on a field that the metadata lacks does not hold,
/// and neither does a filter that has it among its conditions.
pub proof fn lemma_equals_on_absent_field(
    metadata: JsonModel,
    filter: Filter,
    i: int,
    field: String,
    value: JsonValue,
)
    requires
        0 <= i < filter.conditions.len(),
        filter.conditions[i] == FilterCondition::Equals(field, value),
        json_get(metadata, field@) is None,
    ensures
        !condition_matches(metadata, FilterCondition::Equals(field, value)),
        !filter_matches(metadata, filter),
{
}

} // verus!
