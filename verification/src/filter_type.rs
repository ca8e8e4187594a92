//! Filter expressions: a tree of predicates over one document.

use crate::json::{items_view, Json, JsonValue};
use crate::like::{like, like_fails, like_matches, not_like};
use vstd::prelude::*;

verus! {

/// A filter expression.
///
/// A leaf names a field by `key`, which has to be text, and compares the
/// document's value of that field with a literal. A document that lacks the
/// field satisfies no leaf, `NotEquals`, `NotInSet` and `NotLike` included.
#[derive(Debug)]
pub enum FilterType {
    /// The field equals `value`.
    Equals { key: Json, value: Json },
    /// The field is there and differs from `value`.
    NotEquals { key: Json, value: Json },
    /// Both are numbers and the field is the greater.
    GreaterThan { key: Json, value: Json },
    /// Both are numbers and the field is not the lesser.
    GreaterThanOrEqualsTo { key: Json, value: Json },
    /// Both are numbers and the field is the lesser.
    LessThanThan { key: Json, value: Json },
    /// Both are numbers and the field is not the greater.
    LessThanThanOrEqualsTo { key: Json, value: Json },
    /// `value` is an array and the field equals one of its items.
    InSet { key: Json, value: Json },
    /// `value` is an array and the field equals none of its items.
    NotInSet { key: Json, value: Json },
    /// Both are text and the field matches the wildcard `pattern`.
    Like { key: Json, pattern: Json },
    /// Both are text and the field does not match the wildcard `pattern`.
    NotLike { key: Json, pattern: Json },
    /// Both sides hold.
    And { left: Box<FilterType>, right: Box<FilterType> },
    /// One side holds, or both.
    Or { left: Box<FilterType>, right: Box<FilterType> },
    /// The inner expression does not hold.
    Not { inner: Box<FilterType> },
}

/// The value that `row` has for the field that `key` names: none where `key`
/// is not text, where `row` is not an object, or where it lacks the field.
pub open spec fn field_value(row: JsonValue, key: JsonValue) -> Option<JsonValue> {
    match key {
        JsonValue::Text(name) => row.field(name),
        _ => None,
    }
}

/// The key by which a number is ordered; none for any other value.
pub open spec fn numeric_key(value: JsonValue) -> Option<int> {
    match value {
        JsonValue::Number(n) => Some(n.order_key()),
        _ => None,
    }
}

/// The order keys of the field and of the literal, where the field is there
/// and both are numbers.
pub open spec fn numeric_pair(row: JsonValue, key: JsonValue, value: JsonValue) -> Option<
    (int, int),
> {
    match field_value(row, key) {
        Some(field) => match (numeric_key(field), numeric_key(value)) {
            (Some(a), Some(b)) => Some((a, b)),
            _ => None,
        },
        None => None,
    }
}

/// Whether the field is there and `value` is an array: what both set
/// predicates ask before they look for the field among the items.
pub open spec fn set_pair(row: JsonValue, key: JsonValue, value: JsonValue) -> Option<
    (JsonValue, Seq<JsonValue>),
> {
    match (field_value(row, key), value) {
        (Some(field), JsonValue::Array(items)) => Some((field, items)),
        _ => None,
    }
}

/// The texts of the field and of the pattern, where the field is there and
/// both are text.
pub open spec fn text_pair(row: JsonValue, key: JsonValue, pattern: JsonValue) -> Option<
    (Seq<char>, Seq<char>),
> {
    match (field_value(row, key), pattern) {
        (Some(JsonValue::Text(field)), JsonValue::Text(p)) => Some((field, p)),
        _ => None,
    }
}

impl FilterType {
    /// The key of a leaf; nothing for `And`, `Or` and `Not`.
    pub open spec fn leaf_key(self) -> Option<Json> {
        match self {
            FilterType::Equals { key, .. } => Some(key),
            FilterType::NotEquals { key, .. } => Some(key),
            FilterType::GreaterThan { key, .. } => Some(key),
            FilterType::GreaterThanOrEqualsTo { key, .. } => Some(key),
            FilterType::LessThanThan { key, .. } => Some(key),
            FilterType::LessThanThanOrEqualsTo { key, .. } => Some(key),
            FilterType::InSet { key, .. } => Some(key),
            FilterType::NotInSet { key, .. } => Some(key),
            FilterType::Like { key, .. } => Some(key),
            FilterType::NotLike { key, .. } => Some(key),
            _ => None,
        }
    }

    /// Whether the document `row` satisfies this expression.
    pub open spec fn holds(self, row: JsonValue) -> bool
        decreases self,
    {
        match self {
            FilterType::Equals { key, value } => field_value(row, key@) == Some(value@),
            FilterType::NotEquals { key, value } => match field_value(row, key@) {
                Some(field) => field != value@,
                None => false,
            },
            FilterType::GreaterThan { key, value } => match numeric_pair(row, key@, value@) {
                Some((a, b)) => a > b,
                None => false,
            },
            FilterType::GreaterThanOrEqualsTo { key, value } => match numeric_pair(
                row,
                key@,
                value@,
            ) {
                Some((a, b)) => a >= b,
                None => false,
            },
            FilterType::LessThanThan { key, value } => match numeric_pair(row, key@, value@) {
                Some((a, b)) => a < b,
                None => false,
            },
            FilterType::LessThanThanOrEqualsTo { key, value } => match numeric_pair(
                row,
                key@,
                value@,
            ) {
                Some((a, b)) => a <= b,
                None => false,
            },
            FilterType::InSet { key, value } => match set_pair(row, key@, value@) {
                Some((field, items)) => items.contains(field),
                None => false,
            },
            FilterType::NotInSet { key, value } => match set_pair(row, key@, value@) {
                Some((field, items)) => !items.contains(field),
                None => false,
            },
            FilterType::Like { key, pattern } => match text_pair(row, key@, pattern@) {
                Some((field, p)) => like_matches(p, field),
                None => false,
            },
            FilterType::NotLike { key, pattern } => match text_pair(row, key@, pattern@) {
                Some((field, p)) => like_fails(p, field),
                None => false,
            },
            FilterType::And { left, right } => left.holds(row) && right.holds(row),
            FilterType::Or { left, right } => left.holds(row) || right.holds(row),
            FilterType::Not { inner } => !inner.holds(row),
        }
    }
}

impl Clone for FilterType {
    /// A copy that the same documents satisfy.
    fn clone(&self) -> (copy: FilterType)
        ensures
            forall|row: JsonValue| copy.holds(row) == self.holds(row),
        decreases self,
    {
        let copy = match self {
            FilterType::Equals { key, value } => FilterType::Equals {
                key: key.clone(),
                value: value.clone(),
            },
            FilterType::NotEquals { key, value } => FilterType::NotEquals {
                key: key.clone(),
                value: value.clone(),
            },
            FilterType::GreaterThan { key, value } => FilterType::GreaterThan {
                key: key.clone(),
                value: value.clone(),
            },
            FilterType::GreaterThanOrEqualsTo { key, value } => FilterType::GreaterThanOrEqualsTo {
                key: key.clone(),
                value: value.clone(),
            },
            FilterType::LessThanThan { key, value } => FilterType::LessThanThan {
                key: key.clone(),
                value: value.clone(),
            },
            FilterType::LessThanThanOrEqualsTo { key, value } => FilterType::LessThanThanOrEqualsTo {
                key: key.clone(),
                value: value.clone(),
            },
            FilterType::InSet { key, value } => FilterType::InSet {
                key: key.clone(),
                value: value.clone(),
            },
            FilterType::NotInSet { key, value } => FilterType::NotInSet {
                key: key.clone(),
                value: value.clone(),
            },
            FilterType::Like { key, pattern } => FilterType::Like {
                key: key.clone(),
                pattern: pattern.clone(),
            },
            FilterType::NotLike { key, pattern } => FilterType::NotLike {
                key: key.clone(),
                pattern: pattern.clone(),
            },
            FilterType::And { left, right } => {
                let l: FilterType = (**left).clone();
                let r: FilterType = (**right).clone();
                let both = FilterType::And { left: Box::new(l), right: Box::new(r) };
                proof {
                    assert forall|row: JsonValue| both.holds(row) == self.holds(row) by {
                        assert(both.holds(row) == (l.holds(row) && r.holds(row)));
                        assert(self.holds(row) == (left.holds(row) && right.holds(row)));
                    }
                }
                both
            },
            FilterType::Or { left, right } => {
                let l: FilterType = (**left).clone();
                let r: FilterType = (**right).clone();
                let either = FilterType::Or { left: Box::new(l), right: Box::new(r) };
                proof {
                    assert forall|row: JsonValue| either.holds(row) == self.holds(row) by {
                        assert(either.holds(row) == (l.holds(row) || r.holds(row)));
                        assert(self.holds(row) == (left.holds(row) || right.holds(row)));
                    }
                }
                either
            },
            FilterType::Not { inner } => {
                let i: FilterType = (**inner).clone();
                let negated = FilterType::Not { inner: Box::new(i) };
                proof {
                    assert forall|row: JsonValue| negated.holds(row) == self.holds(row) by {
                        assert(negated.holds(row) == !i.holds(row));
                        assert(self.holds(row) == !inner.holds(row));
                    }
                }
                negated
            },
        };
        copy
    }
}

/// Reads the field that `key` names from `row`.
pub fn get_field_value<'a>(row: &'a Json, key: &Json) -> (found: Option<&'a Json>)
    ensures
        match found {
            Some(field) => field_value(row@, key@) == Some(field@),
            None => field_value(row@, key@) is None,
        },
{
    match key.as_text() {
        Some(name) => row.get(name.as_str()),
        None => None,
    }
}

/// The order keys of the field and of the literal, where both are numbers.
pub fn numbers_of(row: &Json, key: &Json, value: &Json) -> (pair: Option<(i64, i64)>)
    ensures
        match pair {
            Some((a, b)) => numeric_pair(row@, key@, value@) == Some((a as int, b as int)),
            None => numeric_pair(row@, key@, value@) is None,
        },
{
    match get_field_value(row, key) {
        Some(field) => match (field, value) {
            (Json::Number(a), Json::Number(b)) => Some((a.order_key(), b.order_key())),
            _ => None,
        },
        None => None,
    }
}

/// Whether `field` equals one of `items`.
pub fn contains_value(items: &Vec<Json>, field: &Json) -> (found: bool)
    ensures
        found == items_view(items@).contains(field@),
{
    let mut i: usize = 0;
    while i < items.len()
        invariant
            i <= items.len(),
            forall|j: int| 0 <= j < i ==> items_view(items@)[j] != field@,
        decreases items.len() - i,
    {
        if items[i].same_as(field) {
            assert(items_view(items@)[i as int] == field@);
            return true;
        }
        i = i + 1;
    }
    false
}

impl FilterType {
    /// Whether the document `row` satisfies this expression.
    pub fn evaluate(&self, row: &Json) -> (verdict: bool)
        ensures
            verdict == self.holds(row@),
        decreases self,
    {
        match self {
            FilterType::Equals { key, value } => match get_field_value(row, key) {
                Some(field) => field.same_as(value),
                None => false,
            },
            FilterType::NotEquals { key, value } => match get_field_value(row, key) {
                Some(field) => !field.same_as(value),
                None => false,
            },
            FilterType::GreaterThan { key, value } => match numbers_of(row, key, value) {
                Some((a, b)) => a > b,
                None => false,
            },
            FilterType::GreaterThanOrEqualsTo { key, value } => match numbers_of(row, key, value) {
                Some((a, b)) => a >= b,
                None => false,
            },
            FilterType::LessThanThan { key, value } => match numbers_of(row, key, value) {
                Some((a, b)) => a < b,
                None => false,
            },
            FilterType::LessThanThanOrEqualsTo { key, value } => match numbers_of(row, key, value) {
                Some((a, b)) => a <= b,
                None => false,
            },
            FilterType::InSet { key, value } => match (get_field_value(row, key), value) {
                (Some(field), Json::Array(items)) => contains_value(items, field),
                _ => false,
            },
            FilterType::NotInSet { key, value } => match (get_field_value(row, key), value) {
                (Some(field), Json::Array(items)) => !contains_value(items, field),
                _ => false,
            },
            FilterType::Like { key, pattern } => match (get_field_value(row, key), pattern) {
                (Some(Json::Text(field)), Json::Text(p)) => like(p.as_str(), field.as_str()),
                _ => false,
            },
            FilterType::NotLike { key, pattern } => match (get_field_value(row, key), pattern) {
                (Some(Json::Text(field)), Json::Text(p)) => not_like(p.as_str(), field.as_str()),
                _ => false,
            },
            FilterType::And { left, right } => left.evaluate(row) && right.evaluate(row),
            FilterType::Or { left, right } => left.evaluate(row) || right.evaluate(row),
            FilterType::Not { inner } => !inner.evaluate(row),
        }
    }
}

} // verus!
