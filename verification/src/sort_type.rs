//! Sort directives and the order they put documents in.
//!
//! `OrderBy` sorts by one field, ascending and stable: documents whose
//! field is a number come first, by the number; then those whose field is
//! text, by the text; then all others, in the order they had.
//! `OrderDescending` asks for the documents last to first.

use crate::filter_type::{field_value, get_field_value};
use crate::json::{items_view, Json, JsonValue};
use std::str::Chars;
use vstd::prelude::*;
use vstd::std_specs::iter::IteratorSpec;

verus! {

/// A sort directive.
#[derive(Clone, Debug)]
#[allow(inconsistent_fields)]
pub enum SortType {
    /// Ascending by the field that `key` names.
    OrderBy { key: Json },
    /// Last to first where `key` is true, as stored where it is false.
    OrderDescending { key: bool },
}

/// Whether the text `a` comes before `b` or equals it, character by
/// character in the order of the characters' code points.
pub open spec fn text_precedes(a: Seq<char>, b: Seq<char>) -> bool
    decreases a.len(),
{
    if a.len() == 0 {
        true
    } else if b.len() == 0 {
        false
    } else if a[0] as u32 != b[0] as u32 {
        (a[0] as u32) < (b[0] as u32)
    } else {
        text_precedes(a.drop_first(), b.drop_first())
    }
}

/// What a document is sorted by.
pub enum SortKey {
    /// The order key of a number.
    Number(int),
    /// A text.
    Text(Seq<char>),
    /// Anything else, and a missing field.
    Other,
}

/// The key that `doc` is sorted by under the field that `key` names.
pub open spec fn sort_key(doc: JsonValue, key: JsonValue) -> SortKey {
    match field_value(doc, key) {
        Some(JsonValue::Number(n)) => SortKey::Number(n.order_key()),
        Some(JsonValue::Text(t)) => SortKey::Text(t),
        _ => SortKey::Other,
    }
}

/// Whether a document with key `a` may stand before one with key `b`.
pub open spec fn key_precedes(a: SortKey, b: SortKey) -> bool {
    match (a, b) {
        (SortKey::Number(x), SortKey::Number(y)) => x <= y,
        (SortKey::Number(_), _) => true,
        (SortKey::Text(_), SortKey::Number(_)) => false,
        (SortKey::Text(x), SortKey::Text(y)) => text_precedes(x, y),
        (SortKey::Text(_), SortKey::Other) => true,
        (SortKey::Other, SortKey::Other) => true,
        (SortKey::Other, _) => false,
    }
}

/// Whether `a` may stand before `b` when sorting by the field `key`.
pub open spec fn precedes(a: JsonValue, b: JsonValue, key: JsonValue) -> bool {
    key_precedes(sort_key(a, key), sort_key(b, key))
}

/// A sorted list with one more document: put behind the last document
/// that may stand before it.
pub open spec fn inserted(sorted: Seq<JsonValue>, doc: JsonValue, key: JsonValue) -> Seq<JsonValue>
    decreases sorted.len(),
{
    if sorted.len() == 0 || precedes(sorted.last(), doc, key) {
        sorted.push(doc)
    } else {
        inserted(sorted.drop_last(), doc, key).push(sorted.last())
    }
}

/// The documents sorted by the field `key`: each in turn inserted into
/// those before it.
pub open spec fn ordered_by(docs: Seq<JsonValue>, key: JsonValue) -> Seq<JsonValue>
    decreases docs.len(),
{
    if docs.len() == 0 {
        docs
    } else {
        inserted(ordered_by(docs.drop_last(), key), docs.last(), key)
    }
}

impl SortType {
    /// The documents in the order that this directive asks for.
    pub open spec fn applied(self, docs: Seq<JsonValue>) -> Seq<JsonValue> {
        match self {
            SortType::OrderBy { key } => ordered_by(docs, key@),
            SortType::OrderDescending { key } => if key {
                docs.reverse()
            } else {
                docs
            },
        }
    }
}

/// The documents at the given positions of a collection.
pub open spec fn picked(docs: Seq<JsonValue>, positions: Seq<usize>) -> Seq<JsonValue> {
    Seq::new(positions.len(), |i: int| docs[positions[i] as int])
}

/// Whether every position is one of the collection.
pub open spec fn in_range(positions: Seq<usize>, len: nat) -> bool {
    forall|i: int| 0 <= i < positions.len() ==> (#[trigger] positions[i]) < len
}

/// Of two texts one comes before the other, or they are equal.
pub proof fn lemma_text_order_total(a: Seq<char>, b: Seq<char>)
    ensures
        text_precedes(a, b) || text_precedes(b, a),
    decreases a.len(),
{
    if a.len() > 0 && b.len() > 0 && a[0] as u32 == b[0] as u32 {
        lemma_text_order_total(a.drop_first(), b.drop_first());
    }
}

/// Text order carries over: what comes before a text comes before all that
/// the text comes before.
pub proof fn lemma_text_order_transitive(a: Seq<char>, b: Seq<char>, c: Seq<char>)
    requires
        text_precedes(a, b),
        text_precedes(b, c),
    ensures
        text_precedes(a, c),
    decreases a.len(),
{
    if a.len() > 0 && a[0] as u32 == b[0] as u32 && b[0] as u32 == c[0] as u32 {
        lemma_text_order_transitive(a.drop_first(), b.drop_first(), c.drop_first());
    }
}

/// Of two documents one may stand before the other.
pub proof fn lemma_precedes_total(a: JsonValue, b: JsonValue, key: JsonValue)
    ensures
        precedes(a, b, key) || precedes(b, a, key),
{
    match (sort_key(a, key), sort_key(b, key)) {
        (SortKey::Text(x), SortKey::Text(y)) => {
            lemma_text_order_total(x, y);
        },
        _ => {},
    }
}

/// Where a document goes in a sorted list: to the place behind which no
/// document may stand before it and before which the nearest one may.
pub proof fn lemma_inserted_at(sorted: Seq<JsonValue>, doc: JsonValue, key: JsonValue, p: int)
    requires
        0 <= p <= sorted.len(),
        p == 0 || precedes(sorted[p - 1], doc, key),
        forall|j: int| p <= j < sorted.len() ==> !precedes(#[trigger] sorted[j], doc, key),
    ensures
        inserted(sorted, doc, key) == sorted.insert(p, doc),
    decreases sorted.len(),
{
    if sorted.len() == 0 {
        assert(sorted.push(doc) =~= sorted.insert(p, doc));
    } else if p == sorted.len() {
        assert(sorted.push(doc) =~= sorted.insert(p, doc));
    } else {
        assert(!precedes(sorted[sorted.len() - 1], doc, key));
        lemma_inserted_at(sorted.drop_last(), doc, key, p);
        assert(sorted.drop_last().insert(p, doc).push(sorted.last()) =~= sorted.insert(p, doc));
    }
}

/// Whether the text `a` comes before `b` or equals it.
pub fn text_before(a: &str, b: &str) -> (before: bool)
    ensures
        before == text_precedes(a@, b@),
{
    let mut left: Chars<'_> = a.chars();
    let mut right: Chars<'_> = b.chars();
    let ghost mut read: int = 0;
    loop
        invariant
            0 <= read <= a@.len(),
            left.remaining() == a@.skip(read),
            text_precedes(a@, b@) == text_precedes(left.remaining(), right.remaining()),
        decreases a@.len() - read,
    {
        match left.next() {
            None => {
                return true;
            },
            Some(x) => match right.next() {
                None => {
                    return false;
                },
                Some(y) => {
                    if x as u32 != y as u32 {
                        return (x as u32) < (y as u32);
                    }
                    proof {
                        assert(a@.skip(read).drop_first() =~= a@.skip(read + 1));
                        read = read + 1;
                    }
                },
            },
        }
    }
}

/// Whether `a` may stand before `b` when sorting by the field `key`.
pub fn doc_precedes(a: &Json, b: &Json, key: &Json) -> (before: bool)
    ensures
        before == precedes(a@, b@, key@),
{
    let of_a = get_field_value(a, key);
    let of_b = get_field_value(b, key);
    match of_a {
        Some(Json::Number(x)) => match of_b {
            Some(Json::Number(y)) => x.order_key() <= y.order_key(),
            _ => true,
        },
        Some(Json::Text(x)) => match of_b {
            Some(Json::Number(_)) => false,
            Some(Json::Text(y)) => text_before(x.as_str(), y.as_str()),
            _ => true,
        },
        _ => match of_b {
            Some(Json::Number(_)) => false,
            Some(Json::Text(_)) => false,
            _ => true,
        },
    }
}

/// The place at which the document at position `c` goes into the sorted
/// positions `order`.
fn insertion_point(collection: &Vec<Json>, order: &Vec<usize>, c: usize, key: &Json) -> (p: usize)
    requires
        in_range(order@, collection@.len()),
        c < collection.len(),
    ensures
        p <= order.len(),
        p == 0 || precedes(collection[order[p - 1] as int]@, collection[c as int]@, key@),
        forall|j: int|
            p <= j < order.len() ==> !precedes(
                collection[#[trigger] order[j] as int]@,
                collection[c as int]@,
                key@,
            ),
{
    let mut p: usize = order.len();
    let mut searching: bool = p > 0;
    while searching
        invariant
            in_range(order@, collection@.len()),
            c < collection.len(),
            p <= order.len(),
            searching ==> p > 0,
            !searching ==> p == 0 || precedes(
                collection[order[p - 1] as int]@,
                collection[c as int]@,
                key@,
            ),
            forall|j: int|
                p <= j < order.len() ==> !precedes(
                    collection[#[trigger] order[j] as int]@,
                    collection[c as int]@,
                    key@,
                ),
        decreases p + if searching { 1nat } else { 0nat },
    {
        let candidate: usize = order[p - 1];
        if doc_precedes(&collection[candidate], &collection[c], key) {
            searching = false;
        } else {
            p = p - 1;
            searching = p > 0;
        }
    }
    p
}

/// Puts the positions of documents of `collection` into the order that the
/// directive asks for.
pub(crate) fn sort_positions(collection: &Vec<Json>, positions: Vec<usize>, sort: &SortType) -> (order:
    Vec<usize>)
    requires
        in_range(positions@, collection@.len()),
    ensures
        in_range(order@, collection@.len()),
        picked(items_view(collection@), order@) == sort.applied(
            picked(items_view(collection@), positions@),
        ),
{
    let ghost docs = items_view(collection@);
    match sort {
        SortType::OrderBy { key } => {
            let mut order: Vec<usize> = Vec::new();
            let mut k: usize = 0;
            while k < positions.len()
                invariant
                    k <= positions.len(),
                    docs == items_view(collection@),
                    in_range(positions@, collection@.len()),
                    in_range(order@, collection@.len()),
                    picked(docs, order@) == ordered_by(
                        picked(docs, positions@.take(k as int)),
                        key@,
                    ),
                decreases positions.len() - k,
            {
                let c: usize = positions[k];
                let p: usize = insertion_point(collection, &order, c, key);
                proof {
                    let sorted = picked(docs, order@);
                    let upto = picked(docs, positions@.take(k + 1));
                    assert(upto.drop_last() =~= picked(docs, positions@.take(k as int)));
                    assert(upto.last() == docs[c as int]);
                    assert(p > 0 ==> sorted[p - 1] == collection[order[p - 1] as int]@);
                    assert forall|j: int| p <= j < sorted.len() implies !precedes(
                        #[trigger] sorted[j],
                        docs[c as int],
                        key@,
                    ) by {
                        assert(sorted[j] == collection[order[j] as int]@);
                    }
                    lemma_inserted_at(sorted, docs[c as int], key@, p as int);
                    assert(picked(docs, order@.insert(p as int, c)) =~= sorted.insert(
                        p as int,
                        docs[c as int],
                    ));
                }
                order.insert(p, c);
                k = k + 1;
            }
            proof {
                assert(positions@.take(positions.len() as int) =~= positions@);
            }
            order
        },
        SortType::OrderDescending { key } => {
            if *key {
                let mut order: Vec<usize> = Vec::new();
                let mut k: usize = positions.len();
                while k > 0
                    invariant
                        k <= positions.len(),
                        order.len() == positions.len() - k,
                        forall|i: int|
                            0 <= i < order.len() ==> #[trigger] order[i] == positions[positions.len()
                                - 1 - i],
                    decreases k,
                {
                    k = k - 1;
                    order.push(positions[k]);
                }
                proof {
                    assert(picked(docs, order@) =~= picked(docs, positions@).reverse());
                }
                order
            } else {
                positions
            }
        },
    }
}

} // verus!
