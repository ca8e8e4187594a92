//! Create, update and delete on the documents of one collection.
//!
//! A collection is a list of documents in the order in which they were
//! added. A document's identifier is its field `id`, where that is a whole
//! number from zero up.

use crate::error::StoreError;
use crate::json::{items_view, Json, JsonValue};
use crate::number::{Number, NumberValue};
use vstd::prelude::*;

verus! {

/// The name of the identifier field.
pub open spec fn id_key() -> Seq<char> {
    seq!['i', 'd']
}

/// The identifier as a JSON value.
pub open spec fn id_value(id: nat) -> JsonValue {
    JsonValue::Number(NumberValue::Whole(id as int))
}

/// The identifier of a document, where it has one.
pub open spec fn id_of(doc: JsonValue) -> Option<u64> {
    match doc.field(id_key()) {
        Some(JsonValue::Number(NumberValue::Whole(n))) => if 0 <= n <= u64::MAX {
            Some(n as u64)
        } else {
            None
        },
        _ => None,
    }
}

/// Whether the document's identifier is `id`.
pub open spec fn has_id(doc: JsonValue, id: u64) -> bool {
    id_of(doc) == Some(id)
}

/// The largest identifier among the documents, 0 where none has one.
pub open spec fn max_id(docs: Seq<JsonValue>) -> nat
    decreases docs.len(),
{
    if docs.len() == 0 {
        0
    } else {
        let rest = max_id(docs.drop_last());
        match id_of(docs.last()) {
            Some(id) => if id > rest {
                id as nat
            } else {
                rest
            },
            None => rest,
        }
    }
}

/// Whether a new document is to be given an identifier: it is an object
/// and has no field `id`.
pub open spec fn lacks_id(item: JsonValue) -> bool {
    item is Object && item.field(id_key()) is None
}

/// The form in which `item` is stored when it is added to `docs`: with the
/// next free identifier where it is an object without one, else as it is.
pub open spec fn stored_form(docs: Seq<JsonValue>, item: JsonValue) -> JsonValue {
    if lacks_id(item) {
        item.with_field(id_key(), id_value(max_id(docs) + 1))
    } else {
        item
    }
}

/// A document after an update of the documents with identifier `id`.
pub open spec fn updated_doc(doc: JsonValue, id: u64, key: Seq<char>, value: JsonValue) -> JsonValue {
    if has_id(doc, id) {
        doc.with_field(key, value)
    } else {
        doc
    }
}

/// The documents after an update: each one with identifier `id` has its
/// field `key` set to `value`, the others are as before.
pub open spec fn updated(docs: Seq<JsonValue>, id: u64, key: Seq<char>, value: JsonValue) -> Seq<
    JsonValue,
> {
    Seq::new(docs.len(), |i: int| updated_doc(docs[i], id, key, value))
}

/// The last document with identifier `id`.
pub open spec fn last_with_id(docs: Seq<JsonValue>, id: u64) -> Option<JsonValue>
    decreases docs.len(),
{
    if docs.len() == 0 {
        None
    } else if has_id(docs.last(), id) {
        Some(docs.last())
    } else {
        last_with_id(docs.drop_last(), id)
    }
}

/// The object without members.
pub open spec fn empty_object() -> JsonValue {
    JsonValue::Object(Map::empty())
}

/// What an update reports: the last document that had the identifier, as it
/// is after the update, or the empty object where none had it.
pub open spec fn update_report(docs: Seq<JsonValue>, id: u64, key: Seq<char>, value: JsonValue) -> JsonValue {
    match last_with_id(docs, id) {
        Some(doc) => doc.with_field(key, value),
        None => empty_object(),
    }
}

/// The documents that stay when those with identifier `id` are deleted.
pub open spec fn without_id(docs: Seq<JsonValue>, id: u64) -> Seq<JsonValue> {
    docs.filter(|doc: JsonValue| !has_id(doc, id))
}

/// The identifier of a document, where it has one.
pub fn document_id(doc: &Json) -> (id: Option<u64>)
    ensures
        id == id_of(doc@),
{
    proof {
        reveal_strlit("id");
        assert("id"@ =~= id_key());
    }
    match doc.get("id") {
        Some(value) => value.as_u64(),
        None => None,
    }
}

/// The identifier for the next document: one more than the largest in the
/// collection, 1 for a collection without identifiers, and none where the
/// largest identifier is the largest number there is.
pub fn next_id(collection: &Vec<Json>) -> (next: Option<u64>)
    ensures
        next == if max_id(items_view(collection@)) < u64::MAX {
            Some((max_id(items_view(collection@)) + 1) as u64)
        } else {
            None
        },
{
    let ghost docs = items_view(collection@);
    let mut largest: u64 = 0;
    let mut i: usize = 0;
    while i < collection.len()
        invariant
            i <= collection.len(),
            docs == items_view(collection@),
            largest == max_id(docs.take(i as int)),
        decreases collection.len() - i,
    {
        proof {
            assert(docs.take(i + 1).drop_last() =~= docs.take(i as int));
            assert(docs.take(i + 1).last() == collection[i as int]@);
        }
        match document_id(&collection[i]) {
            Some(id) => {
                if id > largest {
                    largest = id;
                }
            },
            None => {},
        }
        i = i + 1;
    }
    proof {
        assert(docs.take(collection.len() as int) =~= docs);
    }
    if largest < u64::MAX {
        Some(largest + 1)
    } else {
        None
    }
}

/// Adds `item` to the end of the collection and returns it as stored. An
/// object without a field `id` is given the next free identifier; an `id`
/// that the caller supplied is kept as it is.
///
/// Fails, and leaves the collection as it is, only where an identifier is
/// needed and none is left.
pub fn create_data(collection: &mut Vec<Json>, item: Json) -> (created: Result<Json, StoreError>)
    ensures
        match created {
            Ok(doc) => {
                &&& !(lacks_id(item@) && max_id(items_view(old(collection)@)) >= u64::MAX)
                &&& doc@ == stored_form(items_view(old(collection)@), item@)
                &&& items_view(final(collection)@) == items_view(old(collection)@).push(doc@)
            },
            Err(e) => {
                &&& e == StoreError::IdsExhausted
                &&& lacks_id(item@)
                &&& max_id(items_view(old(collection)@)) >= u64::MAX
                &&& final(collection)@ == old(collection)@
            },
        },
{
    let mut item = item;
    let needs_id = match &item {
        Json::Object(_) => document_field_missing(&item),
        _ => false,
    };
    if needs_id {
        match next_id(collection) {
            Some(id) => {
                proof {
                    reveal_strlit("id");
                    assert("id"@ =~= id_key());
                }
                item.set_field("id".to_owned(), Json::Number(Number::Unsigned(id)));
            },
            None => {
                return Err(StoreError::IdsExhausted);
            },
        }
    }
    let stored = item.clone();
    collection.push(stored);
    proof {
        assert(items_view(collection@) =~= items_view(old(collection)@).push(item@));
    }
    Ok(item)
}

/// Whether the document has no field `id`.
fn document_field_missing(doc: &Json) -> (missing: bool)
    ensures
        missing == (doc@.field(id_key()) is None),
{
    proof {
        reveal_strlit("id");
        assert("id"@ =~= id_key());
    }
    doc.get("id").is_none()
}

/// Whether the document's identifier is `id`.
pub fn document_has_id(doc: &Json, id: u64) -> (has: bool)
    ensures
        has == has_id(doc@, id),
{
    match document_id(doc) {
        Some(found) => found == id,
        None => false,
    }
}

/// Sets the field `key` to `new_value` in every document whose identifier
/// is `id`, and returns the last of them as it then is. Where no document
/// has the identifier nothing changes and the empty object is returned.
pub fn update_data(collection: &mut Vec<Json>, id: u64, key: &str, new_value: Json) -> (report:
    Json)
    ensures
        items_view(final(collection)@) == updated(
            items_view(old(collection)@),
            id,
            key@,
            new_value@,
        ),
        report@ == update_report(items_view(old(collection)@), id, key@, new_value@),
{
    let ghost before = items_view(collection@);
    let mut report = Json::Object(Vec::new());
    let mut i: usize = 0;
    while i < collection.len()
        invariant
            i <= collection.len(),
            collection.len() == before.len(),
            forall|j: int|
                0 <= j < i ==> (#[trigger] collection[j])@ == updated_doc(
                    before[j],
                    id,
                    key@,
                    new_value@,
                ),
            forall|j: int| i <= j < collection.len() ==> (#[trigger] collection[j])@ == before[j],
            report@ == update_report(before.take(i as int), id, key@, new_value@),
        decreases collection.len() - i,
    {
        proof {
            assert(before.take(i + 1).drop_last() =~= before.take(i as int));
            assert(before.take(i + 1).last() == before[i as int]);
        }
        if document_has_id(&collection[i], id) {
            let mut doc = collection[i].clone();
            doc.set_field(key.to_owned(), new_value.clone());
            report = doc.clone();
            collection.set(i, doc);
        }
        i = i + 1;
    }
    proof {
        assert(before.take(collection.len() as int) =~= before);
        assert(items_view(collection@) =~= updated(before, id, key@, new_value@));
    }
    report
}

/// Removes every document whose identifier is `id`; the others stay in
/// their order. Where none has the identifier nothing changes.
pub fn delete_data(collection: &mut Vec<Json>, id: u64)
    ensures
        items_view(final(collection)@) == without_id(items_view(old(collection)@), id),
{
    let ghost before = items_view(collection@);
    let ghost keep = |doc: JsonValue| !has_id(doc, id);
    let ghost mut done: int = 0;
    let mut i: usize = 0;
    while i < collection.len()
        invariant
            i <= collection.len(),
            0 <= done <= before.len(),
            collection.len() - i == before.len() - done,
            keep == (|doc: JsonValue| !has_id(doc, id)),
            items_view(collection@).take(i as int) == before.take(done).filter(keep),
            items_view(collection@).skip(i as int) == before.skip(done),
        decreases collection.len() - i,
    {
        let ghost current = items_view(collection@);
        proof {
            reveal_with_fuel(Seq::filter, 2);
            assert(before.take(done + 1).drop_last() =~= before.take(done));
            assert(before.take(done + 1).last() == before[done]);
            assert(current.skip(i as int)[0] == before.skip(done)[0]);
            assert(current[i as int] == before[done]);
        }
        if document_has_id(&collection[i], id) {
            collection.remove(i);
            proof {
                assert(items_view(collection@).take(i as int) =~= current.take(i as int));
                assert(items_view(collection@).skip(i as int) =~= current.skip(i as int).skip(1));
                assert(before.skip(done).skip(1) =~= before.skip(done + 1));
            }
        } else {
            proof {
                assert(current.take(i + 1) =~= current.take(i as int).push(current[i as int]));
                assert(current.skip(i + 1) =~= current.skip(i as int).skip(1));
                assert(before.skip(done).skip(1) =~= before.skip(done + 1));
            }
            i = i + 1;
        }
        proof {
            done = done + 1;
        }
    }
    proof {
        assert(items_view(collection@).take(i as int) =~= items_view(collection@));
        assert(before.take(done) =~= before);
    }
}

} // verus!
