//! What holds of create, update and delete taken together.

use crate::crud::{
    has_id, id_key, id_of, id_value, lacks_id, max_id, stored_form, updated, without_id,
};
use crate::data::{arranged, listed, matching, window};
use crate::filter_type::{field_value, FilterType};
use crate::json::JsonValue;
use crate::sort_type::{inserted, lemma_precedes_total, ordered_by, precedes, SortType};
use vstd::prelude::*;
use vstd::seq_lib::{to_multiset_build, to_multiset_contains};

verus! {

/// No document has an identifier above the largest.
pub proof fn lemma_max_id_bounds(docs: Seq<JsonValue>, i: int)
    requires
        0 <= i < docs.len(),
    ensures
        match id_of(docs[i]) {
            Some(id) => id <= max_id(docs),
            None => true,
        },
    decreases docs.len(),
{
    if i < docs.len() - 1 {
        lemma_max_id_bounds(docs.drop_last(), i);
    }
}

/// The largest identifier after one more document: the larger of the
/// largest before and the new one.
pub proof fn lemma_max_id_push(docs: Seq<JsonValue>, doc: JsonValue)
    ensures
        max_id(docs.push(doc)) == match id_of(doc) {
            Some(id) => if id > max_id(docs) {
                id as nat
            } else {
                max_id(docs)
            },
            None => max_id(docs),
        },
{
    assert(docs.push(doc).drop_last() =~= docs);
}

/// A document that was created is in the collection, at its end, with
/// every field that the caller gave it. Where it came without a field `id`
/// it has got one that no document before it has.
pub proof fn lemma_create_then_list(docs: Seq<JsonValue>, item: JsonValue)
    requires
        item is Object,
        lacks_id(item) ==> max_id(docs) < u64::MAX,
    ensures
        ({
            let doc = stored_form(docs, item);
            let after = docs.push(doc);
            &&& after.len() == docs.len() + 1
            &&& after.last() == doc
            &&& after.contains(doc)
            &&& forall|j: int| 0 <= j < docs.len() ==> after[j] == docs[j]
            &&& forall|k: Seq<char>| k != id_key() ==> doc.field(k) == item.field(k)
            &&& !lacks_id(item) ==> doc == item
            &&& lacks_id(item) ==> {
                &&& id_of(doc) == Some((max_id(docs) + 1) as u64)
                &&& forall|j: int| 0 <= j < docs.len() ==> id_of(#[trigger] docs[j]) != id_of(doc)
            }
        }),
{
    let doc = stored_form(docs, item);
    let after = docs.push(doc);
    assert(after[docs.len() as int] == doc);
    if lacks_id(item) {
        assert forall|j: int| 0 <= j < docs.len() implies id_of(#[trigger] docs[j]) != id_of(
            doc,
        ) by {
            lemma_max_id_bounds(docs, j);
        }
    }
}

/// After an update of identifier `id`, a document that had the identifier
/// has the new value in the field and every other field as before; a
/// document that did not have it is as before.
pub proof fn lemma_update_then_read(
    docs: Seq<JsonValue>,
    id: u64,
    key: Seq<char>,
    value: JsonValue,
    i: int,
)
    requires
        0 <= i < docs.len(),
    ensures
        ({
            let after = updated(docs, id, key, value);
            &&& after.len() == docs.len()
            &&& has_id(docs[i], id) ==> {
                &&& after[i].field(key) == Some(value)
                &&& forall|k: Seq<char>| k != key ==> after[i].field(k) == docs[i].field(k)
            }
            &&& !has_id(docs[i], id) ==> after[i] == docs[i]
        }),
{
}

/// An update of an identifier that no document has changes nothing.
pub proof fn lemma_update_of_absent_id(
    docs: Seq<JsonValue>,
    id: u64,
    key: Seq<char>,
    value: JsonValue,
)
    requires
        forall|i: int| 0 <= i < docs.len() ==> !has_id(#[trigger] docs[i], id),
    ensures
        updated(docs, id, key, value) == docs,
{
    assert(updated(docs, id, key, value) =~= docs);
}

/// After a delete of identifier `id` no document has it, and the documents
/// that did not have it are all still there.
pub proof fn lemma_delete_then_list(docs: Seq<JsonValue>, id: u64)
    ensures
        ({
            let after = without_id(docs, id);
            &&& after.len() <= docs.len()
            &&& forall|i: int| 0 <= i < after.len() ==> !has_id(#[trigger] after[i], id)
            &&& forall|i: int|
                0 <= i < docs.len() && !has_id(docs[i], id) ==> after.contains(#[trigger] docs[i])
            &&& forall|i: int| 0 <= i < after.len() ==> docs.contains(#[trigger] after[i])
        }),
{
    let keep = |doc: JsonValue| !has_id(doc, id);
    let after = without_id(docs, id);
    docs.lemma_filter_len(keep);
    assert forall|i: int| 0 <= i < after.len() implies !has_id(#[trigger] after[i], id) by {
        docs.lemma_filter_pred(keep, i);
    }
    assert forall|i: int| 0 <= i < docs.len() && !has_id(docs[i], id) implies after.contains(
        #[trigger] docs[i],
    ) by {
        docs.lemma_filter_contains(keep, i);
    }
    assert forall|i: int| 0 <= i < after.len() implies docs.contains(#[trigger] after[i]) by {
        assert(after.contains(after[i]));
        docs.lemma_filter_contains_rev(keep, after[i]);
    }
}

/// A delete of an identifier that no document has changes nothing.
pub proof fn lemma_delete_of_absent_id(docs: Seq<JsonValue>, id: u64)
    requires
        forall|i: int| 0 <= i < docs.len() ==> !has_id(#[trigger] docs[i], id),
    ensures
        without_id(docs, id) == docs,
    decreases docs.len(),
{
    reveal_with_fuel(Seq::filter, 2);
    if docs.len() > 0 {
        let front = docs.drop_last();
        assert forall|i: int| 0 <= i < front.len() implies !has_id(#[trigger] front[i], id) by {
            assert(front[i] == docs[i]);
        }
        lemma_delete_of_absent_id(front, id);
        assert(!has_id(docs[docs.len() - 1], id));
        assert(front.push(docs.last()) =~= docs);
    } else {
        assert(without_id(docs, id) =~= docs);
    }
}

/// The collection after the documents `items` were created one after the
/// other.
pub open spec fn created_in_turn(docs: Seq<JsonValue>, items: Seq<JsonValue>) -> Seq<JsonValue>
    decreases items.len(),
{
    if items.len() == 0 {
        docs
    } else {
        let before = created_in_turn(docs, items.drop_last());
        before.push(stored_form(before, items.last()))
    }
}

/// Documents created one after the other without identifiers of their own
/// get consecutive identifiers above every one that was there: each is new,
/// and each is larger than the one before. The collection grows by exactly
/// these documents and keeps what it had.
pub proof fn lemma_creates_give_rising_ids(docs: Seq<JsonValue>, items: Seq<JsonValue>)
    requires
        forall|i: int| 0 <= i < items.len() ==> lacks_id(#[trigger] items[i]),
        max_id(docs) + items.len() <= u64::MAX,
    ensures
        ({
            let after = created_in_turn(docs, items);
            &&& after.len() == docs.len() + items.len()
            &&& max_id(after) == max_id(docs) + items.len()
            &&& forall|j: int| 0 <= j < docs.len() ==> after[j] == docs[j]
            &&& forall|i: int|
                0 <= i < items.len() ==> id_of(#[trigger] after[docs.len() + i]) == Some(
                    (max_id(docs) + 1 + i) as u64,
                )
        }),
    decreases items.len(),
{
    if items.len() > 0 {
        let front = items.drop_last();
        let last = items.len() - 1;
        assert forall|i: int| 0 <= i < front.len() implies lacks_id(#[trigger] front[i]) by {
            assert(front[i] == items[i]);
        }
        lemma_creates_give_rising_ids(docs, front);
        let before = created_in_turn(docs, front);
        let doc = stored_form(before, items.last());
        assert(lacks_id(items[last]));
        assert(doc.field(id_key()) == Some(id_value(max_id(before) + 1)));
        lemma_max_id_push(before, doc);
        let after = created_in_turn(docs, items);
        assert(after == before.push(doc));
        assert forall|i: int| 0 <= i < items.len() implies id_of(
            #[trigger] after[docs.len() + i],
        ) == Some((max_id(docs) + 1 + i) as u64) by {
            if i < last {
                assert(after[docs.len() + i] == before[docs.len() + i]);
            }
        }
    }
}

/// Of two documents created in turn without identifiers of their own, the
/// later has the larger identifier.
pub proof fn lemma_created_ids_differ(
    docs: Seq<JsonValue>,
    items: Seq<JsonValue>,
    i: int,
    j: int,
)
    requires
        forall|i: int| 0 <= i < items.len() ==> lacks_id(#[trigger] items[i]),
        max_id(docs) + items.len() <= u64::MAX,
        0 <= i < j < items.len(),
    ensures
        ({
            let after = created_in_turn(docs, items);
            match (id_of(after[docs.len() + i]), id_of(after[docs.len() + j])) {
                (Some(a), Some(b)) => a < b,
                _ => false,
            }
        }),
{
    lemma_creates_give_rising_ids(docs, items);
}

/// A document that lacks the field of a leaf does not satisfy the leaf,
/// whichever leaf it is: a missing field is not "not equal", "not in the
/// set" or "not like".
pub proof fn lemma_missing_field_satisfies_no_leaf(filter: FilterType, row: JsonValue)
    requires
        filter.leaf_key() is Some,
        field_value(row, filter.leaf_key().unwrap()@) is None,
    ensures
        !filter.holds(row),
{
}

/// A filter and its negation part the documents: each satisfies exactly
/// one of the two.
pub proof fn lemma_not_negates(inner: FilterType, row: JsonValue)
    ensures
        (FilterType::Not { inner: Box::new(inner) }).holds(row) == !inner.holds(row),
{
}

/// Whether each document may stand before the next.
pub open spec fn in_order(docs: Seq<JsonValue>, key: JsonValue) -> bool {
    forall|i: int| 0 <= i < docs.len() - 1 ==> precedes(#[trigger] docs[i], docs[i + 1], key)
}

/// Inserting a document into a sorted list adds that document and no
/// other, and leaves the list sorted.
pub proof fn lemma_inserted(sorted: Seq<JsonValue>, doc: JsonValue, key: JsonValue)
    requires
        in_order(sorted, key),
    ensures
        inserted(sorted, doc, key).len() == sorted.len() + 1,
        inserted(sorted, doc, key).to_multiset() == sorted.to_multiset().insert(doc),
        in_order(inserted(sorted, doc, key), key),
        inserted(sorted, doc, key).last() == doc || (sorted.len() > 0 && inserted(
            sorted,
            doc,
            key,
        ).last() == sorted.last()),
    decreases sorted.len(),
{
    let after = inserted(sorted, doc, key);
    if sorted.len() == 0 || precedes(sorted.last(), doc, key) {
        to_multiset_build(sorted, doc);
        assert forall|i: int| 0 <= i < after.len() - 1 implies precedes(
            #[trigger] after[i],
            after[i + 1],
            key,
        ) by {
            if i < sorted.len() - 1 {
                assert(precedes(sorted[i], sorted[i + 1], key));
            }
        }
    } else {
        let front = sorted.drop_last();
        let last = sorted.last();
        assert forall|i: int| 0 <= i < front.len() - 1 implies precedes(
            #[trigger] front[i],
            front[i + 1],
            key,
        ) by {
            assert(precedes(sorted[i], sorted[i + 1], key));
        }
        lemma_inserted(front, doc, key);
        let middle = inserted(front, doc, key);
        to_multiset_build(middle, last);
        assert(front.push(last) =~= sorted);
        to_multiset_build(front, last);
        assert(after.to_multiset() =~= sorted.to_multiset().insert(doc));
        lemma_precedes_total(last, doc, key);
        if front.len() > 0 {
            assert(precedes(sorted[front.len() - 1], sorted[front.len() - 1 + 1], key));
        }
        assert forall|i: int| 0 <= i < after.len() - 1 implies precedes(
            #[trigger] after[i],
            after[i + 1],
            key,
        ) by {
            if i < middle.len() - 1 {
                assert(precedes(middle[i], middle[i + 1], key));
            }
        }
    }
}

/// Sorting by a field gives the same documents, each as often as before,
/// in an order in which each may stand before the next.
pub proof fn lemma_ordered_by(docs: Seq<JsonValue>, key: JsonValue)
    ensures
        ordered_by(docs, key).len() == docs.len(),
        ordered_by(docs, key).to_multiset() == docs.to_multiset(),
        in_order(ordered_by(docs, key), key),
    decreases docs.len(),
{
    if docs.len() > 0 {
        let front = docs.drop_last();
        lemma_ordered_by(front, key);
        lemma_inserted(ordered_by(front, key), docs.last(), key);
        assert(front.push(docs.last()) =~= docs);
        to_multiset_build(front, docs.last());
    }
}

/// A sort directive gives the same documents, each as often as before.
pub proof fn lemma_sort_permutes(docs: Seq<JsonValue>, sort: SortType)
    ensures
        sort.applied(docs).len() == docs.len(),
        forall|doc: JsonValue| sort.applied(docs).contains(doc) <==> docs.contains(doc),
{
    let after = sort.applied(docs);
    match sort {
        SortType::OrderBy { key } => {
            lemma_ordered_by(docs, key@);
            assert forall|doc: JsonValue| after.contains(doc) <==> docs.contains(doc) by {
                to_multiset_contains(after, doc);
                to_multiset_contains(docs, doc);
            }
        },
        SortType::OrderDescending { key } => {
            if key {
                assert forall|doc: JsonValue| after.contains(doc) <==> docs.contains(doc) by {
                    if after.contains(doc) {
                        let i = choose|i: int| 0 <= i < after.len() && after[i] == doc;
                        assert(docs[docs.len() - 1 - i] == doc);
                    }
                    if docs.contains(doc) {
                        let i = choose|i: int| 0 <= i < docs.len() && docs[i] == doc;
                        assert(after[docs.len() - 1 - i] == doc);
                    }
                }
            }
        },
    }
}

/// The number of documents on a page: what is left behind the offset, and
/// no more than the limit.
pub proof fn lemma_window_len<A>(docs: Seq<A>, offset: nat, limit: nat)
    ensures
        window(docs, offset, limit).len() == if offset >= docs.len() {
            0
        } else if docs.len() - offset < limit {
            docs.len() - offset
        } else {
            limit as int
        },
        forall|i: int|
            0 <= i < window(docs, offset, limit).len() ==> #[trigger] window(
                docs,
                offset,
                limit,
            )[i] == docs[offset + i],
{
}

/// A page is taken from the documents that satisfy the filter, not from
/// the collection: every document listed satisfies the filter and is one of
/// the collection, and the page is full as long as enough documents that
/// satisfy the filter are left behind the offset.
pub proof fn lemma_filter_before_page(
    docs: Seq<JsonValue>,
    filter: FilterType,
    sort: Option<SortType>,
    offset: nat,
    limit: nat,
)
    ensures
        ({
            let found = matching(docs, Some(filter));
            let page = listed(docs, Some(filter), sort, offset, limit);
            &&& forall|i: int| 0 <= i < page.len() ==> filter.holds(#[trigger] page[i])
            &&& forall|i: int| 0 <= i < page.len() ==> docs.contains(#[trigger] page[i])
            &&& page.len() == if offset >= found.len() {
                0
            } else if found.len() - offset < limit {
                found.len() - offset
            } else {
                limit as int
            }
        }),
{
    let keep = |doc: JsonValue| filter.holds(doc);
    let found = matching(docs, Some(filter));
    let sorted = arranged(found, sort);
    let page = window(sorted, offset, limit);
    assert(found == docs.filter(keep));
    match sort {
        Some(s) => {
            lemma_sort_permutes(found, s);
        },
        None => {},
    }
    lemma_window_len(sorted, offset, limit);
    assert forall|i: int| 0 <= i < page.len() implies filter.holds(#[trigger] page[i])
        && docs.contains(page[i]) by {
        assert(page[i] == sorted[offset + i]);
        assert(sorted.contains(page[i]));
        assert(found.contains(page[i]));
        let j = choose|j: int| 0 <= j < found.len() && found[j] == page[i];
        docs.lemma_filter_pred(keep, j);
        docs.lemma_filter_contains_rev(keep, page[i]);
    }
}

/// Without filter and sort directive a listing is a page of the collection
/// as it is stored.
pub proof fn lemma_plain_listing(docs: Seq<JsonValue>, offset: nat, limit: nat)
    ensures
        listed(docs, None, None, offset, limit) == window(docs, offset, limit),
{
}

} // verus!
