//! Queries: which documents of a collection to list, in what order, and
//! which page of them.

use crate::error::StoreError;
use crate::filter_type::FilterType;
use crate::json::{items_view, Json, JsonValue};
use crate::sort_type::{in_range, picked, sort_positions, SortType};
use crate::decimal::{count_of, parse_u64};
use vstd::prelude::*;

verus! {

/// What a request carries besides its path: a filter and a sort directive
/// for a listing, a document or a field for a write.
#[derive(Clone, Debug)]
pub struct Data {
    pub filter: Option<FilterType>,
    pub sort: Option<SortType>,
    pub data: Option<Json>,
}

/// The page size where the caller names none.
pub const DEFAULT_LIMIT: usize = 20;

/// The number of documents skipped where the caller names none.
pub const DEFAULT_OFFSET: usize = 0;

/// The documents from `offset` on, `limit` of them at most.
pub open spec fn window<A>(docs: Seq<A>, offset: nat, limit: nat) -> Seq<A> {
    let start = if offset < docs.len() {
        offset
    } else {
        docs.len()
    };
    let end = if start + limit < docs.len() {
        start + limit
    } else {
        docs.len()
    };
    docs.subrange(start as int, end as int)
}

/// The documents that satisfy the filter, in their order; all of them
/// where there is no filter.
pub open spec fn matching(docs: Seq<JsonValue>, filter: Option<FilterType>) -> Seq<JsonValue> {
    match filter {
        Some(f) => docs.filter(|doc: JsonValue| f.holds(doc)),
        None => docs,
    }
}

/// The documents in the order that the directive asks for; as they are
/// where there is none.
pub open spec fn arranged(docs: Seq<JsonValue>, sort: Option<SortType>) -> Seq<JsonValue> {
    match sort {
        Some(s) => s.applied(docs),
        None => docs,
    }
}

/// What a listing returns: the documents are filtered, what is left is
/// sorted, and of that the page is taken.
pub open spec fn listed(
    docs: Seq<JsonValue>,
    filter: Option<FilterType>,
    sort: Option<SortType>,
    offset: nat,
    limit: nat,
) -> Seq<JsonValue> {
    window(arranged(matching(docs, filter), sort), offset, limit)
}

/// Reads a count: decimal digits, one or more, after at most one `+`.
/// Anything else, and a number too large for the machine, is the caller's
/// mistake.
pub fn parse_count(text: &str) -> (parsed: Result<usize, StoreError>)
    ensures
        match parsed {
            Ok(n) => count_of(text@) == Some(n as nat),
            Err(e) => {
                &&& e == StoreError::ClientInput
                &&& match count_of(text@) {
                    Some(n) => n > usize::MAX,
                    None => true,
                }
            },
        },
{
    match parse_u64(text) {
        Some(n) => {
            if n <= usize::MAX as u64 {
                Ok(n as usize)
            } else {
                Err(StoreError::ClientInput)
            }
        },
        None => Err(StoreError::ClientInput),
    }
}

/// The positions of the documents that satisfy the filter, in their order.
pub(crate) fn matching_positions(collection: &Vec<Json>, filter: &Option<FilterType>) -> (positions: Vec<
    usize,
>)
    ensures
        in_range(positions@, collection@.len()),
        picked(items_view(collection@), positions@) == matching(items_view(collection@), *filter),
{
    let ghost docs = items_view(collection@);
    let mut positions: Vec<usize> = Vec::new();
    let mut i: usize = 0;
    while i < collection.len()
        invariant
            i <= collection.len(),
            docs == items_view(collection@),
            in_range(positions@, collection@.len()),
            picked(docs, positions@) == matching(docs.take(i as int), *filter),
        decreases collection.len() - i,
    {
        let keep: bool = match filter {
            Some(f) => f.evaluate(&collection[i]),
            None => true,
        };
        proof {
            reveal_with_fuel(Seq::filter, 2);
            assert(docs.take(i + 1).drop_last() =~= docs.take(i as int));
            assert(docs.take(i + 1).last() == docs[i as int]);
            if keep {
                assert(picked(docs, positions@.push(i)) =~= picked(docs, positions@).push(
                    docs[i as int],
                ));
            }
            if filter is None {
                assert(docs.take(i + 1) =~= docs.take(i as int).push(docs[i as int]));
            }
        }
        if keep {
            positions.push(i);
        }
        i = i + 1;
    }
    proof {
        assert(docs.take(collection.len() as int) =~= docs);
    }
    positions
}

/// Lists documents of a collection: those that satisfy the query's filter,
/// in the order that its sort directive asks for, from `offset` on and
/// `limit` of them at most. The page is taken last, from what filter and
/// sort have left.
pub fn list(collection: &Vec<Json>, query: &Data, offset: usize, limit: usize) -> (page: Vec<Json>)
    ensures
        items_view(page@) == listed(
            items_view(collection@),
            query.filter,
            query.sort,
            offset as nat,
            limit as nat,
        ),
{
    let ghost docs = items_view(collection@);
    let found: Vec<usize> = matching_positions(collection, &query.filter);
    let order: Vec<usize> = match &query.sort {
        Some(sort) => sort_positions(collection, found, sort),
        None => found,
    };
    let ghost all = picked(docs, order@);
    assert(all == arranged(matching(docs, query.filter), query.sort));
    let start: usize = if offset < order.len() {
        offset
    } else {
        order.len()
    };
    let end: usize = if limit < order.len() - start {
        start + limit
    } else {
        order.len()
    };
    let mut page: Vec<Json> = Vec::new();
    let mut j: usize = start;
    while j < end
        invariant
            start <= j <= end <= order.len(),
            docs == items_view(collection@),
            all == picked(docs, order@),
            in_range(order@, collection@.len()),
            items_view(page@) == all.subrange(start as int, j as int),
        decreases end - j,
    {
        let doc = collection[order[j]].clone();
        proof {
            assert(items_view(page@.push(doc)) =~= items_view(page@).push(doc@));
            assert(all.subrange(start as int, j + 1) =~= all.subrange(start as int, j as int).push(
                all[j as int],
            ));
        }
        page.push(doc);
        j = j + 1;
    }
    page
}

/// Lists documents for a request whose page is given as text: `limit`
/// counts the documents to return, 20 where it is missing, and `offset`
/// those to skip, 0 where it is missing. A text that is no count is the
/// caller's mistake, and nothing is listed.
pub fn run_query(
    collection: &Vec<Json>,
    query: &Data,
    limit: Option<&str>,
    offset: Option<&str>,
) -> (page: Result<Vec<Json>, StoreError>)
    ensures
        match page {
            Ok(docs) => {
                &&& page_number(limit, DEFAULT_LIMIT) is Some
                &&& page_number(offset, DEFAULT_OFFSET) is Some
                &&& items_view(docs@) == listed(
                    items_view(collection@),
                    query.filter,
                    query.sort,
                    page_number(offset, DEFAULT_OFFSET).unwrap() as nat,
                    page_number(limit, DEFAULT_LIMIT).unwrap() as nat,
                )
            },
            Err(e) => {
                &&& e == StoreError::ClientInput
                &&& (page_number(limit, DEFAULT_LIMIT) is None || page_number(
                    offset,
                    DEFAULT_OFFSET,
                ) is None)
            },
        },
{
    let limit: usize = match page_param(limit, DEFAULT_LIMIT) {
        Ok(n) => n,
        Err(e) => {
            return Err(e);
        },
    };
    let offset: usize = match page_param(offset, DEFAULT_OFFSET) {
        Ok(n) => n,
        Err(e) => {
            return Err(e);
        },
    };
    Ok(list(collection, query, offset, limit))
}

/// The number that a page parameter stands for: the default where it is
/// missing, its count where it writes one that the machine can hold.
pub open spec fn page_number(param: Option<&str>, default: usize) -> Option<usize> {
    match param {
        Some(text) => match count_of(text@) {
            Some(n) => if n <= usize::MAX {
                Some(n as usize)
            } else {
                None
            },
            None => None,
        },
        None => Some(default),
    }
}

/// Resolves one page parameter.
pub fn page_param(param: Option<&str>, default: usize) -> (resolved: Result<usize, StoreError>)
    ensures
        match resolved {
            Ok(n) => page_number(param, default) == Some(n),
            Err(e) => e == StoreError::ClientInput && page_number(param, default) is None,
        },
{
    match param {
        Some(text) => parse_count(text),
        None => Ok(default),
    }
}

} // verus!
