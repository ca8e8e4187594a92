//! The operations on a stored collection: each takes what is stored, and
//! gives what is to be answered and what is to be stored instead.
//!
//! What is stored but is no collection makes every operation fail with a
//! decode error; nothing is then to be stored, so what is there stays.

use crate::codec::{read_json, stored_docs, Stored};
use crate::crud::{
    create_data, delete_data, lacks_id, max_id, stored_form, update_data, update_report, updated,
    without_id,
};
use crate::data::{
    list, listed, page_number, page_param, Data, DEFAULT_LIMIT, DEFAULT_OFFSET,
};
use crate::error::StoreError;
use crate::json::{items_view, Json};
use vstd::prelude::*;

verus! {

/// The outcome of a write: the collection to store, and the document to
/// answer with.
#[derive(Debug)]
pub struct Written {
    pub collection: Vec<Json>,
    pub document: Json,
}

/// Lists documents of a stored collection. The page parameters are read
/// first: where one is no count the caller's mistake is reported, whatever
/// is stored.
pub fn list_stored(stored: Stored, query: &Data, limit: Option<&str>, offset: Option<&str>) -> (page:
    Result<Vec<Json>, StoreError>)
    ensures
        match (page_number(limit, DEFAULT_LIMIT), page_number(offset, DEFAULT_OFFSET)) {
            (Some(l), Some(o)) => match stored_docs(stored) {
                Some(docs) => page is Ok && items_view(page.unwrap()@) == listed(
                    docs,
                    query.filter,
                    query.sort,
                    o as nat,
                    l as nat,
                ),
                None => page == Err::<Vec<Json>, StoreError>(StoreError::PersistenceDecode),
            },
            _ => page == Err::<Vec<Json>, StoreError>(StoreError::ClientInput),
        },
{
    let limit: usize = match page_param(limit, DEFAULT_LIMIT) {
        Ok(n) => n,
        Err(e) => {
            return Err(e);
        },
    };
    let offset: usize = match page_param(offset, DEFAULT_OFFSET) {
        Ok(n) => n,
        Err(e) => {
            return Err(e);
        },
    };
    match read_json(stored) {
        Ok(collection) => Ok(list(&collection, query, offset, limit)),
        Err(e) => Err(e),
    }
}

/// Adds a document to a stored collection.
pub fn create_stored(stored: Stored, item: Json) -> (written: Result<Written, StoreError>)
    ensures
        match stored_docs(stored) {
            Some(docs) => if lacks_id(item@) && max_id(docs) >= u64::MAX {
                written is Err && written.unwrap_err() == StoreError::IdsExhausted
            } else {
                &&& written is Ok
                &&& written.unwrap().document@ == stored_form(docs, item@)
                &&& items_view(written.unwrap().collection@) == docs.push(stored_form(docs, item@))
            },
            None => written is Err && written.unwrap_err() == StoreError::PersistenceDecode,
        },
{
    match read_json(stored) {
        Ok(collection) => {
            let mut collection = collection;
            match create_data(&mut collection, item) {
                Ok(document) => Ok(Written { collection, document }),
                Err(e) => Err(e),
            }
        },
        Err(e) => Err(e),
    }
}

/// Sets a field in the documents of a stored collection that have the
/// identifier `id`.
pub fn update_stored(stored: Stored, id: u64, key: &str, new_value: Json) -> (written: Result<
    Written,
    StoreError,
>)
    ensures
        match stored_docs(stored) {
            Some(docs) => {
                &&& written is Ok
                &&& written.unwrap().document@ == update_report(docs, id, key@, new_value@)
                &&& items_view(written.unwrap().collection@) == updated(
                    docs,
                    id,
                    key@,
                    new_value@,
                )
            },
            None => written is Err && written.unwrap_err() == StoreError::PersistenceDecode,
        },
{
    match read_json(stored) {
        Ok(collection) => {
            let mut collection = collection;
            let document = update_data(&mut collection, id, key, new_value);
            Ok(Written { collection, document })
        },
        Err(e) => Err(e),
    }
}

/// Removes the documents with identifier `id` from a stored collection and
/// gives the collection to store.
pub fn delete_stored(stored: Stored, id: u64) -> (written: Result<Vec<Json>, StoreError>)
    ensures
        match stored_docs(stored) {
            Some(docs) => written is Ok && items_view(written.unwrap()@) == without_id(docs, id),
            None => written == Err::<Vec<Json>, StoreError>(StoreError::PersistenceDecode),
        },
{
    match read_json(stored) {
        Ok(collection) => {
            let mut collection = collection;
            delete_data(&mut collection, id);
            Ok(collection)
        },
        Err(e) => Err(e),
    }
}

} // verus!
