//! The stored form of a collection: one JSON array of documents.

use crate::error::StoreError;
use crate::json::{items_view, Json, JsonValue};
use vstd::prelude::*;

verus! {

/// What was found where a collection is kept.
#[derive(Debug)]
pub enum Stored {
    /// Nothing: the collection was never stored.
    Absent,
    /// Something that is no JSON text.
    Unreadable,
    /// The JSON value that the stored text holds.
    Value(Json),
}

/// The documents of a stored collection: none for a collection that was
/// never stored, the items of a stored array, and nothing for anything
/// else.
pub open spec fn stored_docs(stored: Stored) -> Option<Seq<JsonValue>> {
    match stored {
        Stored::Absent => Some(Seq::empty()),
        Stored::Value(Json::Array(items)) => Some(items_view(items@)),
        _ => None,
    }
}

/// Reads a collection from what is stored. A collection that was never
/// stored is empty. What is stored but is no JSON array is a decode error:
/// it is never taken for an empty collection.
pub fn read_json(stored: Stored) -> (collection: Result<Vec<Json>, StoreError>)
    ensures
        match collection {
            Ok(docs) => stored_docs(stored) == Some(items_view(docs@)),
            Err(e) => e == StoreError::PersistenceDecode && stored_docs(stored) is None,
        },
        stored matches Stored::Value(Json::Array(items)) ==> collection == Ok::<
            Vec<Json>,
            StoreError,
        >(items),
{
    match stored {
        Stored::Absent => {
            let empty: Vec<Json> = Vec::new();
            assert(items_view(empty@) =~= Seq::<JsonValue>::empty());
            Ok(empty)
        },
        Stored::Value(Json::Array(items)) => Ok(items),
        _ => Err(StoreError::PersistenceDecode),
    }
}

/// The JSON value to store for a collection: the array of its documents.
pub fn write_to_json(collection: Vec<Json>) -> (value: Json)
    ensures
        value == Json::Array(collection),
        value@ == JsonValue::Array(items_view(collection@)),
{
    Json::Array(collection)
}

} // verus!
