//! Which operation a request asks for: decided from its method and path.
//!
//! A path of one segment names a collection; a path of two names a
//! collection and a document in it, by the document's identifier.

use crate::data::Data;
use crate::decimal::{count_of, parse_u64};
use crate::error::StoreError;
use crate::json::{
    find_member, has_key, lemma_members_view_keys, members_view, Json, JsonValue,
};
use crate::sort_type::{
    lemma_text_order_total, lemma_text_order_transitive, text_before, text_precedes,
};
use std::str::Chars;
use vstd::prelude::*;
use vstd::std_specs::iter::IteratorSpec;

verus! {

/// The method of a request.
#[derive(Clone, Copy, Debug, PartialEq, Eq, Structural)]
pub enum Method {
    Get,
    Post,
    Patch,
    Delete,
    Other,
}

/// The operation that a request asks for.
#[derive(Clone, Debug)]
pub enum Route {
    /// List documents of the collection.
    List { collection: String },
    /// Add a document to the collection.
    Create { collection: String },
    /// Set a field of the document `id` of the collection.
    Update { collection: String, id: u64 },
    /// Remove the document `id` from the collection.
    Delete { collection: String, id: u64 },
    /// Nothing; the answer is an empty list.
    EmptyList,
    /// Nothing; the answer is an empty object.
    EmptyObject,
    /// Nothing; the method is not served.
    Forbidden,
}

/// What a [`Route`] stands for.
pub enum RouteValue {
    List(Seq<char>),
    Create(Seq<char>),
    Update(Seq<char>, u64),
    Delete(Seq<char>, u64),
    EmptyList,
    EmptyObject,
    Forbidden,
}

impl View for Route {
    type V = RouteValue;

    open spec fn view(&self) -> RouteValue {
        match *self {
            Route::List { collection } => RouteValue::List(collection@),
            Route::Create { collection } => RouteValue::Create(collection@),
            Route::Update { collection, id } => RouteValue::Update(collection@, id),
            Route::Delete { collection, id } => RouteValue::Delete(collection@, id),
            Route::EmptyList => RouteValue::EmptyList,
            Route::EmptyObject => RouteValue::EmptyObject,
            Route::Forbidden => RouteValue::Forbidden,
        }
    }
}

/// The segments of a path, as far as they are told apart.
pub enum PathShape {
    /// A path without `/`: its one segment.
    One(Seq<char>),
    /// A path with one `/`: what stands before it and what stands behind.
    Two(Seq<char>, Seq<char>),
    /// A path with more than one `/`.
    More,
}

/// What stands before the first `/` of a path; all of a path without one.
pub open spec fn head(path: Seq<char>) -> Seq<char>
    decreases path.len(),
{
    if path.len() == 0 || path[0] == '/' {
        Seq::empty()
    } else {
        seq![path[0]] + head(path.drop_first())
    }
}

/// What stands behind the first `/` of a path, where it has one.
pub open spec fn tail(path: Seq<char>) -> Option<Seq<char>>
    decreases path.len(),
{
    if path.len() == 0 {
        None
    } else if path[0] == '/' {
        Some(path.drop_first())
    } else {
        tail(path.drop_first())
    }
}

/// The segments of a path.
pub open spec fn shape(path: Seq<char>) -> PathShape {
    match tail(path) {
        None => PathShape::One(head(path)),
        Some(rest) => match tail(rest) {
            None => PathShape::Two(head(path), head(rest)),
            Some(_) => PathShape::More,
        },
    }
}

/// The identifier that a path segment writes.
pub open spec fn segment_id(segment: Seq<char>) -> Option<u64> {
    match count_of(segment) {
        Some(n) => if n <= u64::MAX {
            Some(n as u64)
        } else {
            None
        },
        None => None,
    }
}

/// The operation that a method and a path ask for, and nothing where the
/// second segment of an update or delete writes no identifier.
pub open spec fn routed(method: Method, path: Seq<char>) -> Option<RouteValue> {
    match method {
        Method::Get => match shape(path) {
            PathShape::One(name) => Some(RouteValue::List(name)),
            _ => Some(RouteValue::EmptyList),
        },
        Method::Post => match shape(path) {
            PathShape::One(name) => Some(RouteValue::Create(name)),
            _ => Some(RouteValue::EmptyObject),
        },
        Method::Patch => match shape(path) {
            PathShape::Two(name, segment) => match segment_id(segment) {
                Some(id) => Some(RouteValue::Update(name, id)),
                None => None,
            },
            _ => Some(RouteValue::EmptyObject),
        },
        Method::Delete => match shape(path) {
            PathShape::Two(name, segment) => match segment_id(segment) {
                Some(id) => Some(RouteValue::Delete(name, id)),
                None => None,
            },
            _ => Some(RouteValue::EmptyObject),
        },
        Method::Other => Some(RouteValue::Forbidden),
    }
}

/// The segments of a path, as texts.
#[derive(Clone, Debug)]
pub enum PathParts {
    One(String),
    Two(String, String),
    More,
}

impl View for PathParts {
    type V = PathShape;

    open spec fn view(&self) -> PathShape {
        match *self {
            PathParts::One(a) => PathShape::One(a@),
            PathParts::Two(a, b) => PathShape::Two(a@, b@),
            PathParts::More => PathShape::More,
        }
    }
}

/// Splits a path at its `/`.
pub fn split_path(path: &str) -> (parts: PathParts)
    ensures
        parts@ == shape(path@),
{
    let mut chars: Chars<'_> = path.chars();
    let mut first = String::new();
    let mut second = String::new();
    let ghost mut read: int = 0;
    let mut in_first: bool = true;
    proof {
        assert(path@.skip(0) =~= path@);
        assert(first@ + head(path@) =~= head(path@));
    }
    while in_first
        invariant
            0 <= read <= path@.len(),
            chars.remaining() == path@.skip(read),
            in_first ==> head(path@) == first@ + head(path@.skip(read)),
            in_first ==> tail(path@) == tail(path@.skip(read)),
            !in_first ==> head(path@) == first@ && tail(path@) == Some(path@.skip(read)),
        decreases path@.len() - read + if in_first { 1int } else { 0int },
    {
        let ghost left = path@.skip(read);
        match chars.next() {
            None => {
                return PathParts::One(first);
            },
            Some(c) => {
                proof {
                    assert(left.drop_first() =~= path@.skip(read + 1));
                }
                if c == '/' {
                    in_first = false;
                    proof {
                        assert(first@ + Seq::<char>::empty() =~= first@);
                    }
                } else {
                    proof {
                        assert(first@.push(c) + head(left.drop_first()) =~= first@ + head(left));
                    }
                    first.push(c);
                }
                proof {
                    read = read + 1;
                }
            },
        }
    }
    let ghost rest = path@.skip(read);
    let ghost mut seen: int = 0;
    proof {
        assert(rest.skip(0) =~= rest);
        assert(second@ + head(rest) =~= head(rest));
    }
    loop
        invariant
            0 <= seen <= rest.len(),
            head(path@) == first@,
            tail(path@) == Some(rest),
            chars.remaining() == rest.skip(seen),
            head(rest) == second@ + head(rest.skip(seen)),
            tail(rest) == tail(rest.skip(seen)),
        decreases rest.len() - seen,
    {
        let ghost left = rest.skip(seen);
        match chars.next() {
            None => {
                proof {
                    assert(second@ + Seq::<char>::empty() =~= second@);
                }
                return PathParts::Two(first, second);
            },
            Some(c) => {
                proof {
                    assert(left.drop_first() =~= rest.skip(seen + 1));
                }
                if c == '/' {
                    return PathParts::More;
                }
                proof {
                    assert(second@.push(c) + head(left.drop_first()) =~= second@ + head(left));
                    seen = seen + 1;
                }
                second.push(c);
            },
        }
    }
}

/// Decides which operation a request asks for. A second segment that
/// writes no identifier is the caller's mistake.
pub fn route(method: Method, path: &str) -> (decided: Result<Route, StoreError>)
    ensures
        match decided {
            Ok(r) => routed(method, path@) == Some(r@),
            Err(e) => e == StoreError::ClientInput && routed(method, path@) is None,
        },
{
    let parts = split_path(path);
    match method {
        Method::Get => match parts {
            PathParts::One(collection) => Ok(Route::List { collection }),
            _ => Ok(Route::EmptyList),
        },
        Method::Post => match parts {
            PathParts::One(collection) => Ok(Route::Create { collection }),
            _ => Ok(Route::EmptyObject),
        },
        Method::Patch => match parts {
            PathParts::Two(collection, segment) => match parse_u64(segment.as_str()) {
                Some(id) => Ok(Route::Update { collection, id }),
                None => Err(StoreError::ClientInput),
            },
            _ => Ok(Route::EmptyObject),
        },
        Method::Delete => match parts {
            PathParts::Two(collection, segment) => match parse_u64(segment.as_str()) {
                Some(id) => Ok(Route::Delete { collection, id }),
                None => Err(StoreError::ClientInput),
            },
            _ => Ok(Route::EmptyObject),
        },
        Method::Other => Ok(Route::Forbidden),
    }
}

/// Whether `key` is the first key of an object: the one that comes first
/// in text order.
pub open spec fn is_first_key(members: Map<Seq<char>, JsonValue>, key: Seq<char>) -> bool {
    &&& members.contains_key(key)
    &&& forall|other: Seq<char>| members.contains_key(other) ==> text_precedes(key, other)
}

/// The first field of an object: the member whose key comes first in text
/// order. Nothing for an object without members and for any other value.
pub fn first_field(data: &Json) -> (field: Option<(String, Json)>)
    ensures
        match field {
            Some((key, value)) => match data@ {
                JsonValue::Object(members) => is_first_key(members, key@) && members[key@]
                    == value@,
                _ => false,
            },
            None => match data@ {
                JsonValue::Object(members) => forall|key: Seq<char>| !members.contains_key(key),
                _ => true,
            },
        },
{
    match data {
        Json::Object(members) => {
            if members.len() == 0 {
                assert forall|key: Seq<char>| !members_view(members@).contains_key(key) by {
                    lemma_members_view_keys(members@, key);
                }
                return None;
            }
            let mut best: usize = 0;
            let mut i: usize = 1;
            proof {
                lemma_text_order_total(members[0].0@, members[0].0@);
            }
            while i < members.len()
                invariant
                    1 <= i <= members.len(),
                    best < i,
                    forall|j: int|
                        0 <= j < i ==> text_precedes(members[best as int].0@, (#[trigger] members[j]).0@),
                decreases members.len() - i,
            {
                proof {
                    lemma_text_order_total(members[best as int].0@, members[i as int].0@);
                    lemma_text_order_total(members[i as int].0@, members[i as int].0@);
                }
                if !text_before(members[best].0.as_str(), members[i].0.as_str()) {
                    proof {
                        assert forall|j: int| 0 <= j < i implies text_precedes(
                            members[i as int].0@,
                            (#[trigger] members[j]).0@,
                        ) by {
                            lemma_text_order_transitive(
                                members[i as int].0@,
                                members[best as int].0@,
                                members[j].0@,
                            );
                        }
                    }
                    best = i;
                }
                i = i + 1;
            }
            let key = members[best].0.clone();
            proof {
                lemma_members_view_keys(members@, key@);
                assert(members@[best as int].0@ == key@);
                assert forall|other: Seq<char>|
                    members_view(members@).contains_key(other) implies text_precedes(
                    key@,
                    other,
                ) by {
                    lemma_members_view_keys(members@, other);
                    let j = choose|j: int|
                        0 <= j < members@.len() && (#[trigger] members@[j]).0@ == other;
                    assert(text_precedes(members[best as int].0@, members[j].0@));
                }
            }
            match find_member(members, &key) {
                Some(at) => Some((key, members[at].1.clone())),
                None => None,
            }
        },
        _ => None,
    }
}

/// What is to be done for a request.
#[derive(Clone, Debug)]
pub enum Operation {
    /// List documents of the collection.
    List { collection: String },
    /// Add the document to the collection.
    Create { collection: String, document: Json },
    /// Set the field `key` to `value` in the document `id`.
    Update { collection: String, id: u64, key: String, value: Json },
    /// Remove the document `id` from the collection.
    Delete { collection: String, id: u64 },
    /// Answer with an empty list.
    EmptyList,
    /// Answer with an empty object.
    EmptyObject,
    /// Answer that the method is not served.
    Forbidden,
}

/// Decides what is to be done for a request from its method, its path and
/// what it carries. A create without a document and an update without a
/// field do nothing and are answered with an empty object. An update sets
/// the first field of the document that the request carries.
pub fn f_route(method: Method, path: &str, data: Data) -> (decided: Result<Operation, StoreError>)
    ensures
        match decided {
            Ok(Operation::List { collection }) => routed(method, path@) == Some(
                RouteValue::List(collection@),
            ),
            Ok(Operation::Create { collection, document }) => {
                &&& routed(method, path@) == Some(RouteValue::Create(collection@))
                &&& data.data == Some(document)
            },
            Ok(Operation::Update { collection, id, key, value }) => {
                &&& routed(method, path@) == Some(RouteValue::Update(collection@, id))
                &&& match data.data {
                    Some(carried) => match carried@ {
                        JsonValue::Object(members) => is_first_key(members, key@) && members[key@]
                            == value@,
                        _ => false,
                    },
                    None => false,
                }
            },
            Ok(Operation::Delete { collection, id }) => routed(method, path@) == Some(
                RouteValue::Delete(collection@, id),
            ),
            Ok(Operation::EmptyList) => routed(method, path@) == Some(RouteValue::EmptyList),
            Ok(Operation::EmptyObject) => match routed(method, path@) {
                Some(RouteValue::EmptyObject) => true,
                Some(RouteValue::Create(_)) => data.data is None,
                Some(RouteValue::Update(_, _)) => match data.data {
                    Some(carried) => match carried@ {
                        JsonValue::Object(members) => forall|key: Seq<char>|
                            !members.contains_key(key),
                        _ => true,
                    },
                    None => true,
                },
                _ => false,
            },
            Ok(Operation::Forbidden) => routed(method, path@) == Some(RouteValue::Forbidden),
            Err(e) => e == StoreError::ClientInput && routed(method, path@) is None,
        },
{
    match route(method, path) {
        Ok(Route::List { collection }) => Ok(Operation::List { collection }),
        Ok(Route::Create { collection }) => match data.data {
            Some(document) => Ok(Operation::Create { collection, document }),
            None => Ok(Operation::EmptyObject),
        },
        Ok(Route::Update { collection, id }) => match &data.data {
            Some(carried) => match first_field(carried) {
                Some((key, value)) => Ok(Operation::Update { collection, id, key, value }),
                None => Ok(Operation::EmptyObject),
            },
            None => Ok(Operation::EmptyObject),
        },
        Ok(Route::Delete { collection, id }) => Ok(Operation::Delete { collection, id }),
        Ok(Route::EmptyList) => Ok(Operation::EmptyList),
        Ok(Route::EmptyObject) => Ok(Operation::EmptyObject),
        Ok(Route::Forbidden) => Ok(Operation::Forbidden),
        Err(e) => Err(e),
    }
}

} // verus!
