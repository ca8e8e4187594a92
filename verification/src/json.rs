//! JSON values: the documents of a collection and the literals of a filter.

use crate::number::{Number, NumberValue};
use vstd::prelude::*;

verus! {

/// A JSON value.
///
/// An object is a list of members. Where a key occurs more than once the last
/// member with that key counts, so every list of members is an object.
#[derive(Debug)]
pub enum Json {
    Null,
    Bool(bool),
    Number(Number),
    Text(String),
    Array(Vec<Json>),
    Object(Vec<(String, Json)>),
}

/// What a [`Json`] value stands for. Two values are the same JSON value
/// exactly when their views are equal.
pub enum JsonValue {
    Null,
    Bool(bool),
    Number(NumberValue),
    Text(Seq<char>),
    Array(Seq<JsonValue>),
    Object(Map<Seq<char>, JsonValue>),
}

/// The views of the items of `items`, in order.
pub open spec fn items_view(items: Seq<Json>) -> Seq<JsonValue>
    decreases items, 0nat,
{
    Seq::new(items.len(), |i: int| if 0 <= i < items.len() { json_view(items[i]) } else { JsonValue::Null })
}

/// The object that a list of members stands for: each key with the view of
/// the last member that has it.
pub open spec fn members_view(members: Seq<(String, Json)>) -> Map<Seq<char>, JsonValue>
    decreases members, members.len(),
{
    if members.len() == 0 {
        Map::empty()
    } else {
        members_view(members.drop_last()).insert(
            members.last().0@,
            json_view(members.last().1),
        )
    }
}

/// The view of a value.
pub open spec fn json_view(j: Json) -> JsonValue
    decreases j, 1nat,
{
    match j {
        Json::Null => JsonValue::Null,
        Json::Bool(b) => JsonValue::Bool(b),
        Json::Number(n) => JsonValue::Number(n@),
        Json::Text(s) => JsonValue::Text(s@),
        Json::Array(items) => JsonValue::Array(items_view(items@)),
        Json::Object(members) => JsonValue::Object(members_view(members@)),
    }
}

impl JsonValue {
    /// The value of the field `key`: that of an object which has the key,
    /// and nothing of any other value.
    pub open spec fn field(self, key: Seq<char>) -> Option<JsonValue> {
        match self {
            JsonValue::Object(m) => if m.contains_key(key) {
                Some(m[key])
            } else {
                None
            },
            _ => None,
        }
    }

    /// This value without the field `key`: an object loses the member, any
    /// other value stays as it is.
    pub open spec fn without_field(self, key: Seq<char>) -> JsonValue {
        match self {
            JsonValue::Object(m) => JsonValue::Object(m.remove(key)),
            other => other,
        }
    }

    /// This value with the field `key` set to `value`: an object gets or
    /// replaces the member, any other value stays as it is.
    pub open spec fn with_field(self, key: Seq<char>, value: JsonValue) -> JsonValue {
        match self {
            JsonValue::Object(m) => JsonValue::Object(m.insert(key, value)),
            other => other,
        }
    }
}

impl View for Json {
    type V = JsonValue;

    open spec fn view(&self) -> JsonValue {
        json_view(*self)
    }
}

/// Adding a member at the end puts its key and value into the object.
pub proof fn lemma_members_view_push(members: Seq<(String, Json)>, member: (String, Json))
    ensures
        members_view(members.push(member)) == members_view(members).insert(
            member.0@,
            json_view(member.1),
        ),
{
    assert(members.push(member).drop_last() =~= members);
}

/// The object of the first `i + 1` members is that of the first `i` with
/// member `i` put in.
pub proof fn lemma_members_view_take(members: Seq<(String, Json)>, i: int)
    requires
        0 <= i < members.len(),
    ensures
        members_view(members.take(i + 1)) == members_view(members.take(i)).insert(
            members[i].0@,
            json_view(members[i].1),
        ),
{
    assert(members.take(i + 1).drop_last() =~= members.take(i));
}

/// Whether some member has the key `k`.
pub open spec fn has_key(members: Seq<(String, Json)>, k: Seq<char>) -> bool {
    exists|i: int| 0 <= i < members.len() && (#[trigger] members[i]).0@ == k
}

/// The keys of the object are the keys of the members.
pub proof fn lemma_members_view_keys(members: Seq<(String, Json)>, k: Seq<char>)
    ensures
        members_view(members).contains_key(k) <==> has_key(members, k),
    decreases members.len(),
{
    if members.len() > 0 {
        let front = members.drop_last();
        let last = members.len() - 1;
        lemma_members_view_keys(front, k);
        assert(members_view(members) == members_view(front).insert(
            members.last().0@,
            json_view(members.last().1),
        ));
        if has_key(members, k) {
            let i = choose|i: int| 0 <= i < members.len() && (#[trigger] members[i]).0@ == k;
            if i < last {
                assert(front[i].0@ == k);
            }
        }
        if has_key(front, k) {
            let i = choose|i: int| 0 <= i < front.len() && (#[trigger] front[i]).0@ == k;
            assert(members[i].0@ == k);
        }
        if members[last].0@ == k {
            assert(has_key(members, k));
        }
    }
}

/// Finds the member that gives `key` its value: the last one with that key.
pub fn find_member(members: &Vec<(String, Json)>, key: &String) -> (found: Option<usize>)
    ensures
        match found {
            Some(i) => {
                &&& i < members.len()
                &&& members[i as int].0@ == key@
                &&& members_view(members@).contains_key(key@)
                &&& members_view(members@)[key@] == json_view(members[i as int].1)
                &&& forall|j: int| i < j < members.len() ==> (#[trigger] members[j]).0@ != key@
            },
            None => !members_view(members@).contains_key(key@),
        },
{
    let mut found: Option<usize> = None;
    let mut i: usize = 0;
    while i < members.len()
        invariant
            i <= members.len(),
            match found {
                Some(j) => {
                    &&& j < i
                    &&& members[j as int].0@ == key@
                    &&& members_view(members@.take(i as int)).contains_key(key@)
                    &&& members_view(members@.take(i as int))[key@] == json_view(
                        members[j as int].1,
                    )
                    &&& forall|l: int| j < l < i ==> (#[trigger] members[l]).0@ != key@
                },
                None => !members_view(members@.take(i as int)).contains_key(key@),
            },
        decreases members.len() - i,
    {
        proof {
            lemma_members_view_take(members@, i as int);
        }
        if members[i].0 == *key {
            found = Some(i);
        }
        i = i + 1;
    }
    proof {
        assert(members@.take(members.len() as int) =~= members@);
    }
    found
}

/// Replacing the value of the last member that has a key sets that key in
/// the object.
pub proof fn lemma_members_view_update(
    members: Seq<(String, Json)>,
    i: int,
    member: (String, Json),
)
    requires
        0 <= i < members.len(),
        members[i].0@ == member.0@,
        forall|j: int| i < j < members.len() ==> (#[trigger] members[j]).0@ != member.0@,
    ensures
        members_view(members.update(i, member)) == members_view(members).insert(
            member.0@,
            json_view(member.1),
        ),
    decreases members.len(),
{
    let changed = members.update(i, member);
    let front = members.drop_last();
    let last = members.len() - 1;
    if i == last {
        assert(changed.drop_last() =~= front);
        assert(members_view(changed) =~= members_view(members).insert(
            member.0@,
            json_view(member.1),
        ));
    } else {
        assert(changed.drop_last() =~= front.update(i, member));
        assert(forall|j: int| i < j < front.len() ==> (#[trigger] front[j]) == members[j]);
        lemma_members_view_update(front, i, member);
        assert(members[last].0@ != member.0@);
        assert(members_view(changed) =~= members_view(members).insert(
            member.0@,
            json_view(member.1),
        ));
    }
}

/// Sets `key` to `value` among the members: in place where the key is there,
/// at the end where it is not.
pub fn put_member(members: &mut Vec<(String, Json)>, key: String, value: Json)
    ensures
        members_view(final(members)@) == members_view(old(members)@).insert(key@, value@),
        !has_key(old(members)@, key@) ==> final(members)@ == old(members)@.push((key, value)),
        has_key(old(members)@, key@) ==> exists|i: int|
            {
                &&& 0 <= i < old(members)@.len()
                &&& (#[trigger] old(members)@[i]).0@ == key@
                &&& forall|j: int| i < j < old(members)@.len() ==> old(members)@[j].0@ != key@
                &&& final(members)@ == old(members)@.update(i, (key, value))
            },
{
    proof {
        lemma_members_view_keys(members@, key@);
    }
    match find_member(members, &key) {
        Some(i) => {
            proof {
                lemma_members_view_update(members@, i as int, (key, value));
            }
            members.set(i, (key, value));
        },
        None => {
            proof {
                lemma_members_view_push(members@, (key, value));
            }
            members.push((key, value));
        },
    }
}

/// Whether the two lists hold the same values in the same order.
fn same_items(a: &Vec<Json>, b: &Vec<Json>) -> (same: bool)
    ensures
        same == (items_view(a@) == items_view(b@)),
    decreases a, 0nat,
{
    if a.len() != b.len() {
        proof {
            assert(items_view(a@).len() != items_view(b@).len());
        }
        return false;
    }
    let mut i: usize = 0;
    while i < a.len()
        invariant
            i <= a.len(),
            a.len() == b.len(),
            forall|j: int| 0 <= j < i ==> json_view(#[trigger] a[j]) == json_view(b[j]),
        decreases a.len() - i,
    {
        if !a[i].same_as(&b[i]) {
            proof {
                assert(items_view(a@)[i as int] == json_view(a[i as int]));
                assert(items_view(b@)[i as int] == json_view(b[i as int]));
            }
            return false;
        }
        i = i + 1;
    }
    proof {
        assert(items_view(a@) =~= items_view(b@));
    }
    true
}

/// Whether the two lists of members stand for the same object.
fn same_members(a: &Vec<(String, Json)>, b: &Vec<(String, Json)>) -> (same: bool)
    ensures
        same == (members_view(a@) == members_view(b@)),
    decreases a, 0nat,
{
    let ghost ma = members_view(a@);
    let ghost mb = members_view(b@);
    let mut i: usize = 0;
    while i < a.len()
        invariant
            i <= a.len(),
            ma == members_view(a@),
            mb == members_view(b@),
            forall|j: int|
                0 <= j < i ==> mb.contains_key((#[trigger] a[j]).0@) && ma[a[j].0@] == mb[a[j].0@],
        decreases a.len() - i,
    {
        let key = &a[i].0;
        proof {
            lemma_members_view_keys(a@, key@);
            assert(a@[i as int].0@ == key@);
        }
        match (find_member(a, key), find_member(b, key)) {
            (Some(ia), Some(ib)) => {
                if !a[ia].1.same_as(&b[ib].1) {
                    assert(ma[key@] != mb[key@]);
                    return false;
                }
            },
            _ => {
                assert(ma.contains_key(key@) && !mb.contains_key(key@));
                return false;
            },
        }
        i = i + 1;
    }
    let mut i: usize = 0;
    while i < b.len()
        invariant
            i <= b.len(),
            ma == members_view(a@),
            mb == members_view(b@),
            forall|j: int| 0 <= j < i ==> ma.contains_key((#[trigger] b[j]).0@),
        decreases b.len() - i,
    {
        if find_member(a, &b[i].0).is_none() {
            proof {
                lemma_members_view_keys(b@, b[i as int].0@);
                assert(b@[i as int].0@ == b[i as int].0@);
                assert(mb.contains_key(b[i as int].0@));
            }
            return false;
        }
        i = i + 1;
    }
    proof {
        assert forall|k: Seq<char>| ma.contains_key(k) <==> mb.contains_key(k) by {
            lemma_members_view_keys(a@, k);
            lemma_members_view_keys(b@, k);
        }
        assert forall|k: Seq<char>| ma.contains_key(k) implies ma[k] == mb[k] by {
            lemma_members_view_keys(a@, k);
        }
        assert(ma =~= mb);
    }
    true
}

/// A copy of each item.
fn clone_items(items: &Vec<Json>) -> (copy: Vec<Json>)
    ensures
        items_view(copy@) == items_view(items@),
    decreases items, 0nat,
{
    let mut copy: Vec<Json> = Vec::new();
    let mut i: usize = 0;
    while i < items.len()
        invariant
            i <= items.len(),
            copy.len() == i,
            forall|j: int| 0 <= j < i ==> json_view(#[trigger] copy[j]) == json_view(items[j]),
        decreases items.len() - i,
    {
        let item = items[i].clone();
        copy.push(item);
        i = i + 1;
    }
    proof {
        assert(items_view(copy@) =~= items_view(items@));
    }
    copy
}

/// A copy of each member.
fn clone_members(members: &Vec<(String, Json)>) -> (copy: Vec<(String, Json)>)
    ensures
        members_view(copy@) == members_view(members@),
    decreases members, 0nat,
{
    let mut copy: Vec<(String, Json)> = Vec::new();
    let mut i: usize = 0;
    while i < members.len()
        invariant
            i <= members.len(),
            members_view(copy@) == members_view(members@.take(i as int)),
        decreases members.len() - i,
    {
        let key = members[i].0.clone();
        let value = members[i].1.clone();
        proof {
            lemma_members_view_take(members@, i as int);
            lemma_members_view_push(copy@, (key, value));
        }
        copy.push((key, value));
        i = i + 1;
    }
    proof {
        assert(members@.take(members.len() as int) =~= members@);
    }
    copy
}

impl Json {
    /// Whether the two stand for the same JSON value. Arrays are compared
    /// item by item, objects key by key, numbers as [`Number::same_as`] does;
    /// nothing is coerced.
    pub fn same_as(&self, other: &Json) -> (same: bool)
        ensures
            same == (self@ == other@),
        decreases self, 1nat,
    {
        match (self, other) {
            (Json::Null, Json::Null) => true,
            (Json::Bool(a), Json::Bool(b)) => *a == *b,
            (Json::Number(a), Json::Number(b)) => a.same_as(b),
            (Json::Text(a), Json::Text(b)) => *a == *b,
            (Json::Array(a), Json::Array(b)) => same_items(a, b),
            (Json::Object(a), Json::Object(b)) => same_members(a, b),
            _ => false,
        }
    }

    /// The value of the field `key`, where this is an object that has it.
    pub fn get(&self, key: &str) -> (found: Option<&Json>)
        ensures
            match found {
                Some(value) => self@.field(key@) == Some(value@),
                None => self@.field(key@) is None,
            },
    {
        match self {
            Json::Object(members) => {
                let owned = key.to_owned();
                match find_member(members, &owned) {
                    Some(i) => Some(&members[i].1),
                    None => None,
                }
            },
            _ => None,
        }
    }

    /// Sets the field `key` of an object to `value`; leaves any other value
    /// as it is.
    pub fn set_field(&mut self, key: String, value: Json)
        ensures
            final(self)@ == old(self)@.with_field(key@, value@),
    {
        match self {
            Json::Object(members) => {
                put_member(members, key, value);
            },
            _ => {},
        }
    }

    /// The number, where this is a whole number from zero up.
    pub fn as_u64(&self) -> (n: Option<u64>)
        ensures
            n == match self@ {
                JsonValue::Number(NumberValue::Whole(v)) if 0 <= v <= u64::MAX => Some(v as u64),
                _ => None,
            },
    {
        match self {
            Json::Number(Number::Unsigned(v)) => Some(*v),
            Json::Number(Number::Negative(v)) => if *v >= 0 {
                Some(*v as u64)
            } else {
                None
            },
            _ => None,
        }
    }

    /// The number, where this is a whole number that fits 64 bits with a
    /// sign.
    pub fn as_i64(&self) -> (n: Option<i64>)
        ensures
            n == match self@ {
                JsonValue::Number(NumberValue::Whole(v)) => if i64::MIN <= v <= i64::MAX {
                    Some(v as i64)
                } else {
                    None
                },
                _ => None,
            },
    {
        match self {
            Json::Number(Number::Unsigned(v)) => if *v <= 0x7FFF_FFFF_FFFF_FFFF {
                Some(*v as i64)
            } else {
                None
            },
            Json::Number(Number::Negative(v)) => Some(*v),
            _ => None,
        }
    }

    /// A copy without the field `key`: an object loses the member, any
    /// other value is copied as it is.
    pub fn without_field(&self, key: &str) -> (rest: Json)
        ensures
            rest@ == self@.without_field(key@),
    {
        match self {
            Json::Object(members) => {
                let owned = key.to_owned();
                let mut kept: Vec<(String, Json)> = Vec::new();
                let mut i: usize = 0;
                while i < members.len()
                    invariant
                        i <= members.len(),
                        owned@ == key@,
                        members_view(kept@) == members_view(members@.take(i as int)).remove(key@),
                    decreases members.len() - i,
                {
                    proof {
                        lemma_members_view_take(members@, i as int);
                    }
                    if members[i].0 != owned {
                        let name = members[i].0.clone();
                        let value = members[i].1.clone();
                        proof {
                            lemma_members_view_push(kept@, (name, value));
                            assert(members_view(kept@.push((name, value))) =~= members_view(
                                members@.take(i + 1),
                            ).remove(key@));
                        }
                        kept.push((name, value));
                    } else {
                        proof {
                            assert(members_view(kept@) =~= members_view(
                                members@.take(i + 1),
                            ).remove(key@));
                        }
                    }
                    i = i + 1;
                }
                proof {
                    assert(members@.take(members.len() as int) =~= members@);
                }
                Json::Object(kept)
            },
            other => other.clone(),
        }
    }

    /// The text, where this is text.
    pub fn as_text(&self) -> (text: Option<&String>)
        ensures
            match text {
                Some(s) => self@ == JsonValue::Text(s@),
                None => !(self@ is Text),
            },
    {
        match self {
            Json::Text(s) => Some(s),
            _ => None,
        }
    }
}

impl Clone for Json {
    /// A copy that stands for the same value.
    fn clone(&self) -> (copy: Json)
        ensures
            copy@ == self@,
        decreases self, 1nat,
    {
        match self {
            Json::Null => Json::Null,
            Json::Bool(b) => Json::Bool(*b),
            Json::Number(n) => Json::Number(*n),
            Json::Text(s) => Json::Text(s.clone()),
            Json::Array(items) => Json::Array(clone_items(items)),
            Json::Object(members) => Json::Object(clone_members(members)),
        }
    }
}

} // verus!
