use aginisi::crud::{
    create_data, delete_data, document_has_id, document_id, next_id, update_data,
};
use aginisi::error::StoreError;
use aginisi::json::Json;
use aginisi::number::Number;

fn c_text(s: &str) -> Json {
    Json::Text(s.to_string())
}

fn c_whole(n: u64) -> Json {
    Json::Number(Number::Unsigned(n))
}

fn c_object(members: &[(&str, Json)]) -> Json {
    Json::Object(members.iter().map(|(k, v)| (k.to_string(), v.clone())).collect())
}

fn c_named(name: &str) -> Json {
    c_object(&[("name", c_text(name))])
}

fn c_stored(id: u64, name: &str, age: u64) -> Json {
    c_object(&[("id", c_whole(id)), ("name", c_text(name)), ("age", c_whole(age))])
}

fn c_ids(collection: &[Json]) -> Vec<Option<u64>> {
    collection.iter().map(document_id).collect()
}

#[test]
fn create_then_list_round_trip() {
    let mut collection: Vec<Json> = vec![];
    let created = create_data(&mut collection, c_named("Alice")).unwrap();
    assert_eq!(created.get("name"), Some(&c_text("Alice")));
    assert_eq!(created.get("id"), Some(&c_whole(1)));
    assert_eq!(collection.len(), 1);
    assert_eq!(collection[0], created);
    assert_eq!(collection[0], c_object(&[("name", c_text("Alice")), ("id", c_whole(1))]));
}

#[test]
fn create_assigns_one_more_than_the_largest_id() {
    let mut collection = vec![c_stored(3, "a", 1), c_stored(7, "b", 2), c_stored(5, "c", 3)];
    let created = create_data(&mut collection, c_named("d")).unwrap();
    assert_eq!(document_id(&created), Some(8));
    assert_eq!(c_ids(&collection), vec![Some(3), Some(7), Some(5), Some(8)]);
}

#[test]
fn create_keeps_an_id_that_the_caller_supplied() {
    let mut collection = vec![c_stored(3, "a", 1)];
    let item = c_stored(3, "again", 2);
    let created = create_data(&mut collection, item.clone()).unwrap();
    assert_eq!(created, item);
    assert_eq!(c_ids(&collection), vec![Some(3), Some(3)]);
    let odd = c_object(&[("id", c_text("seven"))]);
    let created = create_data(&mut collection, odd.clone()).unwrap();
    assert_eq!(created, odd);
    assert_eq!(collection.len(), 3);
}

#[test]
fn create_stores_what_is_no_object_as_it_is() {
    let mut collection = vec![c_stored(3, "a", 1)];
    let created = create_data(&mut collection, c_text("loose")).unwrap();
    assert_eq!(created, c_text("loose"));
    assert_eq!(collection.len(), 2);
    assert_eq!(collection[1], c_text("loose"));
}

#[test]
fn sequential_creates_give_distinct_rising_ids() {
    let mut collection = vec![c_stored(10, "first", 1)];
    let mut ids = vec![];
    for i in 0..25u64 {
        let created = create_data(&mut collection, c_named(&format!("doc{i}"))).unwrap();
        ids.push(document_id(&created).unwrap());
    }
    assert_eq!(ids, (11..36).collect::<Vec<u64>>());
    assert_eq!(collection.len(), 26);
    for pair in ids.windows(2) {
        assert!(pair[0] < pair[1]);
    }
}

#[test]
fn create_fails_where_no_id_is_left() {
    let mut collection = vec![c_stored(u64::MAX, "last", 1)];
    let before = collection.clone();
    assert_eq!(create_data(&mut collection, c_named("more")), Err(StoreError::IdsExhausted));
    assert_eq!(collection, before);
    // a supplied id still goes in
    assert!(create_data(&mut collection, c_stored(4, "ok", 1)).is_ok());
    assert_eq!(collection.len(), 2);
}

#[test]
fn next_id_is_one_for_a_collection_without_ids() {
    assert_eq!(next_id(&vec![]), Some(1));
    assert_eq!(next_id(&vec![c_named("a"), c_text("x"), Json::Null]), Some(1));
}

#[test]
fn next_id_skips_ids_that_are_no_whole_numbers() {
    let collection = vec![
        c_stored(3, "a", 1),
        c_object(&[("id", c_text("99"))]),
        c_object(&[("id", Json::Number(Number::Negative(-50)))]),
        c_object(&[("id", Json::Number(Number::Real(0x4059_0000_0000_0000)))]),
        c_stored(2, "b", 1),
    ];
    assert_eq!(next_id(&collection), Some(4));
    assert_eq!(next_id(&vec![c_stored(u64::MAX, "a", 1)]), None);
    assert_eq!(next_id(&vec![c_stored(u64::MAX - 1, "a", 1)]), Some(u64::MAX));
}

#[test]
fn update_then_read_back() {
    let mut collection = vec![c_stored(1, "Alice", 31), c_stored(3, "Bob", 25), c_stored(4, "Eve", 29)];
    let report = update_data(&mut collection, 3, "name", c_text("John"));
    assert_eq!(report, c_stored(3, "John", 25));
    assert_eq!(collection[1].get("name"), Some(&c_text("John")));
    assert_eq!(collection[1].get("age"), Some(&c_whole(25)));
    assert_eq!(collection[1].get("id"), Some(&c_whole(3)));
    assert_eq!(collection[0], c_stored(1, "Alice", 31));
    assert_eq!(collection[2], c_stored(4, "Eve", 29));
    assert_eq!(collection.len(), 3);
}

#[test]
fn update_adds_a_field_that_was_not_there() {
    let mut collection = vec![c_stored(3, "Bob", 25)];
    let report = update_data(&mut collection, 3, "city", c_text("Oslo"));
    assert_eq!(report.get("city"), Some(&c_text("Oslo")));
    assert_eq!(collection[0].get("city"), Some(&c_text("Oslo")));
    assert_eq!(collection[0].get("name"), Some(&c_text("Bob")));
}

#[test]
fn update_of_a_missing_id_changes_nothing() {
    let mut collection = vec![c_stored(1, "Alice", 31), c_stored(3, "Bob", 25)];
    let before = collection.clone();
    let report = update_data(&mut collection, 9, "name", c_text("John"));
    assert_eq!(report, Json::Object(vec![]));
    assert_eq!(collection, before);
}

#[test]
fn update_reaches_every_document_of_the_id() {
    let mut collection = vec![c_stored(3, "a", 1), c_stored(4, "b", 2), c_stored(3, "c", 3)];
    let report = update_data(&mut collection, 3, "age", c_whole(50));
    assert_eq!(report, c_stored(3, "c", 50));
    assert_eq!(collection[0], c_stored(3, "a", 50));
    assert_eq!(collection[1], c_stored(4, "b", 2));
    assert_eq!(collection[2], c_stored(3, "c", 50));
}

#[test]
fn delete_then_list() {
    let mut collection = vec![c_stored(1, "Alice", 31), c_stored(3, "Bob", 25), c_stored(4, "Eve", 29)];
    delete_data(&mut collection, 3);
    assert_eq!(collection, vec![c_stored(1, "Alice", 31), c_stored(4, "Eve", 29)]);
    assert!(collection.iter().all(|doc| !document_has_id(doc, 3)));
}

#[test]
fn delete_of_a_missing_id_changes_nothing() {
    let mut collection = vec![c_stored(1, "Alice", 31), c_named("loose"), c_text("x")];
    let before = collection.clone();
    delete_data(&mut collection, 3);
    assert_eq!(collection, before);
    let mut empty: Vec<Json> = vec![];
    delete_data(&mut empty, 3);
    assert!(empty.is_empty());
}

#[test]
fn delete_removes_every_document_of_the_id() {
    let mut collection = vec![
        c_stored(3, "a", 1),
        c_stored(3, "b", 2),
        c_stored(4, "c", 3),
        c_stored(3, "d", 4),
    ];
    delete_data(&mut collection, 3);
    assert_eq!(collection, vec![c_stored(4, "c", 3)]);
    delete_data(&mut collection, 4);
    assert!(collection.is_empty());
}

#[test]
fn document_id_reads_whole_numbers_from_zero_up() {
    assert_eq!(document_id(&c_stored(0, "a", 1)), Some(0));
    assert_eq!(document_id(&c_stored(12, "a", 1)), Some(12));
    assert_eq!(document_id(&c_named("a")), None);
    assert_eq!(document_id(&c_object(&[("id", c_text("12"))])), None);
    assert_eq!(document_id(&c_whole(12)), None);
    assert!(document_has_id(&c_stored(12, "a", 1), 12));
    assert!(!document_has_id(&c_stored(12, "a", 1), 13));
    assert!(!document_has_id(&c_named("a"), 0));
}
