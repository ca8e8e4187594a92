use aginisi::json::Json;
use aginisi::number::Number;
use aginisi::data::{list, Data};
use aginisi::sort_type::{doc_precedes, text_before, SortType};

fn s_text(s: &str) -> Json {
    Json::Text(s.to_string())
}

fn s_whole(n: u64) -> Json {
    Json::Number(Number::Unsigned(n))
}

fn s_doc(tag: &str, value: Json) -> Json {
    Json::Object(vec![("tag".to_string(), s_text(tag)), ("v".to_string(), value)])
}

fn s_tags(page: &[Json]) -> String {
    page.iter()
        .map(|doc| doc.get("tag").unwrap().as_text().unwrap().clone())
        .collect::<Vec<String>>()
        .join("")
}

fn s_sorted(collection: &[Json], sort: SortType) -> String {
    let query = Data { filter: None, sort: Some(sort), data: None };
    s_tags(&list(&collection.to_vec(), &query, 0, usize::MAX))
}

fn s_sorted_by_v(collection: &[Json]) -> String {
    s_sorted(collection, SortType::OrderBy { key: s_text("v") })
}

#[test]
fn order_by_sorts_numbers_ascending() {
    let collection = vec![
        s_doc("a", s_whole(31)),
        s_doc("b", s_whole(25)),
        s_doc("c", s_whole(29)),
        s_doc("d", Json::Number(Number::Negative(-2))),
        s_doc("e", Json::Number(Number::Real(26.5f64.to_bits()))),
    ];
    assert_eq!(s_sorted_by_v(&collection), "dbeca");
}

#[test]
fn order_by_is_stable() {
    let collection = vec![
        s_doc("a", s_whole(2)),
        s_doc("b", s_whole(1)),
        s_doc("c", s_whole(2)),
        s_doc("d", s_whole(1)),
        s_doc("e", s_whole(2)),
    ];
    assert_eq!(s_sorted_by_v(&collection), "bdace");
}

#[test]
fn order_by_sorts_text_by_code_point() {
    let collection = vec![
        s_doc("a", s_text("pear")),
        s_doc("b", s_text("apple")),
        s_doc("c", s_text("Pear")),
        s_doc("d", s_text("pea")),
        s_doc("e", s_text("")),
        s_doc("f", s_text("éclair")),
    ];
    assert_eq!(s_sorted_by_v(&collection), "ecbdaf");
}

#[test]
fn order_by_puts_numbers_first_then_text_then_the_rest() {
    let collection = vec![
        s_doc("a", Json::Null),
        s_doc("b", s_text("x")),
        Json::Object(vec![("tag".to_string(), s_text("c"))]),
        s_doc("d", s_whole(5)),
        s_doc("e", Json::Bool(true)),
        s_doc("f", s_text("a")),
        s_doc("g", s_whole(1)),
    ];
    assert_eq!(s_sorted_by_v(&collection), "gdfbace");
}

#[test]
fn order_by_a_key_that_is_no_text_keeps_the_order() {
    let collection = vec![s_doc("a", s_whole(3)), s_doc("b", s_whole(1)), s_doc("c", s_whole(2))];
    assert_eq!(s_sorted(&collection, SortType::OrderBy { key: s_whole(1) }), "abc");
    assert_eq!(s_sorted(&collection, SortType::OrderBy { key: s_text("none") }), "abc");
}

#[test]
fn order_descending_reverses_when_asked() {
    let collection = vec![s_doc("a", s_whole(3)), s_doc("b", s_whole(1)), s_doc("c", s_whole(2))];
    assert_eq!(s_sorted(&collection, SortType::OrderDescending { key: true }), "cba");
    assert_eq!(s_sorted(&collection, SortType::OrderDescending { key: false }), "abc");
    assert_eq!(s_sorted(&[], SortType::OrderDescending { key: true }), "");
}

#[test]
fn sorting_keeps_every_document() {
    let collection = vec![
        s_doc("a", s_whole(3)),
        s_doc("b", s_whole(1)),
        s_doc("c", s_whole(3)),
        s_doc("d", s_whole(0)),
        s_doc("e", s_whole(1)),
    ];
    let mut tags: Vec<char> = s_sorted_by_v(&collection).chars().collect();
    assert_eq!(tags.iter().collect::<String>(), "dbeac");
    tags.sort();
    assert_eq!(tags.iter().collect::<String>(), "abcde");
}

#[test]
fn text_before_compares_like_the_standard_order() {
    let texts = ["", "a", "A", "ab", "abc", "abd", "b", "é", "z", "zz", "日本", "\u{10FFFF}", "a\u{0}"];
    for a in texts {
        for b in texts {
            assert_eq!(text_before(a, b), a <= b, "{a:?} {b:?}");
        }
    }
}

#[test]
fn doc_precedes_orders_by_the_field() {
    let key = s_text("v");
    let one = s_doc("a", s_whole(1));
    let two = s_doc("b", s_whole(2));
    let word = s_doc("c", s_text("w"));
    let none = s_doc("d", Json::Null);
    assert!(doc_precedes(&one, &two, &key));
    assert!(!doc_precedes(&two, &one, &key));
    assert!(doc_precedes(&one, &one, &key));
    assert!(doc_precedes(&two, &word, &key));
    assert!(!doc_precedes(&word, &two, &key));
    assert!(doc_precedes(&word, &none, &key));
    assert!(!doc_precedes(&none, &word, &key));
    assert!(doc_precedes(&none, &none, &key));
}
