use aginisi::filter_type::FilterType;
use aginisi::json::Json;
use aginisi::number::Number;

fn text(s: &str) -> Json {
    Json::Text(s.to_string())
}

fn whole(n: u64) -> Json {
    Json::Number(Number::Unsigned(n))
}

fn person(name: &str, age: u64) -> Json {
    Json::Object(vec![
        ("name".to_string(), text(name)),
        ("age".to_string(), whole(age)),
    ])
}

fn people() -> Vec<Json> {
    vec![person("Alice", 31), person("Bob", 25), person("Alice", 29)]
}

#[test]
fn test_equal() {
    let data = people();
    let filter = FilterType::Equals {
        key: text("name"),
        value: text("Bob"),
    };
    let filtered: Vec<_> = data
        .into_iter()
        .filter(|row| filter.evaluate(row))
        .collect();

    assert_eq!(filtered.len(), 1);
}

#[test]
fn test_and() {
    let data = people();
    let filter = FilterType::And {
        left: Box::new(FilterType::Equals {
            key: text("name"),
            value: text("Alice"),
        }),
        right: Box::new(FilterType::GreaterThan {
            key: text("age"),
            value: whole(19),
        }),
    };

    let filtered: Vec<_> = data
        .into_iter()
        .filter(|row| filter.evaluate(row))
        .collect();

    assert_eq!(filtered.len(), 2);
}

fn float(f: f64) -> Json {
    Json::Number(Number::Real(f.to_bits()))
}

fn matching(filter: &FilterType, rows: &[Json]) -> Vec<usize> {
    (0..rows.len()).filter(|i| filter.evaluate(&rows[*i])).collect()
}

fn leaf(kind: &str, key: Json, value: Json) -> FilterType {
    match kind {
        "eq" => FilterType::Equals { key, value },
        "ne" => FilterType::NotEquals { key, value },
        "gt" => FilterType::GreaterThan { key, value },
        "ge" => FilterType::GreaterThanOrEqualsTo { key, value },
        "lt" => FilterType::LessThanThan { key, value },
        "le" => FilterType::LessThanThanOrEqualsTo { key, value },
        "in" => FilterType::InSet { key, value },
        "not_in" => FilterType::NotInSet { key, value },
        "like" => FilterType::Like { key, pattern: value },
        "not_like" => FilterType::NotLike { key, pattern: value },
        _ => unreachable!(),
    }
}

#[test]
fn equals_finds_exactly_the_bob_row() {
    let rows = people();
    let filter = leaf("eq", text("name"), text("Bob"));
    assert_eq!(matching(&filter, &rows), vec![1]);
}

#[test]
fn and_of_name_and_age_finds_both_alice_rows() {
    let rows = people();
    let filter = FilterType::And {
        left: Box::new(leaf("eq", text("name"), text("Alice"))),
        right: Box::new(leaf("gt", text("age"), whole(19))),
    };
    assert_eq!(matching(&filter, &rows), vec![0, 2]);
}

#[test]
fn not_equals_is_false_of_a_row_without_the_field() {
    let row = Json::Object(vec![("age".to_string(), whole(40))]);
    let filter = leaf("ne", text("name"), text("Carol"));
    assert!(!filter.evaluate(&row));
    assert!(filter.evaluate(&person("Alice", 40)));
    assert!(!filter.evaluate(&person("Carol", 40)));
}

#[test]
fn every_leaf_is_false_of_a_row_without_the_field() {
    let row = Json::Object(vec![("other".to_string(), whole(1))]);
    let set = Json::Array(vec![whole(1), text("x")]);
    for kind in ["eq", "ne", "gt", "ge", "lt", "le"] {
        assert!(!leaf(kind, text("age"), whole(1)).evaluate(&row), "{kind}");
    }
    for kind in ["in", "not_in"] {
        assert!(!leaf(kind, text("age"), set.clone()).evaluate(&row), "{kind}");
    }
    for kind in ["like", "not_like"] {
        assert!(!leaf(kind, text("age"), text("%")).evaluate(&row), "{kind}");
    }
}

#[test]
fn every_leaf_is_false_where_the_key_is_no_text() {
    let row = person("Alice", 31);
    for kind in ["eq", "ne", "gt", "ge", "lt", "le"] {
        assert!(!leaf(kind, whole(0), whole(31)).evaluate(&row), "{kind}");
        assert!(!leaf(kind, Json::Null, whole(31)).evaluate(&row), "{kind}");
    }
    assert!(!leaf("like", Json::Bool(true), text("%")).evaluate(&row));
}

#[test]
fn every_leaf_is_false_of_a_row_that_is_no_object() {
    for row in [Json::Null, whole(31), text("age"), Json::Array(vec![whole(31)])] {
        for kind in ["eq", "ne", "gt", "ge", "lt", "le"] {
            assert!(!leaf(kind, text("age"), whole(31)).evaluate(&row), "{kind}");
        }
    }
}

#[test]
fn comparisons_order_numbers() {
    let row = person("Alice", 31);
    let cases = [
        ("gt", 30, true), ("gt", 31, false), ("gt", 32, false),
        ("ge", 30, true), ("ge", 31, true), ("ge", 32, false),
        ("lt", 30, false), ("lt", 31, false), ("lt", 32, true),
        ("le", 30, false), ("le", 31, true), ("le", 32, true),
    ];
    for (kind, bound, expected) in cases {
        assert_eq!(leaf(kind, text("age"), whole(bound)).evaluate(&row), expected, "{kind} {bound}");
    }
}

#[test]
fn comparisons_coerce_whole_numbers_and_floats() {
    let row = person("Alice", 31);
    assert!(leaf("gt", text("age"), float(30.5)).evaluate(&row));
    assert!(!leaf("gt", text("age"), float(31.0)).evaluate(&row));
    assert!(leaf("ge", text("age"), float(31.0)).evaluate(&row));
    assert!(leaf("le", text("age"), float(31.0)).evaluate(&row));
    assert!(leaf("lt", text("age"), float(31.5)).evaluate(&row));
    assert!(leaf("gt", text("age"), Json::Number(Number::Negative(-5))).evaluate(&row));
    let measured = Json::Object(vec![("t".to_string(), float(-0.25))]);
    assert!(leaf("lt", text("t"), whole(0)).evaluate(&measured));
    assert!(leaf("gt", text("t"), Json::Number(Number::Negative(-1))).evaluate(&measured));
    // whole numbers beyond 53 bits are compared as the floats they round to
    let big = Json::Object(vec![("n".to_string(), whole((1 << 53) + 1))]);
    assert!(!leaf("gt", text("n"), whole(1 << 53)).evaluate(&big));
    assert!(leaf("ge", text("n"), whole(1 << 53)).evaluate(&big));
    assert!(leaf("le", text("n"), whole(1 << 53)).evaluate(&big));
}

#[test]
fn comparisons_are_false_where_a_side_is_no_number() {
    let row = person("Alice", 31);
    for kind in ["gt", "ge", "lt", "le"] {
        assert!(!leaf(kind, text("age"), text("30")).evaluate(&row), "{kind}");
        assert!(!leaf(kind, text("age"), Json::Null).evaluate(&row), "{kind}");
        assert!(!leaf(kind, text("name"), whole(30)).evaluate(&row), "{kind}");
        assert!(!leaf(kind, text("name"), text("Alice")).evaluate(&row), "{kind}");
    }
}

#[test]
fn equals_does_not_coerce() {
    let row = person("Alice", 31);
    assert!(leaf("eq", text("age"), whole(31)).evaluate(&row));
    assert!(!leaf("eq", text("age"), float(31.0)).evaluate(&row));
    assert!(!leaf("eq", text("age"), text("31")).evaluate(&row));
    assert!(leaf("ne", text("age"), float(31.0)).evaluate(&row));
}

#[test]
fn in_set_looks_for_the_field_among_the_items() {
    let row = person("Alice", 31);
    let names = Json::Array(vec![text("Bob"), text("Alice")]);
    let ages = Json::Array(vec![whole(25), text("31"), float(31.0)]);
    assert!(leaf("in", text("name"), names.clone()).evaluate(&row));
    assert!(!leaf("not_in", text("name"), names).evaluate(&row));
    assert!(!leaf("in", text("age"), ages.clone()).evaluate(&row));
    assert!(leaf("not_in", text("age"), ages).evaluate(&row));
    assert!(!leaf("in", text("name"), Json::Array(vec![])).evaluate(&row));
    assert!(leaf("not_in", text("name"), Json::Array(vec![])).evaluate(&row));
}

#[test]
fn set_predicates_are_false_where_the_literal_is_no_array() {
    let row = person("Alice", 31);
    for literal in [text("Alice"), whole(31), Json::Null, Json::Object(vec![])] {
        assert!(!leaf("in", text("name"), literal.clone()).evaluate(&row));
        assert!(!leaf("not_in", text("name"), literal).evaluate(&row));
    }
}

#[test]
fn like_predicates_match_text_fields() {
    let row = person("Alice", 31);
    assert!(leaf("like", text("name"), text("%lic%")).evaluate(&row));
    assert!(leaf("like", text("name"), text("A_ice")).evaluate(&row));
    assert!(!leaf("like", text("name"), text("alice")).evaluate(&row));
    assert!(!leaf("not_like", text("name"), text("%lic%")).evaluate(&row));
    assert!(leaf("not_like", text("name"), text("alice")).evaluate(&row));
    assert!(!leaf("like", text("name"), text("bob")).evaluate(&person("Bob", 25)));
}

#[test]
fn like_predicates_are_false_where_a_side_is_no_text() {
    let row = person("Alice", 31);
    for kind in ["like", "not_like"] {
        assert!(!leaf(kind, text("age"), text("%")).evaluate(&row), "{kind}");
        assert!(!leaf(kind, text("name"), whole(1)).evaluate(&row), "{kind}");
        assert!(!leaf(kind, text("name"), Json::Null).evaluate(&row), "{kind}");
    }
}

#[test]
fn combinators_combine_their_children() {
    let row = person("Alice", 31);
    let yes = || Box::new(leaf("eq", text("name"), text("Alice")));
    let no = || Box::new(leaf("eq", text("name"), text("Bob")));
    assert!(FilterType::And { left: yes(), right: yes() }.evaluate(&row));
    assert!(!FilterType::And { left: yes(), right: no() }.evaluate(&row));
    assert!(!FilterType::And { left: no(), right: yes() }.evaluate(&row));
    assert!(!FilterType::And { left: no(), right: no() }.evaluate(&row));
    assert!(FilterType::Or { left: yes(), right: yes() }.evaluate(&row));
    assert!(FilterType::Or { left: yes(), right: no() }.evaluate(&row));
    assert!(FilterType::Or { left: no(), right: yes() }.evaluate(&row));
    assert!(!FilterType::Or { left: no(), right: no() }.evaluate(&row));
    assert!(!FilterType::Not { inner: yes() }.evaluate(&row));
    assert!(FilterType::Not { inner: no() }.evaluate(&row));
    // absence is not undone by a negation of the other predicate
    let nameless = Json::Object(vec![]);
    assert!(FilterType::Not { inner: Box::new(leaf("ne", text("name"), text("Carol"))) }
        .evaluate(&nameless));
}

#[test]
fn a_cloned_filter_gives_the_same_verdicts() {
    let filter = FilterType::Or {
        left: Box::new(FilterType::Not { inner: Box::new(leaf("like", text("name"), text("A%"))) }),
        right: Box::new(FilterType::And {
            left: Box::new(leaf("ge", text("age"), whole(30))),
            right: Box::new(leaf("in", text("name"), Json::Array(vec![text("Alice")]))),
        }),
    };
    let copy = filter.clone();
    let rows = people();
    assert_eq!(matching(&copy, &rows), matching(&filter, &rows));
    assert_eq!(matching(&filter, &rows), vec![0, 1]);
}
