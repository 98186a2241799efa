use p_mo::document::Document;
use p_mo::filter::{
    array_contains, compare_bytes, compare_json_values, matches_condition, matches_filter,
    number_double, value_contains_any, value_in_range, Filter, FilterCondition, RangeValue,
};
use p_mo::ieee::{
    compare_doubles, double_is_nan_exec, double_key_exec, doubles_equal, single_is_nan_exec,
    single_key_exec,
};
use p_mo::json::{JsonNumber, JsonValue};

fn text(s: &str) -> JsonValue {
    JsonValue::String(s.to_string())
}

fn whole(n: u64) -> JsonValue {
    JsonValue::Number(JsonNumber::PosInt(n))
}

fn negative(n: i64) -> JsonValue {
    JsonValue::Number(JsonNumber::NegInt(n))
}

fn fraction(x: f64) -> JsonValue {
    JsonValue::Number(JsonNumber::Float(x.to_bits()))
}

fn list(items: Vec<JsonValue>) -> JsonValue {
    JsonValue::Array(items)
}

fn object(entries: Vec<(&str, JsonValue)>) -> JsonValue {
    JsonValue::Object(entries.into_iter().map(|(k, v)| (k.to_string(), v)).collect())
}

fn with_metadata(metadata: JsonValue) -> Document {
    Document { id: None, content: String::new(), embedding: vec![], metadata }
}

fn article() -> Document {
    with_metadata(object(vec![
        ("category", text("article")),
        ("tags", list(vec![text("programming"), text("rust")])),
        ("views", whole(250)),
        ("rating", fraction(4.5)),
        ("draft", JsonValue::Bool(false)),
        ("nothing", JsonValue::Null),
    ]))
}

fn equals(field: &str, value: JsonValue) -> FilterCondition {
    FilterCondition::Equals(field.to_string(), value)
}

fn range(field: &str, min: Option<JsonValue>, max: Option<JsonValue>) -> FilterCondition {
    FilterCondition::Range(field.to_string(), RangeValue { min, max })
}

fn contains(field: &str, values: Vec<JsonValue>) -> FilterCondition {
    FilterCondition::Contains(field.to_string(), values)
}

#[test]
fn empty_filter_matches_any_metadata() {
    let filter = Filter { conditions: vec![] };
    assert!(matches_filter(&article(), &filter));
    assert!(matches_filter(&with_metadata(JsonValue::Null), &filter));
    assert!(matches_filter(&with_metadata(whole(3)), &filter));
    assert!(matches_filter(&with_metadata(list(vec![])), &filter));
}

#[test]
fn equals_on_absent_field_is_false() {
    let d = article();
    assert!(!matches_condition(&d, &equals("missing", text("article"))));
    assert!(!matches_condition(&d, &equals("missing", JsonValue::Null)));
    assert!(!matches_filter(&d, &Filter { conditions: vec![equals("missing", whole(1))] }));
    assert!(!matches_condition(&with_metadata(text("category")), &equals("category", text("x"))));
}

#[test]
fn equals_is_structural() {
    let d = article();
    assert!(matches_condition(&d, &equals("category", text("article"))));
    assert!(!matches_condition(&d, &equals("category", text("blog"))));
    assert!(matches_condition(&d, &equals("views", whole(250))));
    assert!(!matches_condition(&d, &equals("views", fraction(250.0))));
    assert!(matches_condition(&d, &equals("nothing", JsonValue::Null)));
    assert!(matches_condition(&d, &equals("draft", JsonValue::Bool(false))));
    assert!(matches_condition(
        &d,
        &equals("tags", list(vec![text("programming"), text("rust")]))
    ));
    assert!(!matches_condition(
        &d,
        &equals("tags", list(vec![text("rust"), text("programming")]))
    ));
}

#[test]
fn range_on_numbers() {
    let d = article();
    assert!(matches_condition(&d, &range("views", Some(whole(200)), Some(whole(300)))));
    assert!(matches_condition(&d, &range("views", Some(whole(250)), Some(whole(250)))));
    assert!(!matches_condition(&d, &range("views", Some(whole(251)), None)));
    assert!(!matches_condition(&d, &range("views", None, Some(whole(249)))));
    assert!(matches_condition(&d, &range("views", None, None)));
    assert!(matches_condition(&d, &range("views", Some(negative(-5)), Some(fraction(250.5)))));
    assert!(matches_condition(&d, &range("rating", Some(whole(4)), Some(whole(5)))));
    assert!(!matches_condition(&d, &range("rating", Some(fraction(4.6)), None)));
    assert!(!matches_condition(&d, &range("missing", None, None)));
}

#[test]
fn range_on_strings_and_mixed_kinds() {
    let d = article();
    assert!(matches_condition(&d, &range("category", Some(text("a")), Some(text("b")))));
    assert!(!matches_condition(&d, &range("category", Some(text("b")), None)));
    assert!(matches_condition(&d, &range("category", Some(text("article")), Some(text("article")))));
    assert!(matches_condition(&d, &range("category", Some(whole(1000)), Some(whole(0)))));
    assert!(matches_condition(&d, &range("draft", Some(JsonValue::Bool(true)), None)));
}

#[test]
fn contains_means_any() {
    let d = article();
    assert!(matches_condition(&d, &contains("tags", vec![text("programming")])));
    assert!(matches_condition(&d, &contains("tags", vec![text("tutorial"), text("rust")])));
    assert!(!matches_condition(&d, &contains("tags", vec![text("tutorial")])));
    assert!(!matches_condition(&d, &contains("tags", vec![])));
    assert!(matches_condition(&d, &contains("category", vec![text("blog"), text("article")])));
    assert!(!matches_condition(&d, &contains("category", vec![text("blog")])));
    assert!(!matches_condition(&d, &contains("missing", vec![text("blog")])));
}

#[test]
fn or_and_nesting() {
    let d = article();
    let any = FilterCondition::Or(vec![
        equals("category", text("blog")),
        contains("tags", vec![text("rust")]),
    ]);
    assert!(matches_condition(&d, &any));
    let none = FilterCondition::Or(vec![equals("category", text("blog")), equals("x", whole(1))]);
    assert!(!matches_condition(&d, &none));
    assert!(!matches_condition(&d, &FilterCondition::Or(vec![])));
    let nested = FilterCondition::Or(vec![FilterCondition::Or(vec![none]), FilterCondition::Or(vec![any])]);
    assert!(matches_condition(&d, &nested));
    let both = Filter {
        conditions: vec![equals("category", text("article")), range("views", Some(whole(300)), None)],
    };
    assert!(!matches_filter(&d, &both));
    let both = Filter {
        conditions: vec![equals("category", text("article")), range("views", Some(whole(200)), None)],
    };
    assert!(matches_filter(&d, &both));
}

#[test]
fn compare_json_values_by_kind() {
    assert_eq!(compare_json_values(&whole(1), &whole(2)), -1);
    assert_eq!(compare_json_values(&whole(2), &whole(1)), 1);
    assert_eq!(compare_json_values(&whole(2), &fraction(2.0)), 0);
    assert_eq!(compare_json_values(&negative(-3), &whole(0)), -1);
    assert_eq!(compare_json_values(&negative(-3), &fraction(-3.5)), 1);
    assert_eq!(compare_json_values(&fraction(0.0), &fraction(-0.0)), 0);
    assert_eq!(compare_json_values(&whole(u64::MAX), &whole(u64::MAX - 1)), 0);
    assert_eq!(compare_json_values(&whole(1 << 53), &whole((1 << 53) + 2)), -1);
    assert_eq!(compare_json_values(&text("abc"), &text("abd")), -1);
    assert_eq!(compare_json_values(&text("b"), &text("abc")), 1);
    assert_eq!(compare_json_values(&text("ab"), &text("abc")), -1);
    assert_eq!(compare_json_values(&text(""), &text("")), 0);
    assert_eq!(compare_json_values(&text("é"), &text("z")), 1);
    assert_eq!(compare_json_values(&text("1"), &whole(2)), 0);
    assert_eq!(compare_json_values(&JsonValue::Null, &JsonValue::Bool(true)), 0);
    assert_eq!(compare_json_values(&list(vec![whole(1)]), &list(vec![whole(2)])), 0);
}

#[test]
fn number_double_is_the_nearest_double() {
    assert_eq!(number_double(&JsonNumber::PosInt(0)), Some(0.0f64.to_bits()));
    assert_eq!(number_double(&JsonNumber::PosInt(200)), Some(200.0f64.to_bits()));
    assert_eq!(number_double(&JsonNumber::PosInt(u64::MAX)), Some((u64::MAX as f64).to_bits()));
    assert_eq!(number_double(&JsonNumber::NegInt(-7)), Some((-7.0f64).to_bits()));
    assert_eq!(number_double(&JsonNumber::NegInt(i64::MIN)), Some((i64::MIN as f64).to_bits()));
    assert_eq!(number_double(&JsonNumber::NegInt(5)), Some(5.0f64.to_bits()));
    assert_eq!(number_double(&JsonNumber::Float(1.5f64.to_bits())), Some(1.5f64.to_bits()));
}

#[test]
fn compare_bytes_is_lexicographic() {
    assert_eq!(compare_bytes(b"", b""), 0);
    assert_eq!(compare_bytes(b"", b"a"), -1);
    assert_eq!(compare_bytes(b"a", b""), 1);
    assert_eq!(compare_bytes(b"abc", b"abc"), 0);
    assert_eq!(compare_bytes(b"abc", b"abd"), -1);
    assert_eq!(compare_bytes(b"b", b"abcdef"), 1);
    assert_eq!(compare_bytes(&[0xff], &[0x00, 0x01]), 1);
}

#[test]
fn range_and_contains_helpers() {
    let r = RangeValue { min: Some(whole(1)), max: Some(whole(3)) };
    assert!(value_in_range(&whole(1), &r));
    assert!(value_in_range(&whole(3), &r));
    assert!(!value_in_range(&whole(4), &r));
    assert!(!value_in_range(&whole(0), &r));
    assert!(value_in_range(&text("x"), &r));
    let items = vec![whole(1), text("a")];
    assert!(array_contains(&items, &text("a")));
    assert!(!array_contains(&items, &text("b")));
    assert!(!array_contains(&vec![], &text("b")));
    assert!(value_contains_any(&list(items.clone()), &vec![text("z"), whole(1)]));
    assert!(!value_contains_any(&list(items), &vec![text("z")]));
    assert!(value_contains_any(&whole(1), &vec![text("z"), whole(1)]));
    assert!(!value_contains_any(&list(vec![whole(1)]), &vec![list(vec![whole(1)])]));
}

#[test]
fn json_get_and_equality() {
    let o = object(vec![("a", whole(1)), ("b", text("x")), ("a", whole(2))]);
    assert!(o.get(&"a".to_string()).unwrap().equals(&whole(1)));
    assert!(o.get(&"b".to_string()).unwrap().equals(&text("x")));
    assert!(o.get(&"c".to_string()).is_none());
    assert!(whole(1).get(&"a".to_string()).is_none());
    assert!(list(vec![o.clone()]).get(&"a".to_string()).is_none());
    assert!(o.equals(&o.clone()));
    assert!(!o.equals(&object(vec![("a", whole(1)), ("b", text("x"))])));
    assert!(!object(vec![("a", whole(1))]).equals(&object(vec![("b", whole(1))])));
    assert!(!object(vec![("a", whole(1))]).equals(&object(vec![("a", whole(2))])));
    assert!(!list(vec![]).equals(&object(vec![])));
    assert!(list(vec![list(vec![JsonValue::Null])]).equals(&list(vec![list(vec![JsonValue::Null])])));
    assert!(!list(vec![whole(1)]).equals(&list(vec![whole(1), whole(1)])));
    assert!(!JsonValue::Null.equals(&JsonValue::Bool(false)));
    assert!(!text("1").equals(&whole(1)));
}

#[test]
fn json_number_equality() {
    assert!(JsonNumber::PosInt(1).equals(&JsonNumber::PosInt(1)));
    assert!(!JsonNumber::PosInt(1).equals(&JsonNumber::PosInt(2)));
    assert!(!JsonNumber::PosInt(1).equals(&JsonNumber::NegInt(1)));
    assert!(!JsonNumber::PosInt(1).equals(&JsonNumber::Float(1.0f64.to_bits())));
    assert!(JsonNumber::NegInt(-1).equals(&JsonNumber::NegInt(-1)));
    assert!(JsonNumber::Float(0.0f64.to_bits()).equals(&JsonNumber::Float((-0.0f64).to_bits())));
    assert!(!JsonNumber::Float(f64::NAN.to_bits()).equals(&JsonNumber::Float(f64::NAN.to_bits())));
    assert!(JsonNumber::Float(2.5f64.to_bits()).equals(&JsonNumber::Float(2.5f64.to_bits())));
}

#[test]
fn double_order_agrees_with_the_numbers() {
    let values = [
        f64::NEG_INFINITY,
        -1.0e300,
        -2.5,
        -1.0,
        -f64::MIN_POSITIVE,
        -0.0,
        0.0,
        f64::MIN_POSITIVE,
        0.1,
        1.0,
        2.5,
        1.0e300,
        f64::INFINITY,
        f64::NAN,
    ];
    for &a in &values {
        for &b in &values {
            let expected = if a < b {
                -1
            } else if a > b {
                1
            } else {
                0
            };
            assert_eq!(compare_doubles(a.to_bits(), b.to_bits()), expected, "{} {}", a, b);
            assert_eq!(doubles_equal(a.to_bits(), b.to_bits()), a == b, "{} {}", a, b);
        }
        assert_eq!(double_is_nan_exec(a.to_bits()), a.is_nan());
    }
    assert_eq!(double_key_exec(1.0f64.to_bits()), 0x3ff0_0000_0000_0000);
    assert_eq!(double_key_exec((-1.0f64).to_bits()), -0x3ff0_0000_0000_0000);
}

#[test]
fn single_key_orders_as_the_numbers() {
    let values = [
        f32::NEG_INFINITY,
        -3.0e38,
        -1.0,
        -0.994,
        -f32::MIN_POSITIVE,
        -0.0,
        0.0,
        f32::MIN_POSITIVE,
        0.5,
        0.994,
        1.0,
        3.0e38,
        f32::INFINITY,
    ];
    for &a in &values {
        for &b in &values {
            let ka = single_key_exec(a.to_bits());
            let kb = single_key_exec(b.to_bits());
            assert_eq!(ka < kb, a < b, "{} {}", a, b);
            assert_eq!(ka == kb, a == b, "{} {}", a, b);
        }
        assert!(!single_is_nan_exec(a.to_bits()));
    }
    assert!(single_is_nan_exec(f32::NAN.to_bits()));
    assert_eq!(single_key_exec(1.0f32.to_bits()), 0x3f80_0000);
    assert_eq!(single_key_exec((-1.0f32).to_bits()), -0x3f80_0000);
    assert_eq!(single_key_exec((-0.0f32).to_bits()), 0);
}

#[test]
fn strings_compare_as_std_orders_them() {
    let samples = ["", "a", "A", "ab", "abc", "b", "z", "é", "zz", "日本", "\u{10FFFF}", "~", "a\u{0}"];
    for a in samples {
        for b in samples {
            let expected = if a < b {
                -1
            } else if a > b {
                1
            } else {
                0
            };
            assert_eq!(compare_json_values(&text(a), &text(b)), expected, "{:?} {:?}", a, b);
            assert_eq!(compare_bytes(a.as_bytes(), b.as_bytes()), expected);
        }
    }
}

#[test]
fn numbers_compare_as_doubles() {
    let values: Vec<(JsonValue, f64)> = vec![
        (whole(0), 0.0),
        (whole(1), 1.0),
        (whole(9007199254740993), 9007199254740993u64 as f64),
        (whole(u64::MAX), u64::MAX as f64),
        (negative(-1), -1.0),
        (negative(i64::MIN), i64::MIN as f64),
        (fraction(0.5), 0.5),
        (fraction(-0.0), -0.0),
        (fraction(1.0e19), 1.0e19),
        (fraction(-9.3e18), -9.3e18),
    ];
    for (a, x) in &values {
        for (b, y) in &values {
            let expected = if x < y {
                -1
            } else if x > y {
                1
            } else {
                0
            };
            assert_eq!(compare_json_values(a, b), expected, "{} {}", x, y);
        }
    }
}
