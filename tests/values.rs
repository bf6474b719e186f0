use ruffle_core::object::ObjectStore;
use ruffle_core::value::{
    add_values, divide_numbers, less_than, loose_equals, number_to_chars, strict_equals, to_boolean,
    to_number, to_text, Number, Value,
};

fn chars(s: &str) -> Vec<char> {
    s.chars().collect()
}

fn text(v: &[char]) -> String {
    v.iter().collect()
}

fn s(x: &str) -> Value {
    Value::Str(chars(x))
}

fn n(i: i64) -> Value {
    Value::Num(Number::Int(i))
}

#[test]
fn undefined_coerces_by_version() {
    assert_eq!(to_number(6, &Value::Undefined), Number::Int(0));
    assert_eq!(to_number(7, &Value::Undefined), Number::NaN);
    assert_eq!(text(&to_text(6, &Value::Undefined)), "");
    assert_eq!(text(&to_text(7, &Value::Undefined)), "undefined");
    assert_eq!(to_number(6, &Value::Null), Number::Int(0));
    assert_eq!(to_number(7, &Value::Null), Number::NaN);
}

#[test]
fn string_truth_by_version() {
    assert!(!to_boolean(6, &s("abc")));
    assert!(to_boolean(7, &s("abc")));
    assert!(to_boolean(6, &s("12")));
    assert!(!to_boolean(7, &s("")));
    assert!(!to_boolean(6, &s("0")));
    assert!(to_boolean(7, &s("0")));
}

#[test]
fn string_to_number() {
    assert_eq!(to_number(7, &s("42")), Number::Int(42));
    assert_eq!(to_number(7, &s("-17")), Number::Int(-17));
    assert_eq!(to_number(7, &s("4x")), Number::NaN);
    assert_eq!(to_number(7, &s("")), Number::NaN);
    assert_eq!(to_number(7, &s("-")), Number::NaN);
    assert_eq!(to_number(7, &s("99999999999999999999")), Number::Infinity);
    assert_eq!(to_number(7, &s("-99999999999999999999")), Number::NegInfinity);
}

#[test]
fn number_text_forms() {
    assert_eq!(text(&number_to_chars(Number::Int(0))), "0");
    assert_eq!(text(&number_to_chars(Number::Int(-1203))), "-1203");
    assert_eq!(text(&number_to_chars(Number::Int(i64::MIN))), "-9223372036854775808");
    assert_eq!(text(&number_to_chars(Number::Infinity)), "Infinity");
    assert_eq!(text(&number_to_chars(Number::NegInfinity)), "-Infinity");
    assert_eq!(text(&number_to_chars(Number::NaN)), "NaN");
}

#[test]
fn division_by_zero_and_rounding() {
    assert_eq!(divide_numbers(Number::Int(1), Number::Int(0)), Number::Infinity);
    assert_eq!(divide_numbers(Number::Int(-1), Number::Int(0)), Number::NegInfinity);
    assert_eq!(divide_numbers(Number::Int(0), Number::Int(0)), Number::NaN);
    assert_eq!(divide_numbers(Number::Int(7), Number::Int(2)), Number::Int(3));
    assert_eq!(divide_numbers(Number::Int(-7), Number::Int(2)), Number::Int(-3));
    assert_eq!(divide_numbers(Number::Int(5), Number::Infinity), Number::Int(0));
}

#[test]
fn string_concatenation_wins() {
    match add_values(7, &s("5"), &n(3)) {
        Value::Str(v) => assert_eq!(text(&v), "53"),
        other => panic!("unexpected {:?}", other),
    }
    match add_values(7, &n(5), &n(3)) {
        Value::Num(x) => assert_eq!(x, Number::Int(8)),
        other => panic!("unexpected {:?}", other),
    }
    match add_values(6, &Value::Undefined, &s("x")) {
        Value::Str(v) => assert_eq!(text(&v), "x"),
        other => panic!("unexpected {:?}", other),
    }
    match add_values(7, &Value::Undefined, &s("x")) {
        Value::Str(v) => assert_eq!(text(&v), "undefinedx"),
        other => panic!("unexpected {:?}", other),
    }
}

#[test]
fn equality_table() {
    assert!(loose_equals(7, &Value::Null, &Value::Undefined));
    assert!(!strict_equals(&Value::Null, &Value::Undefined));
    assert!(loose_equals(7, &n(5), &s("5")));
    assert!(!strict_equals(&n(5), &s("5")));
    assert!(loose_equals(7, &Value::Bool(true), &n(1)));
    assert!(!loose_equals(7, &Value::Num(Number::NaN), &Value::Num(Number::NaN)));
    assert!(!strict_equals(&Value::Num(Number::NaN), &Value::Num(Number::NaN)));
    assert!(!loose_equals(7, &n(0), &Value::Null));
    assert!(strict_equals(&s("ab"), &s("ab")));
    assert!(loose_equals(7, &Value::Object(3), &Value::Object(3)));
    assert!(!loose_equals(7, &Value::Object(3), &Value::Object(4)));
}

#[test]
fn relational_table() {
    match less_than(7, &s("abc"), &s("abd")) {
        Value::Bool(b) => assert!(b),
        other => panic!("unexpected {:?}", other),
    }
    match less_than(7, &s("b"), &s("abc")) {
        Value::Bool(b) => assert!(!b),
        other => panic!("unexpected {:?}", other),
    }
    match less_than(7, &n(2), &s("10")) {
        Value::Bool(b) => assert!(b),
        other => panic!("unexpected {:?}", other),
    }
    assert!(matches!(less_than(7, &Value::Undefined, &n(1)), Value::Undefined));
    match less_than(6, &Value::Undefined, &n(1)) {
        Value::Bool(b) => assert!(b),
        other => panic!("unexpected {:?}", other),
    }
}

#[test]
fn coercion_repeats_identically() {
    let a = s("5");
    let b = n(3);
    let first = format!("{:?}", add_values(6, &a, &b));
    let _ = loose_equals(7, &a, &b);
    let _ = less_than(7, &b, &a);
    let second = format!("{:?}", add_values(6, &a, &b));
    assert_eq!(first, second);
    assert_eq!(to_number(6, &a), to_number(6, &a));
}

#[test]
fn prototype_lookup_and_case_rules() {
    let mut store = ObjectStore::new();
    let proto = store.create_object(None);
    let obj = store.create_object(Some(proto));
    store.set(6, proto, &chars("Color"), s("red"));
    match store.get(6, obj, &chars("color")) {
        Value::Str(v) => assert_eq!(text(&v), "red"),
        other => panic!("unexpected {:?}", other),
    }
    assert!(matches!(store.get(7, obj, &chars("color")), Value::Undefined));
    match store.get(7, obj, &chars("Color")) {
        Value::Str(v) => assert_eq!(text(&v), "red"),
        other => panic!("unexpected {:?}", other),
    }
    store.set(6, obj, &chars("COLOR"), s("blue"));
    assert_eq!(store.enumerate(obj).len(), 1);
    store.set(6, obj, &chars("color"), s("green"));
    assert_eq!(store.enumerate(obj).len(), 1);
    match store.get(6, obj, &chars("Color")) {
        Value::Str(v) => assert_eq!(text(&v), "green"),
        other => panic!("unexpected {:?}", other),
    }
}

#[test]
fn cyclic_prototype_chain_reads_undefined() {
    let mut store = ObjectStore::new();
    let a = store.create_object(Some(1));
    let _b = store.create_object(Some(a));
    assert!(matches!(store.get(7, a, &chars("missing")), Value::Undefined));
}

#[test]
fn readonly_and_hidden_properties() {
    let mut store = ObjectStore::new();
    let o = store.create_object(None);
    store.define_property(7, o, &chars("secret"), n(1), false, true);
    store.set(7, o, &chars("shown"), n(2));
    store.set(7, o, &chars("secret"), n(9));
    match store.get(7, o, &chars("secret")) {
        Value::Num(x) => assert_eq!(x, Number::Int(1)),
        other => panic!("unexpected {:?}", other),
    }
    let keys: Vec<String> = store.enumerate(o).iter().map(|k| text(k)).collect();
    assert_eq!(keys, vec!["shown".to_string()]);
}

#[test]
fn array_for_in_after_splice_and_concat() {
    let mut store = ObjectStore::new();
    let arr = store.create_array(None, vec![n(10), n(20), n(30)]);
    store.set(7, arr, &chars("label"), s("x"));
    store.set(7, arr, &chars("extra"), s("y"));
    let removed = store.array_splice(arr, 1, 1, &vec![n(21), n(22), n(23)]).unwrap();
    assert_eq!(removed.len(), 1);
    assert_eq!(store.array_length(arr), Some(5));
    let keys: Vec<String> = store.enumerate(arr).iter().map(|k| text(k)).collect();
    assert_eq!(keys, vec!["0", "1", "2", "3", "4", "label", "extra"]);
    match store.get(7, arr, &chars("length")) {
        Value::Num(x) => assert_eq!(x, Number::Int(5)),
        other => panic!("unexpected {:?}", other),
    }
    match store.get(7, arr, &chars("3")) {
        Value::Num(x) => assert_eq!(x, Number::Int(23)),
        other => panic!("unexpected {:?}", other),
    }
    let joined = store.array_concat(arr, &vec![n(1)]).unwrap();
    store.set(7, joined, &chars("tag"), s("z"));
    let keys: Vec<String> = store.enumerate(joined).iter().map(|k| text(k)).collect();
    assert_eq!(keys, vec!["0", "1", "2", "3", "4", "5", "tag"]);
    let part = store.array_slice(arr, 1, 3).unwrap();
    assert_eq!(store.array_length(part), Some(2));
    assert_eq!(store.array_splice(joined, 10, 2, &vec![]).map(|v| v.len()), Some(0));
    assert_eq!(store.array_length(joined), Some(6));
}

#[test]
fn function_values_coerce() {
    assert_eq!(text(&to_text(7, &Value::Function(2))), "[type Function]");
    assert_eq!(to_number(7, &Value::Function(2)), Number::NaN);
    assert!(to_boolean(6, &Value::Function(0)));
    assert!(strict_equals(&Value::Function(1), &Value::Function(1)));
    assert!(!loose_equals(7, &Value::Function(1), &Value::Function(2)));
    match add_values(7, &Value::Function(0), &n(1)) {
        Value::Str(v) => assert_eq!(text(&v), "[type Function]1"),
        other => panic!("unexpected {:?}", other),
    }
}
