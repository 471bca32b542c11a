//! Renders compiled predicates through serde_json and compares against the
//! canonical serialized shape, `{"term":{<field>:{"value":..,"boost"?:..}}}`.

use searchbridge::term::{term_bool, term_i32, term_str, term_time, TermLiteral, TermPredicate};
use searchbridge::temporal::Time;
use serde_json::{Number, Value};

/// The serde_json document for one compiled predicate. Floats go through
/// `Number::from_f64`, which has no representation for non-finite values
/// and yields null for them, exactly as serde_json's own tree building
/// does.
fn to_json(p: &TermPredicate) -> Value {
    let value = match &p.term.value {
        TermLiteral::Text(s) => Value::String(s.clone()),
        TermLiteral::Bool(b) => Value::Bool(*b),
        TermLiteral::Int(n) => Value::Number(Number::from(*n)),
        TermLiteral::Float32Bits(bits) => Number::from_f64(f32::from_bits(*bits) as f64)
            .map(Value::Number)
            .unwrap_or(Value::Null),
        TermLiteral::Float64Bits(bits) => Number::from_f64(f64::from_bits(*bits))
            .map(Value::Number)
            .unwrap_or(Value::Null),
    };
    let mut body = serde_json::Map::new();
    body.insert("value".to_string(), value);
    if let Some(bits) = p.term.boost {
        let boost = Number::from_f64(f32::from_bits(bits) as f64)
            .map(Value::Number)
            .unwrap_or(Value::Null);
        body.insert("boost".to_string(), boost);
    }
    let mut field = serde_json::Map::new();
    field.insert(p.field.clone(), Value::Object(body));
    let mut root = serde_json::Map::new();
    root.insert("term".to_string(), Value::Object(field));
    Value::Object(root)
}

fn expect(text: &str) -> Value {
    serde_json::from_str(text).expect("the expected document parses")
}

#[test]
fn text_predicate_without_boost_omits_the_key() {
    let p = term_str("f", "test value", None);
    assert_eq!(to_json(&p), expect(r#"{"term":{"f":{"value":"test value"}}}"#));
}

#[test]
fn bool_predicate_with_boost_carries_it_as_a_float() {
    let p = term_bool("f", true, Some(42.0f32.to_bits()));
    assert_eq!(to_json(&p), expect(r#"{"term":{"f":{"value":true,"boost":42.0}}}"#));
}

#[test]
fn int_predicate_keeps_the_extreme_value() {
    let p = term_i32("f", -2147483648, Some(42.0f32.to_bits()));
    assert_eq!(
        to_json(&p),
        expect(r#"{"term":{"f":{"value":-2147483648,"boost":42.0}}}"#)
    );
}

#[test]
fn time_predicate_renders_normalized_text() {
    let p = term_time(
        "f",
        Time { hour: 12, minute: 59, second: 35, millis: 567 },
        Some(42.0f32.to_bits()),
    );
    assert_eq!(
        to_json(&p),
        expect(r#"{"term":{"f":{"value":"12:59:35.567Z","boost":42.0}}}"#)
    );
}
