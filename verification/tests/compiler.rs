use searchbridge::term::{
    make_term_dsl, term_bool, term_date, term_f32, term_f64, term_i16, term_i32, term_i64,
    term_str, term_time, term_time_with_timezone, term_timestamp, term_timestamp_with_timezone,
    Term, TermLiteral, TermPredicate,
};
use searchbridge::temporal::{Date, Time, TimeWithZone, Timestamp, TimestampWithZone};

const BOOST: f32 = 42.0;

fn text_of(p: &TermPredicate) -> &str {
    match &p.term.value {
        TermLiteral::Text(s) => s.as_str(),
        other => panic!("expected a text literal, got {:?}", literal_name(other)),
    }
}

fn literal_name(l: &TermLiteral) -> &'static str {
    match l {
        TermLiteral::Text(_) => "text",
        TermLiteral::Bool(_) => "bool",
        TermLiteral::Int(_) => "int",
        TermLiteral::Float32Bits(_) => "f32",
        TermLiteral::Float64Bits(_) => "f64",
    }
}

#[test]
fn text_term_with_no_boost() {
    let p = term_str("f", "test value", None);
    assert_eq!(p.field, "f");
    assert_eq!(text_of(&p), "test value");
    assert_eq!(p.term.boost, None);
}

#[test]
fn bool_term_with_boost() {
    let p = term_bool("f", true, Some(BOOST.to_bits()));
    assert_eq!(p.field, "f");
    assert!(matches!(p.term.value, TermLiteral::Bool(true)));
    assert_eq!(p.term.boost, Some(BOOST.to_bits()));
}

#[test]
fn integer_terms_keep_the_exact_value() {
    let p = term_i16("f", i16::MIN, None);
    assert!(matches!(p.term.value, TermLiteral::Int(-32768)));
    let p = term_i32("f", -2147483648, Some(BOOST.to_bits()));
    assert!(matches!(p.term.value, TermLiteral::Int(-2147483648)));
    assert_eq!(p.term.boost, Some(BOOST.to_bits()));
    let p = term_i64("f", 9223372036854775000, None);
    assert!(matches!(p.term.value, TermLiteral::Int(9223372036854775000)));
}

#[test]
fn nonfinite_floats_pass_through_unmodified() {
    let p = term_f32("f", f32::INFINITY.to_bits(), None);
    match p.term.value {
        TermLiteral::Float32Bits(bits) => assert!(f32::from_bits(bits).is_infinite()),
        _ => panic!("expected an f32 literal"),
    }
    let p = term_f32("f", f32::NEG_INFINITY.to_bits(), None);
    match p.term.value {
        TermLiteral::Float32Bits(bits) => {
            assert!(f32::from_bits(bits) == f32::NEG_INFINITY)
        }
        _ => panic!("expected an f32 literal"),
    }
    let p = term_f32("f", f32::NAN.to_bits(), None);
    match p.term.value {
        TermLiteral::Float32Bits(bits) => assert!(f32::from_bits(bits).is_nan()),
        _ => panic!("expected an f32 literal"),
    }
    let p = term_f64("f", f64::INFINITY.to_bits(), None);
    match p.term.value {
        TermLiteral::Float64Bits(bits) => assert!(f64::from_bits(bits).is_infinite()),
        _ => panic!("expected an f64 literal"),
    }
}

#[test]
fn finite_floats_keep_their_bit_pattern() {
    let p = term_f32("f", 4.6f32.to_bits(), Some(BOOST.to_bits()));
    match p.term.value {
        TermLiteral::Float32Bits(bits) => assert_eq!(f32::from_bits(bits), 4.6),
        _ => panic!("expected an f32 literal"),
    }
    let p = term_f64("f", (-5.6f64).to_bits(), None);
    match p.term.value {
        TermLiteral::Float64Bits(bits) => assert_eq!(f64::from_bits(bits), -5.6),
        _ => panic!("expected an f64 literal"),
    }
}

#[test]
fn date_term_renders_the_calendar_date_only() {
    let p = term_date("f", Date { year: 2020, month: 1, day: 1 }, None);
    assert_eq!(text_of(&p), "2020-01-01");
    assert_eq!(p.term.boost, None);
}

#[test]
fn time_term_keeps_millis_and_boost() {
    // A time-of-day input of 12:59:35.567 whose zone was already discarded
    // by the cast to a plain time of day.
    let p = term_time("f", Time { hour: 12, minute: 59, second: 35, millis: 567 }, Some(
        BOOST.to_bits(),
    ));
    assert_eq!(p.field, "f");
    assert_eq!(text_of(&p), "12:59:35.567Z");
    assert_eq!(p.term.boost, Some(BOOST.to_bits()));
}

#[test]
fn zoned_time_term_converts_to_utc_and_discards_the_offset() {
    let p = term_time_with_timezone(
        "f",
        TimeWithZone {
            time: Time { hour: 13, minute: 15, second: 35, millis: 0 },
            offset_minutes: 9 * 60,
        },
        None,
    );
    assert_eq!(text_of(&p), "04:15:35Z");
}

#[test]
fn timestamp_term_with_no_boost() {
    let p = term_timestamp(
        "f",
        Timestamp {
            date: Date { year: 2012, month: 12, day: 12 },
            time: Time { hour: 13, minute: 15, second: 35, millis: 0 },
        },
        None,
    );
    assert_eq!(text_of(&p), "2012-12-12T13:15:35Z");
    assert_eq!(p.term.boost, None);
}

#[test]
fn zoned_timestamp_term_converts_to_utc() {
    let p = term_timestamp_with_timezone(
        "f",
        TimestampWithZone {
            date: Date { year: 2019, month: 9, day: 15 },
            time: Time { hour: 12, minute: 59, second: 35, millis: 567 },
            offset_minutes: -7 * 60,
        },
        Some(BOOST.to_bits()),
    );
    assert_eq!(text_of(&p), "2019-09-15T19:59:35.567Z");
    assert_eq!(p.term.boost, Some(BOOST.to_bits()));
}

#[test]
fn make_term_dsl_wraps_the_body_under_its_field() {
    let p = make_term_dsl(
        "fieldname",
        Term { value: TermLiteral::Int(7), boost: Some(BOOST.to_bits()) },
    );
    assert_eq!(p.field, "fieldname");
    assert!(matches!(p.term.value, TermLiteral::Int(7)));
    assert_eq!(p.term.boost, Some(BOOST.to_bits()));
}
