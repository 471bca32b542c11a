//! Typed term-query compiler.
//!
//! One entry point per supported scalar kind, each a total, pure function
//! from (field name, typed value, optional boost) to the one canonical
//! term-predicate shape `{ "term": { <field>: { "value": <literal>
//! [, "boost": <boost>] } } }`. Text, booleans, and numbers pass through
//! verbatim — floating-point values travel as their IEEE-754 bit patterns,
//! non-finite ones included, never clamped or rejected — while temporal
//! values are normalized to UTC and rendered as ISO-8601 text. The boost is
//! a 32-bit float, also carried by bits, and is part of the predicate
//! exactly when the caller supplied one: an absent boost is absent, never
//! null.

use vstd::prelude::*;
use crate::ascii::chars_of;
use crate::temporal::Date;
use crate::temporal::Time;
use crate::temporal::TimeWithZone;
use crate::temporal::Timestamp;
use crate::temporal::TimestampWithZone;
use crate::temporal::date_bytes;
use crate::temporal::format_date;
use crate::temporal::format_time;
use crate::temporal::format_timestamp;
use crate::temporal::time_bytes;
use crate::temporal::time_in_utc;
use crate::temporal::timestamp_bytes;
use crate::temporal::to_utc_time;
use crate::temporal::to_utc_timestamp;
use crate::temporal::ts_in_utc;
use crate::temporal::utc_in_range;

verus! {

/// The normalized literal standing under `"value"`.
pub enum TermLiteral {
    /// Text, and every temporal kind after normalization.
    Text(String),
    Bool(bool),
    /// Any signed integer width, widened losslessly.
    Int(i64),
    /// A 32-bit float, by IEEE-754 bit pattern.
    Float32Bits(u32),
    /// A 64-bit float, by IEEE-754 bit pattern.
    Float64Bits(u64),
}

/// Mathematical model of a [`TermLiteral`].
pub enum LiteralModel {
    Text(Seq<char>),
    Bool(bool),
    Int(i64),
    Float32Bits(u32),
    Float64Bits(u64),
}

impl View for TermLiteral {
    type V = LiteralModel;

    open spec fn view(&self) -> LiteralModel {
        match self {
            TermLiteral::Text(s) => LiteralModel::Text(s@),
            TermLiteral::Bool(b) => LiteralModel::Bool(*b),
            TermLiteral::Int(n) => LiteralModel::Int(*n),
            TermLiteral::Float32Bits(bits) => LiteralModel::Float32Bits(*bits),
            TermLiteral::Float64Bits(bits) => LiteralModel::Float64Bits(*bits),
        }
    }
}

/// The body of a term predicate: the literal, and the boost — the bit
/// pattern of a 32-bit float — present exactly when one was supplied.
pub struct Term {
    pub value: TermLiteral,
    pub boost: Option<u32>,
}

/// Mathematical model of a [`Term`].
pub struct TermModel {
    pub value: LiteralModel,
    pub boost: Option<u32>,
}

impl View for Term {
    type V = TermModel;

    open spec fn view(&self) -> TermModel {
        TermModel { value: self.value@, boost: self.boost }
    }
}

/// The canonical serialized predicate: a tree-shaped document
/// `{ "term": { <field>: <term body> } }`, handed to the caller as a value.
pub struct TermPredicate {
    pub field: String,
    pub term: Term,
}

/// Mathematical model of a [`TermPredicate`].
pub struct PredicateModel {
    pub field: Seq<char>,
    pub term: TermModel,
}

impl View for TermPredicate {
    type V = PredicateModel;

    open spec fn view(&self) -> PredicateModel {
        PredicateModel { field: self.field@, term: self.term@ }
    }
}

/// The predicate model every entry point funnels into.
pub open spec fn term_dsl(field: Seq<char>, value: LiteralModel, boost: Option<u32>) -> PredicateModel {
    PredicateModel { field, term: TermModel { value, boost } }
}

/// Wraps one term body under its field into the canonical predicate shape.
pub fn make_term_dsl(field: &str, term: Term) -> (r: TermPredicate)
    ensures
        r@ == term_dsl(field@, term.value@, term.boost),
{
    TermPredicate { field: field.to_owned(), term }
}

/// Compiles a text term.
pub fn term_str(field: &str, value: &str, boost: Option<u32>) -> (r: TermPredicate)
    ensures
        r@ == term_dsl(field@, LiteralModel::Text(value@), boost),
{
    make_term_dsl(field, Term { value: TermLiteral::Text(value.to_owned()), boost })
}

/// Compiles a boolean term.
pub fn term_bool(field: &str, value: bool, boost: Option<u32>) -> (r: TermPredicate)
    ensures
        r@ == term_dsl(field@, LiteralModel::Bool(value), boost),
{
    make_term_dsl(field, Term { value: TermLiteral::Bool(value), boost })
}

/// Compiles a 16-bit integer term; the value is widened losslessly.
pub fn term_i16(field: &str, value: i16, boost: Option<u32>) -> (r: TermPredicate)
    ensures
        r@ == term_dsl(field@, LiteralModel::Int(value as i64), boost),
{
    make_term_dsl(field, Term { value: TermLiteral::Int(value as i64), boost })
}

/// Compiles a 32-bit integer term; the value is widened losslessly.
pub fn term_i32(field: &str, value: i32, boost: Option<u32>) -> (r: TermPredicate)
    ensures
        r@ == term_dsl(field@, LiteralModel::Int(value as i64), boost),
{
    make_term_dsl(field, Term { value: TermLiteral::Int(value as i64), boost })
}

/// Compiles a 64-bit integer term.
pub fn term_i64(field: &str, value: i64, boost: Option<u32>) -> (r: TermPredicate)
    ensures
        r@ == term_dsl(field@, LiteralModel::Int(value), boost),
{
    make_term_dsl(field, Term { value: TermLiteral::Int(value), boost })
}

/// Compiles a 32-bit float term from its bit pattern, which passes through
/// unmodified — non-finite values included.
pub fn term_f32(field: &str, value_bits: u32, boost: Option<u32>) -> (r: TermPredicate)
    ensures
        r@ == term_dsl(field@, LiteralModel::Float32Bits(value_bits), boost),
{
    make_term_dsl(field, Term { value: TermLiteral::Float32Bits(value_bits), boost })
}

/// Compiles a 64-bit float term from its bit pattern, which passes through
/// unmodified — non-finite values included.
pub fn term_f64(field: &str, value_bits: u64, boost: Option<u32>) -> (r: TermPredicate)
    ensures
        r@ == term_dsl(field@, LiteralModel::Float64Bits(value_bits), boost),
{
    make_term_dsl(field, Term { value: TermLiteral::Float64Bits(value_bits), boost })
}

/// Compiles a time-of-day term, rendered as `HH:MM:SS[.mmm]Z`.
pub fn term_time(field: &str, value: Time, boost: Option<u32>) -> (r: TermPredicate)
    requires
        value.wf(),
    ensures
        r@ == term_dsl(field@, LiteralModel::Text(chars_of(time_bytes(value))), boost),
{
    let text = format_time(&value);
    make_term_dsl(field, Term { value: TermLiteral::Text(text), boost })
}

/// Compiles a date term, rendered as `YYYY-MM-DD` with no time component.
pub fn term_date(field: &str, value: Date, boost: Option<u32>) -> (r: TermPredicate)
    requires
        value.wf(),
    ensures
        r@ == term_dsl(field@, LiteralModel::Text(chars_of(date_bytes(value))), boost),
{
    let text = format_date(&value);
    make_term_dsl(field, Term { value: TermLiteral::Text(text), boost })
}

/// Compiles a zoned time-of-day term: the clock value is normalized to UTC,
/// the offset discarded, and the result rendered as `HH:MM:SS[.mmm]Z`.
pub fn term_time_with_timezone(field: &str, value: TimeWithZone, boost: Option<u32>) -> (r:
    TermPredicate)
    requires
        value.wf(),
    ensures
        r@ == term_dsl(
            field@,
            LiteralModel::Text(chars_of(time_bytes(time_in_utc(value)))),
            boost,
        ),
{
    let utc = to_utc_time(&value);
    let text = format_time(&utc);
    make_term_dsl(field, Term { value: TermLiteral::Text(text), boost })
}

/// Compiles a timestamp term, rendered as `YYYY-MM-DDTHH:MM:SS[.mmm]Z`.
pub fn term_timestamp(field: &str, value: Timestamp, boost: Option<u32>) -> (r: TermPredicate)
    requires
        value.wf(),
    ensures
        r@ == term_dsl(field@, LiteralModel::Text(chars_of(timestamp_bytes(value))), boost),
{
    let text = format_timestamp(&value);
    make_term_dsl(field, Term { value: TermLiteral::Text(text), boost })
}

/// Compiles a zoned timestamp term: the instant is normalized to UTC —
/// borrowing or carrying a calendar day as needed — the offset discarded,
/// and the result rendered as `YYYY-MM-DDTHH:MM:SS[.mmm]Z`.
pub fn term_timestamp_with_timezone(field: &str, value: TimestampWithZone, boost: Option<u32>) -> (r:
    TermPredicate)
    requires
        value.wf(),
        utc_in_range(value),
    ensures
        r@ == term_dsl(
            field@,
            LiteralModel::Text(chars_of(timestamp_bytes(ts_in_utc(value)))),
            boost,
        ),
{
    let utc = to_utc_timestamp(&value);
    let text = format_timestamp(&utc);
    make_term_dsl(field, Term { value: TermLiteral::Text(text), boost })
}

} // verus!

