//! Fixed-width decimal rendering into ASCII bytes, and the one conversion
//! from verified ASCII bytes to `String`.

use vstd::prelude::*;

verus! {

/// The ASCII byte of the decimal digit `d % 10`.
pub open spec fn digit_byte(d: int) -> u8 {
    (48 + (d % 10)) as u8
}

/// `n` rendered as exactly two decimal digits (for `0 <= n < 100`).
pub open spec fn two_digit_bytes(n: int) -> Seq<u8> {
    seq![digit_byte(n / 10), digit_byte(n)]
}

/// `n` rendered as exactly three decimal digits (for `0 <= n < 1000`).
pub open spec fn three_digit_bytes(n: int) -> Seq<u8> {
    seq![digit_byte(n / 100), digit_byte(n / 10), digit_byte(n)]
}

/// `n` rendered as exactly four decimal digits (for `0 <= n < 10000`).
pub open spec fn four_digit_bytes(n: int) -> Seq<u8> {
    seq![digit_byte(n / 1000), digit_byte(n / 100), digit_byte(n / 10), digit_byte(n)]
}

/// Every byte is ASCII.
pub open spec fn ascii_bytes(s: Seq<u8>) -> bool {
    forall|i: int| 0 <= i < s.len() ==> s[i] < 128
}

/// ASCII bytes read as the characters with the same values.
pub open spec fn chars_of(s: Seq<u8>) -> Seq<char> {
    s.map_values(|b: u8| b as char)
}

/// Appends the two-digit rendering of `n`.
pub(crate) fn push_two_digits(out: &mut Vec<u8>, n: u8)
    requires
        n < 100,
    ensures
        final(out)@ == old(out)@ + two_digit_bytes(n as int),
        ascii_bytes(old(out)@) ==> ascii_bytes(final(out)@),
{
    out.push(48 + n / 10);
    out.push(48 + n % 10);
    proof {
        assert((n as int) / 10 == (n as int / 10) % 10);
        assert(out@ =~= old(out)@ + two_digit_bytes(n as int));
    }
}

/// Appends the three-digit rendering of `n`.
pub(crate) fn push_three_digits(out: &mut Vec<u8>, n: u16)
    requires
        n < 1000,
    ensures
        final(out)@ == old(out)@ + three_digit_bytes(n as int),
        ascii_bytes(old(out)@) ==> ascii_bytes(final(out)@),
{
    out.push(48 + (n / 100) as u8);
    out.push(48 + ((n / 10) % 10) as u8);
    out.push(48 + (n % 10) as u8);
    proof {
        assert((n as int) / 100 == (n as int / 100) % 10);
        assert(out@ =~= old(out)@ + three_digit_bytes(n as int));
    }
}

/// Appends the four-digit rendering of `n`.
pub(crate) fn push_four_digits(out: &mut Vec<u8>, n: u16)
    requires
        n < 10000,
    ensures
        final(out)@ == old(out)@ + four_digit_bytes(n as int),
        ascii_bytes(old(out)@) ==> ascii_bytes(final(out)@),
{
    out.push(48 + (n / 1000) as u8);
    out.push(48 + ((n / 100) % 10) as u8);
    out.push(48 + ((n / 10) % 10) as u8);
    out.push(48 + (n % 10) as u8);
    proof {
        assert((n as int) / 1000 == (n as int / 1000) % 10);
        assert(out@ =~= old(out)@ + four_digit_bytes(n as int));
    }
}

/// Relies on `String::from_utf8`: a sequence of bytes below 0x80 is valid
/// UTF-8 and decodes to exactly the characters with those byte values.
#[verifier::external_body]
pub(crate) fn ascii_to_string(bytes: Vec<u8>) -> (r: String)
    requires
        ascii_bytes(bytes@),
    ensures
        r@ == chars_of(bytes@),
{
    String::from_utf8(bytes).unwrap_or_default()
}

} // verus!
