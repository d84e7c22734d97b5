//! Text building blocks: digits, decimal and hexadecimal numerals, and the few
//! string operations of `std` that the rest of the library builds on.

use crate::bytes::option_view;
use vstd::prelude::*;
use vstd::utf8::{decode_utf8, valid_utf8};

verus! {

/// `String::push` appends the given character at the end of the string.
pub assume_specification[ String::push ](s: &mut String, c: char)
    ensures
        final(s)@ == old(s)@.push(c),
;

/// `core::str::from_utf8`: the text that `bytes` encode, exactly where they are
/// valid UTF-8.
#[verifier::external_body]
pub(crate) fn utf8_text(bytes: &[u8]) -> (r: Option<&str>)
    ensures
        r is Some <==> valid_utf8(bytes@),
        r matches Some(s) ==> s@ == decode_utf8(bytes@),
{
    core::str::from_utf8(bytes).ok()
}

/// The text that `String::from_utf8_lossy` makes of `bytes`.
pub uninterp spec fn lossy_text(bytes: Seq<u8>) -> Seq<char>;

/// `String::from_utf8_lossy`: a text for any bytes. Valid UTF-8 is decoded as it
/// is; how the rest is replaced is left to the name.
#[verifier::external_body]
pub(crate) fn utf8_lossy(bytes: &[u8]) -> (r: String)
    ensures
        r@ == lossy_text(bytes@),
        valid_utf8(bytes@) ==> r@ == decode_utf8(bytes@),
{
    String::from_utf8_lossy(bytes).into_owned()
}

/// The numeral for `n` in the range `0..16`, with lower-case letters.
pub open spec fn hex_lower(n: int) -> char {
    if n < 10 {
        (48 + n) as char
    } else {
        (87 + n) as char
    }
}

/// The numeral for `n` in the range `0..16`, with upper-case letters.
pub open spec fn hex_upper(n: int) -> char {
    if n < 10 {
        (48 + n) as char
    } else {
        (55 + n) as char
    }
}

/// The hexadecimal numeral of one nibble, lower case.
pub fn lower_digit(n: u8) -> (c: char)
    requires
        n < 16,
    ensures
        c == hex_lower(n as int),
{
    if n < 10 {
        (48 + n) as char
    } else {
        (87 + n) as char
    }
}

/// The hexadecimal numeral of one nibble, upper case.
pub fn upper_digit(n: u8) -> (c: char)
    requires
        n < 16,
    ensures
        c == hex_upper(n as int),
{
    if n < 10 {
        (48 + n) as char
    } else {
        (55 + n) as char
    }
}

/// The decimal numeral of `n`, without leading zeros.
pub open spec fn decimal(n: nat) -> Seq<char>
    decreases n,
{
    if n < 10 {
        seq![(48 + n) as char]
    } else {
        decimal(n / 10).push((48 + n % 10) as char)
    }
}

/// Append the decimal numeral of `n` to `out`.
pub fn push_decimal(out: &mut String, n: u64)
    ensures
        final(out)@ == old(out)@ + decimal(n as nat),
    decreases n,
{
    if n < 10 {
        out.push((48 + n as u8) as char);
    } else {
        push_decimal(out, n / 10);
        out.push((48 + (n % 10) as u8) as char);
    }
}

/// A copy of an optional text.
pub fn copy_optional_text(t: &Option<String>) -> (r: Option<String>)
    ensures
        option_view(r) == option_view(*t),
{
    match t {
        Some(s) => Some(s.clone()),
        None => None,
    }
}

/// Whether two optional texts are the same.
pub fn optional_text_eq(a: &Option<String>, b: &Option<String>) -> (r: bool)
    ensures
        r == (option_view(*a) == option_view(*b)),
{
    match (a, b) {
        (Some(x), Some(y)) => *x == *y,
        (None, None) => true,
        _ => false,
    }
}

/// The four lower-case hexadecimal digits of a 16-bit number.
pub open spec fn hex16(v: nat) -> Seq<char> {
    seq![
        hex_lower((v / 0x1000) as int),
        hex_lower((v / 0x100 % 16) as int),
        hex_lower((v / 0x10 % 16) as int),
        hex_lower((v % 16) as int),
    ]
}

/// Append the four hexadecimal digits of `v` to `out`.
pub fn push_hex16(out: &mut String, v: u16)
    ensures
        final(out)@ == old(out)@ + hex16(v as nat),
{
    out.push(lower_digit((v / 0x1000) as u8));
    out.push(lower_digit((v / 0x100 % 16) as u8));
    out.push(lower_digit((v / 0x10 % 16) as u8));
    out.push(lower_digit((v % 16) as u8));
    assert(out@ =~= old(out)@ + hex16(v as nat));
}

/// A text around a number.
pub fn numbered(before: &str, n: usize, after: &str) -> (r: String)
    ensures
        r@ == before@ + decimal(n as nat) + after@,
{
    let mut out = before.to_owned();
    push_decimal(&mut out, n as u64);
    out.append(after);
    out
}

/// A text in front of another.
pub fn prefixed(before: &str, inner: &str) -> (r: String)
    ensures
        r@ == before@ + inner@,
{
    let mut out = before.to_owned();
    out.append(inner);
    out
}

/// A text around another.
pub fn wrapped(before: &str, inner: &str, after: &str) -> (r: String)
    ensures
        r@ == before@ + inner@ + after@,
{
    let mut out = before.to_owned();
    out.append(inner);
    out.append(after);
    out
}

/// The text between quotes, with what is not printable escaped, as the `Debug` form of
/// a `str` has it.
pub uninterp spec fn quoted_text(s: Seq<char>) -> Seq<char>;

/// `<str as Debug>::fmt` through `format`.
#[verifier::external_body]
pub(crate) fn quoted(s: &str) -> (r: String)
    ensures
        r@ == quoted_text(s@),
{
    format!("{s:?}")
}

/// The character between quotes, escaped where it is not printable, as the `Debug`
/// form of a `char` has it.
pub uninterp spec fn quoted_char_text(c: char) -> Seq<char>;

/// `<char as Debug>::fmt` through `format`.
#[verifier::external_body]
pub(crate) fn quoted_char(c: char) -> (r: String)
    ensures
        r@ == quoted_char_text(c),
{
    format!("{c:?}")
}

} // verus!
