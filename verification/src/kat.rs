//! Hexadecimal text for known-answer vectors.

use crate::text::{hex_lower, hex_upper, lower_digit, prefixed, quoted_char, quoted_char_text};
use vstd::prelude::*;

verus! {

/// Why a hex string cannot be decoded.
#[derive(Debug, Clone, Copy, PartialEq, Eq, Structural)]
pub enum HexError {
    /// The string had an odd number of hex digits.
    OddLength,
    /// A non-hex, non-whitespace character was encountered.
    BadDigit(char),
}

impl HexError {
    /// What the error says.
    pub open spec fn text(self) -> Seq<char> {
        match self {
            HexError::OddLength => "hex string has an odd number of digits"@,
            HexError::BadDigit(c) => "invalid hex digit "@ + quoted_char_text(c),
        }
    }

    /// What the error says, for a log.
    pub fn message(&self) -> (r: String)
        ensures
            r@ == self.text(),
    {
        match *self {
            HexError::OddLength => "hex string has an odd number of digits".to_owned(),
            HexError::BadDigit(c) => {
                let digit = quoted_char(c);
                prefixed("invalid hex digit ", digit.as_str())
            },
        }
    }
}

/// ASCII whitespace: space, tab, line feed, form feed and carriage return.
pub open spec fn is_space(c: char) -> bool {
    c == ' ' || c == '\t' || c == '\n' || c == '\x0c' || c == '\r'
}

/// Whether `c` is a hexadecimal digit of either case.
pub open spec fn is_hex(c: char) -> bool {
    ||| '0' <= c <= '9'
    ||| 'a' <= c <= 'f'
    ||| 'A' <= c <= 'F'
}

/// The value of a hexadecimal digit.
pub open spec fn hex_value(c: char) -> int {
    if '0' <= c <= '9' {
        c as int - 48
    } else if 'a' <= c <= 'f' {
        c as int - 87
    } else {
        c as int - 55
    }
}

/// The characters of `s` that are not whitespace, in order.
pub open spec fn digits_of(s: Seq<char>) -> Seq<char> {
    s.filter(|c: char| !is_space(c))
}

pub open spec fn all_hex(d: Seq<char>) -> bool {
    forall|i: int| 0 <= i < d.len() ==> is_hex(#[trigger] d[i])
}

/// `c` is the first character of `d` that is no hexadecimal digit.
pub open spec fn first_bad(d: Seq<char>, c: char) -> bool {
    exists|i: int|
        0 <= i < d.len() && d[i] == c && !is_hex(c) && all_hex(#[trigger] d.take(i))
}

/// The bytes that an even run of digits spells, high nibble first.
pub open spec fn bytes_of(d: Seq<char>) -> Seq<u8> {
    Seq::new(
        d.len() / 2,
        |i: int| (hex_value(d[2 * i]) * 16 + hex_value(d[2 * i + 1])) as u8,
    )
}

/// What decoding the text `s` comes to.
pub open spec fn hex_decodes(s: Seq<char>, outcome: Result<Seq<u8>, HexError>) -> bool {
    let d = digits_of(s);
    match outcome {
        Ok(bytes) => all_hex(d) && d.len() % 2 == 0 && bytes == bytes_of(d),
        Err(HexError::OddLength) => all_hex(d) && d.len() % 2 == 1,
        Err(HexError::BadDigit(c)) => first_bad(d, c),
    }
}

/// The lower-case text of `bytes`, two digits for each.
pub open spec fn hex_text(bytes: Seq<u8>) -> Seq<char> {
    Seq::new(
        2 * bytes.len(),
        |i: int| hex_lower(if i % 2 == 0 { bytes[i / 2] as int / 16 } else { bytes[i / 2] as int % 16 }),
    )
}

fn digit_value(c: char) -> (v: Option<u8>)
    ensures
        v is Some <==> is_hex(c),
        v matches Some(n) ==> n == hex_value(c) && n < 16,
{
    if '0' <= c && c <= '9' {
        Some((c as u32 - 48) as u8)
    } else if 'a' <= c && c <= 'f' {
        Some((c as u32 - 87) as u8)
    } else if 'A' <= c && c <= 'F' {
        Some((c as u32 - 55) as u8)
    } else {
        None
    }
}

/// Decode a hex string into bytes, ignoring ASCII whitespace.
pub fn from_hex(s: &str) -> (r: Result<Vec<u8>, HexError>)
    ensures
        hex_decodes(
            s@,
            match r {
                Ok(bytes) => Ok(bytes@),
                Err(e) => Err(e),
            },
        ),
{
    let mut nibbles: Vec<u8> = Vec::new();
    for c in it: s.chars()
        invariant
            it.seq() == s@,
            nibbles@.len() == digits_of(s@.take(it.index())).len(),
            all_hex(digits_of(s@.take(it.index()))),
            forall|j: int|
                0 <= j < nibbles@.len() ==> 0 <= #[trigger] nibbles@[j] < 16 && nibbles@[j]
                    == hex_value(digits_of(s@.take(it.index()))[j]),
    {
        proof {
            reveal(Seq::filter);
            assert(s@.take(it.index() + 1).drop_last() =~= s@.take(it.index()));
        }
        if !(c == ' ' || c == '\t' || c == '\n' || c == '\x0c' || c == '\r') {
            match digit_value(c) {
                Some(v) => nibbles.push(v),
                None => {
                    proof {
                        let d = digits_of(s@);
                        let seen = digits_of(s@.take(it.index()));
                        let n = seen.len() as int;
                        lemma_digits_prefix(s@, it.index() + 1);
                        assert(d.take(n + 1) == seen.push(c));
                        assert(d.take(n) =~= d.take(n + 1).take(n));
                        assert(d.take(n) =~= seen);
                        assert(d[n] == d.take(n + 1)[n]);
                    }
                    return Err(HexError::BadDigit(c));
                },
            }
        }
    }
    assert(s@.take(s@.len() as int) =~= s@);
    if nibbles.len() % 2 != 0 {
        return Err(HexError::OddLength);
    }
    let mut out: Vec<u8> = Vec::new();
    let ghost d = digits_of(s@);
    let mut i: usize = 0;
    while i < nibbles.len()
        invariant
            nibbles.len() % 2 == 0,
            i <= nibbles.len(),
            i % 2 == 0,
            out.len() == i / 2,
            d.len() == nibbles.len(),
            forall|j: int| 0 <= j < d.len() ==> nibbles@[j] == hex_value(#[trigger] d[j]) && nibbles@[j] < 16,
            forall|j: int| 0 <= j < out.len() ==> out@[j] == #[trigger] bytes_of(d)[j],
        decreases nibbles.len() - i,
    {
        assert(bytes_of(d)[i as int / 2] == (hex_value(d[i as int]) * 16 + hex_value(d[i + 1])) as u8);
        out.push(nibbles[i] * 16 + nibbles[i + 1]);
        i += 2;
    }
    assert(out@ =~= bytes_of(d));
    Ok(out)
}

/// Dropping whitespace from a prefix gives a prefix of the digits.
proof fn lemma_digits_prefix(s: Seq<char>, n: int)
    requires
        0 <= n <= s.len(),
    ensures
        digits_of(s.take(n)).len() <= digits_of(s).len(),
        digits_of(s).take(digits_of(s.take(n)).len() as int) == digits_of(s.take(n)),
    decreases s.len() - n,
{
    reveal(Seq::filter);
    if n == s.len() {
        assert(s.take(n) =~= s);
    } else {
        lemma_digits_prefix(s, n + 1);
        let a = digits_of(s.take(n));
        let b = digits_of(s.take(n + 1));
        assert(s.take(n + 1).drop_last() =~= s.take(n));
        assert(b.take(a.len() as int) =~= a);
        assert(digits_of(s).take(a.len() as int) =~= digits_of(s).take(b.len() as int).take(a.len() as int));
    }
}

/// Encode bytes as a lowercase hex string.
pub fn to_hex(bytes: &[u8]) -> (r: String)
    ensures
        r@ == hex_text(bytes@),
{
    let mut out = String::new();
    let mut i: usize = 0;
    while i < bytes.len()
        invariant
            i <= bytes.len(),
            out@ == hex_text(bytes@.take(i as int)),
        decreases bytes.len() - i,
    {
        let b = bytes[i];
        out.push(lower_digit(b / 16));
        out.push(lower_digit(b % 16));
        assert(hex_text(bytes@.take(i + 1)) =~= hex_text(bytes@.take(i as int)).push(
            hex_lower(b as int / 16),
        ).push(hex_lower(b as int % 16)));
        i += 1;
    }
    assert(bytes@.take(i as int) =~= bytes@);
    out
}

/// Decoding the text of any bytes gives those bytes back.
pub proof fn law_hex_round_trip(bytes: Seq<u8>)
    ensures
        hex_decodes(hex_text(bytes), Ok(bytes)),
{
    let s = hex_text(bytes);
    assert forall|i: int| 0 <= i < s.len() implies is_hex(#[trigger] s[i]) && !is_space(s[i]) by {
        let b = bytes[i / 2];
        assert(0 <= b as int / 16 < 16 && 0 <= b as int % 16 < 16);
    }
    lemma_no_space(s);
    assert(bytes_of(s) =~= bytes) by {
        assert forall|i: int| 0 <= i < bytes.len() implies #[trigger] bytes_of(s)[i] == bytes[i] by {
            assert((2 * i) / 2 == i && (2 * i + 1) / 2 == i && (2 * i) % 2 == 0 && (2 * i + 1) % 2 == 1);
            assert(hex_value(s[2 * i]) == bytes[i] as int / 16);
            assert(hex_value(s[2 * i + 1]) == bytes[i] as int % 16);
        }
    }
}

/// Whitespace put anywhere into a text makes no difference to what it decodes to.
pub proof fn law_whitespace_is_ignored(
    before: Seq<char>,
    space: Seq<char>,
    after: Seq<char>,
    outcome: Result<Seq<u8>, HexError>,
)
    requires
        forall|i: int| 0 <= i < space.len() ==> is_space(#[trigger] space[i]),
    ensures
        hex_decodes(before + space + after, outcome) == hex_decodes(before + after, outcome),
{
    let keep = |c: char| !is_space(c);
    Seq::filter_distributes_over_add(before, space, keep);
    Seq::filter_distributes_over_add(before + space, after, keep);
    Seq::filter_distributes_over_add(before, after, keep);
    lemma_all_space(space);
    assert(digits_of(before) + digits_of(space) =~= digits_of(before));
}

proof fn lemma_all_space(s: Seq<char>)
    requires
        forall|i: int| 0 <= i < s.len() ==> is_space(#[trigger] s[i]),
    ensures
        digits_of(s) == Seq::<char>::empty(),
    decreases s.len(),
{
    reveal(Seq::filter);
    if s.len() > 0 {
        lemma_all_space(s.drop_last());
    }
}

proof fn lemma_no_space(s: Seq<char>)
    requires
        forall|i: int| 0 <= i < s.len() ==> !is_space(#[trigger] s[i]),
    ensures
        digits_of(s) == s,
    decreases s.len(),
{
    reveal(Seq::filter);
    if s.len() > 0 {
        lemma_no_space(s.drop_last());
        assert(s.drop_last().push(s.last()) =~= s);
    }
}

/// Just the five characters that count as white space in ASCII are skipped: tab, line
/// feed, form feed, carriage return and space. Digits are read in either case.
pub proof fn law_hex_alphabet(c: char)
    ensures
        is_space(c) <==> c as u32 == 9 || c as u32 == 10 || c as u32 == 12 || c as u32 == 13 || c as u32
            == 32,
        is_hex(c) <==> 0 <= hex_value(c) <= 15 && (hex_lower(hex_value(c)) == c || hex_upper(
            hex_value(c),
        ) == c),
{
}

/// A text decodes to one thing only.
pub proof fn law_hex_has_one_reading(
    s: Seq<char>,
    a: Result<Seq<u8>, HexError>,
    b: Result<Seq<u8>, HexError>,
)
    requires
        hex_decodes(s, a),
        hex_decodes(s, b),
    ensures
        a == b,
{
    let d = digits_of(s);
    if let (Err(HexError::BadDigit(x)), Err(HexError::BadDigit(y))) = (a, b) {
        let i = choose|i: int| 0 <= i < d.len() && d[i] == x && !is_hex(x) && all_hex(#[trigger] d.take(i));
        let j = choose|j: int| 0 <= j < d.len() && d[j] == y && !is_hex(y) && all_hex(#[trigger] d.take(j));
        if i < j {
            assert(d.take(j)[i] == x);
        }
        if j < i {
            assert(d.take(i)[j] == y);
        }
    } else if let Err(HexError::BadDigit(x)) = a {
        let i = choose|i: int| 0 <= i < d.len() && d[i] == x && !is_hex(x) && all_hex(#[trigger] d.take(i));
        assert(!is_hex(d[i]));
    } else if let Err(HexError::BadDigit(y)) = b {
        let j = choose|j: int| 0 <= j < d.len() && d[j] == y && !is_hex(y) && all_hex(#[trigger] d.take(j));
        assert(!is_hex(d[j]));
    }
}

} // verus!
