//! Byte-level text helpers: comparing strings, slicing source text by byte
//! offsets and rendering numbers.

use vstd::prelude::*;
use vstd::string::StringExecFns;
use vstd::string::StringSliceAdditionalSpecFns;
use vstd::utf8::*;

verus! {

/// The bytes of `src` between two offsets, where the offsets describe a
/// range inside `src`.
pub open spec fn slice_of(src: Seq<u8>, start: int, end: int) -> Option<Seq<u8>> {
    if 0 <= start <= end <= src.len() {
        Some(src.subrange(start, end))
    } else {
        None
    }
}

/// Two strings with the same UTF-8 encoding are the same string.
pub proof fn lemma_encode_injective(a: Seq<char>, b: Seq<char>)
    ensures
        (encode_utf8(a) == encode_utf8(b)) <==> (a == b),
{
    encode_utf8_decode_utf8(a);
    encode_utf8_decode_utf8(b);
}

/// Whether two byte slices hold the same bytes.
pub fn bytes_eq(a: &[u8], b: &[u8]) -> (r: bool)
    ensures
        r == (a@ == b@),
{
    if a.len() != b.len() {
        return false;
    }
    let mut i: usize = 0;
    while i < a.len()
        invariant
            i <= a.len(),
            a.len() == b.len(),
            forall|k: int| 0 <= k < i ==> a@[k] == b@[k],
        decreases a.len() - i,
    {
        if a[i] != b[i] {
            return false;
        }
        i += 1;
    }
    assert(a@ =~= b@);
    true
}

/// Whether two strings are equal.
pub fn str_eq(a: &str, b: &str) -> (r: bool)
    ensures
        r == (a@ == b@),
{
    proof {
        lemma_encode_injective(a@, b@);
    }
    bytes_eq(a.as_bytes(), b.as_bytes())
}

/// Whether the bytes of `src` in `[start, end)` exist and equal `pat`.
pub fn slice_matches(src: &[u8], start: usize, end: usize, pat: &[u8]) -> (r: bool)
    ensures
        r == (slice_of(src@, start as int, end as int) == Some(pat@)),
{
    if start > end || end > src.len() {
        return false;
    }
    if end - start != pat.len() {
        return false;
    }
    let mut i: usize = 0;
    while i < pat.len()
        invariant
            i <= pat.len(),
            start <= end <= src.len(),
            end - start == pat.len(),
            forall|k: int| 0 <= k < i ==> src@[start + k] == pat@[k],
        decreases pat.len() - i,
    {
        if src[start + i] != pat[i] {
            return false;
        }
        i += 1;
    }
    assert(src@.subrange(start as int, end as int) =~= pat@);
    true
}

/// Whether the bytes of `src` in `[start, end)` exist and begin with `pat`.
pub fn slice_starts_with(src: &[u8], start: usize, end: usize, pat: &[u8]) -> (r: bool)
    ensures
        r == (slice_of(src@, start as int, end as int) is Some && pat@.is_prefix_of(
            slice_of(src@, start as int, end as int).unwrap(),
        )),
{
    if start > end || end > src.len() {
        return false;
    }
    if end - start < pat.len() {
        return false;
    }
    let ghost text = src@.subrange(start as int, end as int);
    let mut i: usize = 0;
    while i < pat.len()
        invariant
            i <= pat.len(),
            start <= end <= src.len(),
            end - start >= pat.len(),
            text == src@.subrange(start as int, end as int),
            forall|k: int| 0 <= k < i ==> text[k] == pat@[k],
        decreases pat.len() - i,
    {
        if src[start + i] != pat[i] {
            return false;
        }
        i += 1;
    }
    true
}

/// Whether two byte offsets cut a string out of `code`: they lie inside it,
/// in order, on character boundaries.
pub fn valid_span(code: &str, start: usize, end: usize) -> (r: bool)
    ensures
        r == (start <= end <= code.spec_bytes().len() && is_char_boundary(
            code.spec_bytes(),
            start as int,
        ) && is_char_boundary(code.spec_bytes(), end as int)),
{
    start <= end && end <= code.as_bytes().len() && code.is_char_boundary(start)
        && code.is_char_boundary(end)
}

/// The text of `code` between two byte offsets as an owned string, where the
/// offsets lie inside `code` on character boundaries.
pub fn substring(code: &str, start: usize, end: usize) -> (r: Option<String>)
    ensures
        r is Some <==> (start <= end <= code.spec_bytes().len() && is_char_boundary(
            code.spec_bytes(),
            start as int,
        ) && is_char_boundary(code.spec_bytes(), end as int)),
        r is Some ==> encode_utf8(r.unwrap()@) == code.spec_bytes().subrange(
            start as int,
            end as int,
        ),
        r is Some ==> r.unwrap()@ == decode_utf8(
            code.spec_bytes().subrange(start as int, end as int),
        ),
{
    broadcast use group_utf8_lib;

    if start > end || end > code.as_bytes().len() {
        return None;
    }
    if !code.is_char_boundary(start) || !code.is_char_boundary(end) {
        return None;
    }
    let (head, _) = code.split_at(end);
    proof {
        lemma_boundary_in_prefix(code.spec_bytes(), start as int, end as int);
    }
    let (_, body) = head.split_at(start);
    proof {
        encode_utf8_decode_utf8(body@);
    }
    Some(body.to_owned())
}

/// A character boundary of a text is one of each prefix that reaches it.
pub proof fn lemma_boundary_in_prefix(bytes: Seq<u8>, start: int, end: int)
    requires
        valid_utf8(bytes),
        0 <= start <= end <= bytes.len(),
        is_char_boundary(bytes, start),
        is_char_boundary(bytes, end),
    ensures
        valid_utf8(bytes.subrange(0, end)),
        is_char_boundary(bytes.subrange(0, end), start),
{
    broadcast use group_utf8_lib;

    valid_utf8_split(bytes, end);
    let head = bytes.subrange(0, end);
    if start == end {
        is_char_boundary_start_end_of_seq(head);
    } else {
        is_char_boundary_iff_not_is_continuation_byte(bytes, start);
        is_char_boundary_iff_not_is_continuation_byte(head, start);
    }
}

/// Whether `needle` occurs in `hay`.
pub open spec fn occurs_in(hay: Seq<u8>, needle: Seq<u8>) -> bool {
    exists|i: int|
        0 <= i && i + needle.len() <= hay.len() && #[trigger] hay.subrange(i, i + needle.len())
            == needle
}

/// Whether `needle` occurs in `hay`.
pub fn contains_bytes(hay: &[u8], needle: &[u8]) -> (r: bool)
    ensures
        r == occurs_in(hay@, needle@),
{
    if needle.len() > hay.len() {
        return false;
    }
    let last = hay.len() - needle.len();
    let mut i: usize = 0;
    loop
        invariant
            i <= last,
            last + needle@.len() == hay@.len(),
            hay@.len() <= usize::MAX,
            forall|k: int| 0 <= k < i ==> #[trigger] hay@.subrange(k, k + needle@.len()) != needle@,
        decreases last - i,
    {
        if slice_matches(hay, i, i + needle.len(), needle) {
            return true;
        }
        if i == last {
            return false;
        }
        i += 1;
    }
}

/// The character of a decimal digit.
pub open spec fn digit_char(d: nat) -> char {
    if d == 0 {
        '0'
    } else if d == 1 {
        '1'
    } else if d == 2 {
        '2'
    } else if d == 3 {
        '3'
    } else if d == 4 {
        '4'
    } else if d == 5 {
        '5'
    } else if d == 6 {
        '6'
    } else if d == 7 {
        '7'
    } else if d == 8 {
        '8'
    } else {
        '9'
    }
}

/// The decimal numeral of `n`, without leading zeros.
pub open spec fn decimal_text(n: nat) -> Seq<char>
    decreases n,
{
    if n < 10 {
        seq![digit_char(n)]
    } else {
        decimal_text(n / 10).push(digit_char(n % 10))
    }
}

fn digit_str(d: u64) -> (r: &'static str)
    requires
        d < 10,
    ensures
        r@ == seq![digit_char(d as nat)],
{
    proof {
        reveal_strlit("0");
        reveal_strlit("1");
        reveal_strlit("2");
        reveal_strlit("3");
        reveal_strlit("4");
        reveal_strlit("5");
        reveal_strlit("6");
        reveal_strlit("7");
        reveal_strlit("8");
        reveal_strlit("9");
    }
    let r = if d == 0 {
        "0"
    } else if d == 1 {
        "1"
    } else if d == 2 {
        "2"
    } else if d == 3 {
        "3"
    } else if d == 4 {
        "4"
    } else if d == 5 {
        "5"
    } else if d == 6 {
        "6"
    } else if d == 7 {
        "7"
    } else if d == 8 {
        "8"
    } else {
        "9"
    };
    r
}

/// Renders `n` in decimal.
pub fn decimal(n: u64) -> (r: String)
    ensures
        r@ == decimal_text(n as nat),
    decreases n,
{
    if n < 10 {
        String::from_str(digit_str(n))
    } else {
        let head = decimal(n / 10);
        let r = head.concat(digit_str(n % 10));
        r
    }
}

/// The number that a sequence of decimal digits writes.
pub open spec fn digits_value(s: Seq<u8>) -> nat
    decreases s.len(),
{
    if s.len() == 0 {
        0
    } else {
        digits_value(s.drop_last()) * 10 + (s.last() - 48) as nat
    }
}

/// Whether every byte is a decimal digit.
pub open spec fn all_digits(s: Seq<u8>) -> bool {
    forall|i: int| 0 <= i < s.len() ==> 48 <= #[trigger] s[i] <= 57
}

/// The digits of a numeral: what follows an optional plus sign.
pub open spec fn numeral_digits(s: Seq<u8>) -> Seq<u8> {
    if s.len() > 0 && s[0] == 43 {
        s.subrange(1, s.len() as int)
    } else {
        s
    }
}

/// The `u64` that a text writes in decimal: an optional plus sign, then
/// one or more digits, the number no larger than `u64::MAX`.
pub open spec fn decimal_u64(s: Seq<u8>) -> Option<u64> {
    let digits = numeral_digits(s);
    if digits.len() > 0 && all_digits(digits) && digits_value(digits) <= u64::MAX {
        Some(digits_value(digits) as u64)
    } else {
        None
    }
}

proof fn lemma_digits_prefix(s: Seq<u8>, i: int, j: int)
    requires
        0 <= i <= j <= s.len(),
    ensures
        digits_value(s.subrange(0, i)) <= digits_value(s.subrange(0, j)),
    decreases j - i,
{
    if i < j {
        lemma_digits_prefix(s, i, j - 1);
        assert(s.subrange(0, j).drop_last() =~= s.subrange(0, j - 1));
        assert(digits_value(s.subrange(0, j - 1)) * 10 >= digits_value(s.subrange(0, j - 1)))
            by (nonlinear_arith);
    }
}

/// Reads a `u64` written in decimal.
pub fn parse_u64(text: &str) -> (r: Option<u64>)
    ensures
        r == decimal_u64(text.spec_bytes()),
{
    let bytes = text.as_bytes();
    let start: usize = if bytes.len() > 0 && bytes[0] == 43 {
        1
    } else {
        0
    };
    let ghost digits = numeral_digits(bytes@);
    if start >= bytes.len() {
        return None;
    }
    let mut value: u64 = 0;
    let mut i: usize = start;
    while i < bytes.len()
        invariant
            start <= i <= bytes@.len(),
            bytes@ == text.spec_bytes(),
            digits == numeral_digits(bytes@),
            digits.len() > 0,
            digits == bytes@.subrange(start as int, bytes@.len() as int),
            value == digits_value(digits.subrange(0, i - start)),
            forall|k: int| 0 <= k < i - start ==> 48 <= #[trigger] digits[k] <= 57,
        decreases bytes@.len() - i,
    {
        let b = bytes[i];
        assert(digits[i - start] == b);
        if b < 48 || b > 57 {
            return None;
        }
        let d = (b - 48) as u64;
        proof {
            let longer = digits.subrange(0, i - start + 1);
            assert(longer.drop_last() =~= digits.subrange(0, i - start));
            lemma_digits_prefix(digits, i - start + 1, digits.len() as int);
            assert(digits.subrange(0, digits.len() as int) =~= digits);
        }
        if value > (u64::MAX - d) / 10 {
            return None;
        }
        value = value * 10 + d;
        i += 1;
    }
    assert(digits.subrange(0, digits.len() as int) =~= digits);
    Some(value)
}

} // verus!
