//! Text stored in fields: decoding, trimming, and the decimal number form.
use vstd::prelude::*;
use vstd::string::StrSliceExecFns;
use vstd::utf8::{decode_utf8, valid_utf8};

verus! {

/// The characters that `String::from_utf8_lossy` gives for a byte sequence.
pub uninterp spec fn utf8_lossy(b: Seq<u8>) -> Seq<char>;

/// The characters that `str::trim` leaves of a text.
pub uninterp spec fn trimmed(s: Seq<char>) -> Seq<char>;

/// Relies on `String::from_utf8_lossy`: decodes bytes as UTF-8, putting a
/// replacement character for each invalid sequence, and never fails; valid
/// UTF-8 is decoded as it stands.
#[verifier::external_body]
pub(crate) fn lossy_text(b: &[u8]) -> (r: String)
    ensures
        r@ == utf8_lossy(b@),
        valid_utf8(b@) ==> r@ == decode_utf8(b@),
{
    String::from_utf8_lossy(b).into_owned()
}

/// Relies on `str::trim`: the text with leading and trailing white space
/// removed.
#[verifier::external_body]
pub(crate) fn trim_text(s: &str) -> (r: String)
    ensures
        r@ == trimmed(s@),
{
    s.trim().to_owned()
}

/// An ASCII decimal digit.
pub open spec fn is_ascii_digit(c: char) -> bool {
    '0' <= c && c <= '9'
}

/// The number of consecutive digits of `s` from position `i` on.
pub open spec fn digit_run(s: Seq<char>, i: int) -> nat
    decreases s.len() - i,
{
    if 0 <= i < s.len() && is_ascii_digit(s[i]) {
        1 + digit_run(s, i + 1)
    } else {
        0
    }
}

/// The length of a sign at position `i`: one where `+` or `-` stands there.
pub open spec fn sign_len(s: Seq<char>, i: int) -> int {
    if 0 <= i < s.len() && (s[i] == '+' || s[i] == '-') {
        1
    } else {
        0
    }
}

/// From position `q` on, `s` is empty or an exponent: `e` or `E`, an
/// optional sign and at least one digit, up to the end.
pub open spec fn is_exponent_from(s: Seq<char>, q: int) -> bool {
    ||| q == s.len()
    ||| {
        &&& 0 <= q < s.len()
        &&& (s[q] == 'e' || s[q] == 'E')
        &&& digit_run(s, q + 1 + sign_len(s, q + 1)) > 0
        &&& q + 1 + sign_len(s, q + 1) + digit_run(s, q + 1 + sign_len(s, q + 1)) == s.len()
    }
}

/// Position after the optional sign and the integer digits.
pub open spec fn int_part_end(s: Seq<char>) -> int {
    sign_len(s, 0) + digit_run(s, sign_len(s, 0))
}

/// A point stands after the integer digits.
pub open spec fn has_point(s: Seq<char>) -> bool {
    int_part_end(s) < s.len() && s[int_part_end(s)] == '.'
}

/// The number of digits after the point.
pub open spec fn frac_len(s: Seq<char>) -> nat {
    if has_point(s) {
        digit_run(s, int_part_end(s) + 1)
    } else {
        0
    }
}

/// Position after the integer digits, the point and the fraction digits.
pub open spec fn mantissa_end(s: Seq<char>) -> int {
    if has_point(s) {
        int_part_end(s) + 1 + frac_len(s)
    } else {
        int_part_end(s)
    }
}

/// A decimal number: an optional sign, digits with an optional point
/// among or after them (at least one digit in all), and an optional
/// exponent.
pub open spec fn is_decimal_text(s: Seq<char>) -> bool {
    &&& digit_run(s, sign_len(s, 0)) + frac_len(s) > 0
    &&& is_exponent_from(s, mantissa_end(s))
}

/// Counts the consecutive digits of `s` from position `i` on.
fn count_digits(s: &str, len: usize, i: usize) -> (r: usize)
    requires
        len == s@.len(),
        i <= len,
    ensures
        r == digit_run(s@, i as int),
        i + r <= len,
{
    let mut j = i;
    while j < len && is_digit_char(s.get_char(j))
        invariant
            len == s@.len(),
            i <= j <= len,
            digit_run(s@, i as int) == (j - i) + digit_run(s@, j as int),
        decreases len - j,
    {
        j = j + 1;
    }
    j - i
}

fn is_digit_char(c: char) -> (r: bool)
    ensures
        r == is_ascii_digit(c),
{
    '0' <= c && c <= '9'
}

/// Whether `s` has a sign at position `i`; 1 where it has, else 0.
fn sign_at(s: &str, len: usize, i: usize) -> (r: usize)
    requires
        len == s@.len(),
    ensures
        r == sign_len(s@, i as int),
{
    if i < len {
        let c = s.get_char(i);
        if c == '+' || c == '-' {
            1
        } else {
            0
        }
    } else {
        0
    }
}

/// Whether the text is a decimal number.
pub fn is_decimal(s: &str) -> (r: bool)
    ensures
        r == is_decimal_text(s@),
{
    let len = s.unicode_len();
    let a = sign_at(s, len, 0);
    let d1 = count_digits(s, len, a);
    let p = a + d1;
    let point = p < len && s.get_char(p) == '.';
    let d2 = if point {
        count_digits(s, len, p + 1)
    } else {
        0
    };
    let q = if point {
        p + 1 + d2
    } else {
        p
    };
    if d1 + d2 == 0 {
        return false;
    }
    if q == len {
        return true;
    }
    let c = s.get_char(q);
    if c != 'e' && c != 'E' {
        return false;
    }
    let e = q + 1 + sign_at(s, len, q + 1);
    if e > len {
        return false;
    }
    let d3 = count_digits(s, len, e);
    d3 > 0 && e + d3 == len
}

} // verus!
