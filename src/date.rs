//! The calendar date of the format, in its packed three-byte form and its
//! eight-digit text form `YYYYMMDD`.
use vstd::prelude::*;

use vstd::string::StringSliceAdditionalSpecFns;

use crate::error::Error;

verus! {

/// The first year that the packed form can hold; its first byte counts the
/// years after this one.
pub const BASE_YEAR: u32 = 1900;

/// The last year that the packed form can hold.
pub const LAST_YEAR: u32 = 2155;

/// The width of the text form of a date.
pub const DATE_TEXT_LEN: usize = 8;

/// An ASCII decimal digit.
pub open spec fn is_digit(b: u8) -> bool {
    0x30 <= b <= 0x39
}

/// Every byte of `s` is an ASCII decimal digit.
pub open spec fn all_digits(s: Seq<u8>) -> bool {
    forall|i: int| 0 <= i < s.len() ==> is_digit(#[trigger] s[i])
}

/// The number that a run of ASCII decimal digits writes, most significant
/// digit first.
pub open spec fn digits_value(s: Seq<u8>) -> nat
    decreases s.len(),
{
    if s.len() == 0 {
        0
    } else {
        digits_value(s.drop_last()) * 10 + (s.last() - 0x30) as nat
    }
}

/// The ASCII digit of `d`, for `d` below ten.
pub open spec fn digit_byte(d: int) -> u8 {
    (d + 0x30) as u8
}

/// A date: year, month and day, with no range imposed on reading.
#[derive(Debug, Clone, Copy, PartialEq, Eq, Structural)]
pub struct Date {
    pub year: u32,
    pub month: u32,
    pub day: u32,
}

impl Date {
    /// The date can be written in the packed form.
    pub open spec fn is_valid(self) -> bool {
        &&& self.month <= 12
        &&& self.day <= 31
        &&& BASE_YEAR <= self.year <= LAST_YEAR
    }

    /// The packed form: years after 1900, month, day.
    pub open spec fn packed(self) -> Seq<u8> {
        seq![(self.year - BASE_YEAR) as u8, self.month as u8, self.day as u8]
    }

    /// The date that three packed bytes stand for.
    pub open spec fn from_packed(b: Seq<u8>) -> Date {
        Date { year: (BASE_YEAR + b[0]) as u32, month: b[1] as u32, day: b[2] as u32 }
    }

    /// Text is a date in the eight-digit form.
    pub open spec fn is_date_text(s: Seq<u8>) -> bool {
        s.len() == DATE_TEXT_LEN && all_digits(s)
    }

    /// The date that eight-digit text `YYYYMMDD` writes.
    pub open spec fn from_text(s: Seq<u8>) -> Date {
        Date {
            year: digits_value(s.subrange(0, 4)) as u32,
            month: digits_value(s.subrange(4, 6)) as u32,
            day: digits_value(s.subrange(6, 8)) as u32,
        }
    }

    /// The eight-digit text form `YYYYMMDD`, for a date whose year has at
    /// most four digits and whose month and day have at most two.
    pub open spec fn text(self) -> Seq<u8> {
        seq![
            digit_byte((self.year / 1000) as int),
            digit_byte(((self.year / 100) % 10) as int),
            digit_byte(((self.year / 10) % 10) as int),
            digit_byte((self.year % 10) as int),
            digit_byte((self.month / 10) as int),
            digit_byte((self.month % 10) as int),
            digit_byte((self.day / 10) as int),
            digit_byte((self.day % 10) as int),
        ]
    }

    /// Reads the packed form; no range is checked.
    pub fn from_bytes(bytes: [u8; 3]) -> (r: Date)
        ensures
            r == Date::from_packed(bytes@),
    {
        Date { year: BASE_YEAR + bytes[0] as u32, month: bytes[1] as u32, day: bytes[2] as u32 }
    }

    /// Checks that the date can be written in the packed form.
    pub fn validate(&self) -> (r: Result<(), Error>)
        ensures
            r is Ok <==> self.is_valid(),
            r is Err ==> r == Err::<(), Error>(Error::InvalidDate),
    {
        if self.month > 12 || self.day > 31 || self.year < BASE_YEAR || self.year > LAST_YEAR {
            Err(Error::InvalidDate)
        } else {
            Ok(())
        }
    }

    /// Appends the packed form, after checking the range; on failure nothing
    /// is written.
    pub fn write_to(&self, dest: &mut Vec<u8>) -> (r: Result<(), Error>)
        ensures
            r is Ok <==> self.is_valid(),
            r is Ok ==> final(dest)@ == old(dest)@ + self.packed(),
            r is Err ==> r == Err::<(), Error>(Error::InvalidDate) && final(dest)@ == old(dest)@,
    {
        self.validate()?;
        dest.push((self.year - BASE_YEAR) as u8);
        dest.push(self.month as u8);
        dest.push(self.day as u8);
        assert(final(dest)@ =~= old(dest)@ + self.packed());
        Ok(())
    }

    /// Reads the eight-digit text form `YYYYMMDD` from `len` bytes at `pos`;
    /// no range is checked.
    pub fn from_text_bytes(src: &[u8], pos: usize, len: usize) -> (r: Result<Date, Error>)
        requires
            pos + len <= src@.len(),
        ensures
            r is Ok <==> Date::is_date_text(src@.subrange(pos as int, pos + len)),
            r is Ok ==> r == Ok::<Date, Error>(
                Date::from_text(src@.subrange(pos as int, pos + len)),
            ),
            r is Err ==> r == Err::<Date, Error>(Error::ParseDate),
    {
        let ghost s = src@.subrange(pos as int, pos + len);
        let n = src.len();
        if len != DATE_TEXT_LEN {
            return Err(Error::ParseDate);
        }
        let year = parse_digits(src, pos, 4);
        let month = parse_digits(src, pos + 4, 2);
        let day = parse_digits(src, pos + 6, 2);
        assert(s.subrange(0, 4) =~= src@.subrange(pos as int, pos + 4));
        assert(s.subrange(4, 6) =~= src@.subrange(pos + 4, pos + 6));
        assert(s.subrange(6, 8) =~= src@.subrange(pos + 6, pos + 8));
        match (year, month, day) {
            (Some(year), Some(month), Some(day)) => {
                assert(all_digits(s)) by {
                    assert forall|i: int| 0 <= i < s.len() implies is_digit(#[trigger] s[i]) by {
                        if i < 4 {
                            assert(s[i] == s.subrange(0, 4)[i]);
                        } else if i < 6 {
                            assert(s[i] == s.subrange(4, 6)[i - 4]);
                        } else {
                            assert(s[i] == s.subrange(6, 8)[i - 6]);
                        }
                    }
                }
                Ok(Date { year, month, day })
            },
            _ => {
                assert(!all_digits(s)) by {
                    if all_digits(s) {
                        assert(all_digits(s.subrange(0, 4)));
                        assert(all_digits(s.subrange(4, 6)));
                        assert(all_digits(s.subrange(6, 8)));
                    }
                }
                Err(Error::ParseDate)
            },
        }
    }

    /// Reads the eight-digit text form `YYYYMMDD`; no range is checked.
    pub fn from_str(s: &str) -> (r: Result<Date, Error>)
        ensures
            r is Ok <==> Date::is_date_text(s.spec_bytes()),
            r is Ok ==> r == Ok::<Date, Error>(Date::from_text(s.spec_bytes())),
            r is Err ==> r == Err::<Date, Error>(Error::ParseDate),
    {
        let b = s.as_bytes();
        let r = Date::from_text_bytes(b, 0, b.len());
        assert(b@.subrange(0, b@.len() as int) =~= b@);
        r
    }

    /// Appends the eight-digit text form `YYYYMMDD`.
    pub fn write_text(&self, dest: &mut Vec<u8>)
        requires
            self.year <= 9999,
            self.month <= 99,
            self.day <= 99,
        ensures
            final(dest)@ == old(dest)@ + self.text(),
    {
        dest.push((self.year / 1000 + 0x30) as u8);
        dest.push(((self.year / 100) % 10 + 0x30) as u8);
        dest.push(((self.year / 10) % 10 + 0x30) as u8);
        dest.push((self.year % 10 + 0x30) as u8);
        dest.push((self.month / 10 + 0x30) as u8);
        dest.push((self.month % 10 + 0x30) as u8);
        dest.push((self.day / 10 + 0x30) as u8);
        dest.push((self.day % 10 + 0x30) as u8);
        assert(final(dest)@ =~= old(dest)@ + self.text());
    }
}

/// The number written by up to four decimal digits is below ten thousand.
proof fn lemma_digits_bound(s: Seq<u8>)
    requires
        all_digits(s),
    ensures
        s.len() <= 4 ==> digits_value(s) < 10000,
        s.len() <= 3 ==> digits_value(s) < 1000,
        s.len() <= 2 ==> digits_value(s) < 100,
        s.len() <= 1 ==> digits_value(s) < 10,
    decreases s.len(),
{
    if s.len() > 0 {
        assert(all_digits(s.drop_last())) by {
            assert forall|i: int| 0 <= i < s.len() - 1 implies is_digit(
                #[trigger] s.drop_last()[i],
            ) by {
                assert(s.drop_last()[i] == s[i]);
            }
        }
        lemma_digits_bound(s.drop_last());
        assert(is_digit(s[s.len() - 1]));
    }
}

/// Reads `width` ASCII decimal digits at `pos`, or nothing where one of the
/// bytes is no digit.
fn parse_digits(src: &[u8], pos: usize, width: usize) -> (r: Option<u32>)
    requires
        pos + width <= src@.len(),
        width <= 4,
    ensures
        r is Some <==> all_digits(src@.subrange(pos as int, pos + width)),
        r is Some ==> r->0 as nat == digits_value(src@.subrange(pos as int, pos + width)),
{
    let n = src.len();
    let mut v: u32 = 0;
    let mut i: usize = 0;
    while i < width
        invariant
            n == src@.len(),
            pos + width <= src@.len(),
            width <= 4,
            i <= width,
            all_digits(src@.subrange(pos as int, pos + i)),
            v as nat == digits_value(src@.subrange(pos as int, pos + i)),
        decreases width - i,
    {
        let ghost prefix = src@.subrange(pos as int, pos + i);
        let ghost next = src@.subrange(pos as int, pos + i + 1);
        let b = src[pos + i];
        assert(next.drop_last() =~= prefix);
        if b < 0x30 || b > 0x39 {
            assert(!all_digits(src@.subrange(pos as int, pos + width))) by {
                assert(src@.subrange(pos as int, pos + width)[i as int] == b);
            }
            return None;
        }
        proof {
            lemma_digits_bound(prefix);
        }
        v = v * 10 + (b - 0x30) as u32;
        i = i + 1;
        assert(all_digits(next)) by {
            assert forall|k: int| 0 <= k < next.len() implies is_digit(#[trigger] next[k]) by {
                if k < next.len() - 1 {
                    assert(next[k] == prefix[k]);
                }
            }
        }
    }
    Some(v)
}

/// A date in range survives writing and reading the text form.
pub proof fn lemma_text_round_trip(d: Date)
    requires
        d.is_valid(),
    ensures
        Date::is_date_text(d.text()),
        Date::from_text(d.text()) == d,
{
    let t = d.text();
    let y = d.year as int;
    let m = d.month as int;
    let dd = d.day as int;
    assert(all_digits(t));
    reveal_with_fuel(digits_value, 5);
    assert(t.subrange(0, 4).drop_last().drop_last().drop_last() =~= seq![t[0]]);
    assert(t.subrange(0, 4).drop_last().drop_last() =~= seq![t[0], t[1]]);
    assert(t.subrange(0, 4).drop_last() =~= seq![t[0], t[1], t[2]]);
    assert(seq![t[0]].drop_last() =~= Seq::<u8>::empty());
    assert(t.subrange(4, 6).drop_last() =~= seq![t[4]]);
    assert(seq![t[4]].drop_last() =~= Seq::<u8>::empty());
    assert(t.subrange(6, 8).drop_last() =~= seq![t[6]]);
    assert(seq![t[6]].drop_last() =~= Seq::<u8>::empty());
    assert(((y / 1000 * 10 + (y / 100) % 10) * 10 + (y / 10) % 10) * 10 + y % 10 == y) by (
    nonlinear_arith)
        requires
            0 <= y <= 9999,
    ;
    assert(m / 10 * 10 + m % 10 == m);
    assert(dd / 10 * 10 + dd % 10 == dd);
}

/// A date in range survives writing and reading the packed form.
pub proof fn lemma_packed_round_trip(d: Date)
    requires
        d.is_valid(),
    ensures
        d.packed().len() == 3,
        Date::from_packed(d.packed()) == d,
{
}

} // verus!
