//! Field kinds, field descriptors and the values stored in record fields.
use vstd::prelude::*;

use vstd::utf8::encode_utf8;

use crate::bytes::{
    bits_of_signed,
    lemma_i32_round_trip,
    lemma_u32_round_trip,
    lemma_u64_round_trip,
    le_bytes_u32,
    le_bytes_u64,
    le_u32,
    le_u64,
    push_i32_le,
    push_u32_le,
    push_u64_le,
    read_i32_le,
    read_u32_le,
    read_u64_le,
    signed_of_bits,
};
use crate::date::{lemma_text_round_trip, Date, DATE_TEXT_LEN};
use crate::error::Error;
use crate::text::{is_decimal, is_decimal_text, lossy_text, trim_text, trimmed, utf8_lossy};

verus! {

/// The kind of a field, named by a one-character tag in the field table.
/// The last five kinds have no tag yet, and are never decoded.
#[derive(Debug, Clone, Copy, PartialEq, Eq, Structural)]
pub enum FieldType {
    Character,
    Currency,
    Numeric,
    Float,
    Date,
    DateTime,
    Double,
    Integer,
    Logical,
    Memo,
    General,
    BinaryCharacter,
    BinaryMemo,
    Picture,
    Varbinary,
    BinaryVarchar,
}

/// The kind that a one-character tag names, if any.
pub open spec fn field_type_of_code(c: char) -> Option<FieldType> {
    if c == 'C' {
        Some(FieldType::Character)
    } else if c == 'Y' {
        Some(FieldType::Currency)
    } else if c == 'N' {
        Some(FieldType::Numeric)
    } else if c == 'F' {
        Some(FieldType::Float)
    } else if c == 'D' {
        Some(FieldType::Date)
    } else if c == 'T' {
        Some(FieldType::DateTime)
    } else if c == 'B' {
        Some(FieldType::Double)
    } else if c == 'I' {
        Some(FieldType::Integer)
    } else if c == 'L' {
        Some(FieldType::Logical)
    } else if c == 'M' {
        Some(FieldType::Memo)
    } else if c == 'G' {
        Some(FieldType::General)
    } else {
        None
    }
}

impl FieldType {
    /// Looks a tag up, for callers that can do without a kind.
    pub fn from(c: char) -> (r: Option<FieldType>)
        ensures
            r == field_type_of_code(c),
    {
        match c {
            'C' => Some(FieldType::Character),
            'Y' => Some(FieldType::Currency),
            'N' => Some(FieldType::Numeric),
            'F' => Some(FieldType::Float),
            'D' => Some(FieldType::Date),
            'T' => Some(FieldType::DateTime),
            'B' => Some(FieldType::Double),
            'I' => Some(FieldType::Integer),
            'L' => Some(FieldType::Logical),
            'M' => Some(FieldType::Memo),
            'G' => Some(FieldType::General),
            _ => None,
        }
    }

    /// Looks a tag up; a tag that names no kind is an error.
    pub fn try_from(c: char) -> (r: Result<FieldType, Error>)
        ensures
            field_type_of_code(c) matches Some(t) ==> r == Ok::<FieldType, Error>(t),
            field_type_of_code(c) is None ==> r == Err::<FieldType, Error>(
                Error::InvalidFieldType(c),
            ),
    {
        match FieldType::from(c) {
            Some(t) => Ok(t),
            None => Err(Error::InvalidFieldType(c)),
        }
    }
}

/// What the codec needs to know of a field from the field table: its kind
/// and the number of bytes that it takes in a record.
#[derive(Debug, Clone, Copy, PartialEq, Eq, Structural)]
pub struct RecordFieldInfo {
    pub field_type: FieldType,
    pub record_length: u8,
}

/// A value read from a record field.
///
/// Numeric values are kept as their decimal text, and floating-point values
/// as their IEEE 754 bit patterns; `Float` holds the bits of an `f32`,
/// `Double` those of an `f64`.
#[derive(Debug, Clone, PartialEq)]
pub enum FieldValue {
    Character(String),
    Numeric(String),
    Logical(bool),
    Integer(i32),
    Float(u32),
    Double(u64),
    Date(Date),
}

/// The mathematical model of a field value: texts as character sequences.
pub enum FieldValueView {
    Character(Seq<char>),
    Numeric(Seq<char>),
    Logical(bool),
    Integer(i32),
    Float(u32),
    Double(u64),
    Date(Date),
}

impl View for FieldValue {
    type V = FieldValueView;

    open spec fn view(&self) -> FieldValueView {
        match self {
            FieldValue::Character(s) => FieldValueView::Character(s@),
            FieldValue::Numeric(s) => FieldValueView::Numeric(s@),
            FieldValue::Logical(b) => FieldValueView::Logical(*b),
            FieldValue::Integer(i) => FieldValueView::Integer(*i),
            FieldValue::Float(u) => FieldValueView::Float(*u),
            FieldValue::Double(u) => FieldValueView::Double(*u),
            FieldValue::Date(d) => FieldValueView::Date(*d),
        }
    }
}

/// A byte that a logical field reads as true: `1`, `T`, `t`, `Y` or `y`.
pub open spec fn is_true_byte(b: u8) -> bool {
    b == 0x31 || b == 0x54 || b == 0x74 || b == 0x59 || b == 0x79
}

/// The byte that a logical value is written as: `T` or `F`.
pub open spec fn logical_byte(v: bool) -> u8 {
    if v {
        0x54
    } else {
        0x46
    }
}

/// `n` ASCII spaces.
pub open spec fn spaces(n: nat) -> Seq<u8> {
    Seq::new(n, |i: int| 0x20u8)
}

/// The number of bytes that a value of kind `t` takes in a record, where
/// the field's width is `record_length`; nothing for a kind that this codec
/// does not handle.
pub open spec fn value_width(t: FieldType, record_length: u8) -> Option<nat> {
    match t {
        FieldType::Logical => Some(1),
        FieldType::Integer => Some(4),
        FieldType::Float => Some(4),
        FieldType::Double => Some(8),
        FieldType::Character => Some(record_length as nat),
        FieldType::Numeric => Some(record_length as nat),
        FieldType::Date => Some(record_length as nat),
        _ => None,
    }
}

/// The value that the bytes `b` of a field of kind `t` hold, or the reason
/// that they hold none.
pub open spec fn decode_value(t: FieldType, b: Seq<u8>) -> Result<FieldValueView, Error> {
    match t {
        FieldType::Logical => Ok(FieldValueView::Logical(is_true_byte(b[0]))),
        FieldType::Integer => Ok(FieldValueView::Integer(signed_of_bits(le_u32(b)) as i32)),
        FieldType::Float => Ok(FieldValueView::Float(le_u32(b) as u32)),
        FieldType::Double => Ok(FieldValueView::Double(le_u64(b) as u64)),
        FieldType::Character => Ok(FieldValueView::Character(trimmed(utf8_lossy(b)))),
        FieldType::Numeric => numeric_of_text(trimmed(utf8_lossy(b))),
        FieldType::Date => if Date::is_date_text(b) {
            Ok(FieldValueView::Date(Date::from_text(b)))
        } else {
            Err(Error::ParseDate)
        },
        _ => Err(Error::UnsupportedFieldKind(t)),
    }
}

/// The numeric value that trimmed text holds, or a parse error.
pub open spec fn numeric_of_text(t: Seq<char>) -> Result<FieldValueView, Error> {
    if is_decimal_text(t) {
        Ok(FieldValueView::Numeric(t))
    } else {
        Err(Error::ParseNumeric)
    }
}

/// The outcome of reading a field of kind `t` and width `record_length` at
/// `pos` of `src`: the value and the position after it, or an error.
pub open spec fn read_outcome(src: Seq<u8>, pos: int, t: FieldType, record_length: u8) -> Result<
    (FieldValueView, int),
    Error,
> {
    match value_width(t, record_length) {
        None => Err(Error::UnsupportedFieldKind(t)),
        Some(w) => if pos + w > src.len() {
            Err(Error::UnexpectedEnd)
        } else {
            match decode_value(t, src.subrange(pos, pos + w)) {
                Ok(v) => Ok((v, pos + w)),
                Err(e) => Err(e),
            }
        },
    }
}

/// The bytes that a value is written as in a field of kind `t` and width
/// `width`, or the reason that it cannot be written there.
pub open spec fn encode_value(v: FieldValueView, t: FieldType, width: nat) -> Result<Seq<u8>, Error> {
    match (v, t) {
        (FieldValueView::Logical(b), FieldType::Logical) => Ok(seq![logical_byte(b)]),
        (FieldValueView::Integer(i), FieldType::Integer) => Ok(le_bytes_u32(bits_of_signed(i))),
        (FieldValueView::Float(u), FieldType::Float) => Ok(le_bytes_u32(u)),
        (FieldValueView::Double(u), FieldType::Double) => Ok(le_bytes_u64(u)),
        (FieldValueView::Date(d), FieldType::Date) => if !d.is_valid() {
            Err(Error::InvalidDate)
        } else if width != DATE_TEXT_LEN {
            Err(Error::ValueMismatch)
        } else {
            Ok(d.text())
        },
        (FieldValueView::Character(s), FieldType::Character) => if encode_utf8(s).len() > width {
            Err(Error::ValueMismatch)
        } else {
            Ok(encode_utf8(s) + spaces((width - encode_utf8(s).len()) as nat))
        },
        (FieldValueView::Numeric(s), FieldType::Numeric) => if !is_decimal_text(s) {
            Err(Error::ParseNumeric)
        } else if encode_utf8(s).len() > width {
            Err(Error::ValueMismatch)
        } else {
            Ok(spaces((width - encode_utf8(s).len()) as nat) + encode_utf8(s))
        },
        _ => if value_width(t, 0) is None {
            Err(Error::UnsupportedFieldKind(t))
        } else {
            Err(Error::ValueMismatch)
        },
    }
}

/// A logical, integer, floating-point or date value that can be written to
/// a field is written in as many bytes as the field's kind takes, and
/// reading those bytes back as that kind gives the value again.
pub proof fn lemma_value_round_trip(v: FieldValueView, t: FieldType, width: u8)
    requires
        encode_value(v, t, width as nat) is Ok,
        !(t is Character || t is Numeric),
    ensures
        encode_value(v, t, width as nat) matches Ok(b) && value_width(t, width) == Some(b.len())
            && decode_value(t, b) == Ok::<FieldValueView, Error>(v),
{
    match v {
        FieldValueView::Integer(i) => {
            lemma_i32_round_trip(i);
            lemma_u32_round_trip(bits_of_signed(i));
        },
        FieldValueView::Float(u) => {
            lemma_u32_round_trip(u);
        },
        FieldValueView::Double(u) => {
            lemma_u64_round_trip(u);
        },
        FieldValueView::Date(d) => {
            lemma_text_round_trip(d);
        },
        _ => {},
    }
}

/// Whether `pos + width` lies within `len`, without overflow.
fn fits(len: usize, pos: usize, width: usize) -> (r: bool)
    ensures
        r == (pos + width <= len),
{
    width <= len && pos <= len - width
}

/// Reads `len` bytes at `pos` as text, putting a replacement character for
/// each invalid UTF-8 sequence, and gives the position after them.
pub fn read_string_of_len(source: &[u8], pos: usize, len: u8) -> (r: Result<(String, usize), Error>)
    ensures
        r is Ok <==> pos + len <= source@.len(),
        r matches Ok((s, end)) ==> end == pos + len && s@ == utf8_lossy(
            source@.subrange(pos as int, pos + len),
        ),
        r is Err ==> r == Err::<(String, usize), Error>(Error::UnexpectedEnd),
{
    let n = source.len();
    if !fits(n, pos, len as usize) {
        return Err(Error::UnexpectedEnd);
    }
    let mut bytes: Vec<u8> = Vec::new();
    let mut i: usize = 0;
    while i < len as usize
        invariant
            n == source@.len(),
            pos + len <= n,
            i <= len,
            bytes@ == source@.subrange(pos as int, pos + i),
        decreases len - i,
    {
        bytes.push(source[pos + i]);
        i = i + 1;
        assert(bytes@ =~= source@.subrange(pos as int, pos + i));
    }
    let s = lossy_text(bytes.as_slice());
    Ok((s, pos + len as usize))
}

/// Whether this codec reads and writes values of kind `t`.
fn is_supported(t: FieldType) -> (r: bool)
    ensures
        r == (value_width(t, 0) is Some),
{
    match t {
        FieldType::Logical | FieldType::Integer | FieldType::Float | FieldType::Double
        | FieldType::Character | FieldType::Numeric | FieldType::Date => true,
        _ => false,
    }
}

impl RecordFieldInfo {
    /// The number of bytes that a value of this field takes in a record;
    /// nothing for a kind that this codec does not handle.
    pub fn value_len(&self) -> (r: Option<usize>)
        ensures
            value_width(self.field_type, self.record_length) matches Some(w) ==> r == Some(
                w as usize,
            ),
            value_width(self.field_type, self.record_length) is None ==> r is None,
    {
        match self.field_type {
            FieldType::Logical => Some(1),
            FieldType::Integer | FieldType::Float => Some(4),
            FieldType::Double => Some(8),
            FieldType::Character | FieldType::Numeric | FieldType::Date => Some(
                self.record_length as usize,
            ),
            _ => None,
        }
    }
}

/// Appends the bytes of `src`.
fn push_bytes(dest: &mut Vec<u8>, src: &[u8])
    ensures
        final(dest)@ == old(dest)@ + src@,
{
    let ghost start = dest@;
    let n = src.len();
    let mut i: usize = 0;
    while i < n
        invariant
            n == src@.len(),
            i <= n,
            dest@ == start + src@.subrange(0, i as int),
        decreases n - i,
    {
        dest.push(src[i]);
        i = i + 1;
        assert(dest@ =~= start + src@.subrange(0, i as int));
    }
    assert(src@.subrange(0, n as int) =~= src@);
}

/// Appends `n` spaces.
fn push_spaces(dest: &mut Vec<u8>, n: usize)
    ensures
        final(dest)@ == old(dest)@ + spaces(n as nat),
{
    let ghost start = dest@;
    let mut i: usize = 0;
    while i < n
        invariant
            i <= n,
            dest@ == start + spaces(i as nat),
        decreases n - i,
    {
        dest.push(0x20);
        i = i + 1;
        assert(dest@ =~= start + spaces(i as nat));
    }
}

impl FieldValue {
    /// The numeric value that trimmed field text holds. A field of blanks
    /// trims to empty text, which is no number: it fails to parse like any
    /// other malformed text.
    pub fn numeric_from_text(t: &str) -> (r: Result<FieldValue, Error>)
        ensures
            r is Ok <==> numeric_of_text(t@) is Ok,
            r matches Ok(v) ==> numeric_of_text(t@) == Ok::<FieldValueView, Error>(v@),
            r is Err ==> r == Err::<FieldValue, Error>(Error::ParseNumeric),
    {
        if is_decimal(t) {
            Ok(FieldValue::Numeric(t.to_owned()))
        } else {
            Err(Error::ParseNumeric)
        }
    }

    /// Reads the value of a field described by `field_info` at `pos`, and
    /// gives the position after it.
    pub fn read_from(source: &[u8], pos: usize, field_info: &RecordFieldInfo) -> (r: Result<
        (FieldValue, usize),
        Error,
    >)
        ensures
            r is Ok <==> read_outcome(
                source@,
                pos as int,
                field_info.field_type,
                field_info.record_length,
            ) is Ok,
            r matches Ok((v, end)) ==> read_outcome(
                source@,
                pos as int,
                field_info.field_type,
                field_info.record_length,
            ) == Ok::<(FieldValueView, int), Error>((v@, end as int)),
            r matches Err(e) ==> read_outcome(
                source@,
                pos as int,
                field_info.field_type,
                field_info.record_length,
            ) == Err::<(FieldValueView, int), Error>(e),
    {
        let n = source.len();
        let len = field_info.record_length;
        match field_info.field_type {
            FieldType::Logical => {
                if !fits(n, pos, 1) {
                    return Err(Error::UnexpectedEnd);
                }
                let b = source[pos];
                let v = b == 0x31 || b == 0x54 || b == 0x74 || b == 0x59 || b == 0x79;
                Ok((FieldValue::Logical(v), pos + 1))
            },
            FieldType::Integer => {
                if !fits(n, pos, 4) {
                    return Err(Error::UnexpectedEnd);
                }
                Ok((FieldValue::Integer(read_i32_le(source, pos)), pos + 4))
            },
            FieldType::Float => {
                if !fits(n, pos, 4) {
                    return Err(Error::UnexpectedEnd);
                }
                Ok((FieldValue::Float(read_u32_le(source, pos)), pos + 4))
            },
            FieldType::Double => {
                if !fits(n, pos, 8) {
                    return Err(Error::UnexpectedEnd);
                }
                Ok((FieldValue::Double(read_u64_le(source, pos)), pos + 8))
            },
            FieldType::Character => {
                let (text, end) = read_string_of_len(source, pos, len)?;
                let value = trim_text(text.as_str());
                Ok((FieldValue::Character(value), end))
            },
            FieldType::Numeric => {
                let (text, end) = read_string_of_len(source, pos, len)?;
                let value = trim_text(text.as_str());
                let v = FieldValue::numeric_from_text(value.as_str())?;
                Ok((v, end))
            },
            FieldType::Date => {
                if !fits(n, pos, len as usize) {
                    return Err(Error::UnexpectedEnd);
                }
                let d = Date::from_text_bytes(source, pos, len as usize)?;
                Ok((FieldValue::Date(d), pos + len as usize))
            },
            _ => Err(Error::UnsupportedFieldKind(field_info.field_type)),
        }
    }

    /// Appends the value in the form of a field described by `field_info`:
    /// logical as `T` or `F`, binary kinds little-endian, a date as its
    /// eight digits, character text left-aligned and numeric text
    /// right-aligned, padded with spaces to the field's width. On failure
    /// nothing is written.
    pub fn write_to(&self, dest: &mut Vec<u8>, field_info: &RecordFieldInfo) -> (r: Result<(), Error>)
        ensures
            encode_value(self@, field_info.field_type, field_info.record_length as nat) matches Ok(
                b,
            ) ==> r is Ok && final(dest)@ == old(dest)@ + b,
            encode_value(self@, field_info.field_type, field_info.record_length as nat) matches Err(
                e,
            ) ==> r == Err::<(), Error>(e) && final(dest)@ == old(dest)@,
    {
        let width = field_info.record_length as usize;
        match (self, field_info.field_type) {
            (FieldValue::Logical(b), FieldType::Logical) => {
                dest.push(if *b { 0x54 } else { 0x46 });
                assert(final(dest)@ =~= old(dest)@ + seq![logical_byte(*b)]);
                Ok(())
            },
            (FieldValue::Integer(i), FieldType::Integer) => {
                push_i32_le(dest, *i);
                Ok(())
            },
            (FieldValue::Float(u), FieldType::Float) => {
                push_u32_le(dest, *u);
                Ok(())
            },
            (FieldValue::Double(u), FieldType::Double) => {
                push_u64_le(dest, *u);
                Ok(())
            },
            (FieldValue::Date(d), FieldType::Date) => {
                d.validate()?;
                if width != DATE_TEXT_LEN {
                    return Err(Error::ValueMismatch);
                }
                d.write_text(dest);
                Ok(())
            },
            (FieldValue::Character(s), FieldType::Character) => {
                let b = s.as_str().as_bytes();
                if b.len() > width {
                    return Err(Error::ValueMismatch);
                }
                push_bytes(dest, b);
                push_spaces(dest, width - b.len());
                assert(final(dest)@ =~= old(dest)@ + (encode_utf8(s@) + spaces(
                    (width - encode_utf8(s@).len()) as nat,
                )));
                Ok(())
            },
            (FieldValue::Numeric(s), FieldType::Numeric) => {
                if !is_decimal(s.as_str()) {
                    return Err(Error::ParseNumeric);
                }
                let b = s.as_str().as_bytes();
                if b.len() > width {
                    return Err(Error::ValueMismatch);
                }
                push_spaces(dest, width - b.len());
                push_bytes(dest, b);
                assert(final(dest)@ =~= old(dest)@ + (spaces(
                    (width - encode_utf8(s@).len()) as nat,
                ) + encode_utf8(s@)));
                Ok(())
            },
            (_, t) => {
                if is_supported(t) {
                    Err(Error::ValueMismatch)
                } else {
                    Err(Error::UnsupportedFieldKind(t))
                }
            },
        }
    }
}

} // verus!
