use vstd::prelude::*;

use crate::field::FieldType;



verus! {

/// Every failure that the codec reports to its caller.
#[derive(Debug, Clone, Copy, PartialEq, Eq)]
pub enum Error {
    /// The source ended before the structure being read was complete.
    UnexpectedEnd,
    /// A field type tag that names no known field kind.
    InvalidFieldType(char),
    /// A date outside the range that the packed form can hold.
    InvalidDate,
    /// Date text that is not eight decimal digits.
    ParseDate,
    /// Numeric field text that is not a decimal number.
    ParseNumeric,
    /// A field kind whose values this codec does not decode or encode.
    UnsupportedFieldKind(FieldType),
    /// A value that does not fit the width of its field, or whose kind
    /// differs from the field's kind.
    ValueMismatch,
}

} // verus!
