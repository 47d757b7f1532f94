//! Codec for the dBase / FoxBase table format: the fixed 32-byte file header,
//! the file-type and table-flag bytes, the packed date, the one-character
//! field type tags and the per-field value decoder and encoder.
pub mod bytes;
pub mod date;
pub mod error;
pub mod field;
pub mod header;
pub mod text;
pub mod version;
