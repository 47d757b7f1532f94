//! The fixed 32-byte header that opens every table file.
use vstd::prelude::*;

use crate::bytes::{
    le_bytes_u16,
    le_bytes_u32,
    le_u16,
    le_u32,
    lemma_u16_round_trip,
    lemma_u32_round_trip,
    push_u16_le,
    push_u32_le,
    read_u16_le,
    read_u32_le,
};
use crate::date::Date;
use crate::error::Error;
use crate::version::{TableFlags, Version};

verus! {

/// The size of the header in bytes, on reading and on writing.
pub const HEADER_SIZE: usize = 32;

/// The header of a table file.
#[derive(Debug, Clone, Copy, PartialEq, Eq, Structural)]
pub struct Header {
    pub file_type: Version,
    pub last_update: Date,
    pub num_records: u32,
    pub offset_to_first_record: u16,
    pub size_of_record: u16,
    pub is_transaction_incomplete: bool,
    pub encryption_flag: u8,
    pub table_flags: TableFlags,
    pub code_page_mark: u8,
}

/// `n` zero bytes.
pub open spec fn zeros(n: nat) -> Seq<u8> {
    Seq::new(n, |i: int| 0u8)
}

impl Header {
    /// The header can be written, and reads back as itself.
    pub open spec fn is_valid(self) -> bool {
        self.last_update.is_valid() && self.file_type.is_canonical()
    }

    /// The 32 bytes of the header: version, packed date, record count,
    /// offset of the first record, record size, two reserved bytes,
    /// transaction flag, encryption flag, twelve reserved bytes, table
    /// flags, code page mark, two reserved bytes. Reserved bytes are zero.
    pub open spec fn encoded(self) -> Seq<u8> {
        seq![self.file_type.spec_to_byte()] + self.last_update.packed() + le_bytes_u32(
            self.num_records,
        ) + le_bytes_u16(self.offset_to_first_record) + le_bytes_u16(self.size_of_record)
            + zeros(2) + seq![
            if self.is_transaction_incomplete {
                1u8
            } else {
                0u8
            },
            self.encryption_flag,
        ] + zeros(12) + seq![self.table_flags.0, self.code_page_mark] + zeros(2)
    }

    /// The header that 32 bytes stand for; reserved bytes are ignored.
    pub open spec fn decoded(b: Seq<u8>) -> Header {
        Header {
            file_type: Version::spec_from_byte(b[0]),
            last_update: Date::from_packed(b.subrange(1, 4)),
            num_records: le_u32(b.subrange(4, 8)) as u32,
            offset_to_first_record: le_u16(b.subrange(8, 10)) as u16,
            size_of_record: le_u16(b.subrange(10, 12)) as u16,
            is_transaction_incomplete: b[14] != 0,
            encryption_flag: b[15],
            table_flags: TableFlags(b[28]),
            code_page_mark: b[29],
        }
    }

    /// A header for a new table: a dBase III file without memo, dated
    /// 1990-12-25, with every flag clear.
    pub fn new(num_records: u32, offset: u16, size_of_records: u16) -> (r: Header)
        ensures
            r.file_type == (Version::DBase3 { has_memo: false }),
            r.last_update == (Date { year: 1990, month: 12, day: 25 }),
            r.num_records == num_records,
            r.offset_to_first_record == offset,
            r.size_of_record == size_of_records,
            !r.is_transaction_incomplete,
            r.encryption_flag == 0,
            r.table_flags == TableFlags(0),
            r.code_page_mark == 0,
            r.is_valid(),
    {
        Header {
            file_type: Version::DBase3 { has_memo: false },
            last_update: Date { year: 1990, month: 12, day: 25 },
            num_records,
            offset_to_first_record: offset,
            size_of_record: size_of_records,
            is_transaction_incomplete: false,
            encryption_flag: 0,
            table_flags: TableFlags(0),
            code_page_mark: 0,
        }
    }

    /// Reads the header from the 32 bytes at `pos`, and gives the position
    /// after them. Fails where fewer than 32 bytes are left.
    pub fn read_from(source: &[u8], pos: usize) -> (r: Result<(Header, usize), Error>)
        ensures
            r is Ok <==> pos + HEADER_SIZE <= source@.len(),
            r matches Ok((h, end)) ==> end == pos + HEADER_SIZE && h == Header::decoded(
                source@.subrange(pos as int, pos + HEADER_SIZE),
            ),
            r is Err ==> r == Err::<(Header, usize), Error>(Error::UnexpectedEnd),
    {
        let n = source.len();
        if n < HEADER_SIZE || pos > n - HEADER_SIZE {
            return Err(Error::UnexpectedEnd);
        }
        let ghost b = source@.subrange(pos as int, pos + HEADER_SIZE);
        let file_type = Version::from(source[pos]);
        let last_update = Date::from_bytes([source[pos + 1], source[pos + 2], source[pos + 3]]);
        let num_records = read_u32_le(source, pos + 4);
        let offset_to_first_record = read_u16_le(source, pos + 8);
        let size_of_record = read_u16_le(source, pos + 10);
        let is_transaction_incomplete = source[pos + 14] != 0;
        let encryption_flag = source[pos + 15];
        let table_flags = TableFlags(source[pos + 28]);
        let code_page_mark = source[pos + 29];
        assert(b.subrange(1, 4) =~= source@.subrange(pos + 1, pos + 4));
        assert(b.subrange(4, 8) =~= source@.subrange(pos + 4, pos + 8));
        assert(b.subrange(8, 10) =~= source@.subrange(pos + 8, pos + 10));
        assert(b.subrange(10, 12) =~= source@.subrange(pos + 10, pos + 12));
        let h = Header {
            file_type,
            last_update,
            num_records,
            offset_to_first_record,
            size_of_record,
            is_transaction_incomplete,
            encryption_flag,
            table_flags,
            code_page_mark,
        };
        Ok((h, pos + HEADER_SIZE))
    }

    /// Appends the 32 bytes of the header, reserved bytes as zero. Fails,
    /// writing nothing, where the date cannot be packed.
    pub fn write_to(&self, dest: &mut Vec<u8>) -> (r: Result<(), Error>)
        ensures
            r is Ok <==> self.last_update.is_valid(),
            r is Ok ==> final(dest)@ == old(dest)@ + self.encoded(),
            r is Err ==> r == Err::<(), Error>(Error::InvalidDate) && final(dest)@ == old(dest)@,
    {
        self.last_update.validate()?;
        let ghost start = dest@;
        dest.push(u8::from(self.file_type));
        let _ = self.last_update.write_to(dest);
        push_u32_le(dest, self.num_records);
        push_u16_le(dest, self.offset_to_first_record);
        push_u16_le(dest, self.size_of_record);
        push_u16_le(dest, 0);
        dest.push(if self.is_transaction_incomplete { 1u8 } else { 0u8 });
        dest.push(self.encryption_flag);
        let mut i: usize = 0;
        while i < 12
            invariant
                i <= 12,
                dest@ == start + seq![self.file_type.spec_to_byte()] + self.last_update.packed()
                    + le_bytes_u32(self.num_records) + le_bytes_u16(self.offset_to_first_record)
                    + le_bytes_u16(self.size_of_record) + zeros(2) + seq![
                    if self.is_transaction_incomplete {
                        1u8
                    } else {
                        0u8
                    },
                    self.encryption_flag,
                ] + zeros(i as nat),
            decreases 12 - i,
        {
            dest.push(0);
            i = i + 1;
        }
        dest.push(self.table_flags.0);
        dest.push(self.code_page_mark);
        push_u16_le(dest, 0);
        assert(final(dest)@ =~= old(dest)@ + self.encoded());
        Ok(())
    }
}

/// Writing a valid header and reading it back gives the same header; the
/// encoding is exactly 32 bytes long.
pub proof fn lemma_header_round_trip(h: Header)
    requires
        h.is_valid(),
    ensures
        h.encoded().len() == HEADER_SIZE,
        Header::decoded(h.encoded()) == h,
{
    let e = h.encoded();
    lemma_u32_round_trip(h.num_records);
    lemma_u16_round_trip(h.offset_to_first_record);
    lemma_u16_round_trip(h.size_of_record);
    assert(e.subrange(1, 4) =~= h.last_update.packed());
    assert(e.subrange(4, 8) =~= le_bytes_u32(h.num_records));
    assert(e.subrange(8, 10) =~= le_bytes_u16(h.offset_to_first_record));
    assert(e.subrange(10, 12) =~= le_bytes_u16(h.size_of_record));
    assert(e[14] == if h.is_transaction_incomplete {
        1u8
    } else {
        0u8
    });
    assert(e[15] == h.encryption_flag);
    assert(e[28] == h.table_flags.0);
    assert(e[29] == h.code_page_mark);
}

/// Every header is written as exactly 32 bytes.
pub proof fn lemma_header_size(h: Header)
    ensures
        h.encoded().len() == HEADER_SIZE,
{
}

} // verus!
