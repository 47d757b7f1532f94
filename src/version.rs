use vstd::prelude::*;

verus! {

/// The file-type byte that opens every table file.
///
/// A byte that names no known file type is kept as `Unknown`, with the byte
/// itself, so that it is written back unchanged.
#[derive(Debug, Clone, Copy, PartialEq, Eq, Structural)]
pub enum Version {
    FoxBase,
    DBase3 { has_memo: bool },
    Unknown(u8),
}

pub const FOXBASE_BYTE: u8 = 0x02;
pub const DBASE3_BYTE: u8 = 0x03;
pub const DBASE3_MEMO_BYTE: u8 = 0x83;

impl Version {
    /// The version that a file-type byte stands for.
    pub open spec fn spec_from_byte(b: u8) -> Version {
        if b == FOXBASE_BYTE {
            Version::FoxBase
        } else if b == DBASE3_BYTE {
            Version::DBase3 { has_memo: false }
        } else if b == DBASE3_MEMO_BYTE {
            Version::DBase3 { has_memo: true }
        } else {
            Version::Unknown(b)
        }
    }

    /// The byte that a version is written as. An unknown version is written
    /// as the byte that it was read from.
    pub open spec fn spec_to_byte(self) -> u8 {
        match self {
            Version::FoxBase => FOXBASE_BYTE,
            Version::DBase3 { has_memo } => if has_memo {
                DBASE3_MEMO_BYTE
            } else {
                DBASE3_BYTE
            },
            Version::Unknown(b) => b,
        }
    }

    /// The version is written as a byte that reads back as the same
    /// version: a known one, or an unknown one that holds no known byte.
    pub open spec fn is_canonical(self) -> bool {
        !(self matches Version::Unknown(b) && (b == FOXBASE_BYTE || b == DBASE3_BYTE || b
            == DBASE3_MEMO_BYTE))
    }

    /// Whether the file has a memo file beside it. Only the known versions
    /// say so.
    pub fn has_memo(&self) -> (r: bool)
        requires
            !(self is Unknown),
        ensures
            r == (*self == Version::DBase3 { has_memo: true }),
    {
        match self {
            Version::FoxBase => false,
            Version::DBase3 { has_memo } => *has_memo,
            Version::Unknown(_) => false,
        }
    }
}

impl From<u8> for Version {
    fn from(b: u8) -> (r: Self) {
        if b == FOXBASE_BYTE {
            Version::FoxBase
        } else if b == DBASE3_BYTE {
            Version::DBase3 { has_memo: false }
        } else if b == DBASE3_MEMO_BYTE {
            Version::DBase3 { has_memo: true }
        } else {
            Version::Unknown(b)
        }
    }
}

impl vstd::std_specs::convert::FromSpecImpl<u8> for Version {
    open spec fn obeys_from_spec() -> bool {
        true
    }

    open spec fn from_spec(b: u8) -> Version {
        Version::spec_from_byte(b)
    }
}

impl From<Version> for u8 {
    fn from(v: Version) -> (r: u8) {
        match v {
            Version::FoxBase => FOXBASE_BYTE,
            Version::DBase3 { has_memo } => if has_memo {
                DBASE3_MEMO_BYTE
            } else {
                DBASE3_BYTE
            },
            Version::Unknown(b) => b,
        }
    }
}

impl vstd::std_specs::convert::FromSpecImpl<Version> for u8 {
    open spec fn obeys_from_spec() -> bool {
        true
    }

    open spec fn from_spec(v: Version) -> u8 {
        v.spec_to_byte()
    }
}

/// Decoding the byte that a version is written as gives that version back,
/// for every version but an unknown one that holds a known byte.
pub proof fn lemma_version_byte_round_trip(v: Version)
    requires
        v.is_canonical(),
    ensures
        Version::spec_from_byte(v.spec_to_byte()) == v,
{
}

/// Decoding a byte and writing the result gives the same byte back.
pub proof fn lemma_byte_version_round_trip(b: u8)
    ensures
        Version::spec_from_byte(b).spec_to_byte() == b,
{
}

/// The table-flags byte of the header: three independent bit tests.
#[derive(Debug, Clone, Copy, PartialEq, Eq, Structural)]
pub struct TableFlags(pub u8);

impl TableFlags {
    /// Bit 0: a structural index file is present.
    pub fn has_structural_cdx(&self) -> (r: bool)
        ensures
            r == (self.0 & 0x01 == 0x01),
            r == (self.0 % 2 == 1),
    {
        let b: u8 = self.0;
        let r = (b & 0x01) == 1;
        assert((b & 0x01 == 0x01) == (b % 2 == 1)) by (bit_vector);
        r
    }

    /// Bit 1: the table has a memo field.
    pub fn has_memo_field(&self) -> (r: bool)
        ensures
            r == (self.0 & 0x02 == 0x02),
            r == ((self.0 / 2) % 2 == 1),
    {
        let b: u8 = self.0;
        let r = (b & 0x02) == 2;
        assert((b & 0x02 == 0x02) == ((b / 2) % 2 == 1)) by (bit_vector);
        r
    }

    /// Bits 0 and 1 together equal 1: bit 0 set and bit 1 clear.
    pub fn is_a_database(&self) -> (r: bool)
        ensures
            r == (self.0 & 0x03 == 0x01),
            r == (self.0 % 4 == 1),
    {
        let b: u8 = self.0;
        let r = (b & 0x03) == 1;
        assert((b & 0x03 == 0x01) == (b % 4 == 1)) by (bit_vector);
        r
    }
}

} // verus!
