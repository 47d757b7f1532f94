use dbase::date::Date;
use dbase::error::Error;
use dbase::field::{read_string_of_len, FieldType, FieldValue, RecordFieldInfo};
use dbase::header::{Header, HEADER_SIZE};
use dbase::text::is_decimal;
use dbase::version::{TableFlags, Version};

fn sample_header_bytes() -> Vec<u8> {
    vec![
        0x03, 95, 7, 26, // version, date
        0x0a, 0x00, 0x00, 0x00, // record count
        0x61, 0x00, // offset of the first record
        0x1b, 0x00, // record size
        0, 0, // reserved
        0, 0, // transaction, encryption
        0, 0, 0, 0, 0, 0, 0, 0, 0, 0, 0, 0, // reserved
        0x01, 0x57, // table flags, code page mark
        0, 0, // reserved
    ]
}

fn info(field_type: FieldType, record_length: u8) -> RecordFieldInfo {
    RecordFieldInfo { field_type, record_length }
}

#[test]
fn pos_after_reading_header() {
    let mut bytes = sample_header_bytes();
    bytes.extend_from_slice(&[0x20, 0x43, 0x44]);
    let (_hdr, pos) = Header::read_from(&bytes, 0).unwrap();
    assert_eq!(pos, HEADER_SIZE);
}

#[test]
fn pos_after_writing_header() {
    let bytes = sample_header_bytes();
    let (hdr, _) = Header::read_from(&bytes, 0).unwrap();
    let mut out = Vec::with_capacity(HEADER_SIZE);
    hdr.write_to(&mut out).unwrap();
    assert_eq!(out.len(), HEADER_SIZE);
}

#[test]
fn read_write_header() {
    let bytes = sample_header_bytes();
    let (hdr, _) = Header::read_from(&bytes, 0).unwrap();
    let mut out = Vec::new();
    hdr.write_to(&mut out).unwrap();
    assert_eq!(out, bytes);
}

#[test]
fn header_fields_read_in_order() {
    let bytes = sample_header_bytes();
    let (hdr, _) = Header::read_from(&bytes, 0).unwrap();
    assert_eq!(hdr.file_type, Version::DBase3 { has_memo: false });
    assert_eq!(hdr.last_update, Date { year: 1995, month: 7, day: 26 });
    assert_eq!(hdr.num_records, 10);
    assert_eq!(hdr.offset_to_first_record, 0x61);
    assert_eq!(hdr.size_of_record, 0x1b);
    assert!(!hdr.is_transaction_incomplete);
    assert_eq!(hdr.encryption_flag, 0);
    assert_eq!(hdr.table_flags, TableFlags(1));
    assert_eq!(hdr.code_page_mark, 0x57);
}

#[test]
fn header_reserved_bytes_ignored_and_zeroed() {
    let mut bytes = sample_header_bytes();
    bytes[12] = 0xaa;
    bytes[20] = 0xbb;
    bytes[31] = 0xcc;
    bytes[14] = 5;
    let (hdr, _) = Header::read_from(&bytes, 0).unwrap();
    assert!(hdr.is_transaction_incomplete);
    let mut out = Vec::new();
    hdr.write_to(&mut out).unwrap();
    assert_eq!(out.len(), 32);
    assert_eq!(out[12], 0);
    assert_eq!(out[20], 0);
    assert_eq!(out[31], 0);
    assert_eq!(out[14], 1);
}

#[test]
fn header_round_trip_of_new_header() {
    let mut h = Header::new(70000, 0x0101, 300);
    h.encryption_flag = 7;
    h.is_transaction_incomplete = true;
    h.table_flags = TableFlags(3);
    h.file_type = Version::FoxBase;
    let mut out = vec![9u8];
    h.write_to(&mut out).unwrap();
    assert_eq!(out.len(), 33);
    assert_eq!(&out[5..9], &[0x70, 0x11, 0x01, 0x00]);
    let (back, pos) = Header::read_from(&out, 1).unwrap();
    assert_eq!(pos, 33);
    assert_eq!(back, h);
}

#[test]
fn header_short_source_fails() {
    let bytes = sample_header_bytes();
    assert_eq!(Header::read_from(&bytes[..31], 0), Err(Error::UnexpectedEnd));
    assert_eq!(Header::read_from(&bytes, 1), Err(Error::UnexpectedEnd));
}

#[test]
fn header_with_bad_date_writes_nothing() {
    let mut h = Header::new(1, 2, 3);
    h.last_update = Date { year: 1990, month: 13, day: 1 };
    let mut out = vec![1u8, 2];
    assert_eq!(h.write_to(&mut out), Err(Error::InvalidDate));
    assert_eq!(out, vec![1u8, 2]);
}

#[test]
fn unknown_version_header_round_trip() {
    let mut bytes = sample_header_bytes();
    bytes[0] = 0x30;
    let (hdr, _) = Header::read_from(&bytes, 0).unwrap();
    assert_eq!(hdr.file_type, Version::Unknown(0x30));
    let mut out = Vec::new();
    hdr.write_to(&mut out).unwrap();
    assert_eq!(out, bytes);
}

#[test]
fn date_round_trip_in_range() {
    for (y, m, d) in [(1900, 1, 1), (2155, 12, 31), (1999, 6, 15)] {
        let date = Date { year: y, month: m, day: d };
        let mut out = Vec::new();
        date.write_to(&mut out).unwrap();
        assert_eq!(out.len(), 3);
        assert_eq!(Date::from_bytes([out[0], out[1], out[2]]), date);
    }
}

#[test]
fn date_out_of_range_fails() {
    for (y, m, d) in [(1899, 1, 1), (2156, 1, 1), (2000, 13, 1), (2000, 1, 32)] {
        let date = Date { year: y, month: m, day: d };
        let mut out = Vec::new();
        assert_eq!(date.write_to(&mut out), Err(Error::InvalidDate));
        assert!(out.is_empty());
        assert_eq!(date.validate(), Err(Error::InvalidDate));
    }
}

#[test]
fn date_from_bytes() {
    assert_eq!(Date::from_bytes([0, 1, 1]), Date { year: 1900, month: 1, day: 1 });
    assert_eq!(Date::from_bytes([99, 12, 31]), Date { year: 1999, month: 12, day: 31 });
    assert_eq!(Date::from_bytes([255, 40, 77]), Date { year: 2155, month: 40, day: 77 });
}

#[test]
fn date_from_text() {
    assert_eq!(Date::from_str("20240229"), Ok(Date { year: 2024, month: 2, day: 29 }));
    assert_eq!(Date::from_str("19991399"), Ok(Date { year: 1999, month: 13, day: 99 }));
    assert_eq!(Date::from_str("2024022"), Err(Error::ParseDate));
    assert_eq!(Date::from_str("2024-2-2"), Err(Error::ParseDate));
    assert_eq!(Date::from_str("        "), Err(Error::ParseDate));
}

#[test]
fn version_bytes() {
    assert_eq!(Version::from(0x02), Version::FoxBase);
    assert!(!Version::from(0x02).has_memo());
    assert_eq!(Version::from(0x03), Version::DBase3 { has_memo: false });
    assert!(!Version::from(0x03).has_memo());
    assert_eq!(Version::from(0x83), Version::DBase3 { has_memo: true });
    assert!(Version::from(0x83).has_memo());
    assert_eq!(Version::from(0xff), Version::Unknown(0xff));
    assert_eq!(u8::from(Version::FoxBase), 0x02);
    assert_eq!(u8::from(Version::DBase3 { has_memo: false }), 0x03);
    assert_eq!(u8::from(Version::DBase3 { has_memo: true }), 0x83);
    assert_eq!(u8::from(Version::Unknown(0xff)), 0xff);
}

#[test]
fn unknown_version_does_not_fail_header() {
    let mut bytes = sample_header_bytes();
    bytes[0] = 0xff;
    let (hdr, pos) = Header::read_from(&bytes, 0).unwrap();
    assert_eq!(hdr.file_type, Version::Unknown(0xff));
    assert_eq!(pos, 32);
}

#[test]
fn table_flag_bits() {
    let cases = [(0u8, false, false, false), (1, true, false, true), (2, false, true, false), (3, true, true, false), (0xfd, true, false, true)];
    for (b, cdx, memo, db) in cases {
        let f = TableFlags(b);
        assert_eq!(f.has_structural_cdx(), cdx);
        assert_eq!(f.has_memo_field(), memo);
        assert_eq!(f.is_a_database(), db);
    }
}

#[test]
fn field_type_codes() {
    assert_eq!(FieldType::try_from('C'), Ok(FieldType::Character));
    assert_eq!(FieldType::try_from('Q'), Err(Error::InvalidFieldType('Q')));
    assert_eq!(FieldType::from('N'), Some(FieldType::Numeric));
    assert_eq!(FieldType::from('L'), Some(FieldType::Logical));
    assert_eq!(FieldType::from('G'), Some(FieldType::General));
    assert_eq!(FieldType::from('c'), None);
}

#[test]
fn logical_values() {
    let f = info(FieldType::Logical, 1);
    assert_eq!(FieldValue::read_from(b"Y", 0, &f), Ok((FieldValue::Logical(true), 1)));
    assert_eq!(FieldValue::read_from(b" ", 0, &f), Ok((FieldValue::Logical(false), 1)));
    for b in [b'1', b'T', b't', b'y'] {
        assert_eq!(FieldValue::read_from(&[b], 0, &f), Ok((FieldValue::Logical(true), 1)));
    }
    assert_eq!(FieldValue::read_from(b"N?", 0, &f), Ok((FieldValue::Logical(false), 1)));
    assert_eq!(FieldValue::read_from(b"", 0, &f), Err(Error::UnexpectedEnd));
}

#[test]
fn integer_value() {
    let f = info(FieldType::Integer, 9);
    assert_eq!(FieldValue::read_from(&[1, 0, 0, 0], 0, &f), Ok((FieldValue::Integer(1), 4)));
    assert_eq!(FieldValue::read_from(&[0xff, 0xff, 0xff, 0xff], 0, &f), Ok((FieldValue::Integer(-1), 4)));
    assert_eq!(FieldValue::read_from(&[7, 0, 0, 0, 0x80], 1, &f), Ok((FieldValue::Integer(i32::MIN), 5)));
    assert_eq!(FieldValue::read_from(&[1, 0, 0], 0, &f), Err(Error::UnexpectedEnd));
}

#[test]
fn float_and_double_values() {
    let f = info(FieldType::Float, 4);
    let bits = 1.5f32.to_bits();
    let (v, end) = FieldValue::read_from(&bits.to_le_bytes(), 0, &f).unwrap();
    assert_eq!(end, 4);
    match v {
        FieldValue::Float(b) => assert_eq!(f32::from_bits(b), 1.5),
        other => panic!("unexpected {:?}", other),
    }
    let f = info(FieldType::Double, 8);
    let bits = (-2.25f64).to_bits();
    let (v, end) = FieldValue::read_from(&bits.to_le_bytes(), 0, &f).unwrap();
    assert_eq!(end, 8);
    match v {
        FieldValue::Double(b) => assert_eq!(f64::from_bits(b), -2.25),
        other => panic!("unexpected {:?}", other),
    }
}

#[test]
fn numeric_values() {
    let f = info(FieldType::Numeric, 7);
    let (v, end) = FieldValue::read_from(b"  12.50", 0, &f).unwrap();
    assert_eq!(end, 7);
    match v {
        FieldValue::Numeric(t) => {
            assert_eq!(t, "12.50");
            assert_eq!(t.parse::<f64>().unwrap(), 12.5);
        }
        other => panic!("unexpected {:?}", other),
    }
    let f = info(FieldType::Numeric, 6);
    assert_eq!(FieldValue::read_from(b"      ", 0, &f), Err(Error::ParseNumeric));
    assert_eq!(FieldValue::read_from(b" 1.2.3", 0, &f), Err(Error::ParseNumeric));
    assert_eq!(FieldValue::read_from(b"  -7  ", 0, &f), Ok((FieldValue::Numeric("-7".to_string()), 6)));
}

#[test]
fn numeric_text_forms() {
    for t in ["0", "-1", "+2.", ".5", "12.50", "1e5", "-3.25E-2"] {
        assert!(is_decimal(t), "{}", t);
        assert!(t.parse::<f64>().is_ok());
        assert_eq!(FieldValue::numeric_from_text(t), Ok(FieldValue::Numeric(t.to_string())));
    }
    for t in ["", "-", ".", "e5", "1e", "1e+", "1.2.3", "12a", " 1", "--1"] {
        assert!(!is_decimal(t), "{}", t);
        assert_eq!(FieldValue::numeric_from_text(t), Err(Error::ParseNumeric));
    }
}

#[test]
fn character_values() {
    let f = info(FieldType::Character, 6);
    assert_eq!(FieldValue::read_from(b"abc   ", 0, &f), Ok((FieldValue::Character("abc".to_string()), 6)));
    assert_eq!(FieldValue::read_from(b"  a b ", 0, &f), Ok((FieldValue::Character("a b".to_string()), 6)));
    let f = info(FieldType::Character, 3);
    assert_eq!(FieldValue::read_from(&[b'a', 0xff, b'b'], 0, &f), Ok((FieldValue::Character("a\u{fffd}b".to_string()), 3)));
    assert_eq!(FieldValue::read_from(b"ab", 0, &f), Err(Error::UnexpectedEnd));
}

#[test]
fn date_values() {
    let f = info(FieldType::Date, 8);
    assert_eq!(FieldValue::read_from(b"19900101", 0, &f), Ok((FieldValue::Date(Date { year: 1990, month: 1, day: 1 }), 8)));
    assert_eq!(FieldValue::read_from(b"1990 101", 0, &f), Err(Error::ParseDate));
    let f = info(FieldType::Date, 6);
    assert_eq!(FieldValue::read_from(b"199001", 0, &f), Err(Error::ParseDate));
}

#[test]
fn unsupported_kinds() {
    for t in [FieldType::Memo, FieldType::General, FieldType::Currency, FieldType::DateTime, FieldType::Picture, FieldType::BinaryVarchar] {
        let f = info(t, 10);
        assert_eq!(FieldValue::read_from(b"0123456789", 0, &f), Err(Error::UnsupportedFieldKind(t)));
        let mut out = Vec::new();
        assert_eq!(FieldValue::Integer(1).write_to(&mut out, &f), Err(Error::UnsupportedFieldKind(t)));
        assert!(out.is_empty());
    }
}

#[test]
fn string_of_len() {
    assert_eq!(read_string_of_len(b"xxhello", 2, 5), Ok(("hello".to_string(), 7)));
    assert_eq!(read_string_of_len(b"xxhello", 3, 5), Err(Error::UnexpectedEnd));
}

#[test]
fn write_values() {
    let mut out = Vec::new();
    FieldValue::Logical(true).write_to(&mut out, &info(FieldType::Logical, 1)).unwrap();
    FieldValue::Logical(false).write_to(&mut out, &info(FieldType::Logical, 1)).unwrap();
    FieldValue::Integer(-2).write_to(&mut out, &info(FieldType::Integer, 4)).unwrap();
    FieldValue::Character("ab".to_string()).write_to(&mut out, &info(FieldType::Character, 4)).unwrap();
    FieldValue::Numeric("1.5".to_string()).write_to(&mut out, &info(FieldType::Numeric, 5)).unwrap();
    FieldValue::Date(Date { year: 2024, month: 3, day: 9 }).write_to(&mut out, &info(FieldType::Date, 8)).unwrap();
    FieldValue::Double(0x0102030405060708).write_to(&mut out, &info(FieldType::Double, 8)).unwrap();
    let mut expected = b"TF".to_vec();
    expected.extend_from_slice(&[0xfe, 0xff, 0xff, 0xff]);
    expected.extend_from_slice(b"ab    1.520240309");
    expected.extend_from_slice(&[8, 7, 6, 5, 4, 3, 2, 1]);
    assert_eq!(out, expected);
}

#[test]
fn write_value_errors() {
    let mut out = Vec::new();
    let e = FieldValue::Character("abcdef".to_string()).write_to(&mut out, &info(FieldType::Character, 4));
    assert_eq!(e, Err(Error::ValueMismatch));
    let e = FieldValue::Numeric("x".to_string()).write_to(&mut out, &info(FieldType::Numeric, 4));
    assert_eq!(e, Err(Error::ParseNumeric));
    let e = FieldValue::Date(Date { year: 1800, month: 1, day: 1 }).write_to(&mut out, &info(FieldType::Date, 8));
    assert_eq!(e, Err(Error::InvalidDate));
    let e = FieldValue::Logical(true).write_to(&mut out, &info(FieldType::Integer, 4));
    assert_eq!(e, Err(Error::ValueMismatch));
    assert!(out.is_empty());
}

#[test]
fn values_written_read_back() {
    let cases = vec![
        (FieldValue::Logical(true), info(FieldType::Logical, 1)),
        (FieldValue::Integer(-123456), info(FieldType::Integer, 4)),
        (FieldValue::Float(0xdeadbeef), info(FieldType::Float, 4)),
        (FieldValue::Double(u64::MAX), info(FieldType::Double, 8)),
        (FieldValue::Date(Date { year: 2001, month: 9, day: 30 }), info(FieldType::Date, 8)),
        (FieldValue::Character("hi".to_string()), info(FieldType::Character, 10)),
        (FieldValue::Numeric("-0.25".to_string()), info(FieldType::Numeric, 10)),
    ];
    for (v, f) in cases {
        let mut out = Vec::new();
        v.write_to(&mut out, &f).unwrap();
        let (back, end) = FieldValue::read_from(&out, 0, &f).unwrap();
        assert_eq!(end, out.len());
        assert_eq!(back, v);
    }
}

#[test]
fn field_value_lengths() {
    assert_eq!(info(FieldType::Logical, 9).value_len(), Some(1));
    assert_eq!(info(FieldType::Integer, 9).value_len(), Some(4));
    assert_eq!(info(FieldType::Float, 9).value_len(), Some(4));
    assert_eq!(info(FieldType::Double, 9).value_len(), Some(8));
    assert_eq!(info(FieldType::Character, 9).value_len(), Some(9));
    assert_eq!(info(FieldType::Numeric, 12).value_len(), Some(12));
    assert_eq!(info(FieldType::Date, 8).value_len(), Some(8));
    assert_eq!(info(FieldType::Memo, 10).value_len(), None);
}
