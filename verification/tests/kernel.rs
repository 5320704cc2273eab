//! Tests of the state-machine kernel: single transitions over fixed byte
//! inputs, the CRC accumulator, and element decoding for every base type.

use derailleur::sans::check::compute_crc;
use derailleur::sans::data::{AnyField, Field, FieldInner, I16, U8, U16, U32Z};
use derailleur::sans::definition::{Definition, DefinitionAlt, DefinitionFieldAlt};
use derailleur::sans::header::{DocumentHeader, DocumentHeaderError, RecordHeader};
use derailleur::sans::model::Value;
use derailleur::sans::Either;

#[test]
fn crc_reference_vector() {
    // The accumulator over the four signature bytes, from the zero state.
    let c = compute_crc(0, b".FIT");
    assert_eq!(c, compute_crc(compute_crc(0, b".F"), b"IT"));
    assert_eq!(c, 0x92DE);
}

#[test]
fn crc_of_empty_is_initial() {
    assert_eq!(compute_crc(0, b""), 0);
    assert_eq!(compute_crc(0x1234, b""), 0x1234);
}

#[test]
fn document_header_reads_size_and_successor() {
    let h: [u8; 12] = [0x0C, 0x10, 0x64, 0x00, 0x34, 0x12, 0x00, 0x00, 0x2E, 0x46, 0x49, 0x54];
    match DocumentHeader::advance(&h) {
        Ok((size, Either::Right(_record_header))) => assert_eq!(size, 0x1234),
        _ => panic!("expected a 12-byte header"),
    }
    let mut h14 = h;
    h14[0] = 0x0E;
    match DocumentHeader::advance(&h14) {
        Ok((size, Either::Left(_extended))) => assert_eq!(size, 0x1234),
        _ => panic!("expected a 14-byte header"),
    }
}

#[test]
fn document_header_rejects_bad_magic() {
    let h: [u8; 12] = [0x0C, 0x10, 0x64, 0x00, 0x00, 0x00, 0x00, 0x00, 0x2E, 0x46, 0x49, 0x55];
    match DocumentHeader::advance(&h) {
        Err(DocumentHeaderError::NotFitData) => {}
        _ => panic!("expected NotFitData"),
    }
}

#[test]
fn document_header_rejects_unknown_length() {
    let h: [u8; 12] = [0x13, 0x10, 0x64, 0x00, 0x00, 0x00, 0x00, 0x00, 0x2E, 0x46, 0x49, 0x54];
    match DocumentHeader::advance(&h) {
        Err(DocumentHeaderError::UnknownHeaderLength(0x13)) => {}
        _ => panic!("expected UnknownHeaderLength(0x13)"),
    }
}

#[test]
fn record_header_splits_bits() {
    // Compressed timestamp: bit 7, local 01 in bits 5..7, offset 0x0A.
    let rh = RecordHeader;
    match rh.advance(&[0xAA]) {
        Ok((local, Either::Right((Some(time), _)))) => {
            assert_eq!(local, 1);
            assert_eq!(time, 0x0A);
        }
        _ => panic!("expected a compressed timestamp header"),
    }
    // Definition: bit 6, local 3.
    let rh = RecordHeader;
    match rh.advance(&[0x43]) {
        Ok((local, Either::Left(_definition))) => assert_eq!(local, 3),
        _ => panic!("expected a definition header"),
    }
    // Data: local 2.
    let rh = RecordHeader;
    match rh.advance(&[0x02]) {
        Ok((local, Either::Right((None, _)))) => assert_eq!(local, 2),
        _ => panic!("expected a data header"),
    }
    // Developer bit.
    let rh = RecordHeader;
    assert!(rh.advance(&[0x20]).is_err());
}

#[test]
fn definition_skips_field_descriptors() {
    let d = Definition;
    match d.advance(&[0, 0, 0, 0, 2]) {
        Either::Left(df) => {
            assert_eq!(df.fields_remaining, 2);
            match df.advance(&[0, 1, 2]) {
                Either::Left(df2) => {
                    assert_eq!(df2.fields_remaining, 1);
                    assert!(matches!(df2.advance(&[0, 1, 2]), Either::Right(_)));
                }
                Either::Right(_) => panic!("one descriptor should remain"),
            }
        }
        Either::Right(_) => panic!("two descriptors should follow"),
    }
    let d = Definition;
    assert!(matches!(d.advance(&[0, 0, 0, 0, 0]), Either::Right(_)));
}

#[test]
fn definition_alt_reads_global_per_architecture() {
    let d = DefinitionAlt;
    let (global, _) = d.advance(&[0, 0, 0x34, 0x12, 0]);
    assert_eq!(global, 0x1234);
    let d = DefinitionAlt;
    let (global, _) = d.advance(&[0, 1, 0x12, 0x34, 0]);
    assert_eq!(global, 0x1234);
}

#[test]
fn definition_field_alt_picks_base_type() {
    let dfa = DefinitionFieldAlt { fields_remaining: 1, is_little_endian: true };
    match dfa.advance(&[7, 2, 0x84]) {
        Ok((field, AnyField::U16(st))) => {
            assert_eq!(field, 7);
            assert_eq!(st.bytes_remaining, 2);
            assert_eq!(st.fields_remaining, 0);
            assert!(st.is_little_endian);
        }
        _ => panic!("expected a u16 field state"),
    }
    let dfa = DefinitionFieldAlt { fields_remaining: 1, is_little_endian: true };
    assert!(dfa.advance(&[7, 2, 0x50]).is_err());
}

#[test]
fn field_decodes_value_and_array_successors() {
    // Two u16 elements: the first yields a value and a Right successor, the
    // second ends the field.
    let st: Field<U16> = Field { fields_remaining: 0, bytes_remaining: 4, is_little_endian: true, inner: U16 };
    let (v, succ) = st.advance(&[0x05, 0x00]);
    assert_eq!(v, Some(Value::U16(5)));
    let st = match succ {
        Either::Right(st) => st,
        Either::Left(_) => panic!("one element should remain"),
    };
    assert_eq!(st.bytes_remaining, 2);
    let (v, succ) = st.advance(&[0xFF, 0xFF]);
    assert_eq!(v, None); // invalid marker suppressed
    assert!(matches!(succ, Either::Left(Either::Right(_))));
}

#[test]
fn field_markers_per_base_type() {
    assert_eq!(<U8 as FieldInner>::from(&[0xFF], true), None);
    assert_eq!(<U8 as FieldInner>::from(&[0x05], true), Some(Value::U8(5)));
    assert_eq!(<U16 as FieldInner>::from(&[0xFF, 0xFF], false), None);
    assert_eq!(<U32Z as FieldInner>::from(&[0, 0, 0, 0], true), None);
    assert_eq!(<U32Z as FieldInner>::from(&[1, 0, 0, 0], true), Some(Value::U32(1)));
    assert_eq!(<I16 as FieldInner>::from(&[0xFF, 0x7F], true), None);
    assert_eq!(<I16 as FieldInner>::from(&[0xFE, 0xFF], true), Some(Value::I16(-2)));
    assert_eq!(
        <derailleur::sans::data::F32 as FieldInner>::from(&[0xFF, 0xFF, 0x7F, 0x7F], true),
        None
    );
    assert_eq!(
        <derailleur::sans::data::F64 as FieldInner>::from(&[0xFF, 0xFF, 0xFF, 0xFF, 0xFF, 0xFF, 0xEF, 0x7F], true),
        None
    );
    assert_eq!(
        <derailleur::sans::data::I64 as FieldInner>::from(&[1, 0, 0, 0, 0, 0, 0, 0x80], true),
        Some(Value::I64(i64::MIN + 1))
    );
    // An ordinary float survives as its bit pattern.
    let one = 1.0f32.to_le_bytes();
    assert_eq!(
        <derailleur::sans::data::F32 as FieldInner>::from(&one, true),
        Some(Value::F32Bits(1.0f32.to_bits()))
    );
}

#[test]
fn field_endianness_symmetry() {
    // The same content read little-endian and, reversed, big-endian.
    let le = <U16 as FieldInner>::from(&[0x34, 0x12], true);
    let be = <U16 as FieldInner>::from(&[0x12, 0x34], false);
    assert_eq!(le, be);
    assert_eq!(le, Some(Value::U16(0x1234)));
    let le = <derailleur::sans::data::U64 as FieldInner>::from(&[1, 2, 3, 4, 5, 6, 7, 8], true);
    let be = <derailleur::sans::data::U64 as FieldInner>::from(&[8, 7, 6, 5, 4, 3, 2, 1], false);
    assert_eq!(le, be);
}
