//! End-to-end decoding scenarios over literal documents, through both
//! drivers, with recording receivers.

use derailleur::avec::reader;
use derailleur::avec::slice;
use derailleur::avec::{dispatch_events, FromRecord, FromRecords};
use derailleur::sans::check::compute_crc;
use derailleur::sans::header::DocumentHeaderError;
use derailleur::sans::model::{Event, Value};

/// Build a document: a 12-byte header declaring the record section's
/// length, the records, and the trailing check value.
fn document(records: &[u8]) -> Vec<u8> {
    let size = records.len() as u32;
    let mut d = vec![0x0C, 0x10, 0x64, 0x00];
    d.extend_from_slice(&size.to_le_bytes());
    d.extend_from_slice(b".FIT");
    d.extend_from_slice(records);
    let crc = compute_crc(0, &d);
    d.extend_from_slice(&crc.to_le_bytes());
    d
}

/// A receiver that records every call it sees, in order.
#[derive(Default)]
struct Recorder {
    calls: Vec<String>,
    accept: bool,
}

impl FromRecord for Recorder {
    fn add_time_offset(&mut self, time: u8) {
        self.calls.push(format!("time {time}"));
    }
    fn add_u8(&mut self, field: u8, value: u8) {
        self.calls.push(format!("u8 {field} {value}"));
    }
    fn add_u16(&mut self, field: u8, value: u16) {
        self.calls.push(format!("u16 {field} {value}"));
    }
    fn add_u32(&mut self, field: u8, value: u32) {
        self.calls.push(format!("u32 {field} {value}"));
    }
    fn add_u64(&mut self, field: u8, value: u64) {
        self.calls.push(format!("u64 {field} {value}"));
    }
    fn add_i8(&mut self, field: u8, value: i8) {
        self.calls.push(format!("i8 {field} {value}"));
    }
    fn add_i16(&mut self, field: u8, value: i16) {
        self.calls.push(format!("i16 {field} {value}"));
    }
    fn add_i32(&mut self, field: u8, value: i32) {
        self.calls.push(format!("i32 {field} {value}"));
    }
    fn add_i64(&mut self, field: u8, value: i64) {
        self.calls.push(format!("i64 {field} {value}"));
    }
    fn add_f32_bits(&mut self, field: u8, value: u32) {
        self.calls.push(format!("f32 {field} {}", f32::from_bits(value)));
    }
    fn add_f64_bits(&mut self, field: u8, value: u64) {
        self.calls.push(format!("f64 {field} {}", f64::from_bits(value)));
    }
}

impl FromRecords for Recorder {
    fn add_record(&mut self, id: u16) -> bool {
        self.calls.push(format!("record {id}"));
        self.accept
    }
}

fn record_all(r: &[u8]) -> (Vec<String>, Result<(), slice::Error>) {
    let mut rec = Recorder { calls: vec![], accept: true };
    let res = slice::decode(r, &mut rec);
    (rec.calls, res)
}

#[test]
fn minimal_empty_document() {
    let d = document(&[]);
    assert_eq!(&d[..12], &[0x0C, 0x10, 0x64, 0x00, 0, 0, 0, 0, 0x2E, 0x46, 0x49, 0x54]);
    let (calls, res) = record_all(&d);
    assert!(res.is_ok());
    assert!(calls.is_empty());
}

#[test]
fn bad_magic() {
    let mut d = document(&[]);
    d[11] = 0x55; // ".FIU"
    let (calls, res) = record_all(&d);
    assert_eq!(res, Err(slice::Error::Header(DocumentHeaderError::NotFitData)));
    assert!(calls.is_empty());
}

#[test]
fn unknown_header_length() {
    let mut d = document(&[]);
    d[0] = 0x13;
    let (calls, res) = record_all(&d);
    assert_eq!(
        res,
        Err(slice::Error::Header(DocumentHeaderError::UnknownHeaderLength(0x13)))
    );
    assert!(calls.is_empty());
}

#[test]
fn one_data_record() {
    // One definition of global 0, little-endian, one field (0, size 1, u8);
    // one data record carrying 0x05.
    let records = [0x40, 0, 0, 0, 0, 1, 0, 1, 0x00, 0x00, 0x05];
    let d = document(&records);
    let (calls, res) = record_all(&d);
    assert!(res.is_ok());
    assert_eq!(calls, vec!["record 0", "u8 0 5"]);
}

#[test]
fn invalid_marker_suppression() {
    // As one_data_record, but the value is the u8 invalid marker.
    let records = [0x40, 0, 0, 0, 0, 1, 0, 1, 0x00, 0x00, 0xFF];
    let d = document(&records);
    let (calls, res) = record_all(&d);
    assert!(res.is_ok());
    assert_eq!(calls, vec!["record 0"]);
}

#[test]
fn compressed_timestamp() {
    // Definition for local slot 1 (global 20, one u8 field numbered 3),
    // then a compressed timestamp header: bit 7, local 01, offset 0x0A.
    let records = [0x41, 0, 0, 20, 0, 1, 3, 1, 0x00, 0xAA, 0x07];
    let d = document(&records);
    let (calls, res) = record_all(&d);
    assert!(res.is_ok());
    assert_eq!(calls, vec!["record 20", "time 10", "u8 3 7"]);
}

#[test]
fn developer_flag() {
    // A non-compressed data header with bit 5 set.
    let records = [0x20];
    let d = document(&records);
    let (calls, res) = record_all(&d);
    assert_eq!(res, Err(slice::Error::Developer));
    assert!(calls.is_empty());
}

#[test]
fn crc_mismatch() {
    let records = [0x40, 0, 0, 0, 0, 1, 0, 1, 0x00, 0x00, 0x05];
    let mut d = document(&records);
    let n = d.len();
    d[n - 2] ^= 1;
    let (calls, res) = record_all(&d);
    match res {
        Err(slice::Error::CyclicRedundancyCheck { found, calculated }) => {
            assert_eq!(found ^ 1, calculated);
        }
        other => panic!("expected a CRC mismatch, got {other:?}"),
    }
    assert!(calls.is_empty());
}

#[test]
fn unknown_base_type_is_rejected() {
    let records = [0x40, 0, 0, 0, 0, 1, 0, 1, 0x50, 0x00, 0x05];
    let d = document(&records);
    let (_, res) = record_all(&d);
    assert_eq!(res, Err(slice::Error::UnknownBaseType(0x50)));
}

#[test]
fn declined_records_are_parsed_but_not_dispatched() {
    let records = [0x40, 0, 0, 0, 0, 1, 0, 1, 0x00, 0x00, 0x05];
    let d = document(&records);
    let mut rec = Recorder { calls: vec![], accept: false };
    let res = slice::decode(&d, &mut rec);
    assert!(res.is_ok());
    assert_eq!(rec.calls, vec!["record 0"]);
}

#[test]
fn endianness_symmetry_documents() {
    // The same content: global 513, one u16 field carrying 0x1234, encoded
    // little-endian and big-endian.
    let le = [0x40, 0, 0, 0x01, 0x02, 1, 7, 2, 0x84, 0x00, 0x34, 0x12];
    let be = [0x40, 0, 1, 0x02, 0x01, 1, 7, 2, 0x84, 0x00, 0x12, 0x34];
    let (calls_le, res_le) = record_all(&document(&le));
    let (calls_be, res_be) = record_all(&document(&be));
    assert!(res_le.is_ok() && res_be.is_ok());
    assert_eq!(calls_le, calls_be);
    assert_eq!(calls_le, vec!["record 513", "u16 7 4660"]);
}

#[test]
fn extended_header_document() {
    // A 14-byte header: two reserved bytes follow the first twelve.
    let records = [0x40, 0, 0, 0, 0, 1, 0, 1, 0x00, 0x00, 0x05];
    let size = records.len() as u32;
    let mut d = vec![0x0E, 0x10, 0x64, 0x00];
    d.extend_from_slice(&size.to_le_bytes());
    d.extend_from_slice(b".FIT");
    d.extend_from_slice(&[0, 0]);
    d.extend_from_slice(&records);
    let crc = compute_crc(0, &d);
    d.extend_from_slice(&crc.to_le_bytes());
    let (calls, res) = record_all(&d);
    assert!(res.is_ok());
    assert_eq!(calls, vec!["record 0", "u8 0 5"]);
}

#[test]
fn truncation_always_errors() {
    let records = [0x41, 0, 0, 20, 0, 1, 3, 1, 0x00, 0xAA, 0x07, 0x40, 0, 0, 0, 0, 1, 0, 1, 0x00,
        0x00, 0x05];
    let d = document(&records);
    for k in 0..d.len() {
        let (calls, res) = record_all(&d[..k]);
        assert!(res.is_err(), "truncation at {k} must fail");
        assert!(calls.is_empty(), "truncation at {k} must dispatch nothing");
    }
}

#[test]
fn array_field_accumulates_in_stream_order() {
    // One field of three u8 elements; the middle one carries the invalid
    // marker and is suppressed. This mirrors an accumulator receiver that
    // pushes each dispatched element into a buffer.
    #[derive(Default)]
    struct Accumulator {
        name: Vec<u8>,
    }
    impl FromRecord for Accumulator {
        fn add_time_offset(&mut self, _time: u8) {}
        fn add_u8(&mut self, field: u8, value: u8) {
            if field == 5 {
                self.name.push(value);
            }
        }
        fn add_u16(&mut self, _field: u8, _value: u16) {}
        fn add_u32(&mut self, _field: u8, _value: u32) {}
        fn add_u64(&mut self, _field: u8, _value: u64) {}
        fn add_i8(&mut self, _field: u8, _value: i8) {}
        fn add_i16(&mut self, _field: u8, _value: i16) {}
        fn add_i32(&mut self, _field: u8, _value: i32) {}
        fn add_i64(&mut self, _field: u8, _value: i64) {}
        fn add_f32_bits(&mut self, _field: u8, _value: u32) {}
        fn add_f64_bits(&mut self, _field: u8, _value: u64) {}
    }
    impl FromRecords for Accumulator {
        fn add_record(&mut self, _id: u16) -> bool {
            true
        }
    }
    let records = [0x40, 0, 0, 0, 0, 1, 5, 3, 0x0A, 0x00, 0x61, 0x00, 0x63];
    let d = document(&records);
    let mut acc = Accumulator::default();
    assert!(slice::decode(&d, &mut acc).is_ok());
    assert_eq!(acc.name, b"ac");
}

#[test]
fn driver_equivalence() {
    // Both drivers over the same documents: the same events, in the same
    // order, and the same success.
    let docs = [
        document(&[]),
        document(&[0x40, 0, 0, 0, 0, 1, 0, 1, 0x00, 0x00, 0x05]),
        document(&[0x41, 0, 0, 20, 0, 1, 3, 1, 0x00, 0xAA, 0x07]),
        document(&[0x40, 0, 1, 0x02, 0x01, 1, 7, 2, 0x84, 0x00, 0x12, 0x34]),
    ];
    for d in &docs {
        let (slice_events, slice_res) = slice::decode_events(d);
        let (reader_events, reader_res) = reader::decode_events(d);
        assert!(slice_res.is_ok());
        assert_eq!(reader_res, Some(Ok(())));
        assert_eq!(slice_events, reader_events);
    }
}

#[test]
fn reader_reports_events_and_errors() {
    // Developer flag through the reader driver.
    let d = document(&[0x20]);
    let (events, res) = reader::decode_events(&d);
    assert!(events.is_empty());
    assert_eq!(res, Some(Err(reader::Error::Developer)));
    // Starved of input: the bytes end before the document does.
    let d = document(&[0x40, 0, 0, 0, 0, 1, 0, 1, 0x00, 0x00, 0x05]);
    let (_, res) = reader::decode_events(&d[..d.len() - 4]);
    assert_eq!(res, None);
    // A data record under a slot with no stored definition is refused.
    let d = document(&[0x00]);
    let (_, res) = reader::decode_events(&d);
    assert_eq!(res, Some(Err(reader::Error::UnsetLocalMessage(0))));
    // A base-type code outside the FIT table.
    let d = document(&[0x40, 0, 0, 0, 0, 1, 0, 1, 0x50, 0x00, 0x05]);
    let (_, res) = reader::decode_events(&d);
    assert_eq!(res, Some(Err(reader::Error::UnknownBaseType(0x50))));
}

#[test]
fn reader_checks_crc_last() {
    // A CRC mismatch through the reader driver still dispatches the record
    // events first: the check runs after the record section.
    let records = [0x40, 0, 0, 0, 0, 1, 0, 1, 0x00, 0x00, 0x05];
    let mut d = document(&records);
    let n = d.len();
    d[n - 2] ^= 1;
    let (events, res) = reader::decode_events(&d);
    assert_eq!(events, vec![Event::Record(0), Event::Field(0, Value::U8(5))]);
    assert!(matches!(res, Some(Err(reader::Error::CyclicRedundancyCheck { .. }))));
}

#[test]
fn header_extent_sizes_the_document() {
    let d = document(&[0x40, 0, 0, 0, 0, 1, 0, 1, 0x00, 0x00, 0x05]);
    assert_eq!(reader::header_extent(&d[..12]), Ok(d.len() as u64));
    let mut bad = d.clone();
    bad[11] = 0x55;
    assert_eq!(
        reader::header_extent(&bad[..12]),
        Err(reader::Error::Header(DocumentHeaderError::NotFitData))
    );
}

#[test]
fn dispatch_replays_collected_events() {
    let d = document(&[0x40, 0, 0, 0, 0, 1, 0, 1, 0x00, 0x00, 0x05]);
    let (events, res) = slice::decode_events(&d);
    assert!(res.is_ok());
    let mut rec = Recorder { calls: vec![], accept: true };
    dispatch_events(&events, &mut rec);
    assert_eq!(rec.calls, vec!["record 0", "u8 0 5"]);
}
