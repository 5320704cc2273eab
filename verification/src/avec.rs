//! Convenience interfaces for common decoding patterns.
//!
//! The functions in this module are suited to decoding records from data
//! slices and byte streams, publishing to the [`FromRecords`] and
//! [`FromRecord`] traits.

use vstd::prelude::*;

use crate::sans;

pub mod document;
pub mod reader;
pub mod slice;

pub use slice::decode as decode_slice;

verus! {

/// Receive field values for a record.
///
/// Before publishing, fields are converted to their corresponding Rust
/// primitive, and those holding the 'invalid' marker value are skipped. Array
/// types (including strings) are published item-by-item, calling the receiver
/// repeatedly.
///
/// Floating-point fields are published as their raw IEEE 754 bit patterns;
/// callers reassemble the float outside the verified library.
pub trait FromRecord {
    /// Add the compressed time offset to the record.
    fn add_time_offset(&mut self, time: u8);

    /// Add a `u8` for a field to the record.
    ///
    /// This method receives values for fields represented by a, or an array
    /// of, unsigned bytes. This includes the base types `enum`, `string`, and
    /// `byte`.
    fn add_u8(&mut self, field: u8, value: u8);

    /// Add a `u16` for a field to the record.
    fn add_u16(&mut self, field: u8, value: u16);

    /// Add a `u32` for a field to the record.
    fn add_u32(&mut self, field: u8, value: u32);

    /// Add a `u64` for a field to the record.
    fn add_u64(&mut self, field: u8, value: u64);

    /// Add an `i8` for a field to the record.
    fn add_i8(&mut self, field: u8, value: i8);

    /// Add an `i16` for a field to the record.
    fn add_i16(&mut self, field: u8, value: i16);

    /// Add an `i32` for a field to the record.
    fn add_i32(&mut self, field: u8, value: i32);

    /// Add an `i64` for a field to the record.
    fn add_i64(&mut self, field: u8, value: i64);

    /// Add the bit pattern of an `f32` for a field to the record.
    fn add_f32_bits(&mut self, field: u8, value: u32);

    /// Add the bit pattern of an `f64` for a field to the record.
    fn add_f64_bits(&mut self, field: u8, value: u64);
}

/// Produce record receivers for a document.
///
/// Returning `false` from [`FromRecords::add_record`] discards the record's
/// fields (they are still parsed for framing and the redundancy check); the
/// record's field values are then dispatched nowhere.
pub trait FromRecords: FromRecord {
    /// Announce a record with the given global message number.
    ///
    /// Returns whether the caller should dispatch the record's field values
    /// to this receiver.
    fn add_record(&mut self, id: u16) -> bool;
}

/// Dispatch a decoded event sequence to a receiver, in order.
///
/// Each record announcement is passed to [`FromRecords::add_record`]; the
/// record's time offset and field values follow through the [`FromRecord`]
/// methods while the receiver accepted the record, and are discarded while
/// it declined.
pub fn dispatch_events<O: FromRecords>(events: &Vec<sans::model::Event>, o: &mut O) {
    let mut accept = false;
    let mut k: usize = 0;
    while k < events.len()
        invariant
            k <= events@.len(),
        decreases events@.len() - k,
    {
        let ev = events[k];
        match ev {
            sans::model::Event::Record(g) => {
                accept = o.add_record(g);
            },
            sans::model::Event::TimeOffset(t) => {
                if accept {
                    o.add_time_offset(t);
                }
            },
            sans::model::Event::Field(f, v) => {
                if accept {
                    match v {
                        sans::model::Value::U8(x) => o.add_u8(f, x),
                        sans::model::Value::U16(x) => o.add_u16(f, x),
                        sans::model::Value::U32(x) => o.add_u32(f, x),
                        sans::model::Value::U64(x) => o.add_u64(f, x),
                        sans::model::Value::I8(x) => o.add_i8(f, x),
                        sans::model::Value::I16(x) => o.add_i16(f, x),
                        sans::model::Value::I32(x) => o.add_i32(f, x),
                        sans::model::Value::I64(x) => o.add_i64(f, x),
                        sans::model::Value::F32Bits(x) => o.add_f32_bits(f, x),
                        sans::model::Value::F64Bits(x) => o.add_f64_bits(f, x),
                    }
                }
            },
        }
        k = k + 1;
    }
}

} // verus!
