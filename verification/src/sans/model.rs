//! The mathematical model of the FIT wire format.
//!
//! Everything the kernel and the drivers promise is phrased over the
//! specification functions in this module: how multi-byte integers are read
//! in either endianness, how the record header byte is split into its bit
//! fields, which base-type code designates which base type, and what a single
//! field element decodes to (including the suppression of 'invalid' marker
//! values).

use vstd::prelude::*;

verus! {

/// A decoded field value, as dispatched to a receiver.
///
/// Floating-point values are carried as their raw IEEE 754 bit patterns; the
/// library never interprets them.
#[derive(Clone, Copy, Debug, PartialEq, Eq, Structural)]
pub enum Value {
    U8(u8),
    U16(u16),
    U32(u32),
    U64(u64),
    I8(i8),
    I16(i16),
    I32(i32),
    I64(i64),
    F32Bits(u32),
    F64Bits(u64),
}

/// One dispatch to a receiver.
///
/// A decode of a document yields a sequence of events: each data record
/// opens with `Record(global_message)`, followed by `TimeOffset` when its
/// header was a compressed timestamp header, followed by one `Field` event
/// per non-suppressed field element, in stream order.
#[derive(Clone, Copy, Debug, PartialEq, Eq, Structural)]
pub enum Event {
    Record(u16),
    TimeOffset(u8),
    Field(u8, Value),
}

/// A FIT base type, determining storage width and invalid marker.
#[derive(Clone, Copy, Debug, PartialEq, Eq, Structural)]
pub enum BaseType {
    U8,
    U8Z,
    U16,
    U16Z,
    U32,
    U32Z,
    U64,
    U64Z,
    I8,
    I16,
    I32,
    I64,
    F32,
    F64,
}

/// A 16-bit integer from two bytes, least significant first.
pub open spec fn spec_le16(b0: u8, b1: u8) -> u16 {
    (b0 + b1 * 0x100) as u16
}

/// A 32-bit integer from four bytes, least significant first.
pub open spec fn spec_le32(b0: u8, b1: u8, b2: u8, b3: u8) -> u32 {
    (b0 + b1 * 0x100 + b2 * 0x10000 + b3 * 0x1000000) as u32
}

/// A 64-bit integer from eight bytes, least significant first.
pub open spec fn spec_le64(s: Seq<u8>) -> u64 {
    (s[0] + s[1] * 0x100 + s[2] * 0x10000 + s[3] * 0x1000000 + s[4] * 0x100000000 + s[5]
        * 0x10000000000 + s[6] * 0x1000000000000 + s[7] * 0x100000000000000) as u64
}

/// The signed reading of a 8-bit word (two's complement).
pub open spec fn spec_to_i8(u: u8) -> i8 {
    if u < 0x80 {
        u as i8
    } else {
        (u - 0x100) as i8
    }
}

/// The signed reading of a 16-bit word (two's complement).
pub open spec fn spec_to_i16(u: u16) -> i16 {
    if u < 0x8000 {
        u as i16
    } else {
        (u - 0x10000) as i16
    }
}

/// The signed reading of a 32-bit word (two's complement).
pub open spec fn spec_to_i32(u: u32) -> i32 {
    if u < 0x80000000 {
        u as i32
    } else {
        (u - 0x100000000) as i32
    }
}

/// The signed reading of a 64-bit word (two's complement).
pub open spec fn spec_to_i64(u: u64) -> i64 {
    if u < 0x8000000000000000 {
        u as i64
    } else {
        (u - 0x10000000000000000) as i64
    }
}

/// Whether the 12 header bytes carry the `.FIT` signature at offset 8.
pub open spec fn spec_magic_ok(s: Seq<u8>) -> bool {
    s[8] == 0x2e && s[9] == 0x46 && s[10] == 0x49 && s[11] == 0x54
}

/// The record-section length declared by the 12 header bytes.
pub open spec fn spec_data_size(s: Seq<u8>) -> u32 {
    spec_le32(s[4], s[5], s[6], s[7])
}

/// Whether a record header byte is a compressed timestamp header (bit 7).
pub open spec fn spec_is_compressed(b: u8) -> bool {
    b & 0x80 == 0x80
}

/// The 2-bit local message index of a compressed timestamp header.
pub open spec fn spec_compressed_local(b: u8) -> u8 {
    (b >> 5) & 0x3
}

/// The 5-bit time offset of a compressed timestamp header.
pub open spec fn spec_time_offset(b: u8) -> u8 {
    b & 0x1f
}

/// The 4-bit local message index of a normal record header.
pub open spec fn spec_normal_local(b: u8) -> u8 {
    b & 0xf
}

/// Whether a normal record header carries the developer-data flag (bit 5).
pub open spec fn spec_is_developer(b: u8) -> bool {
    b & 0x20 == 0x20
}

/// Whether a normal record header announces a definition record (bit 6).
pub open spec fn spec_is_definition(b: u8) -> bool {
    b & 0x40 == 0x40
}

/// The base type designated by a base-type code, if the code is known.
pub open spec fn spec_base_type(code: u8) -> Option<BaseType> {
    if code == 0x00 {
        Some(BaseType::U8)
    } else if code == 0x01 {
        Some(BaseType::I8)
    } else if code == 0x02 {
        Some(BaseType::U8)
    } else if code == 0x83 {
        Some(BaseType::I16)
    } else if code == 0x84 {
        Some(BaseType::U16)
    } else if code == 0x85 {
        Some(BaseType::I32)
    } else if code == 0x86 {
        Some(BaseType::U32)
    } else if code == 0x07 {
        Some(BaseType::U8Z)
    } else if code == 0x88 {
        Some(BaseType::F32)
    } else if code == 0x89 {
        Some(BaseType::F64)
    } else if code == 0x0a {
        Some(BaseType::U8Z)
    } else if code == 0x8b {
        Some(BaseType::U16Z)
    } else if code == 0x8c {
        Some(BaseType::U32Z)
    } else if code == 0x0d {
        Some(BaseType::U8)
    } else if code == 0x8e {
        Some(BaseType::I64)
    } else if code == 0x8f {
        Some(BaseType::U64)
    } else if code == 0x90 {
        Some(BaseType::U64Z)
    } else {
        None
    }
}

/// The storage width of a base type, in bytes.
pub open spec fn spec_base_width(b: BaseType) -> u8 {
    match b {
        BaseType::U8 => 1,
        BaseType::U8Z => 1,
        BaseType::I8 => 1,
        BaseType::U16 => 2,
        BaseType::U16Z => 2,
        BaseType::I16 => 2,
        BaseType::U32 => 4,
        BaseType::U32Z => 4,
        BaseType::I32 => 4,
        BaseType::F32 => 4,
        BaseType::U64 => 8,
        BaseType::U64Z => 8,
        BaseType::I64 => 8,
        BaseType::F64 => 8,
    }
}

/// The unsigned word stored by one element of a base type, assembled from
/// its storage bytes in the given endianness.
pub open spec fn spec_raw(b: BaseType, r: Seq<u8>, le: bool) -> u64 {
    match spec_base_width(b) {
        1 => r[0] as u64,
        2 => (if le {
            spec_le16(r[0], r[1])
        } else {
            spec_le16(r[1], r[0])
        }) as u64,
        4 => (if le {
            spec_le32(r[0], r[1], r[2], r[3])
        } else {
            spec_le32(r[3], r[2], r[1], r[0])
        }) as u64,
        _ => if le {
            spec_le64(r)
        } else {
            spec_le64(r.reverse())
        },
    }
}

/// The invalid marker of a base type, as an unsigned word: the maximum value
/// for signed, normal-unsigned and floating types, zero for the `z` variants.
pub open spec fn spec_invalid(b: BaseType) -> u64 {
    match b {
        BaseType::U8 => 0xff,
        BaseType::U8Z => 0,
        BaseType::I8 => 0x7f,
        BaseType::U16 => 0xffff,
        BaseType::U16Z => 0,
        BaseType::I16 => 0x7fff,
        BaseType::U32 => 0xffffffff,
        BaseType::U32Z => 0,
        BaseType::I32 => 0x7fffffff,
        BaseType::F32 => 0x7f7fffff,
        BaseType::U64 => 0xffffffffffffffff,
        BaseType::U64Z => 0,
        BaseType::I64 => 0x7fffffffffffffff,
        BaseType::F64 => 0x7fefffffffffffff,
    }
}

/// The typed value carried by an unsigned word of a base type.
pub open spec fn spec_wrap(b: BaseType, u: u64) -> Value {
    match b {
        BaseType::U8 => Value::U8(u as u8),
        BaseType::U8Z => Value::U8(u as u8),
        BaseType::I8 => Value::I8(spec_to_i8(u as u8)),
        BaseType::U16 => Value::U16(u as u16),
        BaseType::U16Z => Value::U16(u as u16),
        BaseType::I16 => Value::I16(spec_to_i16(u as u16)),
        BaseType::U32 => Value::U32(u as u32),
        BaseType::U32Z => Value::U32(u as u32),
        BaseType::I32 => Value::I32(spec_to_i32(u as u32)),
        BaseType::F32 => Value::F32Bits(u as u32),
        BaseType::U64 => Value::U64(u),
        BaseType::U64Z => Value::U64(u),
        BaseType::I64 => Value::I64(spec_to_i64(u)),
        BaseType::F64 => Value::F64Bits(u),
    }
}

/// What one element of a field decodes to: the typed value of its storage
/// bytes, or nothing when those bytes carry the base type's invalid marker.
pub open spec fn spec_element(b: BaseType, r: Seq<u8>, le: bool) -> Option<Value> {
    let u = spec_raw(b, r, le);
    if u == spec_invalid(b) {
        None
    } else {
        Some(spec_wrap(b, u))
    }
}

/// Law: an element whose storage bytes carry its base type's invalid marker
/// decodes to nothing, for every base type and either endianness; no value
/// reaches the receiver for it.
pub proof fn lemma_invalid_marker_suppressed(b: BaseType, r: Seq<u8>, le: bool)
    requires
        spec_raw(b, r, le) == spec_invalid(b),
    ensures
        spec_element(b, r, le) is None,
{
}

/// Law: reading an element's storage bytes little-endian decodes the same
/// value as reading the reversed bytes big-endian, for every base type. Two
/// documents of identical content that differ only in declared architecture
/// (with multi-byte storage reversed accordingly) therefore dispatch
/// identical values.
pub proof fn lemma_endianness_symmetry(b: BaseType, r: Seq<u8>)
    requires
        r.len() == spec_base_width(b),
    ensures
        spec_element(b, r, true) == spec_element(b, r.reverse(), false),
{
    let s = r.reverse();
    assert(s.len() == r.len());
    if spec_base_width(b) == 1 {
        assert(s[0] == r[0]);
    } else if spec_base_width(b) == 2 {
        assert(s[0] == r[1] && s[1] == r[0]);
    } else if spec_base_width(b) == 4 {
        assert(s[0] == r[3] && s[1] == r[2] && s[2] == r[1] && s[3] == r[0]);
    } else {
        assert(s.reverse() =~= r);
    }
}

} // verus!
