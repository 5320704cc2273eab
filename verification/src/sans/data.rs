//! States processing data records.

use vstd::prelude::*;

use super::Either;
use super::definition::DefinitionFieldAlt;
use super::header::RecordHeader;
use super::model;
use super::model::{BaseType, Value};

verus! {

/// A 16-bit integer from two bytes, least significant first.
fn le16(b0: u8, b1: u8) -> (u: u16)
    ensures
        u == model::spec_le16(b0, b1),
{
    (b0 as u16) + (b1 as u16) * 0x100
}

/// A 32-bit integer from four bytes, least significant first.
fn le32(b0: u8, b1: u8, b2: u8, b3: u8) -> (u: u32)
    ensures
        u == model::spec_le32(b0, b1, b2, b3),
{
    (b0 as u32) + (b1 as u32) * 0x100 + (b2 as u32) * 0x10000 + (b3 as u32) * 0x1000000
}

/// A 64-bit integer from eight bytes, least significant first.
fn le64(r: &[u8]) -> (u: u64)
    requires
        r@.len() == 8,
    ensures
        u == model::spec_le64(r@),
{
    (r[0] as u64) + (r[1] as u64) * 0x100 + (r[2] as u64) * 0x10000 + (r[3] as u64) * 0x1000000 + (
    r[4] as u64) * 0x100000000 + (r[5] as u64) * 0x10000000000 + (r[6] as u64) * 0x1000000000000 + (
    r[7] as u64) * 0x100000000000000
}

/// A 64-bit integer from eight bytes, most significant first.
fn be64(r: &[u8]) -> (u: u64)
    requires
        r@.len() == 8,
    ensures
        u == model::spec_le64(r@.reverse()),
{
    let u = (r[7] as u64) + (r[6] as u64) * 0x100 + (r[5] as u64) * 0x10000 + (r[4] as u64)
        * 0x1000000 + (r[3] as u64) * 0x100000000 + (r[2] as u64) * 0x10000000000 + (r[1] as u64)
        * 0x1000000000000 + (r[0] as u64) * 0x100000000000000;
    proof {
        let s = r@.reverse();
        assert(s[0] == r@[7] && s[1] == r@[6] && s[2] == r@[5] && s[3] == r@[4] && s[4] == r@[3]
            && s[5] == r@[2] && s[6] == r@[1] && s[7] == r@[0]);
    }
    u
}

/// The signed reading of an 8-bit word.
fn to_i8(u: u8) -> (r: i8)
    ensures
        r == model::spec_to_i8(u),
{
    if u < 0x80 {
        u as i8
    } else {
        -((0xff - u) as i8) - 1
    }
}

/// The signed reading of a 16-bit word.
fn to_i16(u: u16) -> (r: i16)
    ensures
        r == model::spec_to_i16(u),
{
    if u < 0x8000 {
        u as i16
    } else {
        -((0xffff - u) as i16) - 1
    }
}

/// The signed reading of a 32-bit word.
fn to_i32(u: u32) -> (r: i32)
    ensures
        r == model::spec_to_i32(u),
{
    if u < 0x80000000 {
        u as i32
    } else {
        -((0xffffffff - u) as i32) - 1
    }
}

/// The signed reading of a 64-bit word.
fn to_i64(u: u64) -> (r: i64)
    ensures
        r == model::spec_to_i64(u),
{
    if u < 0x8000000000000000 {
        u as i64
    } else {
        -((0xffffffffffffffff - u) as i64) - 1
    }
}

/// The behaviour of one base type: its width in bytes, and what one element
/// of it decodes to.
///
/// Implementing types are zero-size markers, one per FIT base type; a
/// [`Field`] state token is parameterised over one of them.
pub trait FieldInner: Sized {
    /// The base type this marker stands for.
    spec fn base() -> BaseType;

    /// The storage width of this base type, in bytes.
    fn width() -> (w: u8)
        ensures
            w == model::spec_base_width(Self::base()),
    ;

    /// Convert the storage bytes of one element of this base type to the
    /// corresponding typed value, if those bytes do not carry the base
    /// type's invalid marker.
    fn from(r: &[u8], is_le: bool) -> (v: Option<Value>)
        requires
            r@.len() == model::spec_base_width(Self::base()),
        ensures
            v == model::spec_element(Self::base(), r@, is_le),
    ;
}

/// `uint8`, `enum`, `byte`
#[derive(Debug)]
pub struct U8;

/// `uint8z`, `string`
#[derive(Debug)]
pub struct U8Z;

/// `uint16`
#[derive(Debug)]
pub struct U16;

/// `uint16z`
#[derive(Debug)]
pub struct U16Z;

/// `uint32`
#[derive(Debug)]
pub struct U32;

/// `uint32z`
#[derive(Debug)]
pub struct U32Z;

/// `uint64`
#[derive(Debug)]
pub struct U64;

/// `uint64z`
#[derive(Debug)]
pub struct U64Z;

/// `sint8`
#[derive(Debug)]
pub struct I8;

/// `sint16`
#[derive(Debug)]
pub struct I16;

/// `sint32`
#[derive(Debug)]
pub struct I32;

/// `sint64`
#[derive(Debug)]
pub struct I64;

/// `float32`
#[derive(Debug)]
pub struct F32;

/// `float64`
#[derive(Debug)]
pub struct F64;

impl FieldInner for U8 {
    open spec fn base() -> BaseType {
        BaseType::U8
    }

    fn width() -> u8 {
        1
    }

    fn from(r: &[u8], is_le: bool) -> Option<Value> {
        let u = r[0];
        if u != 0xff {
            Some(Value::U8(u))
        } else {
            None
        }
    }
}

impl FieldInner for U8Z {
    open spec fn base() -> BaseType {
        BaseType::U8Z
    }

    fn width() -> u8 {
        1
    }

    fn from(r: &[u8], is_le: bool) -> Option<Value> {
        let u = r[0];
        if u != 0 {
            Some(Value::U8(u))
        } else {
            None
        }
    }
}

impl FieldInner for U16 {
    open spec fn base() -> BaseType {
        BaseType::U16
    }

    fn width() -> u8 {
        2
    }

    fn from(r: &[u8], is_le: bool) -> Option<Value> {
        let u = if is_le {
            le16(r[0], r[1])
        } else {
            le16(r[1], r[0])
        };
        if u != 0xffff {
            Some(Value::U16(u))
        } else {
            None
        }
    }
}

impl FieldInner for U16Z {
    open spec fn base() -> BaseType {
        BaseType::U16Z
    }

    fn width() -> u8 {
        2
    }

    fn from(r: &[u8], is_le: bool) -> Option<Value> {
        let u = if is_le {
            le16(r[0], r[1])
        } else {
            le16(r[1], r[0])
        };
        if u != 0 {
            Some(Value::U16(u))
        } else {
            None
        }
    }
}

impl FieldInner for U32 {
    open spec fn base() -> BaseType {
        BaseType::U32
    }

    fn width() -> u8 {
        4
    }

    fn from(r: &[u8], is_le: bool) -> Option<Value> {
        let u = if is_le {
            le32(r[0], r[1], r[2], r[3])
        } else {
            le32(r[3], r[2], r[1], r[0])
        };
        if u != 0xffffffff {
            Some(Value::U32(u))
        } else {
            None
        }
    }
}

impl FieldInner for U32Z {
    open spec fn base() -> BaseType {
        BaseType::U32Z
    }

    fn width() -> u8 {
        4
    }

    fn from(r: &[u8], is_le: bool) -> Option<Value> {
        let u = if is_le {
            le32(r[0], r[1], r[2], r[3])
        } else {
            le32(r[3], r[2], r[1], r[0])
        };
        if u != 0 {
            Some(Value::U32(u))
        } else {
            None
        }
    }
}

impl FieldInner for U64 {
    open spec fn base() -> BaseType {
        BaseType::U64
    }

    fn width() -> u8 {
        8
    }

    fn from(r: &[u8], is_le: bool) -> Option<Value> {
        let u = if is_le {
            le64(r)
        } else {
            be64(r)
        };
        if u != 0xffffffffffffffff {
            Some(Value::U64(u))
        } else {
            None
        }
    }
}

impl FieldInner for U64Z {
    open spec fn base() -> BaseType {
        BaseType::U64Z
    }

    fn width() -> u8 {
        8
    }

    fn from(r: &[u8], is_le: bool) -> Option<Value> {
        let u = if is_le {
            le64(r)
        } else {
            be64(r)
        };
        if u != 0 {
            Some(Value::U64(u))
        } else {
            None
        }
    }
}

impl FieldInner for I8 {
    open spec fn base() -> BaseType {
        BaseType::I8
    }

    fn width() -> u8 {
        1
    }

    fn from(r: &[u8], is_le: bool) -> Option<Value> {
        let u = r[0];
        if u != 0x7f {
            Some(Value::I8(to_i8(u)))
        } else {
            None
        }
    }
}

impl FieldInner for I16 {
    open spec fn base() -> BaseType {
        BaseType::I16
    }

    fn width() -> u8 {
        2
    }

    fn from(r: &[u8], is_le: bool) -> Option<Value> {
        let u = if is_le {
            le16(r[0], r[1])
        } else {
            le16(r[1], r[0])
        };
        if u != 0x7fff {
            Some(Value::I16(to_i16(u)))
        } else {
            None
        }
    }
}

impl FieldInner for I32 {
    open spec fn base() -> BaseType {
        BaseType::I32
    }

    fn width() -> u8 {
        4
    }

    fn from(r: &[u8], is_le: bool) -> Option<Value> {
        let u = if is_le {
            le32(r[0], r[1], r[2], r[3])
        } else {
            le32(r[3], r[2], r[1], r[0])
        };
        if u != 0x7fffffff {
            Some(Value::I32(to_i32(u)))
        } else {
            None
        }
    }
}

impl FieldInner for I64 {
    open spec fn base() -> BaseType {
        BaseType::I64
    }

    fn width() -> u8 {
        8
    }

    fn from(r: &[u8], is_le: bool) -> Option<Value> {
        let u = if is_le {
            le64(r)
        } else {
            be64(r)
        };
        if u != 0x7fffffffffffffff {
            Some(Value::I64(to_i64(u)))
        } else {
            None
        }
    }
}

impl FieldInner for F32 {
    open spec fn base() -> BaseType {
        BaseType::F32
    }

    fn width() -> u8 {
        4
    }

    fn from(r: &[u8], is_le: bool) -> Option<Value> {
        let u = if is_le {
            le32(r[0], r[1], r[2], r[3])
        } else {
            le32(r[3], r[2], r[1], r[0])
        };
        if u != 0x7f7fffff {
            Some(Value::F32Bits(u))
        } else {
            None
        }
    }
}

impl FieldInner for F64 {
    open spec fn base() -> BaseType {
        BaseType::F64
    }

    fn width() -> u8 {
        8
    }

    fn from(r: &[u8], is_le: bool) -> Option<Value> {
        let u = if is_le {
            le64(r)
        } else {
            be64(r)
        };
        if u != 0x7fefffffffffffff {
            Some(Value::F64Bits(u))
        } else {
            None
        }
    }
}

/// State token to decode a field of base type `T`.
#[derive(Debug)]
pub struct Field<T> {
    pub fields_remaining: u8,
    pub bytes_remaining: u8,
    pub is_little_endian: bool,
    pub inner: T,
}

impl<T: FieldInner> Field<T> {
    /// Transition to another state by decoding one element of a field of
    /// base type `T`.
    ///
    /// Returns the element's typed value when it did not carry the base
    /// type's invalid marker, and a successor state: the same field state
    /// with the element's bytes consumed while array elements remain, else
    /// the next definition-field state or (when no fields remain) the
    /// record-header state.
    pub fn advance(self, r: &[u8]) -> (res: (
        Option<Value>,
        Either<Either<DefinitionFieldAlt, RecordHeader>, Field<T>>,
    ))
        requires
            r@.len() == model::spec_base_width(T::base()),
        ensures
            res.0 == model::spec_element(T::base(), r@, self.is_little_endian),
            self.bytes_remaining <= model::spec_base_width(T::base()) ==> {
                &&& self.fields_remaining != 0 ==> (res.1 matches Either::Left(
                    Either::Left(dfa),
                ) && dfa.fields_remaining == self.fields_remaining && dfa.is_little_endian
                    == self.is_little_endian)
                &&& self.fields_remaining == 0 ==> (res.1 matches Either::Left(succ) && succ
                    is Right)
            },
            self.bytes_remaining > model::spec_base_width(T::base()) ==> (res.1
                matches Either::Right(f) && f.fields_remaining == self.fields_remaining
                && f.bytes_remaining == self.bytes_remaining - model::spec_base_width(T::base())
                && f.is_little_endian == self.is_little_endian),
    {
        let value = T::from(r, self.is_little_endian);
        let size = T::width();
        let successor = if self.bytes_remaining <= size {
            Either::Left(
                if self.fields_remaining != 0 {
                    Either::Left(
                        DefinitionFieldAlt {
                            fields_remaining: self.fields_remaining,
                            is_little_endian: self.is_little_endian,
                        },
                    )
                } else {
                    Either::Right(RecordHeader)
                },
            )
        } else {
            Either::Right(
                Field {
                    fields_remaining: self.fields_remaining,
                    bytes_remaining: self.bytes_remaining - size,
                    is_little_endian: self.is_little_endian,
                    inner: self.inner,
                },
            )
        };
        (value, successor)
    }
}

/// A `Field` state token for a base type.
pub enum AnyField {
    U8(Field<U8>),
    U8Z(Field<U8Z>),
    U16(Field<U16>),
    U16Z(Field<U16Z>),
    U32(Field<U32>),
    U32Z(Field<U32Z>),
    U64(Field<U64>),
    U64Z(Field<U64Z>),
    I8(Field<I8>),
    I16(Field<I16>),
    I32(Field<I32>),
    I64(Field<I64>),
    F32(Field<F32>),
    F64(Field<F64>),
}

impl AnyField {
    /// The base type of the wrapped field state.
    pub open spec fn base(&self) -> BaseType {
        match self {
            AnyField::U8(_) => BaseType::U8,
            AnyField::U8Z(_) => BaseType::U8Z,
            AnyField::U16(_) => BaseType::U16,
            AnyField::U16Z(_) => BaseType::U16Z,
            AnyField::U32(_) => BaseType::U32,
            AnyField::U32Z(_) => BaseType::U32Z,
            AnyField::U64(_) => BaseType::U64,
            AnyField::U64Z(_) => BaseType::U64Z,
            AnyField::I8(_) => BaseType::I8,
            AnyField::I16(_) => BaseType::I16,
            AnyField::I32(_) => BaseType::I32,
            AnyField::I64(_) => BaseType::I64,
            AnyField::F32(_) => BaseType::F32,
            AnyField::F64(_) => BaseType::F64,
        }
    }

    /// The fields remaining after this one in the governing definition.
    pub open spec fn fields_remaining(&self) -> u8 {
        match self {
            AnyField::U8(f) => f.fields_remaining,
            AnyField::U8Z(f) => f.fields_remaining,
            AnyField::U16(f) => f.fields_remaining,
            AnyField::U16Z(f) => f.fields_remaining,
            AnyField::U32(f) => f.fields_remaining,
            AnyField::U32Z(f) => f.fields_remaining,
            AnyField::U64(f) => f.fields_remaining,
            AnyField::U64Z(f) => f.fields_remaining,
            AnyField::I8(f) => f.fields_remaining,
            AnyField::I16(f) => f.fields_remaining,
            AnyField::I32(f) => f.fields_remaining,
            AnyField::I64(f) => f.fields_remaining,
            AnyField::F32(f) => f.fields_remaining,
            AnyField::F64(f) => f.fields_remaining,
        }
    }

    /// The field bytes not yet consumed, including the element about to be
    /// read.
    pub open spec fn bytes_remaining(&self) -> u8 {
        match self {
            AnyField::U8(f) => f.bytes_remaining,
            AnyField::U8Z(f) => f.bytes_remaining,
            AnyField::U16(f) => f.bytes_remaining,
            AnyField::U16Z(f) => f.bytes_remaining,
            AnyField::U32(f) => f.bytes_remaining,
            AnyField::U32Z(f) => f.bytes_remaining,
            AnyField::U64(f) => f.bytes_remaining,
            AnyField::U64Z(f) => f.bytes_remaining,
            AnyField::I8(f) => f.bytes_remaining,
            AnyField::I16(f) => f.bytes_remaining,
            AnyField::I32(f) => f.bytes_remaining,
            AnyField::I64(f) => f.bytes_remaining,
            AnyField::F32(f) => f.bytes_remaining,
            AnyField::F64(f) => f.bytes_remaining,
        }
    }

    /// The endianness declared by the governing definition.
    pub open spec fn is_little_endian(&self) -> bool {
        match self {
            AnyField::U8(f) => f.is_little_endian,
            AnyField::U8Z(f) => f.is_little_endian,
            AnyField::U16(f) => f.is_little_endian,
            AnyField::U16Z(f) => f.is_little_endian,
            AnyField::U32(f) => f.is_little_endian,
            AnyField::U32Z(f) => f.is_little_endian,
            AnyField::U64(f) => f.is_little_endian,
            AnyField::U64Z(f) => f.is_little_endian,
            AnyField::I8(f) => f.is_little_endian,
            AnyField::I16(f) => f.is_little_endian,
            AnyField::I32(f) => f.is_little_endian,
            AnyField::I64(f) => f.is_little_endian,
            AnyField::F32(f) => f.is_little_endian,
            AnyField::F64(f) => f.is_little_endian,
        }
    }

    /// The storage width of the wrapped field state's base type, in bytes.
    pub fn width(&self) -> (w: u8)
        ensures
            w == model::spec_base_width(self.base()),
    {
        match self {
            AnyField::U8(_) => U8::width(),
            AnyField::U8Z(_) => U8Z::width(),
            AnyField::U16(_) => U16::width(),
            AnyField::U16Z(_) => U16Z::width(),
            AnyField::U32(_) => U32::width(),
            AnyField::U32Z(_) => U32Z::width(),
            AnyField::U64(_) => U64::width(),
            AnyField::U64Z(_) => U64Z::width(),
            AnyField::I8(_) => I8::width(),
            AnyField::I16(_) => I16::width(),
            AnyField::I32(_) => I32::width(),
            AnyField::I64(_) => I64::width(),
            AnyField::F32(_) => F32::width(),
            AnyField::F64(_) => F64::width(),
        }
    }

    /// Transition to another state by decoding one element of the wrapped
    /// field state, whatever its base type.
    ///
    /// The contract is that of [`Field::advance`], phrased over the wrapped
    /// state's base type and counters.
    pub fn advance(self, r: &[u8]) -> (res: (
        Option<Value>,
        Either<Either<DefinitionFieldAlt, RecordHeader>, AnyField>,
    ))
        requires
            r@.len() == model::spec_base_width(self.base()),
        ensures
            res.0 == model::spec_element(self.base(), r@, self.is_little_endian()),
            self.bytes_remaining() <= model::spec_base_width(self.base()) ==> {
                &&& self.fields_remaining() != 0 ==> (res.1 matches Either::Left(
                    Either::Left(dfa),
                ) && dfa.fields_remaining == self.fields_remaining() && dfa.is_little_endian
                    == self.is_little_endian())
                &&& self.fields_remaining() == 0 ==> (res.1 matches Either::Left(succ) && succ
                    is Right)
            },
            self.bytes_remaining() > model::spec_base_width(self.base()) ==> (res.1
                matches Either::Right(f) && f.base() == self.base() && f.fields_remaining()
                == self.fields_remaining() && f.bytes_remaining() == self.bytes_remaining()
                - model::spec_base_width(self.base()) && f.is_little_endian()
                == self.is_little_endian()),
    {
        match self {
            AnyField::U8(f) => {
                let (v, succ) = f.advance(r);
                (
                    v,
                    match succ {
                        Either::Left(s) => Either::Left(s),
                        Either::Right(f) => Either::Right(AnyField::U8(f)),
                    },
                )
            },
            AnyField::U8Z(f) => {
                let (v, succ) = f.advance(r);
                (
                    v,
                    match succ {
                        Either::Left(s) => Either::Left(s),
                        Either::Right(f) => Either::Right(AnyField::U8Z(f)),
                    },
                )
            },
            AnyField::U16(f) => {
                let (v, succ) = f.advance(r);
                (
                    v,
                    match succ {
                        Either::Left(s) => Either::Left(s),
                        Either::Right(f) => Either::Right(AnyField::U16(f)),
                    },
                )
            },
            AnyField::U16Z(f) => {
                let (v, succ) = f.advance(r);
                (
                    v,
                    match succ {
                        Either::Left(s) => Either::Left(s),
                        Either::Right(f) => Either::Right(AnyField::U16Z(f)),
                    },
                )
            },
            AnyField::U32(f) => {
                let (v, succ) = f.advance(r);
                (
                    v,
                    match succ {
                        Either::Left(s) => Either::Left(s),
                        Either::Right(f) => Either::Right(AnyField::U32(f)),
                    },
                )
            },
            AnyField::U32Z(f) => {
                let (v, succ) = f.advance(r);
                (
                    v,
                    match succ {
                        Either::Left(s) => Either::Left(s),
                        Either::Right(f) => Either::Right(AnyField::U32Z(f)),
                    },
                )
            },
            AnyField::U64(f) => {
                let (v, succ) = f.advance(r);
                (
                    v,
                    match succ {
                        Either::Left(s) => Either::Left(s),
                        Either::Right(f) => Either::Right(AnyField::U64(f)),
                    },
                )
            },
            AnyField::U64Z(f) => {
                let (v, succ) = f.advance(r);
                (
                    v,
                    match succ {
                        Either::Left(s) => Either::Left(s),
                        Either::Right(f) => Either::Right(AnyField::U64Z(f)),
                    },
                )
            },
            AnyField::I8(f) => {
                let (v, succ) = f.advance(r);
                (
                    v,
                    match succ {
                        Either::Left(s) => Either::Left(s),
                        Either::Right(f) => Either::Right(AnyField::I8(f)),
                    },
                )
            },
            AnyField::I16(f) => {
                let (v, succ) = f.advance(r);
                (
                    v,
                    match succ {
                        Either::Left(s) => Either::Left(s),
                        Either::Right(f) => Either::Right(AnyField::I16(f)),
                    },
                )
            },
            AnyField::I32(f) => {
                let (v, succ) = f.advance(r);
                (
                    v,
                    match succ {
                        Either::Left(s) => Either::Left(s),
                        Either::Right(f) => Either::Right(AnyField::I32(f)),
                    },
                )
            },
            AnyField::I64(f) => {
                let (v, succ) = f.advance(r);
                (
                    v,
                    match succ {
                        Either::Left(s) => Either::Left(s),
                        Either::Right(f) => Either::Right(AnyField::I64(f)),
                    },
                )
            },
            AnyField::F32(f) => {
                let (v, succ) = f.advance(r);
                (
                    v,
                    match succ {
                        Either::Left(s) => Either::Left(s),
                        Either::Right(f) => Either::Right(AnyField::F32(f)),
                    },
                )
            },
            AnyField::F64(f) => {
                let (v, succ) = f.advance(r);
                (
                    v,
                    match succ {
                        Either::Left(s) => Either::Left(s),
                        Either::Right(f) => Either::Right(AnyField::F64(f)),
                    },
                )
            },
        }
    }
}

} // verus!
