//! States processing definition records.

use vstd::prelude::*;

use super::Either;
use super::data::{AnyField, Field};
use super::data::{F32, F64, I8, I16, I32, I64, U8, U8Z, U16, U16Z, U32, U32Z, U64, U64Z};
use super::header::RecordHeader;
use super::model;

verus! {

/// State token to perform a first-pass decoding of a definition message.
#[derive(Debug)]
pub struct Definition;

impl Definition {
    /// Transition to another state by performing a first-pass decoding of a
    /// definition message.
    ///
    /// Returns a successor state token: one first-pass field state per
    /// declared field descriptor, or the record-header state when the
    /// definition declares no fields.
    pub fn advance(self, r: &[u8]) -> (succ: Either<DefinitionField, RecordHeader>)
        requires
            r@.len() == 5,
        ensures
            r@[4] != 0 ==> (succ matches Either::Left(df) && df.fields_remaining == r@[4]),
            r@[4] == 0 ==> succ is Right,
    {
        let fields_remaining = r[4];
        if fields_remaining != 0 {
            Either::Left(DefinitionField { fields_remaining })
        } else {
            Either::Right(RecordHeader)
        }
    }
}

/// State token to perform a first-pass decoding of a definition field.
#[derive(Debug)]
pub struct DefinitionField {
    pub fields_remaining: u8,
}

impl DefinitionField {
    /// Transition to another state by performing a first-pass decoding of a
    /// definition field.
    ///
    /// Returns a successor state token: another first-pass field state while
    /// field descriptors remain, else the record-header state.
    pub fn advance(self, r: &[u8]) -> (succ: Either<DefinitionField, RecordHeader>)
        requires
            r@.len() == 3,
            self.fields_remaining >= 1,
        ensures
            self.fields_remaining > 1 ==> (succ matches Either::Left(df) && df.fields_remaining
                == self.fields_remaining - 1),
            self.fields_remaining == 1 ==> succ is Right,
    {
        let fields_remaining = self.fields_remaining - 1;
        if fields_remaining != 0 {
            Either::Left(DefinitionField { fields_remaining })
        } else {
            Either::Right(RecordHeader)
        }
    }
}

/// State token to decode a definition message.
#[derive(Debug)]
pub struct DefinitionAlt;

impl DefinitionAlt {
    /// Transition to another state by decoding a definition message.
    ///
    /// **This method expects bytes not read from the tip of the cursor**:
    /// during a data record, the driver re-feeds the bytes of the governing
    /// definition record into the `Alt`-suffixed states.
    ///
    /// Returns the global message number, read in the endianness declared by
    /// the architecture byte, and a successor state token.
    pub fn advance(self, r: &[u8]) -> (res: (u16, Either<DefinitionFieldAlt, RecordHeader>))
        requires
            r@.len() == 5,
        ensures
            r@[1] == 0 ==> res.0 == model::spec_le16(r@[2], r@[3]),
            r@[1] != 0 ==> res.0 == model::spec_le16(r@[3], r@[2]),
            r@[4] != 0 ==> (res.1 matches Either::Left(dfa) && dfa.fields_remaining == r@[4]
                && dfa.is_little_endian == (r@[1] == 0)),
            r@[4] == 0 ==> res.1 is Right,
    {
        let architecture = r[1];
        let fields_remaining = r[4];
        let is_little_endian = architecture == 0;
        let global_message = if is_little_endian {
            (r[2] as u16) + (r[3] as u16) * 0x100
        } else {
            (r[3] as u16) + (r[2] as u16) * 0x100
        };
        let successor = if fields_remaining != 0 {
            Either::Left(DefinitionFieldAlt { fields_remaining, is_little_endian })
        } else {
            Either::Right(RecordHeader)
        };
        (global_message, successor)
    }
}

/// An error advancing over a definition field.
#[derive(Clone, Copy, Debug, PartialEq, Eq, Structural)]
pub enum DefinitionFieldError {
    /// The field descriptor carries a base-type code outside the FIT table.
    UnknownBaseType(u8),
}

/// State token to decode a definition field.
#[derive(Debug)]
pub struct DefinitionFieldAlt {
    pub fields_remaining: u8,
    pub is_little_endian: bool,
}

impl DefinitionFieldAlt {
    /// Transition to another state by decoding a definition field.
    ///
    /// **This method expects bytes not read from the tip of the cursor.**
    ///
    /// Returns the field number and a field state token parameterised over
    /// the base type designated by the descriptor's base-type code, or an
    /// error when that code is outside the FIT table.
    pub fn advance(self, r: &[u8]) -> (res: Result<(u8, AnyField), DefinitionFieldError>)
        requires
            r@.len() == 3,
            self.fields_remaining >= 1,
        ensures
            ({
                let code = r@[2];
                &&& model::spec_base_type(code) is None ==> res == Err::<
                    (u8, AnyField),
                    DefinitionFieldError,
                >(DefinitionFieldError::UnknownBaseType(code))
                &&& model::spec_base_type(code) matches Some(b) ==> (res matches Ok((field, af))
                    && field == r@[0] && af.base() == b && af.fields_remaining()
                    == self.fields_remaining - 1 && af.bytes_remaining() == r@[1]
                    && af.is_little_endian() == self.is_little_endian)
            }),
    {
        let field = r[0];
        let size = r[1];
        let base_type = r[2];
        let fields_remaining = self.fields_remaining - 1;
        let is_little_endian = self.is_little_endian;
        let successor = match base_type {
            0x00 => AnyField::U8(
                Field { fields_remaining, bytes_remaining: size, is_little_endian, inner: U8 },
            ),
            0x01 => AnyField::I8(
                Field { fields_remaining, bytes_remaining: size, is_little_endian, inner: I8 },
            ),
            0x02 => AnyField::U8(
                Field { fields_remaining, bytes_remaining: size, is_little_endian, inner: U8 },
            ),
            0x83 => AnyField::I16(
                Field { fields_remaining, bytes_remaining: size, is_little_endian, inner: I16 },
            ),
            0x84 => AnyField::U16(
                Field { fields_remaining, bytes_remaining: size, is_little_endian, inner: U16 },
            ),
            0x85 => AnyField::I32(
                Field { fields_remaining, bytes_remaining: size, is_little_endian, inner: I32 },
            ),
            0x86 => AnyField::U32(
                Field { fields_remaining, bytes_remaining: size, is_little_endian, inner: U32 },
            ),
            0x07 => AnyField::U8Z(
                Field { fields_remaining, bytes_remaining: size, is_little_endian, inner: U8Z },
            ),
            0x88 => AnyField::F32(
                Field { fields_remaining, bytes_remaining: size, is_little_endian, inner: F32 },
            ),
            0x89 => AnyField::F64(
                Field { fields_remaining, bytes_remaining: size, is_little_endian, inner: F64 },
            ),
            0x0a => AnyField::U8Z(
                Field { fields_remaining, bytes_remaining: size, is_little_endian, inner: U8Z },
            ),
            0x8b => AnyField::U16Z(
                Field { fields_remaining, bytes_remaining: size, is_little_endian, inner: U16Z },
            ),
            0x8c => AnyField::U32Z(
                Field { fields_remaining, bytes_remaining: size, is_little_endian, inner: U32Z },
            ),
            0x0d => AnyField::U8(
                Field { fields_remaining, bytes_remaining: size, is_little_endian, inner: U8 },
            ),
            0x8e => AnyField::I64(
                Field { fields_remaining, bytes_remaining: size, is_little_endian, inner: I64 },
            ),
            0x8f => AnyField::U64(
                Field { fields_remaining, bytes_remaining: size, is_little_endian, inner: U64 },
            ),
            0x90 => AnyField::U64Z(
                Field { fields_remaining, bytes_remaining: size, is_little_endian, inner: U64Z },
            ),
            _ => {
                return Err(DefinitionFieldError::UnknownBaseType(base_type));
            },
        };
        Ok((field, successor))
    }
}

} // verus!
