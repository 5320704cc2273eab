//! States processing document and record headers.

use vstd::prelude::*;

use super::Either;
use super::definition::{Definition, DefinitionAlt};
use super::model;

verus! {

/// An error advancing over a document header.
#[derive(Clone, Copy, Debug, PartialEq, Eq, Structural)]
pub enum DocumentHeaderError {
    /// Incorrect filetype marker.
    NotFitData,
    /// Unknown header length.
    UnknownHeaderLength(u8),
}

/// State token to decode a document header.
#[derive(Debug)]
pub struct DocumentHeader;

impl DocumentHeader {
    /// Transition to another state by decoding a document header.
    ///
    /// Returns the number of record bytes in this document, and a successor
    /// state token: the extended-header state when the header declares 14
    /// bytes, the record-header state when it declares 12.
    pub fn advance(r: &[u8]) -> (res: Result<
        (u32, Either<ExtendedDocumentHeader, RecordHeader>),
        DocumentHeaderError,
    >)
        requires
            r@.len() == 12,
        ensures
            !model::spec_magic_ok(r@) ==> res == Err::<
                (u32, Either<ExtendedDocumentHeader, RecordHeader>),
                DocumentHeaderError,
            >(DocumentHeaderError::NotFitData),
            model::spec_magic_ok(r@) && r@[0] != 12 && r@[0] != 14 ==> res == Err::<
                (u32, Either<ExtendedDocumentHeader, RecordHeader>),
                DocumentHeaderError,
            >(DocumentHeaderError::UnknownHeaderLength(r@[0])),
            model::spec_magic_ok(r@) && r@[0] == 14 ==> (res matches Ok((size, succ)) && size
                == model::spec_data_size(r@) && succ is Left),
            model::spec_magic_ok(r@) && r@[0] == 12 ==> (res matches Ok((size, succ)) && size
                == model::spec_data_size(r@) && succ is Right),
    {
        if !(r[8] == 0x2e && r[9] == 0x46 && r[10] == 0x49 && r[11] == 0x54) {
            return Err(DocumentHeaderError::NotFitData);
        }
        let data_size = (r[4] as u32) + (r[5] as u32) * 0x100 + (r[6] as u32) * 0x10000 + (
        r[7] as u32) * 0x1000000;
        let header_size = r[0];
        let successor: Either<ExtendedDocumentHeader, RecordHeader> = if header_size == 14 {
            Either::Left(ExtendedDocumentHeader)
        } else if header_size == 12 {
            Either::Right(RecordHeader)
        } else {
            return Err(DocumentHeaderError::UnknownHeaderLength(header_size));
        };
        Ok((data_size, successor))
    }
}

/// State token to decode additional bytes of an extended document header.
#[derive(Debug)]
pub struct ExtendedDocumentHeader;

impl ExtendedDocumentHeader {
    /// Transition to another state by decoding the additional bytes of an
    /// extended document header.
    ///
    /// The two reserved bytes carry no information; the successor is always
    /// the record-header state.
    pub fn advance(self, r: &[u8]) -> (succ: RecordHeader)
        requires
            r@.len() == 2,
    {
        RecordHeader
    }
}

/// An error advancing over a record header.
#[derive(Clone, Copy, Debug, PartialEq, Eq, Structural)]
pub enum RecordHeaderError {
    /// Found developer data (not yet supported).
    DeveloperData,
}

/// State token to decode a record header.
#[derive(Debug)]
pub struct RecordHeader;

impl RecordHeader {
    /// Transition to another state by decoding a record header.
    ///
    /// Returns the local message number and a successor state token: the
    /// first-pass definition state for definition records, or the
    /// second-pass definition state for data records, paired with the time
    /// offset when the header was a compressed timestamp header.
    pub fn advance(self, r: &[u8]) -> (res: Result<
        (u8, Either<Definition, (Option<u8>, DefinitionAlt)>),
        RecordHeaderError,
    >)
        requires
            r@.len() == 1,
        ensures
            ({
                let b = r@[0];
                &&& model::spec_is_compressed(b) ==> (res matches Ok((local, succ))
                    && local == model::spec_compressed_local(b) && (succ matches Either::Right(
                    (time, _),
                ) && time == Some(model::spec_time_offset(b))))
                &&& !model::spec_is_compressed(b) && model::spec_is_developer(b) ==> res
                    is Err && res->Err_0 == RecordHeaderError::DeveloperData
                &&& !model::spec_is_compressed(b) && !model::spec_is_developer(b)
                    && model::spec_is_definition(b) ==> (res matches Ok((local, succ)) && local
                    == model::spec_normal_local(b) && succ is Left)
                &&& !model::spec_is_compressed(b) && !model::spec_is_developer(b)
                    && !model::spec_is_definition(b) ==> (res matches Ok((local, succ)) && local
                    == model::spec_normal_local(b) && (succ matches Either::Right((time, _))
                    && time is None))
            }),
    {
        let b = r[0];
        if b & 0x80 == 0x80 {
            let local_message = (b >> 5) & 0x3;
            let time_offset = b & 0x1f;
            Ok((local_message, Either::Right((Some(time_offset), DefinitionAlt))))
        } else {
            let local_message = b & 0xf;
            if b & 0x20 == 0x20 {
                return Err(RecordHeaderError::DeveloperData);
            }
            if b & 0x40 == 0x40 {
                Ok((local_message, Either::Left(Definition)))
            } else {
                Ok((local_message, Either::Right((None, DefinitionAlt))))
            }
        }
    }
}

} // verus!
