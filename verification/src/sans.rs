//! Finite-state machine kernel for implementing decoders.
//!
//! All states are represented by a small, non-copy token. Once enough bytes
//! are ready, transition to another state by calling the token's `advance`
//! method. This returns a successor state token, along with any extracted
//! data.
//!
//! When decoding a data record, the finite-state machine performs a second,
//! interwoven pass over the definition record. The bytes used to advance a
//! sequence of the `Alt`-suffixed definition states must match those used to
//! advance through their first-pass counterparts with the same field number.
//!
//! The [`model`] module states, as specification functions, exactly what each
//! transition extracts from its input bytes; every `advance` method's
//! contract is phrased over those functions.

use vstd::prelude::*;

pub mod check;
pub mod data;
pub mod definition;
pub mod header;
pub mod model;

verus! {

/// Entrypoint to the finite-state machine.
pub type Decoder = header::DocumentHeader;

/// A choice between two successor states (or, once, between two kinds of
/// record payload).
///
/// Every `advance` method of the kernel returns at most two successor
/// alternatives, encoded with this sum type.
pub enum Either<A, B> {
    Left(A),
    Right(B),
}

} // verus!
