//! A verified decoder for Garmin's Flexible and Interoperable Data Transfer
//! (FIT) binary format.
//!
//! The decoder is split in two layers. The [`sans`] module holds the
//! finite-state machine kernel: a family of linearly-consumed state tokens,
//! each advancing over a fixed number of input bytes and returning any decoded
//! payload together with a successor token. The [`avec`] module holds the
//! drivers that pump document bytes through the kernel, maintain the cyclic
//! redundancy check and the local-message table, and dispatch decoded field
//! values to a caller-supplied receiver.
//!
//! Every function carries a contract relating its result to the specification
//! functions in [`sans::model`], which define the meaning of a FIT document as
//! a mathematical function from the byte sequence to the dispatched events.

pub mod avec;
pub mod sans;
