//! Helper for computing cyclic redundancy checks.
//!
//! The FIT format protects a document with a 16-bit cyclic redundancy check,
//! accumulated byte by byte through a 16-entry half-byte table. The
//! specification function [`spec_crc`] folds [`spec_crc_byte`] over a byte
//! sequence from an initial state; [`compute_crc`] is its executable
//! counterpart.

use vstd::prelude::*;

verus! {

/// The 16-entry half-byte table of the FIT polynomial.
pub open spec fn crc_table(i: int) -> u16 {
    if i == 0 {
        0x0000
    } else if i == 1 {
        0xCC01
    } else if i == 2 {
        0xD801
    } else if i == 3 {
        0x1400
    } else if i == 4 {
        0xF001
    } else if i == 5 {
        0x3C00
    } else if i == 6 {
        0x2800
    } else if i == 7 {
        0xE401
    } else if i == 8 {
        0xA001
    } else if i == 9 {
        0x6C00
    } else if i == 10 {
        0x7800
    } else if i == 11 {
        0xB401
    } else if i == 12 {
        0x5000
    } else if i == 13 {
        0x9C01
    } else if i == 14 {
        0x8801
    } else {
        0x4400
    }
}

/// Accumulation of a single byte into a cyclic redundancy check value.
pub open spec fn spec_crc_byte(crc: u16, b: u8) -> u16 {
    let t1 = crc_table((crc & 0xf) as int);
    let c1 = ((crc >> 4) & 0x0fff) ^ t1 ^ crc_table(((b as u16) & 0xf) as int);
    let t2 = crc_table((c1 & 0xf) as int);
    ((c1 >> 4) & 0x0fff) ^ t2 ^ crc_table((((b as u16) >> 4) & 0xf) as int)
}

/// Accumulation of a byte sequence: the left fold of [`spec_crc_byte`] over
/// `s` starting from `init`.
pub open spec fn spec_crc(init: u16, s: Seq<u8>) -> u16
    decreases s.len(),
{
    if s.len() == 0 {
        init
    } else {
        spec_crc_byte(spec_crc(init, s.drop_last()), s.last())
    }
}

/// Law: accumulating a concatenation equals accumulating its parts in turn;
/// the check over a document can be computed rolling, chunk by chunk.
pub proof fn lemma_crc_append(init: u16, a: Seq<u8>, b: Seq<u8>)
    ensures
        spec_crc(init, a + b) == spec_crc(spec_crc(init, a), b),
    decreases b.len(),
{
    if b.len() == 0 {
        assert(a + b =~= a);
    } else {
        lemma_crc_append(init, a, b.drop_last());
        assert((a + b).drop_last() =~= a + b.drop_last());
        assert((a + b).last() == b.last());
    }
}

/// Look up an entry of the half-byte table.
fn crc_table_at(i: u16) -> (r: u16)
    ensures
        r == crc_table(i as int),
{
    if i == 0 {
        0x0000
    } else if i == 1 {
        0xCC01
    } else if i == 2 {
        0xD801
    } else if i == 3 {
        0x1400
    } else if i == 4 {
        0xF001
    } else if i == 5 {
        0x3C00
    } else if i == 6 {
        0x2800
    } else if i == 7 {
        0xE401
    } else if i == 8 {
        0xA001
    } else if i == 9 {
        0x6C00
    } else if i == 10 {
        0x7800
    } else if i == 11 {
        0xB401
    } else if i == 12 {
        0x5000
    } else if i == 13 {
        0x9C01
    } else if i == 14 {
        0x8801
    } else {
        0x4400
    }
}

/// Accumulate a single byte into a cyclic redundancy check value.
fn crc_byte(crc: u16, b: u8) -> (r: u16)
    ensures
        r == spec_crc_byte(crc, b),
{
    let tmp = crc_table_at(crc & 0xf);
    let crc = ((crc >> 4) & 0x0fff) ^ tmp ^ crc_table_at(b as u16 & 0xf);
    let tmp = crc_table_at(crc & 0xf);
    ((crc >> 4) & 0x0fff) ^ tmp ^ crc_table_at((b as u16 >> 4) & 0xf)
}

/// Accumulate a slice of bytes into a cyclic redundancy check value.
pub fn compute_crc(init: u16, r: &[u8]) -> (c: u16)
    ensures
        c == spec_crc(init, r@),
{
    let mut acc = init;
    let mut k: usize = 0;
    while k < r.len()
        invariant
            k <= r@.len(),
            acc == spec_crc(init, r@.take(k as int)),
        decreases r@.len() - k,
    {
        acc = crc_byte(acc, r[k]);
        k = k + 1;
        proof {
            assert(r@.take(k as int).drop_last() =~= r@.take(k - 1));
            assert(r@.take(k as int).last() == r@[k - 1]);
        }
    }
    proof {
        assert(r@.take(r@.len() as int) =~= r@);
    }
    acc
}

} // verus!
