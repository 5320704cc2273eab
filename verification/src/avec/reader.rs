//! Reader-based decoder implementation.
//!
//! Where the slice driver re-reads definition bytes from the document, this
//! driver keeps an owned copy of each definition's body, one buffer per
//! local message index, and re-feeds those buffers into the `Alt`-suffixed
//! kernel states during data records. The cyclic redundancy check is
//! compared after the record section, against the two bytes that follow it.
//!
//! [`decode_events`] consumes the bytes a stream yields; a caller that reads
//! from a true byte stream first obtains the document's extent with
//! [`header_extent`], reads that many bytes, and hands them here. An outcome
//! of `None` means the stream ended before the document did.

use vstd::prelude::*;

use super::document;
use super::slice::decode_field;
use super::slice::Error as SliceError;
use crate::sans::check::{compute_crc, spec_crc};
use crate::sans::definition::{Definition, DefinitionAlt};
use crate::sans::header::{DocumentHeaderError, RecordHeader};
use crate::sans::model;
use crate::sans::model::Event;
use crate::sans::{Decoder, Either};

verus! {

/// Errors occurring while decoding from a stream's bytes.
///
/// Running out of bytes is not an error of this driver: it is the `None`
/// outcome of [`decode_events`], which the caller maps to its own
/// input-exhausted error.
#[derive(Clone, Copy, Debug, PartialEq, Eq, Structural)]
pub enum Error {
    /// Calculated and found CRC values do not match.
    CyclicRedundancyCheck { found: u16, calculated: u16 },
    /// Incorrect file header.
    Header(DocumentHeaderError),
    /// Found unsupported developer data.
    Developer,
    /// A definition carries a base-type code outside the FIT table.
    UnknownBaseType(u8),
    /// A data record names a local message index with no stored definition.
    UnsetLocalMessage(u8),
}

/// How a run of the record loop ends: starved of input, failed, or done at
/// a final position.
pub enum Run {
    Starved,
    Failed(Error),
    Done(int),
}

/// The reader's local-message table at document start: every slot unset.
pub open spec fn spec_initial_reader_table() -> Seq<Option<int>> {
    Seq::new(16nat, |k: int| None::<int>)
}

/// What the record section yields for this driver from position `i` on,
/// under the given table of definition-body offsets (`None` marks an unset
/// slot, whose buffer is empty).
///
/// The buffered definition bytes equal the document bytes at the stored
/// offset, so a data record under a set slot means exactly what
/// [`document::spec_data`] assigns to that offset; a data record under an
/// unset slot is refused.
pub open spec fn spec_reader_records(d: Seq<u8>, i: int, end: int, rt: Seq<Option<int>>) -> (
    Seq<Event>,
    Run,
)
    decreases end - i,
{
    if i >= end {
        (Seq::empty(), Run::Done(i))
    } else if i + 1 > d.len() {
        (Seq::empty(), Run::Starved)
    } else {
        let b = d[i];
        if model::spec_is_compressed(b) {
            spec_reader_data(
                d,
                i,
                end,
                rt,
                model::spec_compressed_local(b),
                Some(model::spec_time_offset(b)),
            )
        } else if model::spec_is_developer(b) {
            (Seq::empty(), Run::Failed(Error::Developer))
        } else if model::spec_is_definition(b) {
            let rt2 = rt.update(model::spec_normal_local(b) as int, Some(i + 1));
            match document::spec_definition_skip(d, i + 1) {
                Err(_) => (Seq::empty(), Run::Starved),
                Ok(i2) => {
                    if i2 >= end {
                        (Seq::empty(), Run::Done(i2))
                    } else {
                        spec_reader_records(d, i2, end, rt2)
                    }
                },
            }
        } else {
            spec_reader_data(d, i, end, rt, model::spec_normal_local(b), None)
        }
    }
}

/// One data record of the record loop: refused when the slot is unset, else
/// the meaning of the buffered definition applied at the tip.
pub open spec fn spec_reader_data(
    d: Seq<u8>,
    i: int,
    end: int,
    rt: Seq<Option<int>>,
    local: u8,
    time: Option<u8>,
) -> (Seq<Event>, Run)
    decreases end - i, 0int,
{
    match rt[local as int] {
        None => (Seq::empty(), Run::Failed(Error::UnsetLocalMessage(local))),
        Some(j) => {
            let (evts, res) = document::spec_data(d, j, i + 1, time);
            match res {
                Err(SliceError::UnknownBaseType(c)) => (evts, Run::Failed(Error::UnknownBaseType(c))),
                Err(_) => (evts, Run::Starved),
                Ok(n) => {
                    if i + 1 + n >= end {
                        (evts, Run::Done(i + 1 + n))
                    } else {
                        let (rest, run) = spec_reader_records(d, i + 1 + n, end, rt);
                        (evts + rest, run)
                    }
                },
            }
        },
    }
}

/// What decoding a document from a stream's bytes yields: the dispatched
/// events, and the outcome — `None` when the bytes end before the document
/// does, otherwise the decode's result.
///
/// The cyclic redundancy check runs last, over every byte the record loop
/// consumed, against the two bytes that follow them.
pub open spec fn spec_decode_reader(d: Seq<u8>) -> (Seq<Event>, Option<Result<(), Error>>) {
    if d.len() < 12 {
        (Seq::empty(), None)
    } else if !model::spec_magic_ok(d) {
        (Seq::empty(), Some(Err(Error::Header(DocumentHeaderError::NotFitData))))
    } else if d[0] != 12 && d[0] != 14 {
        (Seq::empty(), Some(Err(Error::Header(DocumentHeaderError::UnknownHeaderLength(d[0])))))
    } else if d.len() < d[0] as int {
        (Seq::empty(), None)
    } else {
        let end = document::spec_end(d);
        let (evts, run) = spec_reader_records(d, d[0] as int, end, spec_initial_reader_table());
        match run {
            Run::Starved => (evts, None),
            Run::Failed(e) => (evts, Some(Err(e))),
            Run::Done(fin) => {
                if d.len() < fin + 2 {
                    (evts, None)
                } else {
                    let found = model::spec_le16(d[fin], d[fin + 1]);
                    let calculated = spec_crc(0, d.take(fin));
                    if found != calculated {
                        (evts, Some(Err(Error::CyclicRedundancyCheck { found, calculated })))
                    } else {
                        (evts, Some(Ok(())))
                    }
                }
            },
        }
    }
}

/// Law: wherever both drivers accept a document, they dispatch the same
/// events — the record loops agree step by step while the reader's table
/// stores the offsets the slice driver would re-read.
proof fn lemma_records_equiv(d: Seq<u8>, i: int, end: int, table: Seq<int>, rt: Seq<Option<int>>)
    requires
        rt.len() == 16,
        table.len() == 16,
        forall|k: int| 0 <= k < 16 ==> (#[trigger] rt[k] matches Some(off) ==> table[k] == off),
        spec_reader_records(d, i, end, rt).1 is Done,
    ensures
        document::spec_records(d, i, end, table).1 is Ok,
        document::spec_records(d, i, end, table).0 == spec_reader_records(d, i, end, rt).0,
    decreases vstd::math::max(end - i, 0),
{
    if i >= end {
    } else if i + 1 > d.len() {
    } else {
        let b = d[i];
        assert((b & 0xf) < 16) by (bit_vector);
        assert(((b >> 5) & 0x3) < 16) by (bit_vector);
        if model::spec_is_compressed(b) || (!model::spec_is_developer(b)
            && !model::spec_is_definition(b)) {
            let local = if model::spec_is_compressed(b) {
                model::spec_compressed_local(b)
            } else {
                model::spec_normal_local(b)
            };
            let time = if model::spec_is_compressed(b) {
                Some(model::spec_time_offset(b))
            } else {
                None
            };
            let dstep = spec_reader_data(d, i, end, rt, local, time);
            assert(spec_reader_records(d, i, end, rt) == dstep);
            match rt[local as int] {
                None => {
                    assert(dstep.1 is Failed);
                },
                Some(j) => {
                    assert(table[local as int] == j);
                    let step = document::spec_data(d, j, i + 1, time);
                    match step.1 {
                        Ok(n) => {
                            if i + 1 + n >= end {
                            } else {
                                lemma_records_equiv(d, i + 1 + n, end, table, rt);
                            }
                        },
                        Err(e) => {
                            assert(!(dstep.1 is Done));
                        },
                    }
                },
            }
        } else if model::spec_is_developer(b) {
        } else {
            let local = model::spec_normal_local(b);
            let table2 = table.update(local as int, i + 1);
            let rt2 = rt.update(local as int, Some(i + 1));
            match document::spec_definition_skip(d, i + 1) {
                Err(_) => {
                    assert(!(spec_reader_records(d, i, end, rt).1 is Done));
                },
                Ok(i2) => {
                    assert(forall|k: int|
                        0 <= k < 16 ==> (#[trigger] rt2[k] matches Some(off) ==> table2[k]
                            == off));
                    if i2 >= end {
                    } else {
                        lemma_records_equiv(d, i2, end, table2, rt2);
                    }
                },
            }
        }
    }
}

/// Law: a document that both drivers decode successfully dispatches the
/// same sequence of receiver calls through either driver.
pub proof fn lemma_driver_equivalence(d: Seq<u8>)
    requires
        document::spec_decode(d).1 is Ok,
        spec_decode_reader(d).1 matches Some(res) && res is Ok,
    ensures
        spec_decode_reader(d).0 == document::spec_decode(d).0,
{
    let rt0 = spec_initial_reader_table();
    let t0 = document::spec_initial_table();
    let end = document::spec_end(d);
    assert(spec_reader_records(d, d[0] as int, end, rt0).1 is Done);
    assert(forall|k: int| 0 <= k < 16 ==> (#[trigger] rt0[k] matches Some(off) ==> t0[k] == off));
    lemma_records_equiv(d, d[0] as int, end, t0, rt0);
}

/// A record loop that runs to completion ends at or beyond the declared
/// end of the record section.
proof fn lemma_done_reaches_end(d: Seq<u8>, i: int, end: int, rt: Seq<Option<int>>)
    requires
        spec_reader_records(d, i, end, rt).1 is Done,
    ensures
        spec_reader_records(d, i, end, rt).1->Done_0 >= end,
    decreases vstd::math::max(end - i, 0),
{
    if i >= end {
    } else if i + 1 > d.len() {
    } else {
        let b = d[i];
        if model::spec_is_compressed(b) || (!model::spec_is_developer(b)
            && !model::spec_is_definition(b)) {
            let local = if model::spec_is_compressed(b) {
                model::spec_compressed_local(b)
            } else {
                model::spec_normal_local(b)
            };
            let time = if model::spec_is_compressed(b) {
                Some(model::spec_time_offset(b))
            } else {
                None
            };
            let dstep = spec_reader_data(d, i, end, rt, local, time);
            assert(spec_reader_records(d, i, end, rt) == dstep);
            match rt[local as int] {
                None => {},
                Some(j) => {
                    let step = document::spec_data(d, j, i + 1, time);
                    match step.1 {
                        Ok(n) => {
                            if i + 1 + n >= end {
                            } else {
                                lemma_done_reaches_end(d, i + 1 + n, end, rt);
                            }
                        },
                        Err(_) => {},
                    }
                },
            }
        } else if model::spec_is_developer(b) {
        } else {
            match document::spec_definition_skip(d, i + 1) {
                Err(_) => {},
                Ok(i2) => {
                    if i2 >= end {
                    } else {
                        lemma_done_reaches_end(
                            d,
                            i2,
                            end,
                            rt.update(model::spec_normal_local(b) as int, Some(i + 1)),
                        );
                    }
                },
            }
        }
    }
}

/// Law: truncating a well-framed document anywhere before its end never
/// lets this driver report success either — the bytes run out, or the
/// decode fails, before the trailing check can pass.
pub proof fn lemma_reader_truncation(d: Seq<u8>, k: int)
    requires
        12 <= d.len(),
        d.len() == document::spec_end(d) + 2,
        0 <= k < d.len(),
    ensures
        spec_decode_reader(d.take(k)).1 != Some(Result::<(), Error>::Ok(())),
{
    let t = d.take(k);
    if k >= 12 {
        assert(t[0] == d[0] && t[4] == d[4] && t[5] == d[5] && t[6] == d[6] && t[7] == d[7] && t[8]
            == d[8] && t[9] == d[9] && t[10] == d[10] && t[11] == d[11]);
        assert(document::spec_end(t) == document::spec_end(d));
        if model::spec_magic_ok(t) && (t[0] == 12 || t[0] == 14) && t.len() >= t[0] as int {
            let end = document::spec_end(t);
            let run = spec_reader_records(t, t[0] as int, end, spec_initial_reader_table()).1;
            if run is Done {
                lemma_done_reaches_end(t, t[0] as int, end, spec_initial_reader_table());
                assert(t.len() < run->Done_0 + 2);
            }
        }
    }
}

/// The total byte extent of a document, read off its first 12 header
/// bytes: the declared header length, the declared record-section length,
/// and the two trailing check bytes.
///
/// A caller decoding from a byte stream reads 12 bytes, asks this function
/// how long the document is, reads the rest, and hands everything to
/// [`decode_events`].
pub fn header_extent(h: &[u8]) -> (res: Result<u64, Error>)
    requires
        h@.len() == 12,
    ensures
        !model::spec_magic_ok(h@) ==> res == Err::<u64, Error>(
            Error::Header(DocumentHeaderError::NotFitData),
        ),
        model::spec_magic_ok(h@) && h@[0] != 12 && h@[0] != 14 ==> res == Err::<u64, Error>(
            Error::Header(DocumentHeaderError::UnknownHeaderLength(h@[0])),
        ),
        model::spec_magic_ok(h@) && (h@[0] == 12 || h@[0] == 14) ==> res == Ok::<u64, Error>(
            (h@[0] + model::spec_data_size(h@) + 2) as u64,
        ),
{
    match Decoder::advance(h) {
        Err(e) => Err(Error::Header(e)),
        Ok((size, _)) => Ok(h[0] as u64 + size as u64 + 2),
    }
}

/// Take an exact number of bytes from an offset in a slice, returning them
/// with the advanced offset.
fn take<'a>(r: &'a [u8], i: usize, n: usize) -> (res: Option<(&'a [u8], usize)>)
    ensures
        i + n <= r@.len() ==> (res matches Some((s, i2)) && s@ == r@.subrange(i as int, i + n) && i2
            == i + n),
        i + n > r@.len() ==> res is None,
{
    if i <= r.len() && n <= r.len() - i {
        let s = vstd::slice::slice_subrange(r, i, i + n);
        Some((s, i + n))
    } else {
        None
    }
}

/// Append a slice's bytes to an owned buffer.
#[verifier::loop_isolation(false)]
fn push_all(dst: Vec<u8>, src: &[u8]) -> (out: Vec<u8>)
    ensures
        out@ == dst@ + src@,
{
    let mut dst = dst;
    let ghost d0 = dst@;
    let mut k: usize = 0;
    while k < src.len()
        invariant
            k <= src@.len(),
            dst@ == d0 + src@.take(k as int),
        decreases src@.len() - k,
    {
        dst.push(src[k]);
        k = k + 1;
        proof {
            assert(d0 + src@.take(k as int) =~= (d0 + src@.take(k - 1)).push(src@[k - 1]));
        }
    }
    proof {
        assert(src@.take(src@.len() as int) =~= src@);
    }
    dst
}

/// Skip over a definition record's body with the first-pass states, keeping
/// an owned copy of every byte consumed.
#[verifier::loop_isolation(false)]
fn buffer_definition(state: Definition, r: &[u8], i: usize) -> (out: (
    Result<RecordHeader, SliceError>,
    usize,
    Vec<u8>,
))
    requires
        i <= r@.len(),
    ensures
        out.1 <= r@.len(),
        ({
            let skip = document::spec_definition_skip(r@, i as int);
            &&& (skip matches Ok(i2) ==> out.0 is Ok && out.1 == i2 && out.2@ == r@.subrange(
                i as int,
                i2,
            ))
            &&& (skip matches Err(e) ==> (out.0 matches Err(e2) && e2 == e))
        }),
{
    let ghost d = r@;
    let ghost i0 = i;
    let mut buf: Vec<u8> = Vec::new();
    let (h, i) = match take(r, i, 5) {
        Some(x) => x,
        None => {
            return (Err(SliceError::EndOfSlice), i, buf);
        },
    };
    buf = push_all(buf, h);
    proof {
        assert(h@ =~= d.subrange(i0 as int, i0 + 5));
        assert(buf@ =~= d.subrange(i0 as int, i0 + 5));
    }
    match state.advance(h) {
        Either::Right(rh) => (Ok(rh), i, buf),
        Either::Left(st) => {
            let mut st = st;
            let mut i = i;
            let ghost fields = d[i0 + 4] as int;
            loop
                invariant
                    i <= d.len(),
                    i0 + 5 <= d.len(),
                    1 <= st.fields_remaining <= fields,
                    i as int == i0 + 5 + 3 * (fields - st.fields_remaining),
                    buf@ == d.subrange(i0 as int, i as int),
                decreases st.fields_remaining,
            {
                let ghost i_pre = i;
                let h3 = match take(r, i, 3) {
                    Some((h, i2)) => {
                        i = i2;
                        h
                    },
                    None => {
                        proof {
                            assert(i0 + 5 + 3 * fields > d.len());
                        }
                        return (Err(SliceError::EndOfSlice), i, buf);
                    },
                };
                buf = push_all(buf, h3);
                proof {
                    assert(buf@ =~= d.subrange(i0 as int, i as int));
                }
                match st.advance(h3) {
                    Either::Left(s) => {
                        st = s;
                    },
                    Either::Right(rh) => {
                        proof {
                            assert(i as int == i0 + 5 + 3 * fields);
                        }
                        return (Ok(rh), i, buf);
                    },
                }
            }
        },
    }
}

/// Decode one data record from its buffered definition: re-feed the buffer
/// through the second-pass states, reading field bytes from the tip cursor,
/// and push the record's events.
#[verifier::loop_isolation(false)]
#[verifier::rlimit(60)]
fn decode_data_buffered(
    state: DefinitionAlt,
    time: Option<u8>,
    buf: &[u8],
    r: &[u8],
    i: usize,
    events: Vec<Event>,
    j: Ghost<int>,
) -> (out: (Result<RecordHeader, SliceError>, usize, Vec<Event>))
    requires
        i <= r@.len(),
        0 <= j@,
        j@ + buf@.len() <= r@.len(),
        buf@ == r@.subrange(j@, j@ + buf@.len()),
        buf@.len() == 5 + 3 * (buf@[4] as int),
    ensures
        out.1 <= r@.len(),
        i <= out.1,
        ({
            let step = document::spec_data(r@, j@, i as int, time);
            &&& out.2@ == events@ + step.0
            &&& (step.1 matches Ok(n) ==> out.0 is Ok && out.1 == i + n)
            &&& (step.1 matches Err(e) ==> (out.0 matches Err(e2) && e2 == e))
        }),
{
    let ghost d = r@;
    let ghost i0 = i;
    let ghost j0 = j@;
    let ghost e0 = events@;
    let ghost step = document::spec_data(d, j0, i0 as int, time);
    let mut i = i;
    let mut events = events;
    proof {
        assert(forall|k: int| 0 <= k < buf@.len() ==> buf@[k] == d[j0 + k]);
    }
    let (h, jj) = match take(buf, 0, 5) {
        Some(x) => x,
        None => {
            proof {
                assert(false);
            }
            return (Err(SliceError::EndOfSlice), i, events);
        },
    };
    proof {
        assert(h@ =~= d.subrange(j0, j0 + 5));
    }
    let (global, successor) = state.advance(h);
    events.push(Event::Record(global));
    if let Some(t) = time {
        events.push(Event::TimeOffset(t));
    }
    let ghost le = d[j0 + 1] == 0;
    let ghost announce = events@.skip(e0.len() as int);
    let ghost fstep = document::spec_fields(d, j0 + 5, i0 as int, d[j0 + 4] as nat, le);
    proof {
        assert(step.0 =~= announce + fstep.0);
        assert(step.1 == fstep.1);
    }
    match successor {
        Either::Right(rh) => {
            proof {
                assert(events@ =~= e0 + step.0);
            }
            (Ok(rh), i, events)
        },
        Either::Left(st) => {
            let mut st = st;
            let mut jj = jj;
            let ghost fields = buf@[4] as int;
            let ghost estart = events@;
            loop
                invariant
                    i <= d.len(),
                    i0 <= i,
                    1 <= st.fields_remaining <= fields,
                    jj as int == 5 + 3 * (fields - st.fields_remaining),
                    st.is_little_endian == le,
                    estart.is_prefix_of(events@),
                    estart == e0 + announce,
                    ({
                        let cur = document::spec_fields(
                            d,
                            j0 + jj,
                            i as int,
                            st.fields_remaining as nat,
                            le,
                        );
                        &&& fstep.0 == events@.skip(estart.len() as int) + cur.0
                        &&& (cur.1 matches Ok(m) ==> fstep.1 == Ok::<nat, SliceError>(
                            ((i - i0) + m) as nat,
                        ))
                        &&& (cur.1 matches Err(e) ==> fstep.1 == Err::<nat, SliceError>(e))
                    }),
                decreases st.fields_remaining,
            {
                let ghost jj_pre = jj;
                let ghost i_pre = i;
                let ghost e_pre = events@;
                let ghost st_pre = st;
                let ghost cur_pre = document::spec_fields(
                    d,
                    j0 + jj_pre,
                    i_pre as int,
                    st_pre.fields_remaining as nat,
                    le,
                );
                let h3 = match take(buf, jj, 3) {
                    Some((h, jj2)) => {
                        jj = jj2;
                        h
                    },
                    None => {
                        proof {
                            assert(false);
                        }
                        return (Err(SliceError::EndOfSlice), i, events);
                    },
                };
                proof {
                    assert(h3@ =~= d.subrange(j0 + jj_pre, j0 + jj_pre + 3));
                }
                let (f, af) = match st.advance(h3) {
                    Ok(x) => x,
                    Err(crate::sans::definition::DefinitionFieldError::UnknownBaseType(c)) => {
                        proof {
                            assert(fstep.0 =~= events@.skip(estart.len() as int));
                            crate::avec::slice::lemma_parts(events@, estart);
                            assert(e0 + step.0 =~= (e0 + announce) + events@.skip(
                                estart.len() as int,
                            ));
                            assert(events@ =~= e0 + step.0);
                        }
                        return (Err(SliceError::UnknownBaseType(c)), i, events);
                    },
                };
                let ghost estep = document::spec_elems(
                    d,
                    i_pre as int,
                    af.bytes_remaining() as nat,
                    af.base(),
                    af.is_little_endian(),
                    f,
                );
                let (fres, i2, events2) = decode_field(af, f, r, i, events);
                i = i2;
                events = events2;
                let succ = match fres {
                    Ok(s) => s,
                    Err(e) => {
                        proof {
                            assert(cur_pre.0 =~= estep.0);
                            assert(fstep.0 =~= events@.skip(estart.len() as int));
                            crate::avec::slice::lemma_parts(events@, estart);
                            assert(e0 + step.0 =~= (e0 + announce) + events@.skip(
                                estart.len() as int,
                            ));
                            assert(events@ =~= e0 + step.0);
                        }
                        return (Err(e), i, events);
                    },
                };
                proof {
                    assert(events@.skip(estart.len() as int) =~= e_pre.skip(
                        estart.len() as int,
                    ) + estep.0);
                }
                match succ {
                    Either::Left(s) => {
                        st = s;
                        proof {
                            let cur_new = document::spec_fields(
                                d,
                                j0 + jj,
                                i as int,
                                st.fields_remaining as nat,
                                le,
                            );
                            assert(cur_pre.0 =~= estep.0 + cur_new.0);
                            assert(fstep.0 =~= events@.skip(estart.len() as int) + cur_new.0);
                        }
                    },
                    Either::Right(rh) => {
                        proof {
                            assert(st_pre.fields_remaining == 1);
                            let cur_new = document::spec_fields(d, j0 + jj, i as int, 0, le);
                            assert(cur_pre.0 =~= estep.0 + cur_new.0);
                            assert(fstep.0 =~= events@.skip(estart.len() as int));
                            crate::avec::slice::lemma_parts(events@, estart);
                            assert(e0 + step.0 =~= (e0 + announce) + events@.skip(
                                estart.len() as int,
                            ));
                            assert(events@ =~= e0 + step.0);
                        }
                        return (Ok(rh), i, events);
                    },
                }
            }
        },
    }
}

/// Decode a document from the bytes a stream yields, into the sequence of
/// its events.
///
/// Returns the events the document dispatches, in stream order, and the
/// decode's outcome; both are exactly what [`spec_decode_reader`] assigns to
/// the byte sequence. A `None` outcome means the bytes end before the
/// document does.
#[verifier::loop_isolation(false)]
#[verifier::rlimit(60)]
pub fn decode_events(r: &[u8]) -> (out: (Vec<Event>, Option<Result<(), Error>>))
    ensures
        out.0@ == spec_decode_reader(r@).0,
        out.1 == spec_decode_reader(r@).1,
{
    let ghost d = r@;
    let mut events: Vec<Event> = Vec::new();
    let (h, mut i) = match take(r, 0, 12) {
        Some(x) => x,
        None => {
            return (events, None);
        },
    };
    proof {
        let h_s = d.subrange(0, 12);
        assert(h_s[0] == d[0] && h_s[4] == d[4] && h_s[5] == d[5] && h_s[6] == d[6] && h_s[7]
            == d[7] && h_s[8] == d[8] && h_s[9] == d[9] && h_s[10] == d[10] && h_s[11] == d[11]);
    }
    let (size, successor) = match Decoder::advance(h) {
        Ok(x) => x,
        Err(e) => {
            return (events, Some(Err(Error::Header(e))));
        },
    };
    let mut record_header = match successor {
        Either::Left(state) => {
            let h2 = match take(r, i, 2) {
                Some((h2, i2)) => {
                    i = i2;
                    h2
                },
                None => {
                    return (events, None);
                },
            };
            state.advance(h2)
        },
        Either::Right(state) => state,
    };
    let end64: u64 = i as u64 + size as u64;
    let mut defs: Vec<Vec<u8>> = Vec::new();
    while defs.len() < 16
        invariant
            defs@.len() <= 16,
            forall|k: int| 0 <= k < defs@.len() ==> defs@[k]@.len() == 0,
        decreases 16 - defs@.len(),
    {
        defs.push(Vec::new());
    }
    let ghost rt0 = spec_initial_reader_table();
    let ghost mut rt = rt0;
    let ghost target = spec_reader_records(d, i as int, end64 as int, rt0);
    proof {
        assert(spec_decode_reader(d).0 == target.0);
    }
    while (i as u64) < end64
        invariant
            d == r@,
            i <= d.len(),
            defs@.len() == 16,
            rt.len() == 16,
            forall|k: int|
                0 <= k < 16 ==> (#[trigger] rt[k] is None <==> defs@[k]@.len() == 0),
            forall|k: int|
                0 <= k < 16 ==> (#[trigger] rt[k] matches Some(off) ==> 0 <= off && off
                    + defs@[k]@.len() <= d.len() && defs@[k]@ == d.subrange(
                    off,
                    off + defs@[k]@.len(),
                ) && defs@[k]@.len() == 5 + 3 * (defs@[k]@[4] as int)),
            ({
                let cur = spec_reader_records(d, i as int, end64 as int, rt);
                &&& target.0 == events@ + cur.0
                &&& target.1 == cur.1
            }),
        decreases vstd::math::max(end64 - i, 0),
    {
        let ghost i_pre = i;
        let ghost rt_pre = rt;
        let ghost cur_pre = spec_reader_records(d, i_pre as int, end64 as int, rt_pre);
        let hb = match take(r, i, 1) {
            Some((h, i2)) => {
                i = i2;
                h
            },
            None => {
                return (events, None);
            },
        };
        proof {
            assert(hb@ =~= d.subrange(i_pre as int, i_pre + 1));
            assert(hb@[0] == d[i_pre as int]);
        }
        let (local, successor) = match record_header.advance(hb) {
            Ok(x) => x,
            Err(_e) => {
                return (events, Some(Err(Error::Developer)));
            },
        };
        let ghost b = d[i_pre as int];
        record_header = match successor {
            Either::Left(state) => {
                proof {
                    assert((b & 0xf) < 16) by (bit_vector);
                }
                let (res, i2, buf) = buffer_definition(state, r, i);
                i = i2;
                match res {
                    Ok(rh) => {
                        defs[local as usize] = buf;
                        proof {
                            rt = rt.update(local as int, Some(i_pre + 1));
                        }
                        rh
                    },
                    Err(_) => {
                        return (events, None);
                    },
                }
            },
            Either::Right((time, state)) => {
                proof {
                    assert((b & 0xf) < 16) by (bit_vector);
                    assert(((b >> 5) & 0x3) < 16) by (bit_vector);
                }
                let ghost dstep = spec_reader_data(
                    d,
                    i_pre as int,
                    end64 as int,
                    rt_pre,
                    local,
                    time,
                );
                proof {
                    assert(cur_pre == dstep);
                }
                let l = local as usize;
                if defs[l].len() == 0 {
                    proof {
                        assert(dstep.0 =~= Seq::<Event>::empty());
                        assert(target.0 =~= events@);
                    }
                    return (events, Some(Err(Error::UnsetLocalMessage(local))));
                }
                let ghost joff = rt[local as int]->0;
                let buf = defs[l].as_slice();
                let (res, i2, events2) = decode_data_buffered(
                    state,
                    time,
                    buf,
                    r,
                    i,
                    events,
                    Ghost(joff),
                );
                i = i2;
                events = events2;
                match res {
                    Ok(rh) => {
                        proof {
                            let step = document::spec_data(d, joff, i_pre + 1, time);
                            assert(dstep.0 == step.0 + (if i_pre + 1 + step.1->Ok_0 >= end64 as int {
                                Seq::<Event>::empty()
                            } else {
                                spec_reader_records(
                                    d,
                                    i_pre + 1 + step.1->Ok_0,
                                    end64 as int,
                                    rt_pre,
                                ).0
                            }));
                        }
                        rh
                    },
                    Err(SliceError::UnknownBaseType(c)) => {
                        proof {
                            let step = document::spec_data(d, joff, i_pre + 1, time);
                            assert(dstep == (step.0, Run::Failed(Error::UnknownBaseType(c))));
                            assert(target.0 =~= events@);
                        }
                        return (events, Some(Err(Error::UnknownBaseType(c))));
                    },
                    Err(_) => {
                        proof {
                            let step = document::spec_data(d, joff, i_pre + 1, time);
                            assert(dstep == (step.0, Run::Starved));
                            assert(target.0 =~= events@);
                        }
                        return (events, None);
                    },
                }
            },
        };
        proof {
            let cur_new = spec_reader_records(d, i as int, end64 as int, rt);
            assert(target.0 =~= events@ + cur_new.0);
        }
    }
    let fin = i;
    proof {
        assert(spec_reader_records(d, fin as int, end64 as int, rt).1 == Run::Done(fin as int));
        assert(target.0 =~= events@);
    }
    if r.len() - fin < 2 {
        return (events, None);
    }
    let found = (r[fin] as u16) + (r[fin + 1] as u16) * 0x100;
    let body = vstd::slice::slice_subrange(r, 0, fin);
    let calculated = compute_crc(0, body);
    if found != calculated {
        return (events, Some(Err(Error::CyclicRedundancyCheck { found, calculated })));
    }
    (events, Some(Ok(())))
}

} // verus!
