//! Slice-based decoder implementation.
//!
//! The driver holds two cursors into the document slice: the tip cursor `i`
//! over the record section, and, during a data record, a definition-body
//! cursor over the bytes of the governing definition record. The
//! local-message table stores, per local index, the offset of the most
//! recent definition's body; a data record re-feeds those bytes into the
//! `Alt`-suffixed kernel states, interleaved with field bytes from the tip.

use vstd::prelude::*;

use super::document;
use super::FromRecords;
use crate::sans::check::compute_crc;
use crate::sans::data::AnyField;
use crate::sans::definition::{Definition, DefinitionAlt, DefinitionFieldAlt, DefinitionFieldError};
use crate::sans::header::{DocumentHeaderError, RecordHeader};
use crate::sans::model::Event;
use crate::sans::{Decoder, Either};

verus! {

/// Errors occurring while decoding from a slice.
#[derive(Clone, Copy, Debug, PartialEq, Eq, Structural)]
pub enum Error {
    /// Unexpectedly reached the end of the slice.
    EndOfSlice,
    /// Calculated and found CRC values do not match.
    CyclicRedundancyCheck { found: u16, calculated: u16 },
    /// Incorrect file header.
    Header(DocumentHeaderError),
    /// Found unsupported developer data.
    Developer,
    /// A definition carries a base-type code outside the FIT table.
    UnknownBaseType(u8),
}

/// Take an exact number of bytes from an offset in a slice, returning them
/// with the advanced offset.
fn take<'a>(r: &'a [u8], i: usize, n: usize) -> (res: Result<(&'a [u8], usize), Error>)
    ensures
        i + n <= r@.len() ==> (res matches Ok((s, i2)) && s@ == r@.subrange(i as int, i + n) && i2
            == i + n),
        i + n > r@.len() ==> (res matches Err(e) && e == Error::EndOfSlice),
{
    if i <= r.len() && n <= r.len() - i {
        let s = vstd::slice::slice_subrange(r, i, i + n);
        Ok((s, i + n))
    } else {
        Err(Error::EndOfSlice)
    }
}


/// A sequence splits into any of its prefixes and the rest.
pub(crate) proof fn lemma_parts(e: Seq<Event>, p: Seq<Event>)
    requires
        p.is_prefix_of(e),
    ensures
        e == p + e.skip(p.len() as int),
{
    assert(p =~= e.take(p.len() as int));
    assert(e =~= p + e.skip(p.len() as int));
}

/// Decode the elements of one field of a data record, pushing the events of
/// the non-suppressed elements and advancing the tip cursor.
#[verifier::loop_isolation(false)]
pub(crate) fn decode_field(af: AnyField, f: u8, r: &[u8], i: usize, events: Vec<Event>) -> (out: (
    Result<Either<DefinitionFieldAlt, RecordHeader>, Error>,
    usize,
    Vec<Event>,
))
    requires
        i <= r@.len(),
    ensures
        out.1 <= r@.len(),
        i <= out.1,
        ({
            let step = document::spec_elems(
                r@,
                i as int,
                af.bytes_remaining() as nat,
                af.base(),
                af.is_little_endian(),
                f,
            );
            &&& out.2@ == events@ + step.0
            &&& (step.1 matches Ok(n) ==> out.1 == i + n && (out.0 matches Ok(succ) && (
            af.fields_remaining() != 0 ==> (succ matches Either::Left(dfa) && dfa.fields_remaining
                == af.fields_remaining() && dfa.is_little_endian == af.is_little_endian())) && (
            af.fields_remaining() == 0 ==> succ is Right)))
            &&& (step.1 matches Err(e) ==> (out.0 matches Err(e2) && e2 == e))
        }),
{
    let mut af = af;
    let mut i = i;
    let mut events = events;
    let ghost af0 = af;
    let ghost d = r@;
    let ghost i0 = i;
    let ghost e0 = events@;
    let ghost step = document::spec_elems(
        d,
        i0 as int,
        af0.bytes_remaining() as nat,
        af0.base(),
        af0.is_little_endian(),
        f,
    );
    loop
        invariant
            d == r@,
            i <= d.len(),
            i0 <= i,
            af.base() == af0.base(),
            af.is_little_endian() == af0.is_little_endian(),
            af.fields_remaining() == af0.fields_remaining(),
            e0.is_prefix_of(events@),
            step == document::spec_elems(
                d,
                i0 as int,
                af0.bytes_remaining() as nat,
                af0.base(),
                af0.is_little_endian(),
                f,
            ),
            ({
                let cur = document::spec_elems(
                    d,
                    i as int,
                    af.bytes_remaining() as nat,
                    af0.base(),
                    af0.is_little_endian(),
                    f,
                );
                &&& step.0 == events@.skip(e0.len() as int) + cur.0
                &&& (cur.1 matches Ok(m) ==> step.1 == Ok::<nat, Error>(((i - i0) + m) as nat))
                &&& (cur.1 matches Err(e) ==> step.1 == Err::<nat, Error>(e))
            }),
        decreases af.bytes_remaining(),
    {
        let ghost af_pre = af;
        let ghost i_pre = i;
        let ghost e_pre = events@;
        let ghost cur_pre = document::spec_elems(
            d,
            i_pre as int,
            af_pre.bytes_remaining() as nat,
            af0.base(),
            af0.is_little_endian(),
            f,
        );
        let ghost w = crate::sans::model::spec_base_width(af0.base()) as nat;
        let width = af.width();
        let h = match take(r, i, width as usize) {
            Ok((h, i2)) => {
                i = i2;
                h
            },
            Err(e) => {
                proof {
                    assert(cur_pre.0 =~= Seq::<Event>::empty());
                    assert(step.0 =~= events@.skip(e0.len() as int));
                    assert(events@ =~= e0 + step.0);
                }
                return (Err(e), i, events);
            },
        };
        let (value, succ) = af.advance(h);
        proof {
            assert(h@ =~= d.subrange(i_pre as int, i_pre + w));
        }
        if let Some(v) = value {
            events.push(Event::Field(f, v));
        }
        proof {
            assert(events@.skip(e0.len() as int) =~= e_pre.skip(e0.len() as int) + events@.skip(
                e_pre.len() as int,
            ));
        }
        match succ {
            Either::Left(exit) => {
                proof {
                    assert(af_pre.bytes_remaining() <= w);
                    assert(cur_pre.1 == Ok::<nat, Error>(w));
                    assert(step.0 =~= events@.skip(e0.len() as int));
                    assert(events@ =~= e0 + step.0);
                }
                return (Ok(exit), i, events);
            },
            Either::Right(next) => {
                af = next;
                proof {
                    let cur_new = document::spec_elems(
                        d,
                        i as int,
                        af.bytes_remaining() as nat,
                        af0.base(),
                        af0.is_little_endian(),
                        f,
                    );
                    assert(cur_pre.0 =~= events@.skip(e_pre.len() as int) + cur_new.0);
                    assert(step.0 =~= events@.skip(e0.len() as int) + cur_new.0);
                }
            },
        }
    }
}

/// Decode one data record: re-feed the governing definition's bytes from
/// `j` through the second-pass states, reading field bytes from the tip
/// cursor, and push the record's events.
#[verifier::loop_isolation(false)]
#[verifier::rlimit(100)]
#[verifier::spinoff_prover]
fn decode_data(
    state: DefinitionAlt,
    time: Option<u8>,
    r: &[u8],
    i: usize,
    j: usize,
    events: Vec<Event>,
) -> (out: (Result<RecordHeader, Error>, usize, Vec<Event>))
    requires
        i <= r@.len(),
        j <= r@.len(),
    ensures
        out.1 <= r@.len(),
        i <= out.1,
        ({
            let step = document::spec_data(r@, j as int, i as int, time);
            &&& out.2@ == events@ + step.0
            &&& (step.1 matches Ok(n) ==> out.0 is Ok && out.1 == i + n)
            &&& (step.1 matches Err(e) ==> (out.0 matches Err(e2) && e2 == e))
        }),
{
    let ghost d = r@;
    let ghost i0 = i;
    let ghost j0 = j;
    let ghost e0 = events@;
    let ghost step = document::spec_data(d, j0 as int, i0 as int, time);
    let mut i = i;
    let mut events = events;
    let (h, j) = match take(r, j, 5) {
        Ok(x) => x,
        Err(e) => {
            proof {
                assert(events@ =~= e0 + step.0);
            }
            return (Err(e), i, events);
        },
    };
    proof {
        assert(h@ =~= d.subrange(j0 as int, j0 + 5));
    }
    let (global, successor) = state.advance(h);
    events.push(Event::Record(global));
    if let Some(t) = time {
        events.push(Event::TimeOffset(t));
    }
    let ghost le = d[j0 + 1] == 0;
    let ghost announce = events@.skip(e0.len() as int);
    let ghost fstep = document::spec_fields(d, j0 + 5, i0 as int, d[j0 + 4] as nat, le);
    proof {
        assert(step.0 =~= announce + fstep.0);
        assert(step.1 == fstep.1);
    }
    match successor {
        Either::Right(rh) => {
            proof {
                assert(events@ =~= e0 + step.0);
            }
            (Ok(rh), i, events)
        },
        Either::Left(st) => {
            let mut st = st;
            let mut j = j;
            let ghost estart = events@;
            loop
                invariant
                    d == r@,
                    i <= d.len(),
                    i0 <= i,
                    j <= d.len(),
                    1 <= st.fields_remaining,
                    st.is_little_endian == le,
                    estart.is_prefix_of(events@),
                    estart == e0 + announce,
                    step == document::spec_data(d, j0 as int, i0 as int, time),
                    step.0 == announce + fstep.0,
                    step.1 == fstep.1,
                    fstep == document::spec_fields(d, j0 + 5, i0 as int, d[j0 + 4] as nat, le),
                    ({
                        let cur = document::spec_fields(
                            d,
                            j as int,
                            i as int,
                            st.fields_remaining as nat,
                            le,
                        );
                        &&& fstep.0 == events@.skip(estart.len() as int) + cur.0
                        &&& (cur.1 matches Ok(m) ==> fstep.1 == Ok::<nat, Error>(
                            ((i - i0) + m) as nat,
                        ))
                        &&& (cur.1 matches Err(e) ==> fstep.1 == Err::<nat, Error>(e))
                    }),
                decreases st.fields_remaining,
            {
                let ghost j_pre = j;
                let ghost i_pre = i;
                let ghost e_pre = events@;
                let ghost st_pre = st;
                let ghost cur_pre = document::spec_fields(
                    d,
                    j_pre as int,
                    i_pre as int,
                    st_pre.fields_remaining as nat,
                    le,
                );
                let h3 = match take(r, j, 3) {
                    Ok((h, j2)) => {
                        j = j2;
                        h
                    },
                    Err(e) => {
                        proof {
                            assert(fstep.0 =~= events@.skip(estart.len() as int));
                            lemma_parts(events@, estart);
                            assert(e0 + step.0 =~= (e0 + announce) + events@.skip(
                                estart.len() as int,
                            ));
                            assert(events@ =~= e0 + step.0);
                        }
                        return (Err(e), i, events);
                    },
                };
                proof {
                    assert(h3@ =~= d.subrange(j_pre as int, j_pre + 3));
                }
                let (f, af) = match st.advance(h3) {
                    Ok(x) => x,
                    Err(DefinitionFieldError::UnknownBaseType(c)) => {
                        proof {
                            assert(fstep.0 =~= events@.skip(estart.len() as int));
                            lemma_parts(events@, estart);
                            assert(e0 + step.0 =~= (e0 + announce) + events@.skip(
                                estart.len() as int,
                            ));
                            assert(events@ =~= e0 + step.0);
                        }
                        return (Err(Error::UnknownBaseType(c)), i, events);
                    },
                };
                let ghost estep = document::spec_elems(
                    d,
                    i_pre as int,
                    af.bytes_remaining() as nat,
                    af.base(),
                    af.is_little_endian(),
                    f,
                );
                let (fres, i2, events2) = decode_field(af, f, r, i, events);
                i = i2;
                events = events2;
                let succ = match fres {
                    Ok(s) => s,
                    Err(e) => {
                        proof {
                            assert(cur_pre.0 =~= estep.0);
                            assert(fstep.0 =~= events@.skip(estart.len() as int));
                            lemma_parts(events@, estart);
                            assert(e0 + step.0 =~= (e0 + announce) + events@.skip(
                                estart.len() as int,
                            ));
                            assert(events@ =~= e0 + step.0);
                        }
                        return (Err(e), i, events);
                    },
                };
                proof {
                    assert(events@.skip(estart.len() as int) =~= e_pre.skip(
                        estart.len() as int,
                    ) + estep.0);
                }
                match succ {
                    Either::Left(s) => {
                        st = s;
                        proof {
                            let cur_new = document::spec_fields(
                                d,
                                j as int,
                                i as int,
                                st.fields_remaining as nat,
                                le,
                            );
                            assert(cur_pre.0 =~= estep.0 + cur_new.0);
                            assert(fstep.0 =~= events@.skip(estart.len() as int) + cur_new.0);
                        }
                    },
                    Either::Right(rh) => {
                        proof {
                            assert(st_pre.fields_remaining == 1);
                            let cur_new = document::spec_fields(d, j as int, i as int, 0, le);
                            assert(cur_pre.0 =~= estep.0 + cur_new.0);
                            assert(fstep.0 =~= events@.skip(estart.len() as int));
                            lemma_parts(events@, estart);
                            assert(e0 + step.0 =~= (e0 + announce) + events@.skip(
                                estart.len() as int,
                            ));
                            assert(events@ =~= e0 + step.0);
                        }
                        return (Ok(rh), i, events);
                    },
                }
            }
        },
    }
}

/// Skip over a definition record's body with the first-pass states,
/// advancing the tip cursor.
#[verifier::loop_isolation(false)]
fn decode_definition(state: Definition, r: &[u8], i: usize) -> (out: (
    Result<RecordHeader, Error>,
    usize,
))
    requires
        i <= r@.len(),
    ensures
        out.1 <= r@.len(),
        ({
            let skip = document::spec_definition_skip(r@, i as int);
            &&& (skip matches Ok(i2) ==> out.0 is Ok && out.1 == i2)
            &&& (skip matches Err(e) ==> (out.0 matches Err(e2) && e2 == e))
        }),
{
    let ghost d = r@;
    let ghost i0 = i;
    let (h, i) = match take(r, i, 5) {
        Ok(x) => x,
        Err(e) => {
            return (Err(e), i);
        },
    };
    proof {
        assert(h@ =~= d.subrange(i0 as int, i0 + 5));
    }
    match state.advance(h) {
        Either::Right(rh) => (Ok(rh), i),
        Either::Left(st) => {
            let mut st = st;
            let mut i = i;
            let ghost fields = d[i0 + 4] as int;
            loop
                invariant
                    d == r@,
                    i <= d.len(),
                    i0 + 5 <= d.len(),
                    1 <= st.fields_remaining <= fields,
                    i as int == i0 + 5 + 3 * (fields - st.fields_remaining),
                    fields == d[i0 + 4] as int,
                decreases st.fields_remaining,
            {
                let h3 = match take(r, i, 3) {
                    Ok((h, i2)) => {
                        i = i2;
                        h
                    },
                    Err(e) => {
                        proof {
                            assert(i0 + 5 + 3 * fields > d.len());
                        }
                        return (Err(e), i);
                    },
                };
                match st.advance(h3) {
                    Either::Left(s) => {
                        st = s;
                    },
                    Either::Right(rh) => {
                        proof {
                            assert(i as int == i0 + 5 + 3 * fields);
                        }
                        return (Ok(rh), i);
                    },
                }
            }
        },
    }
}

/// Decode a document from a slice into the sequence of its events.
///
/// Returns the events the document dispatches, in stream order, and the
/// decode's result; both are exactly what [`document::spec_decode`] assigns
/// to the byte sequence.
#[verifier::loop_isolation(false)]
#[verifier::rlimit(60)]
pub fn decode_events(r: &[u8]) -> (out: (Vec<Event>, Result<(), Error>))
    ensures
        out.0@ == document::spec_decode(r@).0,
        out.1 == document::spec_decode(r@).1,
{
    let ghost d = r@;
    let mut events: Vec<Event> = Vec::new();
    let (h, mut i) = match take(r, 0, 12) {
        Ok(x) => x,
        Err(e) => {
            return (events, Err(e));
        },
    };
    proof {
        let h_s = d.subrange(0, 12);
        assert(h_s[0] == d[0] && h_s[4] == d[4] && h_s[5] == d[5] && h_s[6] == d[6] && h_s[7]
            == d[7] && h_s[8] == d[8] && h_s[9] == d[9] && h_s[10] == d[10] && h_s[11] == d[11]);
    }
    let (size, successor) = match Decoder::advance(h) {
        Ok(x) => x,
        Err(e) => {
            return (events, Err(Error::Header(e)));
        },
    };
    let mut record_header = match successor {
        Either::Left(state) => {
            let h2 = match take(r, i, 2) {
                Ok((h2, i2)) => {
                    i = i2;
                    h2
                },
                Err(e) => {
                    return (events, Err(e));
                },
            };
            state.advance(h2)
        },
        Either::Right(state) => state,
    };
    let size_us = size as usize;
    if size_us > r.len() || i > r.len() - size_us || r.len() - size_us - i < 2 {
        return (events, Err(Error::EndOfSlice));
    }
    let end = i + size_us;
    let body = vstd::slice::slice_subrange(r, 0, end);
    let calculated = compute_crc(0, body);
    let found = (r[end] as u16) + (r[end + 1] as u16) * 0x100;
    if found != calculated {
        return (events, Err(Error::CyclicRedundancyCheck { found, calculated }));
    }
    let mut table: Vec<usize> = Vec::new();
    while table.len() < 16
        invariant
            table@.len() <= 16,
            forall|k: int| 0 <= k < table@.len() ==> table@[k] == 0,
        decreases 16 - table@.len(),
    {
        table.push(0);
    }
    proof {
        assert(document::spec_table_view(table@) =~= document::spec_initial_table());
    }
    let ghost target = document::spec_records(
        d,
        i as int,
        end as int,
        document::spec_initial_table(),
    );
    proof {
        assert(document::spec_decode(d).0 == target.0);
        assert(document::spec_decode(d).1 == target.1);
    }
    while i < end
        invariant
            d == r@,
            i <= d.len(),
            end + 2 <= d.len(),
            table@.len() == 16,
            forall|k: int| 0 <= k < 16 ==> #[trigger] table@[k] <= d.len(),
            ({
                let cur = document::spec_records(
                    d,
                    i as int,
                    end as int,
                    document::spec_table_view(table@),
                );
                &&& target.0 == events@ + cur.0
                &&& target.1 == cur.1
            }),
        decreases vstd::math::max(end - i, 0),
    {
        let ghost i_pre = i;
        let ghost e_pre = events@;
        let ghost tv_pre = document::spec_table_view(table@);
        let ghost cur_pre = document::spec_records(d, i_pre as int, end as int, tv_pre);
        let hb = match take(r, i, 1) {
            Ok((h, i2)) => {
                i = i2;
                h
            },
            Err(e) => {
                return (events, Err(e));
            },
        };
        proof {
            assert(hb@ =~= d.subrange(i_pre as int, i_pre + 1));
            assert(hb@[0] == d[i_pre as int]);
        }
        let (local, successor) = match record_header.advance(hb) {
            Ok(x) => x,
            Err(_e) => {
                return (events, Err(Error::Developer));
            },
        };
        let ghost b = d[i_pre as int];
        record_header = match successor {
            Either::Left(state) => {
                proof {
                    assert((b & 0xf) < 16) by (bit_vector);
                }
                table[local as usize] = i;
                proof {
                    assert(document::spec_table_view(table@) =~= tv_pre.update(
                        local as int,
                        i_pre + 1,
                    ));
                }
                let (res, i2) = decode_definition(state, r, i);
                i = i2;
                match res {
                    Ok(rh) => rh,
                    Err(e) => {
                        return (events, Err(e));
                    },
                }
            },
            Either::Right((time, state)) => {
                proof {
                    assert((b & 0xf) < 16) by (bit_vector);
                    assert(((b >> 5) & 0x3) < 16) by (bit_vector);
                }
                let j = table[local as usize];
                proof {
                    assert(j as int == tv_pre[local as int]);
                }
                let (res, i2, events2) = decode_data(state, time, r, i, j, events);
                i = i2;
                events = events2;
                match res {
                    Ok(rh) => rh,
                    Err(e) => {
                        proof {
                            assert(target.0 =~= events@);
                        }
                        return (events, Err(e));
                    },
                }
            },
        };
        proof {
            let cur_new = document::spec_records(
                d,
                i as int,
                end as int,
                document::spec_table_view(table@),
            );
            assert(target.0 =~= events@ + cur_new.0);
        }
    }
    proof {
        assert(target.0 =~= events@);
    }
    (events, Ok(()))
}

/// Decode records from a slice of a document, publishing to a receiver.
///
/// The receiver sees exactly the events that [`document::spec_decode`]
/// assigns to the byte sequence, in order: each record is announced through
/// [`FromRecords::add_record`], and its time offset and field values follow
/// through the [`FromRecord`] methods while the receiver accepted the
/// record.
#[verifier::loop_isolation(false)]
pub fn decode<O: FromRecords>(r: &[u8], o: &mut O) -> (res: Result<(), Error>)
    ensures
        res == document::spec_decode(r@).1,
{
    let (events, result) = decode_events(r);
    super::dispatch_events(&events, o);
    result
}

} // verus!
