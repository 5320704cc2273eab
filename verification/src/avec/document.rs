//! The document model: what decoding a whole FIT document yields.
//!
//! [`spec_decode`] maps the byte sequence of a document to the sequence of
//! events dispatched to the receiver and the decode's outcome, exactly as the
//! slice driver produces them: header first, then the cyclic redundancy
//! check, then the record section. The record section's meaning is given by
//! [`spec_records`], a recursion that peels one record per step while
//! tracking the local-message table of definition offsets.
//!
//! Positions are measured from the start of the document. The table holds,
//! for each of the 16 local message indexes, the offset of the most recent
//! definition's body (the byte right after its record header); slots start
//! at offset zero, so a data record naming an unset slot reads whatever
//! stands at the start of the document, as the drivers do.

use vstd::prelude::*;

use super::slice::Error;
use crate::sans::check::spec_crc;
use crate::sans::header::DocumentHeaderError;
use crate::sans::model;
use crate::sans::model::Event;

verus! {

/// The local-message table at document start: every slot unset (offset 0).
pub open spec fn spec_initial_table() -> Seq<int> {
    Seq::new(16nat, |k: int| 0)
}

/// The positions held by a driver's local-message table, as the
/// specification reads them.
pub open spec fn spec_table_view(t: Seq<usize>) -> Seq<int> {
    Seq::new(t.len(), |k: int| t[k] as int)
}

/// What one field element run yields: the events of the non-suppressed
/// elements in stream order, and on success the number of tip bytes
/// consumed.
///
/// `i` is the tip position of the first element; `bytes_remaining` is the
/// field's declared size. One element of the base type's width is always
/// read; further elements follow while more than one width of bytes
/// remains.
pub open spec fn spec_elems(
    d: Seq<u8>,
    i: int,
    bytes_remaining: nat,
    b: model::BaseType,
    le: bool,
    f: u8,
) -> (Seq<Event>, Result<nat, Error>)
    decreases bytes_remaining,
{
    let w = model::spec_base_width(b) as nat;
    if i + w > d.len() {
        (Seq::empty(), Err(Error::EndOfSlice))
    } else {
        let evts = match model::spec_element(b, d.subrange(i, i + w), le) {
            Some(v) => seq![Event::Field(f, v)],
            None => Seq::empty(),
        };
        if bytes_remaining <= w {
            (evts, Ok(w))
        } else {
            let (rest, res) = spec_elems(d, i + w, (bytes_remaining - w) as nat, b, le, f);
            (
                evts + rest,
                match res {
                    Ok(n) => Ok((w + n) as nat),
                    Err(e) => Err(e),
                },
            )
        }
    }
}

/// What the remaining fields of a data record yield: their element events in
/// descriptor order, and on success the number of tip bytes consumed.
///
/// `j` is the definition-body position of the next field descriptor; `i` is
/// the tip position of the next field's first element.
pub open spec fn spec_fields(
    d: Seq<u8>,
    j: int,
    i: int,
    fields_remaining: nat,
    le: bool,
) -> (Seq<Event>, Result<nat, Error>)
    decreases fields_remaining,
{
    if fields_remaining == 0 {
        (Seq::empty(), Ok(0))
    } else if j + 3 > d.len() {
        (Seq::empty(), Err(Error::EndOfSlice))
    } else {
        let f = d[j];
        let size = d[j + 1];
        let code = d[j + 2];
        match model::spec_base_type(code) {
            None => (Seq::empty(), Err(Error::UnknownBaseType(code))),
            Some(b) => {
                let (evts, res) = spec_elems(d, i, size as nat, b, le, f);
                match res {
                    Err(e) => (evts, Err(e)),
                    Ok(n) => {
                        let (rest, res2) = spec_fields(
                            d,
                            j + 3,
                            i + n,
                            (fields_remaining - 1) as nat,
                            le,
                        );
                        (
                            evts + rest,
                            match res2 {
                                Ok(m) => Ok((n + m) as nat),
                                Err(e) => Err(e),
                            },
                        )
                    },
                }
            },
        }
    }
}

/// What one data record yields: its announcement, its time offset when the
/// record header was compressed, and its field events; on success the number
/// of tip bytes consumed after the record header byte.
///
/// `j` is the position of the governing definition's body; `i` is the tip
/// position right after the record header byte.
pub open spec fn spec_data(d: Seq<u8>, j: int, i: int, time: Option<u8>) -> (
    Seq<Event>,
    Result<nat, Error>,
) {
    if j + 5 > d.len() {
        (Seq::empty(), Err(Error::EndOfSlice))
    } else {
        let le = d[j + 1] == 0;
        let global = if le {
            model::spec_le16(d[j + 2], d[j + 3])
        } else {
            model::spec_le16(d[j + 3], d[j + 2])
        };
        let announce = seq![Event::Record(global)] + (match time {
            Some(t) => seq![Event::TimeOffset(t)],
            None => Seq::<Event>::empty(),
        });
        let (evts, res) = spec_fields(d, j + 5, i, d[j + 4] as nat, le);
        (announce + evts, res)
    }
}

/// Where a first-pass skip over a definition record's body ends.
///
/// `i` is the position right after the record header byte; the result is
/// the position right after the last field descriptor.
pub open spec fn spec_definition_skip(d: Seq<u8>, i: int) -> Result<int, Error> {
    if i + 5 > d.len() {
        Err(Error::EndOfSlice)
    } else {
        let fields = d[i + 4] as int;
        if fields > 0 && i + 5 + 3 * fields > d.len() {
            Err(Error::EndOfSlice)
        } else {
            Ok(i + 5 + 3 * fields)
        }
    }
}

/// What the record section yields from position `i` on, under the given
/// local-message table: all events of its data records in stream order, and
/// the outcome of the record loop.
///
/// The loop ends successfully as soon as the position reaches `end`; a
/// record may consume bytes beyond `end` (the drivers read wherever their
/// cursors point, and only the loop condition consults `end`).
pub open spec fn spec_records(d: Seq<u8>, i: int, end: int, table: Seq<int>) -> (
    Seq<Event>,
    Result<(), Error>,
)
    decreases end - i,
{
    if i >= end {
        (Seq::empty(), Ok(()))
    } else if i + 1 > d.len() {
        (Seq::empty(), Err(Error::EndOfSlice))
    } else {
        let b = d[i];
        if model::spec_is_compressed(b) {
            let j = table[model::spec_compressed_local(b) as int];
            let (evts, res) = spec_data(d, j, i + 1, Some(model::spec_time_offset(b)));
            match res {
                Err(e) => (evts, Err(e)),
                Ok(n) => {
                    if i + 1 + n >= end {
                        (evts, Ok(()))
                    } else {
                        let (rest, res2) = spec_records(d, i + 1 + n, end, table);
                        (evts + rest, res2)
                    }
                },
            }
        } else if model::spec_is_developer(b) {
            (Seq::empty(), Err(Error::Developer))
        } else if model::spec_is_definition(b) {
            let table2 = table.update(model::spec_normal_local(b) as int, i + 1);
            match spec_definition_skip(d, i + 1) {
                Err(e) => (Seq::empty(), Err(e)),
                Ok(i2) => {
                    if i2 >= end {
                        (Seq::empty(), Ok(()))
                    } else {
                        spec_records(d, i2, end, table2)
                    }
                },
            }
        } else {
            let j = table[model::spec_normal_local(b) as int];
            let (evts, res) = spec_data(d, j, i + 1, None);
            match res {
                Err(e) => (evts, Err(e)),
                Ok(n) => {
                    if i + 1 + n >= end {
                        (evts, Ok(()))
                    } else {
                        let (rest, res2) = spec_records(d, i + 1 + n, end, table);
                        (evts + rest, res2)
                    }
                },
            }
        }
    }
}

/// The end of the record section: the declared header length plus the
/// declared record-section length. Meaningful once the first 12 header bytes
/// are present.
pub open spec fn spec_end(d: Seq<u8>) -> int {
    d[0] + model::spec_data_size(d)
}

/// What decoding a document from a slice yields: the dispatched events and
/// the decode's result.
///
/// The header is examined first; then the cyclic redundancy check over
/// everything before the trailing two bytes; then the record section.
/// Failures before the record loop dispatch nothing.
pub open spec fn spec_decode(d: Seq<u8>) -> (Seq<Event>, Result<(), Error>) {
    if d.len() < 12 {
        (Seq::empty(), Err(Error::EndOfSlice))
    } else if !model::spec_magic_ok(d) {
        (Seq::empty(), Err(Error::Header(DocumentHeaderError::NotFitData)))
    } else if d[0] != 12 && d[0] != 14 {
        (Seq::empty(), Err(Error::Header(DocumentHeaderError::UnknownHeaderLength(d[0]))))
    } else if d.len() < d[0] as int {
        (Seq::empty(), Err(Error::EndOfSlice))
    } else {
        let end = spec_end(d);
        if d.len() < end + 2 {
            (Seq::empty(), Err(Error::EndOfSlice))
        } else {
            let found = model::spec_le16(d[end], d[end + 1]);
            let calculated = spec_crc(0, d.take(end));
            if found != calculated {
                (Seq::empty(), Err(Error::CyclicRedundancyCheck { found, calculated }))
            } else {
                spec_records(d, d[0] as int, end, spec_initial_table())
            }
        }
    }
}

/// The number of elements a field of the given size holds: one element is
/// always read; further elements follow while more than one width of bytes
/// remains.
pub open spec fn spec_element_count(size: nat, w: nat) -> nat
    decreases size,
{
    if w == 0 {
        1
    } else if size <= w {
        1
    } else {
        1 + spec_element_count((size - w) as nat, w)
    }
}

/// The decoded values of `n` consecutive elements of one base type, in
/// stream order, suppressed elements included as `None`.
pub open spec fn spec_element_values(d: Seq<u8>, i: int, n: nat, b: model::BaseType, le: bool) -> Seq<
    Option<model::Value>,
>
    decreases n,
{
    if n == 0 {
        Seq::empty()
    } else {
        let w = model::spec_base_width(b) as int;
        seq![model::spec_element(b, d.subrange(i, i + w), le)] + spec_element_values(
            d,
            i + w,
            (n - 1) as nat,
            b,
            le,
        )
    }
}

/// The values present among a sequence of decoded elements, in order.
pub open spec fn spec_present(vs: Seq<Option<model::Value>>) -> Seq<model::Value>
    decreases vs.len(),
{
    if vs.len() == 0 {
        Seq::empty()
    } else {
        (match vs[0] {
            Some(v) => seq![v],
            None => Seq::<model::Value>::empty(),
        }) + spec_present(vs.skip(1))
    }
}

/// Law: a field that decodes without error dispatches exactly the
/// non-suppressed values of its elements, in stream order, each as a
/// `Field` event carrying the field's number.
pub proof fn lemma_field_dispatch(
    d: Seq<u8>,
    i: int,
    size: nat,
    b: model::BaseType,
    le: bool,
    f: u8,
)
    requires
        spec_elems(d, i, size, b, le, f).1 is Ok,
    ensures
        spec_elems(d, i, size, b, le, f).0 == spec_present(
            spec_element_values(d, i, spec_element_count(size, model::spec_base_width(b) as nat), b, le),
        ).map_values(|v: model::Value| Event::Field(f, v)),
    decreases size,
{
    let w = model::spec_base_width(b) as nat;
    let elem = model::spec_element(b, d.subrange(i, i + w), le);
    let head: Seq<Option<model::Value>> = seq![elem];
    let m = |v: model::Value| Event::Field(f, v);
    let head_present: Seq<model::Value> = match elem {
        Some(v) => seq![v],
        None => Seq::empty(),
    };
    assert(head.skip(1) =~= Seq::<Option<model::Value>>::empty());
    assert(spec_present(Seq::<Option<model::Value>>::empty()) =~= Seq::<model::Value>::empty());
    assert(spec_present(head) =~= head_present);
    if size <= w {
        let vs = spec_element_values(d, i, 1, b, le);
        assert(spec_element_values(d, i + w, 0, b, le) =~= Seq::<Option<model::Value>>::empty());
        assert(vs =~= head);
        assert(spec_elems(d, i, size, b, le, f).0 =~= spec_present(vs).map_values(m));
    } else {
        lemma_field_dispatch(d, i + w, (size - w) as nat, b, le, f);
        let n = spec_element_count((size - w) as nat, w);
        let vs = spec_element_values(d, i, n + 1, b, le);
        let rest = spec_element_values(d, i + w, n, b, le);
        assert(vs =~= head + rest);
        assert(vs.skip(1) =~= rest);
        assert(spec_present(vs) =~= head_present + spec_present(rest));
        assert((head_present + spec_present(rest)).map_values(m) =~= head_present.map_values(m)
            + spec_present(rest).map_values(m));
        assert(spec_elems(d, i, size, b, le, f).0 =~= spec_present(vs).map_values(m));
    }
}

/// Law: truncating a well-framed document anywhere before its end makes the
/// decode fail, and nothing is dispatched: the failure is found before the
/// record loop runs.
pub proof fn lemma_truncation_fails(d: Seq<u8>, k: int)
    requires
        spec_decode(d).1 is Ok,
        d.len() == spec_end(d) + 2,
        0 <= k < d.len(),
    ensures
        spec_decode(d.take(k)).1 is Err,
        spec_decode(d.take(k)).0 == Seq::<Event>::empty(),
{
    let t = d.take(k);
    if k >= 12 {
        assert(t[0] == d[0] && t[4] == d[4] && t[5] == d[5] && t[6] == d[6] && t[7] == d[7] && t[8]
            == d[8] && t[9] == d[9] && t[10] == d[10] && t[11] == d[11]);
        assert(model::spec_magic_ok(t) == model::spec_magic_ok(d));
        assert(spec_end(t) == spec_end(d));
        assert(t.len() < spec_end(t) + 2);
    }
}

} // verus!
