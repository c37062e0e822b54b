//! The streaming constructor: it fetches every payload in fixed-size chunks
//! through an abstract reader, as an on-chain script does through the host's
//! load primitives, and emits the same bytes as the mock-transaction walk.

use crate::bytes_util::zero_vec;
use crate::errors::CighashAllError;
use crate::message::cell_entry_bytes;
use crate::message::cell_lengths_ok;
use crate::message::cells_bytes;
use crate::message::first_witness_bytes;
use crate::message::group_tail_bytes;
use crate::message::group_tail_lengths_ok;
use crate::message::lengths_ok;
use crate::message::message_core;
use crate::message::msg_defined;
use crate::message::orphan_lengths_ok;
use crate::message::sigmsg;
use crate::message::witness_entry_bytes;
use crate::message::witness_range_bytes;
use crate::codec::taggable;
use crate::model::CellModel;
use crate::model::TxModel;
use crate::sink::write_length;
use crate::sink::Sink;
use crate::witness::parse_witness_args;
use crate::witness::wa_valid;
use vstd::prelude::*;
use vstd::slice::slice_subrange;

verus! {

/// The streaming chunk size: each reload fetches at most this many bytes.
pub const LOAD_BATCH_LENGTH: usize = 32768;

/// Which payload a load primitive fetches.
#[derive(Clone, Copy, Debug, PartialEq, Eq, Structural)]
pub enum PayloadKind {
    CellOutput,
    CellData,
    Witness,
}

/// The index space of a load: all inputs, or the current script group.
#[derive(Clone, Copy, Debug, PartialEq, Eq, Structural)]
pub enum Source {
    Input,
    GroupInput,
}

/// What a load primitive can report besides a plain byte count.
#[derive(Clone, Copy, Debug, PartialEq, Eq, Structural)]
pub enum LoadError {
    /// The payload goes on past the buffer; the total remaining length.
    LengthNotEnough(usize),
    /// No payload exists at this index.
    IndexOutOfBound,
    /// Any other host failure.
    Other,
}

/// The payload at `index` of the plain `Input` space of a transaction.
pub open spec fn direct_payload_of(
    cells: Seq<CellModel>,
    witnesses: Seq<Seq<u8>>,
    kind: PayloadKind,
    index: int,
) -> Option<Seq<u8>> {
    match kind {
        PayloadKind::CellOutput => if 0 <= index < cells.len() {
            Some(cells[index].output)
        } else {
            None
        },
        PayloadKind::CellData => if 0 <= index < cells.len() {
            Some(cells[index].data)
        } else {
            None
        },
        PayloadKind::Witness => if 0 <= index < witnesses.len() {
            Some(witnesses[index])
        } else {
            None
        },
    }
}

/// The payload at `index` of a source; the group source maps the index
/// through the script group first.
pub open spec fn source_payload_of(
    cells: Seq<CellModel>,
    witnesses: Seq<Seq<u8>>,
    group: Seq<int>,
    kind: PayloadKind,
    index: int,
    source: Source,
) -> Option<Seq<u8>> {
    match source {
        Source::Input => direct_payload_of(cells, witnesses, kind, index),
        Source::GroupInput => if 0 <= index < group.len() {
            direct_payload_of(cells, witnesses, kind, group[index])
        } else {
            None
        },
    }
}

/// What every load primitive guarantees: the buffer keeps its length; a
/// plain return is the exact remaining length with the bytes from `offset`
/// on in the buffer's prefix; the length-not-enough signal reports the
/// remaining length and fills the whole buffer; out-of-bound happens exactly
/// when no payload exists; and any other failure only on an unreliable host.
pub open spec fn load_post(
    payload: Option<Seq<u8>>,
    reliable: bool,
    old_buf: Seq<u8>,
    new_buf: Seq<u8>,
    offset: int,
    r: Result<usize, LoadError>,
) -> bool {
    &&& new_buf.len() == old_buf.len()
    &&& match r {
        Ok(n) => payload matches Some(p) && offset <= p.len() && n == p.len() - offset && n
            <= new_buf.len() && new_buf.subrange(0, n as int) == p.subrange(
            offset,
            p.len() as int,
        ),
        Err(LoadError::LengthNotEnough(n)) => payload matches Some(p) && offset <= p.len() && n
            == p.len() - offset && n > new_buf.len() && new_buf == p.subrange(
            offset,
            offset + new_buf.len(),
        ),
        Err(LoadError::IndexOutOfBound) => payload is None,
        Err(LoadError::Other) => !reliable,
    }
}

/// An environment that serves a transaction payload by payload, as the
/// host's load primitives do on chain.
pub trait TxReader {
    /// The 32-byte transaction hash.
    spec fn tx_hash(&self) -> Seq<u8>;

    /// The resolved input cells, in transaction order.
    spec fn cells(&self) -> Seq<CellModel>;

    /// The witnesses, indexed from zero.
    spec fn witnesses(&self) -> Seq<Seq<u8>>;

    /// The current script group, as input indices.
    spec fn group(&self) -> Seq<int>;

    /// Whether every load on this reader is free of host failures.
    spec fn reliable(&self) -> bool;

    /// Fetches the transaction hash.
    fn load_tx_hash(&self) -> (r: Result<Vec<u8>, CighashAllError>)
        ensures
            match r {
                Ok(v) => v@ == self.tx_hash(),
                Err(e) => e == CighashAllError::Syscall && !self.reliable(),
            },
    ;

    /// Fetches a window of a serialized cell header.
    fn load_cell(&self, buf: &mut Vec<u8>, offset: usize, index: usize, source: Source) -> (r:
        Result<usize, LoadError>)
        requires
            match source_payload_of(self.cells(), self.witnesses(), self.group(), PayloadKind::CellOutput, index as int, source) {
                Some(p) => offset <= p.len(),
                None => true,
            },
        ensures
            load_post(
                source_payload_of(self.cells(), self.witnesses(), self.group(), PayloadKind::CellOutput, index as int, source),
                self.reliable(),
                old(buf)@,
                final(buf)@,
                offset as int,
                r,
            ),
    ;

    /// Fetches a window of a cell's data.
    fn load_cell_data(&self, buf: &mut Vec<u8>, offset: usize, index: usize, source: Source) -> (r:
        Result<usize, LoadError>)
        requires
            match source_payload_of(self.cells(), self.witnesses(), self.group(), PayloadKind::CellData, index as int, source) {
                Some(p) => offset <= p.len(),
                None => true,
            },
        ensures
            load_post(
                source_payload_of(self.cells(), self.witnesses(), self.group(), PayloadKind::CellData, index as int, source),
                self.reliable(),
                old(buf)@,
                final(buf)@,
                offset as int,
                r,
            ),
    ;

    /// Fetches a window of a witness.
    fn load_witness(&self, buf: &mut Vec<u8>, offset: usize, index: usize, source: Source) -> (r:
        Result<usize, LoadError>)
        requires
            match source_payload_of(self.cells(), self.witnesses(), self.group(), PayloadKind::Witness, index as int, source) {
                Some(p) => offset <= p.len(),
                None => true,
            },
        ensures
            load_post(
                source_payload_of(self.cells(), self.witnesses(), self.group(), PayloadKind::Witness, index as int, source),
                self.reliable(),
                old(buf)@,
                final(buf)@,
                offset as int,
                r,
            ),
    ;
}

/// The payload a reader serves at `(kind, index, source)`.
pub open spec fn source_payload<R: TxReader>(
    r: &R,
    kind: PayloadKind,
    index: int,
    source: Source,
) -> Option<Seq<u8>> {
    source_payload_of(r.cells(), r.witnesses(), r.group(), kind, index, source)
}

/// The group enumeration is strictly ascending and stays among the inputs,
/// and the index spaces fit the machine's word.
pub open spec fn reader_wf<R: TxReader>(r: &R) -> bool {
    &&& r.cells().len() <= usize::MAX
    &&& r.witnesses().len() <= usize::MAX
    &&& r.group().len() <= usize::MAX
    &&& forall|j: int| 0 <= j < r.group().len() ==> 0 <= #[trigger] r.group()[j] < r.cells().len()
    &&& forall|j1: int, j2: int|
        0 <= j1 < j2 < r.group().len() ==> #[trigger] r.group()[j1] < #[trigger] r.group()[j2]
}

/// The transaction a reader serves.
pub open spec fn reader_model<R: TxReader>(r: &R) -> TxModel {
    TxModel { tx_hash: r.tx_hash(), cells: r.cells(), witnesses: r.witnesses() }
}

/// Dispatches one load over the payload kind.
fn load_payload<R: TxReader>(
    reader: &R,
    kind: PayloadKind,
    buf: &mut Vec<u8>,
    offset: usize,
    index: usize,
    source: Source,
) -> (r: Result<usize, LoadError>)
    requires
        match source_payload(reader, kind, index as int, source) {
            Some(p) => offset <= p.len(),
            None => true,
        },
    ensures
        load_post(
            source_payload(reader, kind, index as int, source),
            reader.reliable(),
            old(buf)@,
            final(buf)@,
            offset as int,
            r,
        ),
{
    match kind {
        PayloadKind::CellOutput => reader.load_cell(buf, offset, index, source),
        PayloadKind::CellData => reader.load_cell_data(buf, offset, index, source),
        PayloadKind::Witness => reader.load_witness(buf, offset, index, source),
    }
}

/// A probed payload: its index, its full length, and a buffer holding its
/// first window.
pub struct InitialLoadData {
    pub index: usize,
    pub source: Source,
    pub full_length: usize,
    pub buffer: Vec<u8>,
}

/// How many payload bytes the first window already holds.
pub open spec fn loaded_prefix(full: int, batch: int) -> int {
    if full < batch {
        full
    } else {
        batch
    }
}

/// Probes the payload at `(index, source)` with a `batch`-sized buffer:
/// learns its full length and keeps the first window.  Reports the end of
/// the index space as `None`.
pub fn load_initial<R: TxReader>(
    reader: &R,
    kind: PayloadKind,
    index: usize,
    source: Source,
    batch: usize,
) -> (r: Result<Option<InitialLoadData>, CighashAllError>)
    requires
        batch >= 1,
    ensures
        match r {
            Ok(initial) => match initial {
                Some(h) => source_payload(reader, kind, index as int, source) matches Some(p)
                    && h.full_length == p.len() && h.buffer@.len() == batch && h.index == index
                    && h.source == source && h.buffer@.subrange(
                    0,
                    loaded_prefix(p.len() as int, batch as int),
                ) == p.subrange(0, loaded_prefix(p.len() as int, batch as int)),
                None => source_payload(reader, kind, index as int, source) is None,
            },
            Err(e) => e == CighashAllError::Syscall && !reader.reliable(),
        },
{
    let mut buffer = zero_vec(batch);
    match load_payload(reader, kind, &mut buffer, 0, index, source) {
        Ok(n) => {
            proof {
                let p = source_payload(reader, kind, index as int, source)->Some_0;
                assert(buffer@.subrange(0, loaded_prefix(p.len() as int, batch as int))
                    =~= p.subrange(0, loaded_prefix(p.len() as int, batch as int)));
            }
            Ok(Some(InitialLoadData { index, source, full_length: n, buffer }))
        },
        Err(LoadError::LengthNotEnough(n)) => {
            proof {
                let p = source_payload(reader, kind, index as int, source)->Some_0;
                assert(buffer@.subrange(0, loaded_prefix(p.len() as int, batch as int))
                    =~= p.subrange(0, loaded_prefix(p.len() as int, batch as int)));
            }
            Ok(Some(InitialLoadData { index, source, full_length: n, buffer }))
        },
        Err(LoadError::IndexOutOfBound) => Ok(None),
        Err(LoadError::Other) => Err(CighashAllError::Syscall),
    }
}

/// Streams a probed payload into the writer: first the window the probe
/// already holds, then reload after reload at advancing offsets until the
/// full length has gone through.  The output is the payload's bytes,
/// whatever the batch size.
#[verifier::loop_isolation(false)]
pub fn load_and_hash<R: TxReader, S: Sink>(
    reader: &R,
    kind: PayloadKind,
    initial: InitialLoadData,
    writer: &mut S,
) -> (r: Result<(), CighashAllError>)
    requires
        source_payload(reader, kind, initial.index as int, initial.source) matches Some(p)
            && initial.full_length == p.len() && initial.buffer@.len() >= 1
            && initial.buffer@.subrange(
            0,
            loaded_prefix(p.len() as int, initial.buffer@.len() as int),
        ) == p.subrange(0, loaded_prefix(p.len() as int, initial.buffer@.len() as int)),
    ensures
        final(writer).reliable() == old(writer).reliable(),
        match r {
            Ok(()) => final(writer).contents() == old(writer).contents() + source_payload(
                reader,
                kind,
                initial.index as int,
                initial.source,
            )->Some_0,
            Err(e) => (e == CighashAllError::Io && !old(writer).reliable()) || (e
                == CighashAllError::Syscall && !reader.reliable()),
        },
{
    let ghost p = source_payload(reader, kind, initial.index as int, initial.source)->Some_0;
    let index = initial.index;
    let source = initial.source;
    let full_length = initial.full_length;
    let mut buffer = initial.buffer;
    let batch = buffer.len();
    let mut loaded: usize = if full_length > batch {
        batch
    } else {
        full_length
    };
    match writer.write(slice_subrange(buffer.as_slice(), 0, loaded)) {
        Ok(()) => {},
        Err(e) => {
            return Err(e);
        },
    }
    proof {
        assert(writer.contents() =~= old(writer).contents() + p.subrange(0, loaded as int));
    }
    while loaded < full_length
        invariant
            buffer@.len() == batch,
            loaded <= full_length,
            writer.reliable() == old(writer).reliable(),
            writer.contents() == old(writer).contents() + p.subrange(0, loaded as int),
        decreases full_length - loaded,
    {
        let ghost before = writer.contents();
        match load_payload(reader, kind, &mut buffer, loaded, index, source) {
            Ok(n) => {
                match writer.write(slice_subrange(buffer.as_slice(), 0, n)) {
                    Ok(()) => {},
                    Err(e) => {
                        return Err(e);
                    },
                }
                proof {
                    assert(writer.contents() =~= old(writer).contents() + p.subrange(
                        0,
                        (loaded + n) as int,
                    ));
                }
                loaded = loaded + n;
            },
            Err(LoadError::LengthNotEnough(_)) => {
                match writer.write(buffer.as_slice()) {
                    Ok(()) => {},
                    Err(e) => {
                        return Err(e);
                    },
                }
                proof {
                    assert(writer.contents() =~= old(writer).contents() + p.subrange(
                        0,
                        (loaded + batch) as int,
                    ));
                }
                loaded = loaded + batch;
            },
            Err(LoadError::IndexOutOfBound) => {
                proof {
                    assert(false);
                }
                return Err(CighashAllError::Syscall);
            },
            Err(LoadError::Other) => {
                return Err(CighashAllError::Syscall);
            },
        }
    }
    proof {
        assert(p.subrange(0, loaded as int) =~= p);
    }
    Ok(())
}

/// Loads a whole payload into one buffer, as the first witness of the group
/// is loaded for validation.
fn load_full<R: TxReader>(reader: &R, kind: PayloadKind, index: usize, source: Source) -> (r:
    Result<Option<Vec<u8>>, CighashAllError>)
    ensures
        match r {
            Ok(loaded) => match loaded {
                Some(v) => source_payload(reader, kind, index as int, source) matches Some(p) && v@
                    == p,
                None => source_payload(reader, kind, index as int, source) is None,
            },
            Err(e) => e == CighashAllError::Syscall && !reader.reliable(),
        },
{
    let probe = match load_initial(reader, kind, index, source, LOAD_BATCH_LENGTH) {
        Ok(Some(h)) => h,
        Ok(None) => {
            return Ok(None);
        },
        Err(e) => {
            return Err(e);
        },
    };
    let ghost p = source_payload(reader, kind, index as int, source)->Some_0;
    if probe.full_length <= LOAD_BATCH_LENGTH {
        let out = vstd::slice::slice_to_vec(
            slice_subrange(probe.buffer.as_slice(), 0, probe.full_length),
        );
        proof {
            assert(out@ =~= p);
        }
        Ok(Some(out))
    } else {
        let mut big = zero_vec(probe.full_length);
        match load_payload(reader, kind, &mut big, 0, index, source) {
            Ok(n) => {
                proof {
                    assert(n == p.len());
                    assert(big@.len() == p.len());
                    assert(big@ =~= big@.subrange(0, n as int));
                    assert(big@ =~= p);
                }
                Ok(Some(big))
            },
            Err(LoadError::LengthNotEnough(_)) => {
                proof {
                    assert(false);
                }
                Err(CighashAllError::Syscall)
            },
            Err(LoadError::IndexOutOfBound) => {
                proof {
                    assert(false);
                }
                Err(CighashAllError::Syscall)
            },
            Err(LoadError::Other) => Err(CighashAllError::Syscall),
        }
    }
}

/// Once the group runs past the existing witnesses, the rest of the group
/// tail contributes nothing: the group is ascending.
proof fn lemma_group_tail_frozen(ws: Seq<Seq<u8>>, g: Seq<int>, j: int, hi: int)
    requires
        1 <= j <= hi <= g.len(),
        forall|k: int| j <= k < hi ==> #[trigger] g[k] >= ws.len(),
    ensures
        group_tail_bytes(ws, g, hi) == group_tail_bytes(ws, g, j),
    decreases hi - j,
{
    if hi > j {
        lemma_group_tail_frozen(ws, g, j, hi - 1);
        assert(g[hi - 1] >= ws.len());
        assert(group_tail_bytes(ws, g, hi) =~= group_tail_bytes(ws, g, hi - 1));
    }
}

/// Everything the streaming constructor promises.  On a well-formed
/// transaction the writer receives exactly the message; each error names its
/// cause: a rejected write, a host failure, an untaggable payload, a missing
/// first group witness, or an invalid one.  With a reliable reader and a
/// reliable writer, a defined message with taggable payloads is emitted.
pub open spec fn stream_post(
    t: TxModel,
    g: Seq<int>,
    orphans: bool,
    old_contents: Seq<u8>,
    old_reliable: bool,
    reader_reliable: bool,
    new_contents: Seq<u8>,
    r: Result<(), CighashAllError>,
) -> bool {
    &&& match r {
        Ok(()) => msg_defined(t, g) && lengths_ok(t, g, orphans) && new_contents == old_contents
            + sigmsg(t, g, orphans),
        Err(e) => {
            ||| (e == CighashAllError::Io && !old_reliable)
            ||| (e == CighashAllError::Syscall && !reader_reliable)
            ||| (e == CighashAllError::LengthOverflow && !lengths_ok(t, g, orphans))
            ||| (e == CighashAllError::MissingWitness && !(g.len() > 0 && 0 <= g[0]
                < t.witnesses.len()))
            ||| (e == CighashAllError::WitnessFormat && g.len() > 0 && 0 <= g[0]
                < t.witnesses.len() && !wa_valid(t.witnesses[g[0]]))
        },
    }
    &&& (msg_defined(t, g) && lengths_ok(t, g, orphans) && old_reliable && reader_reliable ==> r
        is Ok)
}

/// Streams the chosen message variant out of a payload-by-payload reader.
#[verifier::loop_isolation(false)]
#[verifier::rlimit(100)]
pub fn generate_from_reader<R: TxReader, S: Sink>(
    reader: &R,
    include_orphans: bool,
    writer: &mut S,
) -> (r: Result<(), CighashAllError>)
    requires
        reader_wf(reader),
    ensures
        final(writer).reliable() == old(writer).reliable(),
        stream_post(
            reader_model(reader),
            reader.group(),
            include_orphans,
            old(writer).contents(),
            old(writer).reliable(),
            reader.reliable(),
            final(writer).contents(),
            r,
        ),
{
    let ghost t = reader_model(reader);
    let ghost g = reader.group();
    let ghost ws = reader.witnesses();
    let ghost base = writer.contents();

    // The transaction hash.
    let hash = match reader.load_tx_hash() {
        Ok(v) => v,
        Err(e) => {
            return Err(e);
        },
    };
    match writer.write(hash.as_slice()) {
        Ok(()) => {},
        Err(e) => {
            return Err(e);
        },
    }
    proof {
        assert(writer.contents() =~= base + t.tx_hash + cells_bytes(t.cells.take(0)));
    }

    // The input cells, discovered by probing each index in turn.
    let mut input_cell_count: usize = 0;
    let mut cells_done: bool = false;
    while !cells_done
        invariant
            input_cell_count <= t.cells.len(),
            writer.reliable() == old(writer).reliable(),
            writer.contents() == base + t.tx_hash + cells_bytes(
                t.cells.take(input_cell_count as int),
            ),
            forall|k: int|
                0 <= k < input_cell_count ==> taggable((#[trigger] t.cells[k]).data.len()),
            cells_done ==> input_cell_count == t.cells.len(),
        decreases t.cells.len() - input_cell_count + (if cells_done { 0int } else { 1int }),
    {
        match load_initial(
            reader,
            PayloadKind::CellOutput,
            input_cell_count,
            Source::Input,
            LOAD_BATCH_LENGTH,
        ) {
            Ok(Some(probe_output)) => {
                let probe_data = match load_initial(
                    reader,
                    PayloadKind::CellData,
                    input_cell_count,
                    Source::Input,
                    LOAD_BATCH_LENGTH,
                ) {
                    Ok(Some(h)) => h,
                    Ok(None) => {
                        proof {
                            assert(false);
                        }
                        return Err(CighashAllError::Syscall);
                    },
                    Err(e) => {
                        return Err(e);
                    },
                };
                let ghost before = writer.contents();
                let data_length = probe_data.full_length;
                match load_and_hash(reader, PayloadKind::CellOutput, probe_output, writer) {
                    Ok(()) => {},
                    Err(e) => {
                        return Err(e);
                    },
                }
                match write_length(data_length, writer) {
                    Ok(()) => {},
                    Err(e) => {
                        proof {
                            if e == CighashAllError::LengthOverflow {
                                assert(!taggable(t.cells[input_cell_count as int].data.len()));
                                assert(!cell_lengths_ok(t.cells));
                            }
                        }
                        return Err(e);
                    },
                }
                match load_and_hash(reader, PayloadKind::CellData, probe_data, writer) {
                    Ok(()) => {},
                    Err(e) => {
                        return Err(e);
                    },
                }
                proof {
                    assert(writer.contents() =~= before + cell_entry_bytes(
                        t.cells[input_cell_count as int],
                    ));
                    let tk = t.cells.take(input_cell_count + 1);
                    assert(tk.drop_last() =~= t.cells.take(input_cell_count as int));
                    assert(tk.last() == t.cells[input_cell_count as int]);
                    assert(writer.contents() =~= base + t.tx_hash + cells_bytes(
                        t.cells.take(input_cell_count + 1),
                    ));
                }
                input_cell_count = input_cell_count + 1;
            },
            Ok(None) => {
                cells_done = true;
            },
            Err(e) => {
                return Err(e);
            },
        }
    }
    proof {
        assert(t.cells.take(input_cell_count as int) =~= t.cells);
        assert(cell_lengths_ok(t.cells));
    }

    // The first witness of the group, loaded whole so the envelope can be
    // validated and its fields located; emitted with the lock slot omitted.
    let first_witness = match load_full(reader, PayloadKind::Witness, 0, Source::GroupInput) {
        Ok(Some(v)) => v,
        Ok(None) => {
            return Err(CighashAllError::MissingWitness);
        },
        Err(e) => {
            return Err(e);
        },
    };
    proof {
        assert(g.len() > 0 && 0 <= g[0] < ws.len());
        assert(first_witness@ == ws[g[0]]);
    }
    let (o1, o2) = match parse_witness_args(&first_witness) {
        Ok(pair) => pair,
        Err(_) => {
            return Err(CighashAllError::WitnessFormat);
        },
    };
    let ghost after_cells = base + t.tx_hash + cells_bytes(t.cells);
    match writer.write(slice_subrange(first_witness.as_slice(), 0, 16)) {
        Ok(()) => {},
        Err(e) => {
            return Err(e);
        },
    }
    match writer.write(slice_subrange(first_witness.as_slice(), o1, o2)) {
        Ok(()) => {},
        Err(e) => {
            return Err(e);
        },
    }
    match writer.write(slice_subrange(first_witness.as_slice(), o2, first_witness.len())) {
        Ok(()) => {},
        Err(e) => {
            return Err(e);
        },
    }
    proof {
        assert(writer.contents() =~= after_cells + first_witness_bytes(ws[g[0]]));
        assert(writer.contents() =~= after_cells + first_witness_bytes(ws[g[0]])
            + group_tail_bytes(ws, g, 1));
    }

    // The remaining witnesses of the group, streamed in chunks.
    let ghost after_first = after_cells + first_witness_bytes(ws[g[0]]);
    let mut j: usize = 1;
    let mut tail_done: bool = false;
    while !tail_done
        invariant
            1 <= j,
            j <= g.len(),
            writer.reliable() == old(writer).reliable(),
            writer.contents() == after_first + group_tail_bytes(ws, g, j as int),
            forall|k: int|
                1 <= k < j && 0 <= #[trigger] g[k] < ws.len() ==> taggable(ws[g[k]].len()),
            tail_done ==> writer.contents() == after_first + group_tail_bytes(
                ws,
                g,
                g.len() as int,
            ) && group_tail_lengths_ok(ws, g),
        decreases g.len() - j + (if tail_done { 0int } else { 1int }),
    {
        match load_initial(reader, PayloadKind::Witness, j, Source::GroupInput, LOAD_BATCH_LENGTH) {
            Ok(Some(probe)) => {
                let ghost before = writer.contents();
                match write_length(probe.full_length, writer) {
                    Ok(()) => {},
                    Err(e) => {
                        proof {
                            if e == CighashAllError::LengthOverflow {
                                assert(!taggable(ws[g[j as int]].len()));
                                assert(!group_tail_lengths_ok(ws, g));
                            }
                        }
                        return Err(e);
                    },
                }
                match load_and_hash(reader, PayloadKind::Witness, probe, writer) {
                    Ok(()) => {},
                    Err(e) => {
                        return Err(e);
                    },
                }
                proof {
                    assert(writer.contents() =~= before + witness_entry_bytes(ws[g[j as int]]));
                    assert(writer.contents() =~= after_first + group_tail_bytes(ws, g, j + 1));
                }
                j = j + 1;
            },
            Ok(None) => {
                proof {
                    if j < g.len() {
                        assert(g[j as int] >= ws.len());
                        assert(forall|k: int| j <= k < g.len() ==> #[trigger] g[k] >= g[j as int]);
                        lemma_group_tail_frozen(ws, g, j as int, g.len() as int);
                        assert forall|k: int|
                            1 <= k < g.len() && 0 <= #[trigger] g[k] < ws.len() implies taggable(
                            ws[g[k]].len(),
                        ) by {
                            assert(k < j);
                        }
                    }
                }
                tail_done = true;
            },
            Err(e) => {
                return Err(e);
            },
        }
    }
    proof {
        assert(writer.contents() =~= base + message_core(t, g));
    }

    // The witnesses with no matching input cell, for the orphan variant.
    let ghost after_core = base + message_core(t, g);
    if include_orphans {
        let mut k: usize = input_cell_count;
        proof {
            assert(writer.contents() =~= after_core + witness_range_bytes(
                ws,
                input_cell_count as int,
                input_cell_count as int,
            ));
        }
        let mut orphans_done: bool = false;
        while !orphans_done
            invariant
                input_cell_count <= k,
                k <= ws.len() || k == input_cell_count,
                writer.reliable() == old(writer).reliable(),
                writer.contents() == after_core + witness_range_bytes(
                    ws,
                    input_cell_count as int,
                    k as int,
                ),
                forall|q: int| input_cell_count <= q < k ==> taggable((#[trigger] ws[q]).len()),
                orphans_done ==> writer.contents() == after_core + witness_range_bytes(
                    ws,
                    input_cell_count as int,
                    ws.len() as int,
                ) && orphan_lengths_ok(ws, input_cell_count as int),
            decreases (if k as int <= ws.len() { ws.len() - k } else { 0int }) + (if orphans_done { 0int } else { 1int }),
        {
            match load_initial(reader, PayloadKind::Witness, k, Source::Input, LOAD_BATCH_LENGTH) {
                Ok(Some(probe)) => {
                    let ghost before = writer.contents();
                    match write_length(probe.full_length, writer) {
                        Ok(()) => {},
                        Err(e) => {
                            proof {
                                if e == CighashAllError::LengthOverflow {
                                    assert(!taggable(ws[k as int].len()));
                                    assert(!orphan_lengths_ok(ws, t.cells.len() as int));
                                }
                            }
                            return Err(e);
                        },
                    }
                    match load_and_hash(reader, PayloadKind::Witness, probe, writer) {
                        Ok(()) => {},
                        Err(e) => {
                            return Err(e);
                        },
                    }
                    proof {
                        assert(writer.contents() =~= before + witness_entry_bytes(ws[k as int]));
                        assert(writer.contents() =~= after_core + witness_range_bytes(
                            ws,
                            input_cell_count as int,
                            k + 1,
                        ));
                    }
                    k = k + 1;
                },
                Ok(None) => {
                    proof {
                        assert(k >= ws.len());
                        if input_cell_count as int >= ws.len() {
                            assert(witness_range_bytes(
                                ws,
                                input_cell_count as int,
                                k as int,
                            ) =~= witness_range_bytes(
                                ws,
                                input_cell_count as int,
                                ws.len() as int,
                            ));
                        }
                    }
                    orphans_done = true;
                },
                Err(e) => {
                    return Err(e);
                },
            }
        }
    }
    proof {
        assert(writer.contents() =~= base + sigmsg(t, g, include_orphans));
    }

    match writer.flush() {
        Ok(()) => {},
        Err(e) => {
            return Err(e);
        },
    }
    Ok(())
}

} // verus!
