//! The byte encoding of delta operations inside DATA messages that carry
//! the DELTA flag, the sender's chunking of that encoding, and the receiver's
//! step-by-step reading of it.
//!
//! Copy: `0x00 | offset:u64 | size:u32`. Literal: `0x01 | len:u32 | bytes`.

use vstd::prelude::*;
use crate::delta::{DeltaOp, DeltaOpView, MAX_DELTA_COPY_SIZE};
use crate::streaming::wire::{
    be32, be64, get_u32, get_u64, put_slice, put_u32, put_u64, put_u8, u32_at, u64_at,
};
use crate::streaming::messages::{lemma_read_u32, lemma_read_u64};

verus! {

/// Maximum size of one chunk of delta bytes (16MB), well under the frame limit.
pub const DELTA_CHUNK_SIZE: usize = 16 * 1024 * 1024;

pub open spec fn op_bytes(op: DeltaOpView) -> Seq<u8> {
    match op {
        DeltaOpView::Copy { offset, size } => seq![0x00u8] + be64(offset) + be32(size as u32),
        DeltaOpView::Data(d) => seq![0x01u8] + be32(d.len() as u32) + d,
    }
}

/// The operations one after another.
pub open spec fn ops_bytes(ops: Seq<DeltaOpView>) -> Seq<u8>
    decreases ops.len(),
{
    if ops.len() == 0 {
        Seq::empty()
    } else {
        ops_bytes(ops.drop_last()) + op_bytes(ops.last())
    }
}

/// Serializes one delta operation.
pub fn encode_delta_op(op: &DeltaOp) -> (r: Vec<u8>)
    ensures
        r@ == op_bytes(op@),
{
    let mut buf: Vec<u8> = Vec::new();
    match op {
        DeltaOp::Copy { offset, size } => {
            put_u8(&mut buf, 0x00);
            put_u64(&mut buf, *offset);
            put_u32(&mut buf, *size as u32);
            assert(buf@ =~= seq![0x00u8] + be64(*offset) + be32(*size as u32));
        },
        DeltaOp::Data(d) => {
            put_u8(&mut buf, 0x01);
            put_u32(&mut buf, d.len() as u32);
            put_slice(&mut buf, d.as_slice());
            assert(buf@ =~= seq![0x01u8] + be32(d@.len() as u32) + d@);
        },
    }
    buf
}

// =============================================================================
// Chunking
// =============================================================================

/// Gathers encoded operations into chunks. A chunk is sent once adding the
/// next operation would take a non-empty chunk over `DELTA_CHUNK_SIZE`.
pub struct DeltaChunker {
    buf: Vec<u8>,
}

impl View for DeltaChunker {
    type V = Seq<u8>;

    closed spec fn view(&self) -> Seq<u8> {
        self.buf@
    }
}

impl DeltaChunker {
    pub fn new() -> (r: Self)
        ensures
            r@ == Seq::<u8>::empty(),
    {
        DeltaChunker { buf: Vec::new() }
    }

    /// Adds one operation; returns the chunk gathered so far when the
    /// operation does not fit after it.
    pub fn push_op(&mut self, op: &DeltaOp) -> (r: Option<Vec<u8>>)
        ensures
            ({
                let b = op_bytes(op@);
                if old(self)@.len() > 0 && old(self)@.len() + b.len() > DELTA_CHUNK_SIZE {
                    &&& r matches Some(c) && c@ == old(self)@
                    &&& final(self)@ == b
                } else {
                    &&& r is None
                    &&& final(self)@ == old(self)@ + b
                }
            }),
    {
        let mut bytes = encode_delta_op(op);
        if self.buf.len() > 0 && (self.buf.len() > DELTA_CHUNK_SIZE || bytes.len() > DELTA_CHUNK_SIZE
            - self.buf.len()) {
            std::mem::swap(&mut self.buf, &mut bytes);
            Some(bytes)
        } else {
            put_slice(&mut self.buf, bytes.as_slice());
            None
        }
    }

    /// The last chunk, when any operation is left over.
    pub fn finish(self) -> (r: Option<Vec<u8>>)
        ensures
            self@.len() > 0 ==> (r matches Some(c) && c@ == self@),
            self@.len() == 0 ==> r is None,
    {
        if self.buf.len() > 0 {
            Some(self.buf)
        } else {
            None
        }
    }
}

/// The chunker loses and reorders nothing: whatever it has handed out so far,
/// followed by what it holds, is the encoding of the operations pushed so far.
/// Each chunk it hands out is non-empty, and when every operation encodes to at
/// most `DELTA_CHUNK_SIZE` bytes, so does every chunk.
pub proof fn lemma_chunker_step(
    sent: Seq<u8>,
    held: Seq<u8>,
    ops: Seq<DeltaOpView>,
    op: DeltaOpView,
    out: Option<Seq<u8>>,
    held2: Seq<u8>,
)
    requires
        sent + held == ops_bytes(ops),
        ({
            let b = op_bytes(op);
            if held.len() > 0 && held.len() + b.len() > DELTA_CHUNK_SIZE {
                out == Some(held) && held2 == b
            } else {
                out is None && held2 == held + b
            }
        }),
    ensures
        match out {
            Some(c) => c.len() > 0 && (sent + c) + held2 == ops_bytes(ops.push(op)),
            None => sent + held2 == ops_bytes(ops.push(op)),
        },
        held.len() <= DELTA_CHUNK_SIZE && op_bytes(op).len() <= DELTA_CHUNK_SIZE ==> {
            &&& held2.len() <= DELTA_CHUNK_SIZE
            &&& out matches Some(c) ==> c.len() <= DELTA_CHUNK_SIZE
        },
{
    assert(ops.push(op).drop_last() =~= ops);
    assert(ops_bytes(ops.push(op)) == ops_bytes(ops) + op_bytes(op));
    match out {
        Some(c) => {
            assert((sent + c) + held2 =~= (sent + held) + op_bytes(op));
        },
        None => {
            assert(sent + held2 =~= (sent + held) + op_bytes(op));
        },
    }
}

/// The views of the operations.
pub open spec fn ops_view(ops: Seq<DeltaOp>) -> Seq<DeltaOpView> {
    ops.map_values(|o: DeltaOp| o@)
}

/// The contents of the chunks.
pub open spec fn chunks_view(cs: Seq<Vec<u8>>) -> Seq<Seq<u8>> {
    cs.map_values(|c: Vec<u8>| c@)
}

/// The chunks one after another.
pub open spec fn concat_chunks(cs: Seq<Seq<u8>>) -> Seq<u8>
    decreases cs.len(),
{
    if cs.len() == 0 {
        Seq::empty()
    } else {
        concat_chunks(cs.drop_last()) + cs.last()
    }
}

/// Every operation encodes to at most `DELTA_CHUNK_SIZE` bytes.
pub open spec fn ops_fit(ops: Seq<DeltaOpView>) -> bool {
    forall|j: int| 0 <= j < ops.len() ==> #[trigger] op_bytes(ops[j]).len() <= DELTA_CHUNK_SIZE
}

/// The chunks of delta bytes a list of operations is sent in: the chunker
/// fed every operation in order, then emptied. The chunks, one after another,
/// are the encoding of the operations; none is empty; and when every
/// operation fits a chunk, no chunk is longer than `DELTA_CHUNK_SIZE`.
pub fn delta_chunks(ops: &[DeltaOp]) -> (r: Vec<Vec<u8>>)
    ensures
        concat_chunks(chunks_view(r@)) == ops_bytes(ops_view(ops@)),
        forall|i: int| 0 <= i < r@.len() ==> (#[trigger] r@[i])@.len() > 0,
        ops_fit(ops_view(ops@)) ==> forall|i: int| 0 <= i < r@.len() ==> (#[trigger] r@[i])@.len()
            <= DELTA_CHUNK_SIZE,
{
    let ghost all = ops_view(ops@);
    let ghost small = ops_fit(all);
    let mut chunker = DeltaChunker::new();
    let mut out: Vec<Vec<u8>> = Vec::new();
    let mut i: usize = 0;
    proof {
        assert(all.take(0) =~= Seq::<DeltaOpView>::empty());
        assert(chunks_view(out@) =~= Seq::<Seq<u8>>::empty());
    }
    while i < ops.len()
        invariant
            i <= ops@.len(),
            all == ops_view(ops@),
            small == ops_fit(all),
            concat_chunks(chunks_view(out@)) + chunker@ == ops_bytes(all.take(i as int)),
            forall|j: int| 0 <= j < out@.len() ==> (#[trigger] out@[j])@.len() > 0,
            small ==> chunker@.len() <= DELTA_CHUNK_SIZE,
            small ==> forall|j: int| 0 <= j < out@.len() ==> (#[trigger] out@[j])@.len()
                <= DELTA_CHUNK_SIZE,
        decreases ops@.len() - i,
    {
        let ghost held = chunker@;
        let ghost sent = concat_chunks(chunks_view(out@));
        let ghost op = ops@[i as int]@;
        let got = chunker.push_op(&ops[i]);
        proof {
            let got_v: Option<Seq<u8>> = if got is Some {
                Some(got->Some_0@)
            } else {
                None
            };
            lemma_chunker_step(sent, held, all.take(i as int), op, got_v, chunker@);
            assert(all.take(i + 1) =~= all.take(i as int).push(op));
            if small {
                assert(op_bytes(all[i as int]).len() <= DELTA_CHUNK_SIZE);
            }
        }
        match got {
            Some(c) => {
                let ghost before = out@;
                out.push(c);
                proof {
                    assert(chunks_view(out@).drop_last() =~= chunks_view(before));
                }
            },
            None => {},
        }
        i = i + 1;
    }
    let ghost held = chunker@;
    match chunker.finish() {
        Some(c) => {
            let ghost before = out@;
            out.push(c);
            proof {
                assert(chunks_view(out@).drop_last() =~= chunks_view(before));
            }
        },
        None => {
            assert(held =~= Seq::<u8>::empty());
        },
    }
    assert(all.take(ops@.len() as int) =~= all);
    out
}

// =============================================================================
// Reading
// =============================================================================

/// Why a chunk of delta bytes was refused.
#[derive(Debug, Clone, Copy, PartialEq, Eq, Structural)]
pub enum DeltaError {
    /// A copy operation has fewer than 12 bytes after its tag.
    CopyTruncated,
    /// A copy operation is longer than `MAX_DELTA_COPY_SIZE`.
    CopyTooLarge { size: usize },
    /// A copy operation starts past the end of the old file.
    CopyOffsetOutOfRange { offset: u64, file_size: u64 },
    /// A copy operation ends past the end of the old file.
    CopyRangeOutOfRange { offset: u64, size: usize, file_size: u64 },
    /// A literal operation has fewer than 4 bytes after its tag.
    InsertTruncated,
    /// A literal operation is longer than `MAX_DELTA_COPY_SIZE`.
    InsertTooLarge { len: usize },
    /// A literal operation's bytes run past the end of the chunk.
    InsertDataTruncated,
    /// The tag byte names no operation.
    UnknownOp(u8),
}

/// `a + b`, saturating at `u64::MAX`.
pub open spec fn sat_add_u64(a: int, b: int) -> int {
    if a + b > u64::MAX {
        u64::MAX as int
    } else {
        a + b
    }
}

/// The operation that starts at `pos` of the chunk `s`, and the position after
/// it; `None` at the end of the chunk. `file_size` is the size of the old file
/// that copies read from.
pub open spec fn spec_next_delta_op(s: Seq<u8>, pos: int, file_size: u64) -> Result<
    Option<(DeltaOpView, int)>,
    DeltaError,
> {
    if pos >= s.len() {
        Ok(None)
    } else if s[pos] == 0x00 {
        if s.len() - (pos + 1) < 12 {
            Err(DeltaError::CopyTruncated)
        } else {
            let offset = u64_at(s, pos + 1);
            let size = u32_at(s, pos + 9) as usize;
            if size > MAX_DELTA_COPY_SIZE {
                Err(DeltaError::CopyTooLarge { size })
            } else if offset > file_size {
                Err(DeltaError::CopyOffsetOutOfRange { offset, file_size })
            } else if sat_add_u64(offset as int, size as int) > file_size {
                Err(DeltaError::CopyRangeOutOfRange { offset, size, file_size })
            } else {
                Ok(Some((DeltaOpView::Copy { offset, size }, pos + 13)))
            }
        }
    } else if s[pos] == 0x01 {
        if s.len() - (pos + 1) < 4 {
            Err(DeltaError::InsertTruncated)
        } else {
            let len = u32_at(s, pos + 1) as usize;
            if len > MAX_DELTA_COPY_SIZE {
                Err(DeltaError::InsertTooLarge { len })
            } else if s.len() - (pos + 5) < len {
                Err(DeltaError::InsertDataTruncated)
            } else {
                Ok(Some((DeltaOpView::Data(s.subrange(pos + 5, pos + 5 + len)), pos + 5 + len)))
            }
        }
    } else {
        Err(DeltaError::UnknownOp(s[pos]))
    }
}

pub open spec fn next_op_view(r: Result<Option<(DeltaOp, usize)>, DeltaError>) -> Result<
    Option<(DeltaOpView, int)>,
    DeltaError,
> {
    match r {
        Ok(Some((op, q))) => Ok(Some((op@, q as int))),
        Ok(None) => Ok(None),
        Err(e) => Err(e),
    }
}

/// Reads the operation at `pos`, checking it against the old file's size
/// before anything is read from that file.
pub fn next_delta_op(s: &[u8], pos: usize, file_size: u64) -> (r: Result<
    Option<(DeltaOp, usize)>,
    DeltaError,
>)
    requires
        pos <= s@.len(),
    ensures
        next_op_view(r) == spec_next_delta_op(s@, pos as int, file_size),
        r matches Ok(Some((_, q))) ==> pos < q <= s@.len(),
{
    let n = s.len();
    if pos >= n {
        return Ok(None);
    }
    let tag = s[pos];
    if tag == 0x00 {
        if n - (pos + 1) < 12 {
            return Err(DeltaError::CopyTruncated);
        }
        let offset = get_u64(s, pos + 1);
        let size = get_u32(s, pos + 9) as usize;
        if size > MAX_DELTA_COPY_SIZE {
            return Err(DeltaError::CopyTooLarge { size });
        }
        if offset > file_size {
            return Err(DeltaError::CopyOffsetOutOfRange { offset, file_size });
        }
        if offset.saturating_add(size as u64) > file_size {
            return Err(DeltaError::CopyRangeOutOfRange { offset, size, file_size });
        }
        Ok(Some((DeltaOp::Copy { offset, size }, pos + 13)))
    } else if tag == 0x01 {
        if n - (pos + 1) < 4 {
            return Err(DeltaError::InsertTruncated);
        }
        let len = get_u32(s, pos + 1) as usize;
        if len > MAX_DELTA_COPY_SIZE {
            return Err(DeltaError::InsertTooLarge { len });
        }
        if n - (pos + 5) < len {
            return Err(DeltaError::InsertDataTruncated);
        }
        let mut d: Vec<u8> = Vec::with_capacity(len);
        let mut i: usize = 0;
        while i < len
            invariant
                i <= len,
                n == s@.len(),
                pos + 5 + len <= n,
                d@ == s@.subrange(pos + 5, pos + 5 + i),
            decreases len - i,
        {
            d.push(s[pos + 5 + i]);
            i = i + 1;
            assert(s@.subrange(pos + 5, pos + 5 + i) == s@.subrange(pos + 5, pos + 5 + i - 1).push(
                s@[pos + 5 + i - 1],
            ));
        }
        Ok(Some((DeltaOp::Data(d), pos + 5 + len)))
    } else {
        Err(DeltaError::UnknownOp(tag))
    }
}

/// An operation the receiver accepts: copies lie inside the old file, and no
/// operation is longer than `MAX_DELTA_COPY_SIZE`.
pub open spec fn op_acceptable(op: DeltaOpView, file_size: u64) -> bool {
    match op {
        DeltaOpView::Copy { offset, size } => size <= MAX_DELTA_COPY_SIZE && offset + size
            <= file_size,
        DeltaOpView::Data(d) => d.len() <= MAX_DELTA_COPY_SIZE,
    }
}

proof fn lemma_read_copy(a: Seq<u8>, offset: u64, size: usize, b: Seq<u8>)
    requires
        size <= MAX_DELTA_COPY_SIZE,
    ensures
        ({
            let s = a + op_bytes(DeltaOpView::Copy { offset, size }) + b;
            &&& s[a.len() as int] == 0x00u8
            &&& s.len() == a.len() + 13 + b.len()
            &&& u64_at(s, a.len() as int + 1) == offset
            &&& u32_at(s, a.len() as int + 9) as usize == size
        }),
{
    let s = a + op_bytes(DeltaOpView::Copy { offset, size }) + b;
    assert(s =~= (a + seq![0x00u8]) + be64(offset) + (be32(size as u32) + b));
    lemma_read_u64(a + seq![0x00u8], offset, be32(size as u32) + b);
    assert(s =~= (a + seq![0x00u8] + be64(offset)) + be32(size as u32) + b);
    lemma_read_u32(a + seq![0x00u8] + be64(offset), size as u32, b);
}

proof fn lemma_read_literal(a: Seq<u8>, d: Seq<u8>, b: Seq<u8>)
    requires
        d.len() <= MAX_DELTA_COPY_SIZE,
    ensures
        ({
            let s = a + op_bytes(DeltaOpView::Data(d)) + b;
            &&& s[a.len() as int] == 0x01u8
            &&& s.len() == a.len() + 5 + d.len() + b.len()
            &&& u32_at(s, a.len() as int + 1) as usize == d.len()
            &&& s.subrange(a.len() as int + 5, a.len() as int + 5 + d.len()) == d
        }),
{
    let s = a + op_bytes(DeltaOpView::Data(d)) + b;
    assert(s =~= (a + seq![0x01u8]) + be32(d.len() as u32) + (d + b));
    lemma_read_u32(a + seq![0x01u8], d.len() as u32, d + b);
    assert(s.subrange(a.len() as int + 5, a.len() as int + 5 + d.len()) =~= d);
}

/// The receiver reads back what the sender wrote: at the start of an encoded
/// operation it finds that operation and moves past it, provided the receiver
/// accepts the operation.
#[verifier::rlimit(40)]
#[verifier::spinoff_prover]
pub proof fn lemma_next_op_reads_encoded(a: Seq<u8>, op: DeltaOpView, b: Seq<u8>, file_size: u64)
    requires
        op_acceptable(op, file_size),
    ensures
        spec_next_delta_op(a + op_bytes(op) + b, a.len() as int, file_size) == Ok::<
            Option<(DeltaOpView, int)>,
            DeltaError,
        >(Some((op, a.len() as int + op_bytes(op).len()))),
{
    match op {
        DeltaOpView::Copy { offset, size } => {
            lemma_read_copy(a, offset, size, b);
        },
        DeltaOpView::Data(d) => {
            lemma_read_literal(a, d, b);
        },
    }
}

/// After the last encoded operation the receiver finds the end of the chunk.
pub proof fn lemma_next_op_at_end(s: Seq<u8>, file_size: u64)
    ensures
        spec_next_delta_op(s, s.len() as int, file_size) == Ok::<
            Option<(DeltaOpView, int)>,
            DeltaError,
        >(None),
{
}

/// The operations read from `s`, from `pos` to the end, one after another,
/// or the first error met.
#[verifier::opaque]
pub open spec fn spec_read_ops(s: Seq<u8>, pos: int, file_size: u64) -> Result<Seq<DeltaOpView>, DeltaError>
    decreases s.len() - pos,
{
    if pos < 0 || pos >= s.len() {
        Ok(Seq::empty())
    } else {
        match spec_next_delta_op(s, pos, file_size) {
            Err(e) => Err(e),
            Ok(None) => Ok(Seq::empty()),
            Ok(Some((op, q))) => if pos < q <= s.len() {
                match spec_read_ops(s, q, file_size) {
                    Ok(rest) => Ok(seq![op] + rest),
                    Err(e) => Err(e),
                }
            } else {
                Ok(Seq::empty())
            },
        }
    }
}

proof fn lemma_ops_bytes_cons(op: DeltaOpView, rest: Seq<DeltaOpView>)
    ensures
        ops_bytes(seq![op] + rest) == op_bytes(op) + ops_bytes(rest),
    decreases rest.len(),
{
    if rest.len() == 0 {
        assert(seq![op] + rest =~= seq![op]);
        assert(seq![op].drop_last() =~= Seq::<DeltaOpView>::empty());
        assert(ops_bytes(seq![op]) =~= ops_bytes(Seq::<DeltaOpView>::empty()) + op_bytes(op));
        assert(op_bytes(op) + ops_bytes(rest) =~= op_bytes(op));
    } else {
        lemma_ops_bytes_cons(op, rest.drop_last());
        assert((seq![op] + rest).drop_last() =~= seq![op] + rest.drop_last());
        assert((seq![op] + rest).last() == rest.last());
        assert(op_bytes(op) + ops_bytes(rest) =~= op_bytes(op) + ops_bytes(rest.drop_last()) + op_bytes(
            rest.last(),
        ));
    }
}

proof fn lemma_read_ops_step(
    s: Seq<u8>,
    pos: int,
    file_size: u64,
    op: DeltaOpView,
    q: int,
    rest: Seq<DeltaOpView>,
)
    requires
        0 <= pos < q <= s.len(),
        spec_next_delta_op(s, pos, file_size) == Ok::<Option<(DeltaOpView, int)>, DeltaError>(
            Some((op, q)),
        ),
        spec_read_ops(s, q, file_size) == Ok::<Seq<DeltaOpView>, DeltaError>(rest),
    ensures
        spec_read_ops(s, pos, file_size) == Ok::<Seq<DeltaOpView>, DeltaError>(seq![op] + rest),
{
    reveal(spec_read_ops);
}

proof fn lemma_read_ops_end(s: Seq<u8>, file_size: u64)
    ensures
        spec_read_ops(s, s.len() as int, file_size) == Ok::<Seq<DeltaOpView>, DeltaError>(
            Seq::empty(),
        ),
{
    reveal(spec_read_ops);
}

proof fn lemma_read_encoded_from(a: Seq<u8>, ops: Seq<DeltaOpView>, file_size: u64)
    requires
        forall|i: int| 0 <= i < ops.len() ==> op_acceptable(#[trigger] ops[i], file_size),
    ensures
        spec_read_ops(a + ops_bytes(ops), a.len() as int, file_size) == Ok::<
            Seq<DeltaOpView>,
            DeltaError,
        >(ops),
    decreases ops.len(),
{
    if ops.len() == 0 {
        assert(a + ops_bytes(ops) =~= a);
        assert(ops =~= Seq::<DeltaOpView>::empty());
        lemma_read_ops_end(a, file_size);
    } else {
        let op = ops[0];
        let rest = ops.subrange(1, ops.len() as int);
        assert(ops =~= seq![op] + rest);
        lemma_ops_bytes_cons(op, rest);
        assert forall|i: int| 0 <= i < rest.len() implies op_acceptable(#[trigger] rest[i], file_size) by {
            assert(rest[i] == ops[i + 1]);
        }
        let a2 = a + op_bytes(op);
        lemma_read_encoded_from(a2, rest, file_size);
        let s = a + ops_bytes(ops);
        assert(s =~= a2 + ops_bytes(rest));
        lemma_next_op_reads_encoded(a, op, ops_bytes(rest), file_size);
        assert(s =~= a + op_bytes(op) + ops_bytes(rest));
        assert(op_bytes(op).len() > 0);
        lemma_read_ops_step(s, a.len() as int, file_size, op, a2.len() as int, rest);
    }
}

/// Reading back the encoding of a list of operations gives that list, when
/// the receiver accepts each of them.
pub proof fn lemma_read_encoded_ops(ops: Seq<DeltaOpView>, file_size: u64)
    requires
        forall|i: int| 0 <= i < ops.len() ==> op_acceptable(#[trigger] ops[i], file_size),
    ensures
        spec_read_ops(ops_bytes(ops), 0, file_size) == Ok::<Seq<DeltaOpView>, DeltaError>(ops),
{
    lemma_read_encoded_from(Seq::empty(), ops, file_size);
    assert(Seq::<u8>::empty() + ops_bytes(ops) =~= ops_bytes(ops));
}

/// Each chunk the chunker hands out is the encoding of the operations pushed
/// since the previous chunk, and reading it back gives those operations; the
/// chunker then holds the new operation alone. Otherwise it holds the run
/// with the new operation added.
pub proof fn lemma_chunks_read_back(
    run: Seq<DeltaOpView>,
    op: DeltaOpView,
    out: Option<Seq<u8>>,
    held2: Seq<u8>,
    file_size: u64,
)
    requires
        forall|i: int| 0 <= i < run.len() ==> op_acceptable(#[trigger] run[i], file_size),
        ({
            let held = ops_bytes(run);
            let b = op_bytes(op);
            if held.len() > 0 && held.len() + b.len() > DELTA_CHUNK_SIZE {
                out == Some(held) && held2 == b
            } else {
                out is None && held2 == held + b
            }
        }),
    ensures
        out matches Some(c) ==> spec_read_ops(c, 0, file_size) == Ok::<Seq<DeltaOpView>, DeltaError>(run)
            && held2 == ops_bytes(seq![op]),
        out is None ==> held2 == ops_bytes(run.push(op)),
{
    lemma_read_encoded_ops(run, file_size);
    assert(seq![op].drop_last() =~= Seq::<DeltaOpView>::empty());
    assert(seq![op].last() == op);
    assert(ops_bytes(Seq::<DeltaOpView>::empty()) =~= Seq::<u8>::empty());
    assert(ops_bytes(seq![op]) =~= op_bytes(op));
    assert(run.push(op).drop_last() =~= run);
}

} // verus!
