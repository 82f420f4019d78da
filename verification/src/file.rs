//! The asynchronous file engine's logic: open-mode flags, post-write sync
//! plans, working-buffer sizing, the chunked read/write progression with
//! its retry/re-submission decisions, and the byte-level model of a file
//! that the round-trip laws are proved over.
//!
//! The operating-system calls themselves (open, seek, read, write, sync)
//! stay outside this crate's verified core; everything here is the logic
//! that decides what to ask of them and what to do with each outcome.

use vstd::prelude::*;
use vstd::slice::{slice_index_get, slice_subrange};

verus! {

/// Default working block size when the platform reports none.
pub const DEFAULT_BLOCK_SIZE: usize = 8192;

/// Priority of an asynchronous open submission.
pub const OPEN_FILE_PRIORITY: u64 = 10;

/// Priority of an asynchronous read submission.
pub const READ_FILE_PRIORITY: u64 = 100;

/// Priority of an asynchronous write submission.
pub const WRITE_FILE_PRIORITY: u64 = 60;

/// Priority of an asynchronous rename submission.
pub const RENAME_FILE_PRIORITY: u64 = 30;

/// Priority of an asynchronous remove submission.
pub const REMOVE_FILE_PRIORITY: u64 = 10;

/// How a file is opened; each variant carries the working-buffer size
/// multiplier (in units of the platform block size).
pub enum AsynFileOptions {
    OnlyRead(u8),
    OnlyWrite(u8),
    OnlyAppend(u8),
    ReadAppend(u8),
    ReadWrite(u8),
}

/// What happens after the last byte of a write lands: nothing, a
/// user-space flush, a data sync, or a data-and-metadata sync; the sync
/// variants say whether a flush comes first.
pub enum WriteOptions {
    NoSync,
    Flush,
    Sync(bool),
    SyncAll(bool),
}

/// The open flags an open-mode variant stands for, plus its multiplier.
pub struct OpenFlags {
    pub read: bool,
    pub write: bool,
    pub append: bool,
    pub create: bool,
    pub multiplier: u8,
}

pub open spec fn open_flags_spec(o: AsynFileOptions) -> OpenFlags {
    match o {
        AsynFileOptions::OnlyRead(m) => OpenFlags {
            read: true,
            write: false,
            append: false,
            create: false,
            multiplier: m,
        },
        AsynFileOptions::OnlyWrite(m) => OpenFlags {
            read: false,
            write: true,
            append: false,
            create: true,
            multiplier: m,
        },
        AsynFileOptions::OnlyAppend(m) => OpenFlags {
            read: false,
            write: false,
            append: true,
            create: true,
            multiplier: m,
        },
        AsynFileOptions::ReadAppend(m) => OpenFlags {
            read: true,
            write: false,
            append: true,
            create: true,
            multiplier: m,
        },
        AsynFileOptions::ReadWrite(m) => OpenFlags {
            read: true,
            write: true,
            append: false,
            create: true,
            multiplier: m,
        },
    }
}

/// Maps an open-mode variant to the flags handed to the platform: only
/// reading opens an existing file; every writing mode creates.
pub fn open_flags(options: &AsynFileOptions) -> (f: OpenFlags)
    ensures
        f == open_flags_spec(*options),
{
    match options {
        AsynFileOptions::OnlyRead(m) => OpenFlags {
            read: true,
            write: false,
            append: false,
            create: false,
            multiplier: *m,
        },
        AsynFileOptions::OnlyWrite(m) => OpenFlags {
            read: false,
            write: true,
            append: false,
            create: true,
            multiplier: *m,
        },
        AsynFileOptions::OnlyAppend(m) => OpenFlags {
            read: false,
            write: false,
            append: true,
            create: true,
            multiplier: *m,
        },
        AsynFileOptions::ReadAppend(m) => OpenFlags {
            read: true,
            write: false,
            append: true,
            create: true,
            multiplier: *m,
        },
        AsynFileOptions::ReadWrite(m) => OpenFlags {
            read: true,
            write: true,
            append: false,
            create: true,
            multiplier: *m,
        },
    }
}

/// The platform actions a write-sync option calls for once the last byte
/// is written.
pub struct SyncPlan {
    pub flush: bool,
    pub sync_data: bool,
    pub sync_all: bool,
}

pub open spec fn sync_plan_spec(o: WriteOptions) -> SyncPlan {
    match o {
        WriteOptions::NoSync => SyncPlan { flush: false, sync_data: false, sync_all: false },
        WriteOptions::Flush => SyncPlan { flush: true, sync_data: false, sync_all: false },
        WriteOptions::Sync(also_flush) => SyncPlan {
            flush: also_flush,
            sync_data: true,
            sync_all: false,
        },
        WriteOptions::SyncAll(also_flush) => SyncPlan {
            flush: also_flush,
            sync_data: false,
            sync_all: true,
        },
    }
}

/// Decides the post-write actions: no sync, flush only, data sync, or
/// data-and-metadata sync, the sync variants optionally flushing first.
pub fn sync_plan(options: &WriteOptions) -> (p: SyncPlan)
    ensures
        p == sync_plan_spec(*options),
{
    match options {
        WriteOptions::NoSync => SyncPlan { flush: false, sync_data: false, sync_all: false },
        WriteOptions::Flush => SyncPlan { flush: true, sync_data: false, sync_all: false },
        WriteOptions::Sync(also_flush) => SyncPlan {
            flush: *also_flush,
            sync_data: true,
            sync_all: false,
        },
        WriteOptions::SyncAll(also_flush) => SyncPlan {
            flush: *also_flush,
            sync_data: false,
            sync_all: true,
        },
    }
}

/// Working-buffer size: the platform block size times the caller's
/// multiplier, saturating at the machine limit.
pub fn working_buffer_size(block_size: usize, multiplier: u8) -> (n: usize)
    ensures
        n == if block_size * multiplier <= usize::MAX {
            block_size * multiplier
        } else {
            usize::MAX as int
        },
{
    match block_size.checked_mul(multiplier as usize) {
        Some(n) => n,
        None => usize::MAX,
    }
}

/// Whether a positional read request is admissible: asking for nothing
/// is rejected as invalid input rather than answered with an empty
/// buffer.
pub fn pread_request_valid(len: usize) -> (b: bool)
    ensures
        b == (len > 0),
{
    len > 0
}

/// Capacity of the accumulation buffer for a read: the requested length,
/// clipped to the file's size.
pub fn buffer_capacity(file_size: u64, len: usize) -> (n: usize)
    ensures
        n == if file_size <= len { file_size as int } else { len as int },
{
    if file_size <= len as u64 {
        file_size as usize
    } else {
        len
    }
}

/// The bytes a file holds after writing `b` at offset `pos`: bytes of the
/// range come from `b`, bytes before it are unchanged, and a write past
/// the end extends the file, zero-filling any gap.
pub open spec fn write_at(f: Seq<u8>, pos: int, b: Seq<u8>) -> Seq<u8>
    recommends
        0 <= pos,
{
    if b.len() == 0 {
        f
    } else {
        let n = if f.len() >= pos + b.len() {
            f.len() as int
        } else {
            pos + b.len()
        };
        Seq::new(
            n as nat,
            |i: int|
                if pos <= i < pos + b.len() {
                    b[i - pos]
                } else if i < f.len() {
                    f[i]
                } else {
                    0u8
                },
        )
    }
}

/// The bytes a read of `len` at offset `pos` returns: the range clipped
/// at the end of the file; reading at or past the end returns nothing.
/// A short result therefore signals the end of the file, never an error.
pub open spec fn read_at(f: Seq<u8>, pos: int, len: int) -> Seq<u8>
    recommends
        0 <= pos,
        0 <= len,
{
    if pos >= f.len() {
        Seq::empty()
    } else if pos + len <= f.len() {
        f.subrange(pos, pos + len)
    } else {
        f.subrange(pos, f.len() as int)
    }
}

/// Reading back a freshly written range returns exactly the bytes
/// written, whatever the file held before.
pub proof fn lemma_write_read_round_trip(f: Seq<u8>, pos: int, b: Seq<u8>)
    requires
        0 <= pos,
    ensures
        read_at(write_at(f, pos, b), pos, b.len() as int) == b,
{
    assert(read_at(write_at(f, pos, b), pos, b.len() as int) =~= b);
}

/// Positional writes to disjoint ranges commute: the file's final bytes
/// do not depend on the order in which the two writes landed.
pub proof fn lemma_disjoint_writes_commute(f: Seq<u8>, o1: int, b1: Seq<u8>, o2: int, b2: Seq<u8>)
    requires
        0 <= o1,
        0 <= o2,
        o1 + b1.len() <= o2 || o2 + b2.len() <= o1,
    ensures
        write_at(write_at(f, o1, b1), o2, b2) == write_at(write_at(f, o2, b2), o1, b1),
{
    assert(write_at(write_at(f, o1, b1), o2, b2) =~= write_at(write_at(f, o2, b2), o1, b1));
}

/// Writing two adjacent ranges is one write of their concatenation, so a
/// read over the union of disjoint written ranges returns the buffers in
/// offset order.
pub proof fn lemma_adjacent_writes_concat(f: Seq<u8>, pos: int, b1: Seq<u8>, b2: Seq<u8>)
    requires
        0 <= pos,
    ensures
        write_at(write_at(f, pos, b1), pos + b1.len(), b2) == write_at(f, pos, b1 + b2),
{
    assert(write_at(write_at(f, pos, b1), pos + b1.len(), b2) =~= write_at(f, pos, b1 + b2));
}

/// The file after a batch of positional writes, landed first to last.
pub open spec fn write_all(f: Seq<u8>, ws: Seq<(int, Seq<u8>)>) -> Seq<u8>
    decreases ws.len(),
{
    if ws.len() == 0 {
        f
    } else {
        write_all(write_at(f, ws[0].0, ws[0].1), ws.drop_first())
    }
}

/// The writes tile the span starting at `lo`: each begins exactly where
/// the one before it ended, so their ranges are pairwise disjoint and
/// their union is one contiguous span.
pub open spec fn contiguous_from(ws: Seq<(int, Seq<u8>)>, lo: int) -> bool
    decreases ws.len(),
{
    ws.len() == 0 || (ws[0].0 == lo && contiguous_from(ws.drop_first(), lo + ws[0].1.len()))
}

/// Every write of the batch carries at least one byte.
pub open spec fn all_nonempty(ws: Seq<(int, Seq<u8>)>) -> bool {
    forall|i: int| 0 <= i < ws.len() ==> (#[trigger] ws[i]).1.len() > 0
}

/// The number of bytes the batch writes in all.
pub open spec fn total_len(ws: Seq<(int, Seq<u8>)>) -> int
    decreases ws.len(),
{
    if ws.len() == 0 {
        0
    } else {
        ws[0].1.len() + total_len(ws.drop_first())
    }
}

/// The batch's buffers, concatenated in the order they are listed.
pub open spec fn concat_bufs(ws: Seq<(int, Seq<u8>)>) -> Seq<u8>
    decreases ws.len(),
{
    if ws.len() == 0 {
        Seq::empty()
    } else {
        ws[0].1 + concat_bufs(ws.drop_first())
    }
}

/// A contiguous batch never starts before its span.
proof fn lemma_contiguous_offsets(ws: Seq<(int, Seq<u8>)>, lo: int)
    requires
        contiguous_from(ws, lo),
    ensures
        forall|i: int| 0 <= i < ws.len() ==> (#[trigger] ws[i]).0 >= lo,
        total_len(ws) >= 0,
    decreases ws.len(),
{
    if ws.len() > 0 {
        lemma_contiguous_offsets(ws.drop_first(), lo + ws[0].1.len());
        assert forall|i: int| 0 <= i < ws.len() implies (#[trigger] ws[i]).0 >= lo by {
            if i > 0 {
                assert(ws[i] == ws.drop_first()[i - 1]);
            }
        }
    }
}

/// One write at or past `m` changes nothing below `m` and never shortens
/// the file.
proof fn lemma_write_beyond_preserves_read(f: Seq<u8>, o: int, b: Seq<u8>, lo: int, len: int)
    requires
        0 <= lo,
        0 <= len,
        lo + len <= o,
        lo + len <= f.len(),
    ensures
        write_at(f, o, b).len() >= f.len(),
        read_at(write_at(f, o, b), lo, len) == read_at(f, lo, len),
{
    assert(read_at(write_at(f, o, b), lo, len) =~= read_at(f, lo, len));
}

/// A batch of writes all at or past `m` changes nothing below `m` and
/// never shortens the file.
proof fn lemma_writes_beyond_preserve_read(
    f: Seq<u8>,
    ws: Seq<(int, Seq<u8>)>,
    m: int,
    lo: int,
    len: int,
)
    requires
        0 <= lo,
        0 <= len,
        lo + len <= m,
        lo + len <= f.len(),
        forall|i: int| 0 <= i < ws.len() ==> (#[trigger] ws[i]).0 >= m,
    ensures
        write_all(f, ws).len() >= f.len(),
        read_at(write_all(f, ws), lo, len) == read_at(f, lo, len),
    decreases ws.len(),
{
    if ws.len() > 0 {
        let f1 = write_at(f, ws[0].0, ws[0].1);
        lemma_write_beyond_preserves_read(f, ws[0].0, ws[0].1, lo, len);
        assert(forall|i: int|
            0 <= i < ws.drop_first().len() ==> (#[trigger] ws.drop_first()[i]).0 >= m);
        lemma_writes_beyond_preserve_read(f1, ws.drop_first(), m, lo, len);
    }
}

/// The general union-read law for positional writes: a batch of writes
/// over pairwise-disjoint ranges tiling the contiguous span
/// `[lo, lo + total_len(ws))` is read back, over the whole span, as the
/// concatenation of its buffers in offset order — for any number of
/// writes. `lemma_disjoint_writes_commute` lets disjoint writes of such a
/// batch land in any order without changing the file, so the law covers
/// every landing order of the batch.
pub proof fn lemma_batch_write_read_concat(f: Seq<u8>, ws: Seq<(int, Seq<u8>)>, lo: int)
    requires
        0 <= lo,
        contiguous_from(ws, lo),
        all_nonempty(ws),
    ensures
        read_at(write_all(f, ws), lo, total_len(ws)) == concat_bufs(ws),
        write_all(f, ws).len() >= f.len(),
        ws.len() > 0 ==> write_all(f, ws).len() >= lo + total_len(ws),
    decreases ws.len(),
{
    if ws.len() == 0 {
        assert(read_at(f, lo, 0) =~= concat_bufs(ws));
    } else {
        let b0 = ws[0].1;
        let rest = ws.drop_first();
        let f1 = write_at(f, lo, b0);
        assert(f1.len() >= lo + b0.len());
        lemma_write_read_round_trip(f, lo, b0);
        assert(forall|i: int| 0 <= i < rest.len() ==> (#[trigger] rest[i]).1.len() > 0);
        lemma_contiguous_offsets(rest, lo + b0.len());
        lemma_batch_write_read_concat(f1, rest, lo + b0.len());
        let w = write_all(f1, rest);
        if rest.len() == 0 {
            assert(w == f1);
            assert(b0 + concat_bufs(rest) =~= b0);
        } else {
            lemma_writes_beyond_preserve_read(f1, rest, lo + b0.len(), lo, b0.len() as int);
            assert(read_at(w, lo, b0.len() as int) == b0);
            assert(lo + b0.len() + total_len(rest) <= w.len());
            lemma_adjacent_reads_concat(w, lo, b0.len() as int, total_len(rest));
            assert(read_at(w, lo, total_len(ws)) == b0 + concat_bufs(rest));
        }
    }
}

/// Reading two adjacent in-bounds ranges and concatenating them is one
/// read over their union.
pub proof fn lemma_adjacent_reads_concat(f: Seq<u8>, pos: int, l1: int, l2: int)
    requires
        0 <= pos,
        0 <= l1,
        0 <= l2,
        pos + l1 + l2 <= f.len(),
    ensures
        read_at(f, pos, l1) + read_at(f, pos + l1, l2) == read_at(f, pos, l1 + l2),
{
    assert(read_at(f, pos, l1) + read_at(f, pos + l1, l2) =~= read_at(f, pos, l1 + l2));
}

/// An in-memory byte store with the positional interface of a file. The
/// chunked transfer drivers below are verified against it, which pins the
/// byte-level meaning of the read and write chains.
pub struct MemFile {
    data: Vec<u8>,
}

impl View for MemFile {
    type V = Seq<u8>;

    closed spec fn view(&self) -> Seq<u8> {
        self.data@
    }
}

impl MemFile {
    /// An empty store.
    pub fn new() -> (f: Self)
        ensures
            f@ == Seq::<u8>::empty(),
    {
        MemFile { data: Vec::new() }
    }

    pub fn len(&self) -> (n: usize)
        ensures
            n == self@.len(),
    {
        self.data.len()
    }

    /// Writes `buf` at offset `pos`, zero-extending the store first when
    /// the range starts past the current end.
    pub fn pwrite(&mut self, pos: usize, buf: &[u8])
        requires
            pos + buf@.len() <= usize::MAX,
        ensures
            final(self)@ == write_at(old(self)@, pos as int, buf@),
    {
        if buf.len() == 0 {
            return ;
        }
        let end = pos + buf.len();
        if self.data.len() < end {
            self.data.resize(end, 0u8);
        }
        let mut i: usize = 0;
        while i < buf.len()
            invariant
                pos + buf@.len() <= usize::MAX,
                pos + buf@.len() <= self.data@.len(),
                i <= buf@.len(),
                self.data@.len() == if old(self)@.len() >= pos + buf@.len() {
                    old(self)@.len() as int
                } else {
                    pos + buf@.len()
                },
                forall|j: int|
                    0 <= j < self.data@.len() && !(pos <= j < pos + i) ==> self.data@[j] == (
                    if j < old(self)@.len() {
                        old(self)@[j]
                    } else {
                        0u8
                    }),
                forall|j: int| pos <= j < pos + i ==> self.data@[j] == buf@[j - pos],
            decreases buf@.len() - i,
        {
            let b = *slice_index_get(buf, i);
            self.data.set(pos + i, b);
            i = i + 1;
        }
        proof {
            assert(self.data@ =~= write_at(old(self)@, pos as int, buf@));
        }
    }

    /// Reads `len` bytes at offset `pos`, clipped at the end of the
    /// store; at or past the end the result is empty.
    pub fn pread(&self, pos: usize, len: usize) -> (r: Vec<u8>)
        requires
            pos + len <= usize::MAX,
        ensures
            r@ == read_at(self@, pos as int, len as int),
    {
        let mut r: Vec<u8> = Vec::new();
        if pos >= self.data.len() {
            proof {
                assert(r@ =~= read_at(self@, pos as int, len as int));
            }
            return r;
        }
        let end = if pos + len <= self.data.len() {
            pos + len
        } else {
            self.data.len()
        };
        let mut i: usize = pos;
        while i < end
            invariant
                pos <= i <= end <= self.data@.len(),
                r@ =~= self.data@.subrange(pos as int, i as int),
            decreases end - i,
        {
            let b = self.data[i];
            r.push(b);
            proof {
                assert(r@ =~= self.data@.subrange(pos as int, i + 1));
            }
            i = i + 1;
        }
        proof {
            assert(r@ =~= read_at(self@, pos as int, len as int));
        }
        r
    }
}

/// What one platform transfer attempt reported: a byte count, a signal
/// interrupt, or any other failure.
pub enum IoEvent {
    Transferred(usize),
    Interrupted,
    Failed,
}

/// What a write chain does after one transfer attempt.
#[derive(Debug, PartialEq, Eq, Structural)]
pub enum WriteStep {
    /// The last byte landed: run the sync plan and report success.
    Done,
    /// Partial transfer: re-submit with the cursor advanced to this many
    /// bytes written.
    Advance(usize),
    /// Interrupted: re-submit with identical arguments.
    Retry,
    /// The platform accepted no bytes of a non-empty suffix.
    ReportWriteZero,
    /// Any other failure: report it, resetting progress first.
    ReportFailure,
}

/// The write chain's decision table over one transfer outcome.
pub open spec fn write_step_spec(cursor: int, total: int, ev: IoEvent) -> WriteStep {
    match ev {
        IoEvent::Interrupted => WriteStep::Retry,
        IoEvent::Failed => WriteStep::ReportFailure,
        IoEvent::Transferred(n) => if n == 0 {
            WriteStep::ReportWriteZero
        } else if cursor + n == total {
            WriteStep::Done
        } else {
            WriteStep::Advance((cursor + n) as usize)
        },
    }
}

/// Decides how a write chain goes on after one attempt to write the
/// unwritten suffix (`cursor` of `total` bytes already written): retry on
/// interrupt, fail on error or on a zero-byte result, finish when the
/// suffix is exhausted, otherwise re-submit with the cursor advanced.
pub fn write_step(cursor: usize, total: usize, ev: IoEvent) -> (s: WriteStep)
    requires
        cursor < total,
        ev matches IoEvent::Transferred(n) ==> n <= total - cursor,
    ensures
        s == write_step_spec(cursor as int, total as int, ev),
{
    match ev {
        IoEvent::Interrupted => WriteStep::Retry,
        IoEvent::Failed => WriteStep::ReportFailure,
        IoEvent::Transferred(n) => if n == 0 {
            WriteStep::ReportWriteZero
        } else if cursor + n == total {
            WriteStep::Done
        } else {
            WriteStep::Advance(cursor + n)
        },
    }
}

/// What a read chain does after one transfer attempt.
#[derive(Debug, PartialEq, Eq, Structural)]
pub enum ReadStep {
    /// End of file: complete with the buffer truncated to this many
    /// valid bytes.
    Eof(usize),
    /// The buffer's capacity is filled: complete with the whole buffer.
    Complete,
    /// Partial progress: re-submit with the cursor advanced to this many
    /// bytes accumulated.
    Continue(usize),
    /// Interrupted: re-submit with identical arguments.
    Retry,
    /// Any other failure: report it, resetting progress first.
    ReportFailure,
}

/// The read chain's decision table over one transfer outcome.
pub open spec fn read_step_spec(cursor: int, cap: int, chunk: int, ev: IoEvent) -> ReadStep {
    match ev {
        IoEvent::Interrupted => ReadStep::Retry,
        IoEvent::Failed => ReadStep::ReportFailure,
        IoEvent::Transferred(n) => if n == 0 || n < chunk {
            ReadStep::Eof((cursor + n) as usize)
        } else if cursor + n >= cap {
            ReadStep::Complete
        } else {
            ReadStep::Continue((cursor + n) as usize)
        },
    }
}

/// Decides how a read chain goes on after one attempt to read `chunk`
/// bytes into a buffer of capacity `cap` already holding `cursor` bytes:
/// a short or empty transfer is the end of the file (the buffer is to be
/// truncated to the bytes actually read), a full transfer completes or
/// re-submits depending on whether capacity is reached, an interrupt
/// retries, and anything else fails.
pub fn read_step(cursor: usize, cap: usize, chunk: usize, ev: IoEvent) -> (s: ReadStep)
    requires
        cursor + chunk <= cap,
        ev matches IoEvent::Transferred(n) ==> n <= chunk,
    ensures
        s == read_step_spec(cursor as int, cap as int, chunk as int, ev),
{
    match ev {
        IoEvent::Interrupted => ReadStep::Retry,
        IoEvent::Failed => ReadStep::ReportFailure,
        IoEvent::Transferred(n) => if n == 0 || n < chunk {
            ReadStep::Eof(cursor + n)
        } else if cursor + n >= cap {
            ReadStep::Complete
        } else {
            ReadStep::Continue(cursor + n)
        },
    }
}

/// Size of the next transfer: the remaining capacity, clipped to the
/// working-buffer size.
pub fn next_chunk_len(cap: usize, cursor: usize, buffer_size: usize) -> (n: usize)
    requires
        cursor <= cap,
    ensures
        n == if cap - cursor <= buffer_size {
            cap - cursor
        } else {
            buffer_size as int
        },
{
    if cap - cursor <= buffer_size {
        cap - cursor
    } else {
        buffer_size
    }
}

/// Drives a whole positional write chain against an in-memory store,
/// landing at most `max_per_call` bytes per submission, exactly as the
/// chain re-submits itself through the task pool with the already-written
/// prefix length as its cursor. Returns the number of submissions: the
/// byte count divided by the per-call bound, rounded up.
pub fn pwrite_chunks(file: &mut MemFile, off: usize, bytes: &Vec<u8>, max_per_call: usize) -> (rounds:
    usize)
    requires
        max_per_call >= 1,
        off + bytes@.len() <= usize::MAX,
    ensures
        final(file)@ == write_at(old(file)@, off as int, bytes@),
        bytes@.len() == 0 ==> rounds == 0,
        bytes@.len() > 0 ==> rounds >= 1 && (rounds - 1) * max_per_call < bytes@.len()
            <= rounds * max_per_call,
{
    let total = bytes.len();
    let mut cursor: usize = 0;
    let mut rounds: usize = 0;
    while cursor < total
        invariant
            max_per_call >= 1,
            off + total <= usize::MAX,
            total == bytes@.len(),
            cursor <= total,
            file@ == write_at(old(file)@, off as int, bytes@.subrange(0, cursor as int)),
            cursor < total ==> rounds * max_per_call == cursor,
            cursor > 0 ==> rounds >= 1 && (rounds - 1) * max_per_call < cursor
                <= rounds * max_per_call,
            cursor == 0 ==> rounds == 0,
            rounds <= cursor,
        decreases total - cursor,
    {
        let chunk = if total - cursor <= max_per_call {
            total - cursor
        } else {
            max_per_call
        };
        let part = slice_subrange(bytes.as_slice(), cursor, cursor + chunk);
        let ghost mid = file@;
        file.pwrite(off + cursor, part);
        proof {
            lemma_adjacent_writes_concat(
                old(file)@,
                off as int,
                bytes@.subrange(0, cursor as int),
                part@,
            );
            assert(bytes@.subrange(0, cursor as int) + part@ =~= bytes@.subrange(
                0,
                cursor + chunk,
            ));
        }
        proof {
            assert((rounds + 1) * max_per_call == rounds * max_per_call + max_per_call)
                by (nonlinear_arith);
            assert(rounds * max_per_call <= (rounds + 1) * max_per_call) by (nonlinear_arith)
                requires max_per_call >= 1;
        }
        cursor = cursor + chunk;
        rounds = rounds + 1;
    }
    proof {
        assert(bytes@.subrange(0, cursor as int) =~= bytes@);
    }
    rounds
}

/// Drives a whole read chain against an in-memory store: accumulates up
/// to `len` bytes starting at `pos`, at most `buffer_size` per
/// submission, and returns the accumulated buffer — the requested range
/// truncated at the end of the store, exactly `read_at` of the model.
pub fn read_chunks(file: &MemFile, pos: usize, len: usize, buffer_size: usize) -> (r: Vec<u8>)
    requires
        buffer_size >= 1,
        pos + len <= usize::MAX,
    ensures
        r@ == read_at(file@, pos as int, len as int),
{
    let file_len = file.len();
    if pos >= file_len || len == 0 {
        let r: Vec<u8> = Vec::new();
        proof {
            assert(r@ =~= read_at(file@, pos as int, len as int));
        }
        return r;
    }
    let target = if len <= file_len - pos {
        len
    } else {
        file_len - pos
    };
    let mut r: Vec<u8> = Vec::new();
    let mut cursor: usize = 0;
    while cursor < target
        invariant
            buffer_size >= 1,
            pos + target <= usize::MAX,
            cursor <= target,
            pos + target <= file@.len(),
            r@ == read_at(file@, pos as int, cursor as int),
            r@.len() == cursor,
        decreases target - cursor,
    {
        let chunk = next_chunk_len(target, cursor, buffer_size);
        let mut part = file.pread(pos + cursor, chunk);
        proof {
            lemma_adjacent_reads_concat(file@, pos as int, cursor as int, chunk as int);
        }
        r.append(&mut part);
        cursor = cursor + chunk;
    }
    proof {
        assert(read_at(file@, pos as int, cursor as int) =~= read_at(
            file@,
            pos as int,
            len as int,
        ));
    }
    r
}


/// How a replayed transfer chain ended.
#[derive(Debug, PartialEq, Eq, Structural)]
pub enum ChainEnd {
    /// Every requested byte was transferred and completion was reported.
    Completed,
    /// The platform accepted no bytes of a non-empty suffix: reported as
    /// a write-zero failure.
    WriteZero,
    /// The platform failed outright: reported as a failure.
    Failed,
    /// The outcome stream ran out before the chain finished.
    Exhausted,
}

/// A transfer outcome as a write chain sees it: the platform can move at
/// most the unwritten remainder.
pub open spec fn clip_write_event(ev: IoEvent, cursor: int, total: int) -> IoEvent {
    match ev {
        IoEvent::Transferred(n) => if n <= total - cursor {
            IoEvent::Transferred(n)
        } else {
            IoEvent::Transferred((total - cursor) as usize)
        },
        IoEvent::Interrupted => IoEvent::Interrupted,
        IoEvent::Failed => IoEvent::Failed,
    }
}

/// Where a replayed write chain ends and how many bytes it lands.
pub ghost struct WriteReplay {
    pub end: ChainEnd,
    pub written: int,
}

/// The write chain's whole outcome as a function of the outcome stream:
/// `write_step_spec` replayed one event at a time from `cursor` of
/// `total` bytes written. An empty suffix completes at once; a spent
/// stream leaves the chain exhausted at its current prefix.
pub open spec fn write_replay(cursor: int, total: int, events: Seq<IoEvent>) -> WriteReplay
    decreases events.len(),
{
    if cursor >= total {
        WriteReplay { end: ChainEnd::Completed, written: total }
    } else if events.len() == 0 {
        WriteReplay { end: ChainEnd::Exhausted, written: cursor }
    } else {
        match write_step_spec(cursor, total, clip_write_event(events[0], cursor, total)) {
            WriteStep::Done => WriteReplay { end: ChainEnd::Completed, written: total },
            WriteStep::Advance(c) => write_replay(c as int, total, events.drop_first()),
            WriteStep::Retry => write_replay(cursor, total, events.drop_first()),
            WriteStep::ReportWriteZero => WriteReplay { end: ChainEnd::WriteZero, written: cursor },
            WriteStep::ReportFailure => WriteReplay { end: ChainEnd::Failed, written: cursor },
        }
    }
}

/// Replays a whole write chain against the store under an arbitrary
/// stream of transfer outcomes, taking exactly the decisions the engine
/// takes: an interrupt retries with identical arguments, a partial
/// transfer advances the written prefix and re-submits, a zero-byte
/// transfer or a failure is reported at once, and completion is reported
/// once every byte has landed. The outcome — where the chain ends and how
/// many bytes land — is exactly `write_replay` of the stream, and the
/// store holds exactly the written prefix: partial progress is real but
/// is never reported as success.
pub fn write_chain(file: &mut MemFile, pos: usize, bytes: &Vec<u8>, events: &Vec<IoEvent>) -> (r: (
    ChainEnd,
    usize,
))
    requires
        pos + bytes@.len() <= usize::MAX,
    ensures
        r.0 == write_replay(0, bytes@.len() as int, events@).end,
        r.1 == write_replay(0, bytes@.len() as int, events@).written,
        r.1 <= bytes@.len(),
        final(file)@ == write_at(old(file)@, pos as int, bytes@.subrange(0, r.1 as int)),
        r.0 == ChainEnd::Completed <==> r.1 == bytes@.len(),
        r.0 == ChainEnd::Completed ==> final(file)@ == write_at(old(file)@, pos as int, bytes@),
{
    let total = bytes.len();
    let mut cursor: usize = 0;
    let mut k: usize = 0;
    if cursor >= total {
        proof {
            assert(bytes@.subrange(0, 0) =~= bytes@);
        }
        return (ChainEnd::Completed, 0);
    }
    proof {
        assert(events@.skip(0) =~= events@);
    }
    while k < events.len()
        invariant
            total == bytes@.len(),
            pos + total <= usize::MAX,
            cursor < total,
            k <= events@.len(),
            file@ == write_at(old(file)@, pos as int, bytes@.subrange(0, cursor as int)),
            write_replay(cursor as int, total as int, events@.skip(k as int)) == write_replay(
                0,
                total as int,
                events@,
            ),
        decreases events@.len() - k,
    {
        let ghost k0 = k as int;
        let ev = match events[k] {
            IoEvent::Transferred(n) => if n <= total - cursor {
                IoEvent::Transferred(n)
            } else {
                IoEvent::Transferred(total - cursor)
            },
            IoEvent::Interrupted => IoEvent::Interrupted,
            IoEvent::Failed => IoEvent::Failed,
        };
        k = k + 1;
        proof {
            assert(ev == clip_write_event(events@[k0], cursor as int, total as int));
            assert(events@.skip(k0)[0] == events@[k0]);
            assert(events@.skip(k0).drop_first() =~= events@.skip(k0 + 1));
        }
        if let IoEvent::Transferred(n) = ev {
            if n > 0 {
                let part = slice_subrange(bytes.as_slice(), cursor, cursor + n);
                file.pwrite(pos + cursor, part);
                proof {
                    lemma_adjacent_writes_concat(
                        old(file)@,
                        pos as int,
                        bytes@.subrange(0, cursor as int),
                        part@,
                    );
                    assert(bytes@.subrange(0, cursor as int) + part@ =~= bytes@.subrange(
                        0,
                        cursor + n,
                    ));
                }
            }
        }
        match write_step(cursor, total, ev) {
            WriteStep::Done => {
                proof {
                    assert(bytes@.subrange(0, total as int) =~= bytes@);
                    assert(write_replay(cursor as int, total as int, events@.skip(k0))
                        == WriteReplay { end: ChainEnd::Completed, written: total as int });
                }
                return (ChainEnd::Completed, total);
            },
            WriteStep::Advance(c) => {
                proof {
                    assert(write_replay(cursor as int, total as int, events@.skip(k0))
                        == write_replay(c as int, total as int, events@.skip(k0 + 1)));
                }
                cursor = c;
            },
            WriteStep::Retry => {
                proof {
                    assert(write_replay(cursor as int, total as int, events@.skip(k0))
                        == write_replay(cursor as int, total as int, events@.skip(k0 + 1)));
                }
            },
            WriteStep::ReportWriteZero => {
                proof {
                    assert(write_replay(cursor as int, total as int, events@.skip(k0))
                        == WriteReplay { end: ChainEnd::WriteZero, written: cursor as int });
                }
                return (ChainEnd::WriteZero, cursor);
            },
            WriteStep::ReportFailure => {
                proof {
                    assert(write_replay(cursor as int, total as int, events@.skip(k0))
                        == WriteReplay { end: ChainEnd::Failed, written: cursor as int });
                }
                return (ChainEnd::Failed, cursor);
            },
        }
    }
    proof {
        assert(events@.skip(k as int) =~= Seq::<IoEvent>::empty());
        assert(write_replay(cursor as int, total as int, events@.skip(k as int))
            == WriteReplay { end: ChainEnd::Exhausted, written: cursor as int });
    }
    (ChainEnd::Exhausted, cursor)
}

/// How many bytes the store can still supply at `cursor` bytes past
/// offset `pos`.
pub open spec fn read_available(f: Seq<u8>, pos: int, cursor: int) -> int {
    if pos >= f.len() {
        0
    } else if f.len() - pos > cursor {
        f.len() - pos - cursor
    } else {
        0
    }
}

/// A transfer outcome as a read chain sees it: the platform can move at
/// most the asked-for chunk, and no more than the store can supply.
pub open spec fn clip_read_event(ev: IoEvent, chunk: int, avail: int) -> IoEvent {
    match ev {
        IoEvent::Transferred(n) => {
            let m: int = if n <= chunk {
                n as int
            } else {
                chunk
            };
            if m <= avail {
                IoEvent::Transferred(m as usize)
            } else {
                IoEvent::Transferred(avail as usize)
            }
        },
        IoEvent::Interrupted => IoEvent::Interrupted,
        IoEvent::Failed => IoEvent::Failed,
    }
}

/// The read chain's whole outcome as a function of the outcome stream:
/// `read_step_spec` replayed one event at a time over a buffer of
/// capacity `cap`, with `cursor` bytes accumulated so far. `Some` holds
/// the length of the buffer delivered — a filled capacity, a truncation
/// at the end of the file, or whatever had accumulated when the stream
/// ran out — and `None` is a reported failure.
pub open spec fn read_replay(
    f: Seq<u8>,
    pos: int,
    cap: int,
    buffer_size: int,
    cursor: int,
    events: Seq<IoEvent>,
) -> Option<int>
    decreases events.len(),
{
    if cursor >= cap {
        Some(cursor)
    } else if events.len() == 0 {
        Some(cursor)
    } else {
        let chunk: int = if cap - cursor <= buffer_size {
            cap - cursor
        } else {
            buffer_size
        };
        match read_step_spec(
            cursor,
            cap,
            chunk,
            clip_read_event(events[0], chunk, read_available(f, pos, cursor)),
        ) {
            ReadStep::Eof(v) => Some(v as int),
            ReadStep::Complete => Some(cap),
            ReadStep::Continue(c) => read_replay(f, pos, cap, buffer_size, c as int, events.drop_first()),
            ReadStep::Retry => read_replay(f, pos, cap, buffer_size, cursor, events.drop_first()),
            ReadStep::ReportFailure => None,
        }
    }
}

/// Replays a whole read chain against the store under an arbitrary stream
/// of transfer outcomes, taking exactly the decisions the engine takes:
/// an interrupt retries, a full chunk accumulates and re-submits until
/// the buffer's capacity is reached, a short or empty transfer is the end
/// of the file and completes with the buffer truncated to the bytes
/// actually read, and only an outright failure is reported instead of a
/// buffer — the end of the file never is. The outcome is exactly
/// `read_replay` of the stream: a failure is reported iff the replay
/// reaches one, a delivered buffer has the replay's length and holds
/// exactly the store's bytes at the requested offset, never fabricated
/// ones.
pub fn read_chain(
    file: &MemFile,
    pos: usize,
    len: usize,
    buffer_size: usize,
    events: &Vec<IoEvent>,
) -> (r: Option<Vec<u8>>)
    requires
        buffer_size >= 1,
        pos + len <= usize::MAX,
    ensures
        ({
            let cap: int = if file@.len() <= len {
                file@.len() as int
            } else {
                len as int
            };
            let rep = read_replay(file@, pos as int, cap, buffer_size as int, 0, events@);
            &&& (r is None <==> rep is None)
            &&& (r matches Some(buf) ==> rep == Some(buf@.len() as int))
        }),
        r matches Some(buf) ==> buf@.len() <= len && buf@ == read_at(
            file@,
            pos as int,
            buf@.len() as int,
        ),
{
    let file_len = file.len();
    let cap = buffer_capacity(file_len as u64, len);
    let mut out: Vec<u8> = Vec::new();
    let mut cursor: usize = 0;
    let mut k: usize = 0;
    if cursor >= cap {
        proof {
            assert(out@ =~= read_at(file@, pos as int, 0));
        }
        return Some(out);
    }
    proof {
        assert(events@.skip(0) =~= events@);
    }
    while k < events.len()
        invariant
            file_len == file@.len(),
            cap == if file@.len() <= len {
                file@.len() as int
            } else {
                len as int
            },
            cap <= len,
            cap <= file@.len(),
            buffer_size >= 1,
            pos + len <= usize::MAX,
            cursor < cap,
            k <= events@.len(),
            out@.len() == cursor,
            out@ == read_at(file@, pos as int, cursor as int),
            pos >= file@.len() ==> cursor == 0,
            pos < file@.len() ==> pos + cursor <= file@.len(),
            read_replay(file@, pos as int, cap as int, buffer_size as int, cursor as int,
                events@.skip(k as int)) == read_replay(
                file@,
                pos as int,
                cap as int,
                buffer_size as int,
                0,
                events@,
            ),
        decreases events@.len() - k,
    {
        let ghost k0 = k as int;
        let chunk = next_chunk_len(cap, cursor, buffer_size);
        let available = if pos >= file_len {
            0
        } else if file_len - pos > cursor {
            file_len - pos - cursor
        } else {
            0
        };
        proof {
            assert(available == read_available(file@, pos as int, cursor as int));
        }
        let ev = match events[k] {
            IoEvent::Transferred(n) => {
                let clipped = if n <= chunk {
                    n
                } else {
                    chunk
                };
                if clipped <= available {
                    IoEvent::Transferred(clipped)
                } else {
                    IoEvent::Transferred(available)
                }
            },
            IoEvent::Interrupted => IoEvent::Interrupted,
            IoEvent::Failed => IoEvent::Failed,
        };
        k = k + 1;
        proof {
            assert(ev == clip_read_event(
                events@[k0],
                chunk as int,
                read_available(file@, pos as int, cursor as int),
            ));
            assert(events@.skip(k0)[0] == events@[k0]);
            assert(events@.skip(k0).drop_first() =~= events@.skip(k0 + 1));
        }
        if let IoEvent::Transferred(n) = ev {
            if n > 0 {
                let mut part = file.pread(pos + cursor, n);
                proof {
                    lemma_adjacent_reads_concat(file@, pos as int, cursor as int, n as int);
                }
                out.append(&mut part);
            }
        }
        match read_step(cursor, cap, chunk, ev) {
            ReadStep::Eof(v) => {
                proof {
                    assert(read_replay(file@, pos as int, cap as int, buffer_size as int,
                        cursor as int, events@.skip(k0)) == Some(v as int));
                    assert(out@.len() == v);
                }
                return Some(out);
            },
            ReadStep::Complete => {
                proof {
                    assert(read_replay(file@, pos as int, cap as int, buffer_size as int,
                        cursor as int, events@.skip(k0)) == Some(cap as int));
                    assert(out@.len() == cap);
                }
                return Some(out);
            },
            ReadStep::Continue(c) => {
                proof {
                    assert(read_replay(file@, pos as int, cap as int, buffer_size as int,
                        cursor as int, events@.skip(k0)) == read_replay(
                        file@,
                        pos as int,
                        cap as int,
                        buffer_size as int,
                        c as int,
                        events@.skip(k0 + 1),
                    ));
                }
                cursor = c;
            },
            ReadStep::Retry => {
                proof {
                    assert(read_replay(file@, pos as int, cap as int, buffer_size as int,
                        cursor as int, events@.skip(k0)) == read_replay(
                        file@,
                        pos as int,
                        cap as int,
                        buffer_size as int,
                        cursor as int,
                        events@.skip(k0 + 1),
                    ));
                }
            },
            ReadStep::ReportFailure => {
                proof {
                    assert(read_replay(file@, pos as int, cap as int, buffer_size as int,
                        cursor as int, events@.skip(k0)) is None);
                }
                return None;
            },
        }
    }
    proof {
        assert(events@.skip(k as int) =~= Seq::<IoEvent>::empty());
        assert(read_replay(file@, pos as int, cap as int, buffer_size as int, cursor as int,
            events@.skip(k as int)) == Some(cursor as int));
    }
    Some(out)
}

} // verus!
