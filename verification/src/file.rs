//! Files opened through the host: a chunked writer and a buffered reader.
use vstd::prelude::*;
use crate::error::SdkError;
use crate::read_buffer::{advanced, can_advance, can_supply, supplied, ReadAction, ReadBuffer, ReadProgress, FETCH_COUNT_MAX};

verus! {

/// A file opened for writing. Writes are handed to the host in chunks of at
/// most `buffer_size` bytes.
pub struct FileWriter {
    id: i64,
    buffer_size: u64,
}

/// The progress of one `write` call over a buffer of `total` bytes.
pub struct WriteProgress {
    total: usize,
    offset: usize,
    written: i64,
}

/// What a writer asks of its caller next.
#[derive(Debug, Clone, Copy, PartialEq, Eq, Structural)]
pub enum WriteAction {
    /// Hand bytes `start .. end` of the buffer to the host, then report how
    /// many it wrote to `acknowledge_write`.
    Send { start: usize, end: usize },
    /// The write is over; the host reported this many bytes written.
    Done(usize),
}

impl WriteProgress {
    /// The length of the buffer being written.
    pub closed spec fn total(&self) -> nat {
        self.total as nat
    }

    /// How much of the buffer was handed to the host and accepted.
    pub closed spec fn offset(&self) -> nat {
        self.offset as nat
    }

    /// The sum of the counts that the host reported.
    pub closed spec fn written(&self) -> int {
        self.written as int
    }

    pub closed spec fn wf(&self) -> bool {
        &&& self.offset <= self.total
        &&& self.offset <= self.written
        &&& self.total <= FETCH_COUNT_MAX
    }

    /// A write of a buffer of `total` bytes that has not started yet; a
    /// buffer's length never exceeds what an `i64` count can express.
    pub fn new(total: usize) -> (p: WriteProgress)
        requires
            total <= FETCH_COUNT_MAX,
        ensures
            p.wf(),
            p.total() == total,
            p.offset() == 0,
            p.written() == 0,
    {
        WriteProgress { total, offset: 0, written: 0 }
    }
}

impl WriteProgress {
    /// The sum of the counts that the host reported so far.
    pub fn total_written(&self) -> (r: i64)
        ensures
            r == self.written(),
    {
        self.written
    }
}

impl FileWriter {
    pub closed spec fn id_spec(&self) -> i64 {
        self.id
    }

    pub closed spec fn chunk_size(&self) -> u64 {
        self.buffer_size
    }

    /// The end of the next chunk of a write that has reached `offset` of
    /// `total` bytes: at most `buffer_size` bytes further.
    pub open spec fn chunk_end(&self, offset: nat, total: nat) -> nat {
        if total - offset <= self.chunk_size() as usize {
            total
        } else {
            offset + (self.chunk_size() as usize) as nat
        }
    }

    /// The writer for the handle that the host returned when asked to open a
    /// file for writing; a negative handle means the file could not be
    /// opened.
    pub fn opened(id: i64, buffer_size: u64) -> (r: Result<FileWriter, SdkError>)
        ensures
            id < 0 <==> r is Err,
            r matches Err(e) ==> e == SdkError::FileOpen,
            r matches Ok(w) ==> w.id_spec() == id && w.chunk_size() == buffer_size,
    {
        if id < 0 {
            return Err(SdkError::FileOpen);
        }
        Ok(FileWriter { id, buffer_size })
    }

    pub fn id(&self) -> (r: i64)
        ensures
            r == self.id_spec(),
    {
        self.id
    }

    /// The next step of a write: the next chunk to hand to the host, or the
    /// end of the write once the whole buffer was accepted.
    pub fn next_write(&self, p: &WriteProgress) -> (action: WriteAction)
        requires
            p.wf(),
        ensures
            action matches WriteAction::Send { start, end } ==> {
                &&& p.offset() < p.total()
                &&& start == p.offset()
                &&& end == self.chunk_end(p.offset(), p.total())
            },
            action matches WriteAction::Done(n) ==> p.offset() == p.total() && n == p.written() as usize,
    {
        if p.offset < p.total {
            let remaining = p.total - p.offset;
            let chunk = if remaining <= self.buffer_size as usize {
                remaining
            } else {
                self.buffer_size as usize
            };
            WriteAction::Send { start: p.offset, end: p.offset + chunk }
        } else {
            WriteAction::Done(#[verifier::truncate] (p.written as usize))
        }
    }

    /// Records the count that the host reported for the chunk that
    /// `next_write` asked for. The write fails (`false`) when the host wrote
    /// fewer bytes than the chunk holds; otherwise the chunk counts as written
    /// and the host's count is added to the total.
    pub fn acknowledge_write(&self, p: &mut WriteProgress, written_length: i64) -> (ok: bool)
        requires
            old(p).wf(),
            old(p).offset() < old(p).total(),
            written_length >= self.chunk_end(old(p).offset(), old(p).total()) - old(p).offset()
                ==> old(p).written() + written_length <= i64::MAX,
        ensures
            final(p).wf(),
            final(p).total() == old(p).total(),
            ok <==> written_length >= self.chunk_end(old(p).offset(), old(p).total()) - old(p).offset(),
            ok ==> final(p).offset() == self.chunk_end(old(p).offset(), old(p).total())
                && final(p).written() == old(p).written() + written_length,
            !ok ==> *final(p) == *old(p),
    {
        let remaining = p.total - p.offset;
        let chunk = if remaining <= self.buffer_size as usize {
            remaining
        } else {
            self.buffer_size as usize
        };
        if written_length < chunk as i64 {
            return false;
        }
        p.offset = p.offset + chunk;
        p.written = p.written + written_length;
        true
    }

    /// Interprets the host's answer to a flush request: zero means failure.
    pub fn flush_outcome(res: u32) -> (r: Result<(), SdkError>)
        ensures
            r is Err <==> res == 0,
            r matches Err(e) ==> e == SdkError::Flush,
    {
        if res == 0 {
            return Err(SdkError::Flush);
        }
        Ok(())
    }
}

/// Each chunk of a write starts where the previous one ended, never runs
/// past the end of the buffer, holds at most `buffer_size` bytes, and is
/// non-empty when `buffer_size` is not zero; so the chunks hand the whole
/// buffer to the host, in order, each byte once.
pub proof fn lemma_chunk_bounds(w: FileWriter, offset: nat, total: nat)
    requires
        offset < total,
    ensures
        offset <= w.chunk_end(offset, total) <= total,
        w.chunk_end(offset, total) - offset <= w.chunk_size() as usize,
        w.chunk_size() as usize > 0 ==> offset < w.chunk_end(offset, total),
        w.chunk_end(offset, total) < total ==> w.chunk_end(offset, total) - offset == w.chunk_size() as usize,
{
}

/// A file opened for reading, with the bytes fetched from the host but not
/// yet read kept in a queue.
pub struct FileReader {
    id: i64,
    buffer: ReadBuffer,
}

impl FileReader {
    pub closed spec fn id_spec(&self) -> i64 {
        self.id
    }

    /// The reader's queue and stream history.
    pub closed spec fn reader(&self) -> ReadBuffer {
        self.buffer
    }

    /// The reader for the handle that the host returned when asked to open a
    /// file for reading; a negative handle means the file could not be
    /// opened. The host delivers chunks of `buffer_size` bytes.
    pub fn opened(id: i64, buffer_size: u64) -> (r: Result<FileReader, SdkError>)
        ensures
            id < 0 <==> r is Err,
            r matches Err(e) ==> e == SdkError::FileOpen,
            r matches Ok(f) ==> {
                &&& f.id_spec() == id
                &&& f.reader().wf()
                &&& f.reader().capacity() == buffer_size as usize
                &&& f.reader().pending() == Seq::<u8>::empty()
                &&& f.reader().fetched() == Seq::<u8>::empty()
            },
    {
        if id < 0 {
            return Err(SdkError::FileOpen);
        }
        Ok(FileReader { id, buffer: ReadBuffer::new(buffer_size as usize) })
    }

    pub fn id(&self) -> (r: i64)
        ensures
            r == self.id_spec(),
    {
        self.id
    }

    /// The size of the chunks that the host delivers.
    pub fn chunk_size(&self) -> (r: usize)
        ensures
            r == self.reader().capacity(),
    {
        self.buffer.capacity_exec()
    }

    /// Runs the read's decisions until a chunk must be fetched from the host
    /// or the read is over (see `ReadBuffer::advance`).
    pub fn read_step(&mut self, p: &mut ReadProgress, out: &mut Vec<u8>) -> (action: ReadAction)
        requires
            can_advance(old(self).reader(), *old(p), old(out)@),
        ensures
            final(self).id_spec() == old(self).id_spec(),
            advanced(old(self).reader(), final(self).reader(), *old(p), *final(p), old(out)@, final(out)@, action),
    {
        self.buffer.advance(p, out)
    }

    /// Hands the chunk that the host delivered to the reader (see
    /// `ReadBuffer::supply`).
    pub fn receive(&mut self, p: &mut ReadProgress, chunk: &[u8])
        requires
            can_supply(old(self).reader(), *old(p), chunk@),
        ensures
            final(self).id_spec() == old(self).id_spec(),
            supplied(old(self).reader(), final(self).reader(), *old(p), *final(p), chunk@),
    {
        self.buffer.supply(p, chunk)
    }
}

} // verus!
