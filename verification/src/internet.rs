//! Network connections opened through the host, read through a buffer.
use vstd::prelude::*;
use crate::error::SdkError;
use crate::read_buffer::{advanced, can_advance, can_supply, supplied, ReadAction, ReadBuffer, ReadProgress};

verus! {

/// An open connection, with the bytes fetched from the host but not yet read
/// kept in a queue.
pub struct Internet {
    id: i64,
    buffer: ReadBuffer,
}

impl Internet {
    pub closed spec fn id_spec(&self) -> i64 {
        self.id
    }

    /// The connection's queue and stream history.
    pub closed spec fn reader(&self) -> ReadBuffer {
        self.buffer
    }

    /// The connection for the handle that the host returned when asked to
    /// open a URL; a negative handle means the connection could not be
    /// opened. The host delivers chunks of `buffer_size` bytes.
    pub fn connected(id: i64, buffer_size: u64) -> (r: Result<Internet, SdkError>)
        ensures
            id < 0 <==> r is Err,
            r matches Err(e) ==> e == SdkError::ConnectionOpen,
            r matches Ok(c) ==> {
                &&& c.id_spec() == id
                &&& c.reader().wf()
                &&& c.reader().capacity() == buffer_size as usize
                &&& c.reader().pending() == Seq::<u8>::empty()
                &&& c.reader().fetched() == Seq::<u8>::empty()
            },
    {
        if id < 0 {
            return Err(SdkError::ConnectionOpen);
        }
        Ok(Internet { id, buffer: ReadBuffer::new(buffer_size as usize) })
    }

    pub fn id(&self) -> (r: i64)
        ensures
            r == self.id_spec(),
    {
        self.id
    }

    /// The size of the chunks that the host delivers.
    pub fn chunk_size(&self) -> (r: usize)
        ensures
            r == self.reader().capacity(),
    {
        self.buffer.capacity_exec()
    }

    /// Runs the read's decisions until a chunk must be fetched from the host
    /// or the read is over (see `ReadBuffer::advance`).
    pub fn read_step(&mut self, p: &mut ReadProgress, out: &mut Vec<u8>) -> (action: ReadAction)
        requires
            can_advance(old(self).reader(), *old(p), old(out)@),
        ensures
            final(self).id_spec() == old(self).id_spec(),
            advanced(old(self).reader(), final(self).reader(), *old(p), *final(p), old(out)@, final(out)@, action),
    {
        self.buffer.advance(p, out)
    }

    /// Hands the chunk that the host delivered to the connection (see
    /// `ReadBuffer::supply`).
    pub fn receive(&mut self, p: &mut ReadProgress, chunk: &[u8])
        requires
            can_supply(old(self).reader(), *old(p), chunk@),
        ensures
            final(self).id_spec() == old(self).id_spec(),
            supplied(old(self).reader(), final(self).reader(), *old(p), *final(p), chunk@),
    {
        self.buffer.supply(p, chunk)
    }
}

} // verus!
