//! A fixed scratch buffer that host reads are staged in.
use vstd::prelude::*;

verus! {

/// The size of the scratch buffer.
pub const BUFFERED_READER_SIZE: usize = 16 * 1024;

/// A scratch buffer for reads from files and connections.
pub struct BufferedReader(Vec<u8>);

impl BufferedReader {
    /// The bytes the buffer holds.
    pub closed spec fn contents(&self) -> Seq<u8> {
        self.0@
    }

    /// A buffer of `BUFFERED_READER_SIZE` zero bytes.
    pub fn new() -> (r: Self)
        ensures
            r.contents() == Seq::new(BUFFERED_READER_SIZE as nat, |i: int| 0u8),
    {
        let v: Vec<u8> = vec![0; BUFFERED_READER_SIZE];
        assert(v@ =~= Seq::new(BUFFERED_READER_SIZE as nat, |i: int| 0u8));
        BufferedReader(v)
    }

    /// Empties the buffer before the host is asked to fill it; the host's
    /// writes land in the buffer's spare capacity and do not change what it
    /// holds.
    pub fn clear(&mut self)
        ensures
            final(self).contents() == Seq::<u8>::empty(),
    {
        self.0.clear();
    }

    /// The number of bytes the buffer holds.
    pub fn len(&self) -> (n: usize)
        ensures
            n == self.contents().len(),
    {
        self.0.len()
    }

    /// The first `bytes` bytes that the buffer holds.
    pub fn exact(&self, bytes: u64) -> (r: Vec<u8>)
        requires
            bytes as usize <= self.contents().len(),
        ensures
            r@ == self.contents().take(bytes as usize as int),
    {
        let n = #[verifier::truncate] (bytes as usize);
        let mut r: Vec<u8> = Vec::new();
        let mut i: usize = 0;
        while i < n
            invariant
                i <= n,
                n <= self.0@.len(),
                r@ == self.0@.take(i as int),
            decreases n - i,
        {
            r.push(self.0[i]);
            assert(self.0@.take(i + 1) =~= self.0@.take(i as int).push(self.0@[i as int]));
            i = i + 1;
        }
        r
    }

    /// Everything the buffer holds.
    pub fn to_end(&self) -> (r: Vec<u8>)
        ensures
            r@ == self.contents(),
    {
        let r = self.0.clone();
        assert(r@ =~= self.0@);
        r
    }
}

} // verus!
