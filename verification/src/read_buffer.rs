//! The buffering state machine shared by file and network readers.
//!
//! The host delivers a stream in chunks of at most `capacity` bytes into a
//! scratch area. A reader keeps the bytes it fetched but has not handed out
//! yet in a FIFO queue. A `read` into a caller's buffer of `n` bytes runs as
//! follows: while fewer than `n` bytes were delivered and the last round
//! delivered something, top the queue up (fetching from the host while the
//! last fetch returned bytes and the queue holds fewer than `capacity`
//! bytes), then move as many queued bytes as fit into the caller's buffer.
//!
//! The fetching itself is done by the caller: `advance` runs the decisions
//! until a fetch is needed (`ReadAction::Fetch`) or the read is over, and
//! `supply` hands the fetched chunk back.
use std::collections::VecDeque;
use vstd::prelude::*;

verus! {

/// The largest value of an `i64`, the type of the host's fetch counts.
pub const FETCH_COUNT_MAX: u64 = 0x7fff_ffff_ffff_ffff;

/// Bytes fetched from the host and not yet handed out, in stream order.
pub struct ReadBuffer {
    buffer: VecDeque<u8>,
    size: usize,
    fetched: Ghost<Seq<u8>>,
    consumed: Ghost<nat>,
}

/// What a reader asks of its caller next.
#[derive(Debug, Clone, Copy, PartialEq, Eq, Structural)]
pub enum ReadAction {
    /// Fetch one chunk from the host and hand it to `supply`.
    Fetch,
    /// The read is over; this many bytes were delivered.
    Done(usize),
    /// The read fails: the fetch count cannot even start positive.
    Fail,
}

/// The progress of one `read` call.
pub struct ReadProgress {
    requested: usize,
    filled: usize,
    last_take: usize,
    loading: bool,
    last_fetch: i64,
}

impl ReadProgress {
    /// The number of bytes the caller asked for.
    pub closed spec fn requested(&self) -> nat {
        self.requested as nat
    }

    /// The number of bytes delivered so far.
    pub closed spec fn filled(&self) -> nat {
        self.filled as nat
    }

    /// Whether the reader is topping up its queue.
    pub closed spec fn loading(&self) -> bool {
        self.loading
    }

    /// The number of bytes the last fetch returned (or the starting count).
    pub closed spec fn last_fetch(&self) -> int {
        self.last_fetch as int
    }

    /// Whether the last round delivered nothing although more was asked for,
    /// which ends the read.
    pub closed spec fn stalled(&self) -> bool {
        self.last_take == 0 && self.filled < self.requested
    }

    pub closed spec fn wf(&self) -> bool {
        &&& self.filled <= self.requested
        &&& self.loading ==> self.filled < self.requested && self.last_take > 0 && self.last_fetch >= 0
    }

    /// A read of `requested` bytes that has not started yet.
    pub fn new(requested: usize) -> (p: ReadProgress)
        ensures
            p.wf(),
            p.requested() == requested,
            p.filled() == 0,
            !p.loading(),
            !p.stalled(),
    {
        ReadProgress { requested, filled: 0, last_take: requested, loading: false, last_fetch: 0 }
    }
}

impl ReadBuffer {
    /// The queued bytes, oldest first.
    pub closed spec fn pending(&self) -> Seq<u8> {
        self.buffer@
    }

    /// Every byte supplied by the host so far, in order.
    pub closed spec fn fetched(&self) -> Seq<u8> {
        self.fetched@
    }

    /// Every byte handed out so far, in order.
    pub closed spec fn delivered(&self) -> Seq<u8> {
        self.fetched@.take(self.consumed@ as int)
    }

    pub closed spec fn wf(&self) -> bool {
        &&& self.consumed@ <= self.fetched@.len()
        &&& self.buffer@ == self.fetched@.skip(self.consumed@ as int)
        &&& self.size == 0 ==> self.buffer@.len() == 0
    }

    /// The chunk size of the host, which is also the level up to which the
    /// queue is topped up.
    pub closed spec fn capacity(&self) -> nat {
        self.size as nat
    }

    /// An empty queue for a host that delivers chunks of `size` bytes.
    pub fn new(size: usize) -> (r: ReadBuffer)
        ensures
            r.wf(),
            r.pending() == Seq::<u8>::empty(),
            r.fetched() == Seq::<u8>::empty(),
            r.capacity() == size,
    {
        let r = ReadBuffer {
            buffer: VecDeque::new(),
            size,
            fetched: Ghost(Seq::empty()),
            consumed: Ghost(0),
        };
        assert(r.fetched@.skip(0) =~= r.buffer@);
        r
    }

    pub fn capacity_exec(&self) -> (c: usize)
        ensures
            c == self.capacity(),
    {
        self.size
    }

    fn take_front(&mut self, len: usize, out: &mut Vec<u8>)
        requires
            old(self).wf(),
            len <= old(self).pending().len(),
        ensures
            final(self).wf(),
            final(self).fetched() == old(self).fetched(),
            final(self).delivered() == old(self).delivered() + old(self).pending().take(len as int),
            final(out)@ == old(out)@ + old(self).pending().take(len as int),
            final(self).pending() == old(self).pending().skip(len as int),
            final(self).capacity() == old(self).capacity(),
    {
        let ghost start_out = out@;
        let ghost start = self.buffer@;
        let mut x: usize = 0;
        while x < len
            invariant
                x <= len,
                len <= start.len(),
                out@ == start_out + start.take(x as int),
                self.buffer@ == start.skip(x as int),
                self.size == old(self).size,
                self.fetched == old(self).fetched,
                self.consumed@ == old(self).consumed@ + x,
                start == old(self).fetched@.skip(old(self).consumed@ as int),
                old(self).consumed@ <= old(self).fetched@.len(),
            decreases len - x,
        {
            let b = self.buffer.pop_front();
            match b {
                Some(v) => {
                    out.push(v);
                },
                None => {},
            }
            proof {
                assert(start.take(x + 1) =~= start.take(x as int).push(start[x as int]));
                assert(start.skip(x + 1) =~= start.skip(x as int).subrange(1, start.skip(x as int).len() as int));
            }
            x = x + 1;
            proof {
                self.consumed@ = self.consumed@ + 1;
            }
        }
        proof {
            let f = old(self).fetched@;
            let c = old(self).consumed@ as int;
            assert(f.skip(c).skip(len as int) =~= f.skip(c + len));
            assert(f.take(c + len) =~= f.take(c) + f.skip(c).take(len as int));
        }
    }

    /// Runs the read's decisions until the host must be asked for a chunk or
    /// the read is over. Bytes leave the queue in order and are appended to
    /// `out`, which holds what this read delivered so far.
    pub fn advance(&mut self, p: &mut ReadProgress, out: &mut Vec<u8>) -> (action: ReadAction)
        requires
            can_advance(*old(self), *old(p), old(out)@),
        ensures
            advanced(*old(self), *final(self), *old(p), *final(p), old(out)@, final(out)@, action),
    {
        let ghost out0 = out@;
        let ghost pend0 = self.buffer@;
        let ghost q0 = pend0.len();
        let ghost m0 = (old(p).requested - old(p).filled) as nat;
        let ghost t: nat = if q0 < m0 { q0 } else { m0 };
        let ghost outcome = advance_outcome(*old(self), *old(p));
        loop
            invariant
                q0 == pend0.len(),
                out0.len() == old(p).filled,
                m0 == old(p).requested - old(p).filled,
                t == (if q0 < m0 { q0 } else { m0 }),
                outcome == advance_outcome(*old(self), *old(p)),
                (out@.len() == out0.len() && *p == *old(p)) || {
                    &&& !p.loading
                    &&& out@.len() == out0.len() + t
                    &&& p.last_take == t
                    &&& 0 < t < m0 ==> 0 < self.size <= FETCH_COUNT_MAX
                    &&& outcome == (t, if t == m0 {
                        ReadAction::Done(old(p).requested)
                    } else if t == 0 {
                        ReadAction::Done(old(p).filled)
                    } else {
                        ReadAction::Fetch
                    })
                },
                p.wf(),
                p.requested == old(p).requested,
                self.size == old(self).size,
                out@.len() == p.filled,
                out@.len() >= out0.len(),
                out@.len() - out0.len() <= pend0.len(),
                p.last_take == 0 && p.filled < p.requested ==> self.buffer@.len() == 0,
                out@ == out0 + pend0.take(out@.len() - out0.len()),
                self.buffer@ == pend0.skip(out@.len() - out0.len()),
                out0 == old(out)@,
                pend0 == old(self).buffer@,
                self.wf(),
                self.fetched() == old(self).fetched(),
                self.delivered() == old(self).delivered() + out@.skip(out0.len() as int),
                p.loading ==> self.size <= FETCH_COUNT_MAX,
                self.size > FETCH_COUNT_MAX ==> out@ == out0,
            decreases 2 * (p.requested - p.filled) + (if p.last_take > 0 { 2int } else { 0int }) + (
            if p.loading { 1int } else { 0int }),
        {
            if !p.loading {
                if !(p.filled < p.requested && p.last_take > 0) {
                    return ReadAction::Done(p.filled);
                }
                p.loading = true;
                p.last_fetch = if self.size as u64 <= FETCH_COUNT_MAX {
                    self.size as i64
                } else {
                    -1
                };
            }
            if p.last_fetch > 0 && self.buffer.len() < self.size {
                return ReadAction::Fetch;
            }
            p.loading = false;
            if p.last_fetch < 0 {
                return ReadAction::Fail;
            }
            let remaining = p.requested - p.filled;
            let len = if self.buffer.len() < remaining {
                self.buffer.len()
            } else {
                remaining
            };
            let ghost before = out@.len() - out0.len();
            self.take_front(len, out);
            proof {
                assert(out@.skip(out0.len() as int) =~= pend0.take(before + len));
                assert(pend0.take(before) + pend0.skip(before).take(len as int) =~= pend0.take(before + len));
                assert(pend0.skip(before).skip(len as int) =~= pend0.skip(before + len));
            }
            p.filled = p.filled + len;
            p.last_take = len;
        }
    }

    /// Hands the chunk that the host returned for the last `Fetch` to the
    /// reader; it joins the back of the queue.
    pub fn supply(&mut self, p: &mut ReadProgress, chunk: &[u8])
        requires
            can_supply(*old(self), *old(p), chunk@),
        ensures
            supplied(*old(self), *final(self), *old(p), *final(p), chunk@),
    {
        let n = chunk.len();
        let mut k: usize = 0;
        while k < n
            invariant
                k <= n,
                n == chunk@.len(),
                self.buffer@ == old(self).buffer@ + chunk@.take(k as int),
                self.size == old(self).size,
                self.fetched == old(self).fetched,
                self.consumed == old(self).consumed,
            decreases n - k,
        {
            self.buffer.push_back(chunk[k]);
            assert(chunk@.take(k + 1) =~= chunk@.take(k as int).push(chunk@[k as int]));
            k = k + 1;
        }
        assert(chunk@.take(n as int) =~= chunk@);
        proof {
            let f = old(self).fetched@;
            let c = old(self).consumed@ as int;
            self.fetched@ = f + chunk@;
            assert((f + chunk@).skip(c) =~= f.skip(c) + chunk@);
            assert((f + chunk@).take(c) =~= f.take(c));
        }
        p.last_fetch = n as i64;
    }
}

/// When a reader may run its decisions: its queue and the read's progress
/// are consistent, `out` holds what this read delivered so far, a top-up in
/// progress has a chunk size that a fetch count can express, and a read that
/// stalled has nothing queued.
pub open spec fn can_advance(r: ReadBuffer, p: ReadProgress, out: Seq<u8>) -> bool {
    &&& r.wf()
    &&& p.wf()
    &&& out.len() == p.filled()
    &&& p.loading() ==> r.capacity() <= FETCH_COUNT_MAX
    &&& p.stalled() ==> r.pending().len() == 0
}

/// What one run of a reader's decisions does, from `(r0, p0, out0)` to
/// `(r1, p1, out1)` with the resulting action.
pub open spec fn advanced(
    r0: ReadBuffer,
    r1: ReadBuffer,
    p0: ReadProgress,
    p1: ReadProgress,
    out0: Seq<u8>,
    out1: Seq<u8>,
    action: ReadAction,
) -> bool {
    let k = out1.len() - out0.len();
    &&& advance_outcome(r0, p0) == (k as nat, action)
    &&& p1.filled() == p0.filled() + k
    &&& p1.loading() <==> action == ReadAction::Fetch
    &&& can_advance(r1, p1, out1)
    &&& r1.fetched() == r0.fetched()
    &&& r1.capacity() == r0.capacity()
    &&& p1.requested() == p0.requested()
    // the bytes handed out are the oldest queued ones, in order
    &&& out1.len() >= out0.len()
    &&& out1 == out0 + r0.pending().take(k)
    &&& r1.pending() == r0.pending().skip(k)
    &&& r1.delivered() == r0.delivered() + out1.skip(out0.len() as int)
    &&& action == ReadAction::Fetch ==> {
        &&& p1.loading()
        &&& p1.last_fetch() > 0
        &&& r1.pending().len() < r1.capacity()
    }
    &&& action matches ReadAction::Done(n) ==> {
        &&& n == p1.filled()
        &&& !p1.loading()
        &&& (n == p1.requested() || r1.pending().len() == 0)
    }
    &&& action == ReadAction::Fail ==> {
        &&& r1.capacity() > FETCH_COUNT_MAX
        &&& out1 == out0
    }
}

/// What one run of a reader's decisions delivers and asks for, from the
/// number of queued bytes, the chunk size and the read's progress:
/// - a read that is complete, or that stalled, is over;
/// - a read that cannot express its chunk size as a fetch count fails;
/// - while the last fetch returned bytes and the queue is below the chunk
///   size, the host is asked for more;
/// - otherwise the queued bytes are handed out, as many as still fit; a read
///   that is then complete is over, one that got nothing is over, and one
///   that emptied the queue asks the host for more.
/// The first component is the number of bytes handed out.
pub open spec fn advance_outcome(r: ReadBuffer, p: ReadProgress) -> (nat, ReadAction) {
    let q = r.pending().len();
    let cap = r.capacity();
    let m = (p.requested() - p.filled()) as nat;
    if !p.loading() && (m == 0 || p.stalled()) {
        (0, ReadAction::Done(p.filled() as usize))
    } else if !p.loading() && cap > FETCH_COUNT_MAX {
        (0, ReadAction::Fail)
    } else if (!p.loading() || p.last_fetch() > 0) && q < cap {
        (0, ReadAction::Fetch)
    } else if q >= m {
        (m, ReadAction::Done(p.requested() as usize))
    } else if q == 0 {
        (0, ReadAction::Done(p.filled() as usize))
    } else {
        (q, ReadAction::Fetch)
    }
}

/// When the host's chunk may be handed to a reader: a top-up is in progress
/// and the chunk fits the host's chunk size.
pub open spec fn can_supply(r: ReadBuffer, p: ReadProgress, chunk: Seq<u8>) -> bool {
    &&& r.wf()
    &&& p.wf()
    &&& p.loading()
    &&& chunk.len() <= r.capacity()
    &&& r.capacity() <= FETCH_COUNT_MAX
}

/// What handing a chunk to a reader does: it joins the back of the queue
/// and becomes the last fetch count.
pub open spec fn supplied(
    r0: ReadBuffer,
    r1: ReadBuffer,
    p0: ReadProgress,
    p1: ReadProgress,
    chunk: Seq<u8>,
) -> bool {
    &&& r1.wf()
    &&& p1.wf()
    &&& p1.requested() == p0.requested()
    &&& p1.filled() == p0.filled()
    &&& p1.loading()
    &&& !p1.stalled()
    &&& p1.last_fetch() == chunk.len()
    &&& r1.pending() == r0.pending() + chunk
    &&& r1.capacity() == r0.capacity()
    &&& r1.fetched() == r0.fetched() + chunk
    &&& r1.delivered() == r0.delivered()
}

/// Nothing is lost, repeated or reordered: the bytes a reader has handed
/// out, followed by the bytes it still holds, are exactly the bytes the host
/// supplied, in the order it supplied them.
pub proof fn lemma_stream_order(r: ReadBuffer)
    requires
        r.wf(),
    ensures
        r.delivered() + r.pending() == r.fetched(),
{
    assert(r.delivered() + r.pending() =~= r.fetched());
}

/// The state of a read over a host stream: the reader held `queued` when the
/// read began, `stream` is what the host delivers from then on, and the host
/// has delivered its first `taken` bytes so far. Everything handed out by this
/// read, followed by what is still queued, is `queued` followed by those
/// bytes; the host is known to be exhausted once a top-up got an empty chunk.
pub open spec fn read_invariant(
    r: ReadBuffer,
    p: ReadProgress,
    out: Seq<u8>,
    queued: Seq<u8>,
    stream: Seq<u8>,
    taken: nat,
) -> bool {
    &&& can_advance(r, p, out)
    &&& 0 < r.capacity() <= FETCH_COUNT_MAX
    &&& !p.stalled()
    &&& taken <= stream.len()
    &&& out + r.pending() == queued + stream.take(taken as int)
    &&& p.loading() && p.last_fetch() == 0 ==> taken == stream.len()
}

/// A read starts in its invariant: nothing handed out, the queue as it is,
/// nothing taken from the host yet.
pub proof fn lemma_read_starts(r: ReadBuffer, p: ReadProgress, stream: Seq<u8>)
    requires
        r.wf(),
        0 < r.capacity() <= FETCH_COUNT_MAX,
        p.wf(),
        p.filled() == 0,
        !p.loading(),
        !p.stalled(),
    ensures
        read_invariant(r, p, Seq::empty(), r.pending(), stream, 0),
{
    assert(Seq::<u8>::empty() + r.pending() =~= r.pending() + stream.take(0));
}

/// A fetch keeps the invariant: when the reader asks for a chunk and the host
/// answers with its next bytes (at most the chunk size, and an empty chunk
/// only once it has nothing left), the read is again in its invariant with
/// those bytes taken.
pub proof fn lemma_read_fetch(
    r0: ReadBuffer,
    r1: ReadBuffer,
    r2: ReadBuffer,
    p0: ReadProgress,
    p1: ReadProgress,
    p2: ReadProgress,
    out0: Seq<u8>,
    out1: Seq<u8>,
    queued: Seq<u8>,
    stream: Seq<u8>,
    taken: nat,
    chunk: Seq<u8>,
)
    requires
        read_invariant(r0, p0, out0, queued, stream, taken),
        advanced(r0, r1, p0, p1, out0, out1, ReadAction::Fetch),
        taken + chunk.len() <= stream.len(),
        chunk == stream.subrange(taken as int, taken + chunk.len() as int),
        chunk.len() == 0 ==> taken == stream.len(),
        supplied(r1, r2, p1, p2, chunk),
    ensures
        chunk.len() <= r1.capacity() ==> can_supply(r1, p1, chunk),
        read_invariant(r2, p2, out1, queued, stream, taken + chunk.len()),
{
    let k = out1.len() - out0.len();
    let q = r0.pending();
    assert(0 <= k <= q.len());
    assert(out1 + r1.pending() =~= out0 + q) by {
        assert(q.take(k) + q.skip(k) =~= q);
    }
    let t2 = (taken + chunk.len()) as int;
    assert(stream.take(t2) =~= stream.take(taken as int) + chunk);
    assert(out1 + r2.pending() =~= (out1 + r1.pending()) + chunk);
    assert(out1 + r2.pending() =~= queued + stream.take(t2));
}

/// How a read ends: when the reader reports that it is over, it handed out
/// exactly as many bytes as were asked for or as the queue and the host had
/// together, whichever is fewer; they are the first bytes of what was queued
/// followed by the host's stream; and what remains queued, followed by what
/// the host has not delivered yet, is the rest of that stream, where the
/// next read continues.
pub proof fn lemma_read_done(
    r0: ReadBuffer,
    r1: ReadBuffer,
    p0: ReadProgress,
    p1: ReadProgress,
    out0: Seq<u8>,
    out1: Seq<u8>,
    queued: Seq<u8>,
    stream: Seq<u8>,
    taken: nat,
    n: usize,
)
    requires
        read_invariant(r0, p0, out0, queued, stream, taken),
        advanced(r0, r1, p0, p1, out0, out1, ReadAction::Done(n)),
    ensures
        n == (if p0.requested() <= queued.len() + stream.len() {
            p0.requested()
        } else {
            queued.len() + stream.len()
        }),
        out1 == (queued + stream).take(n as int),
        r1.pending() + stream.skip(taken as int) == (queued + stream).skip(n as int),
{
    let k = out1.len() - out0.len();
    let q = r0.pending();
    let all = queued + stream;
    assert(0 <= k <= q.len());
    assert(out1 + r1.pending() =~= out0 + q) by {
        assert(q.take(k) + q.skip(k) =~= q);
    }
    assert(stream.take(taken as int) + stream.skip(taken as int) =~= stream);
    assert(out1 + r1.pending() + stream.skip(taken as int) =~= all);
    assert(out1.len() == n);
    assert(out1 =~= all.take(n as int));
    assert(r1.pending() + stream.skip(taken as int) =~= all.skip(n as int));
}

} // verus!
