//! Re-chunking of a byte stream.
//!
//! A network source yields chunks of arbitrary size, while the reader
//! above asks for reads of its own size.  The `Rechunker` hands out
//! exactly what was asked for, buffers any remainder for the next
//! read, and never invents or drops a byte — the buffering half of the
//! streaming extractor's backpressure.

use vstd::prelude::*;

verus! {

/// Bytes received but not yet handed out, in arrival order.
#[derive(Debug)]
pub struct Rechunker {
    pending: Vec<u8>,
}

impl View for Rechunker {
    type V = Seq<u8>;

    closed spec fn view(&self) -> Seq<u8> {
        self.pending@
    }
}

impl Rechunker {
    /// An empty buffer.
    pub fn new() -> (r: Rechunker)
        ensures
            r@ == Seq::<u8>::empty(),
    {
        Rechunker { pending: Vec::new() }
    }

    /// How many bytes wait to be handed out.
    pub fn len(&self) -> (r: usize)
        ensures
            r == self@.len(),
    {
        self.pending.len()
    }

    /// Accept one incoming chunk: the buffer grows by exactly its
    /// bytes, in order.
    pub fn feed(&mut self, chunk: Vec<u8>)
        ensures
            final(self)@ == old(self)@ + chunk@,
    {
        let mut chunk = chunk;
        self.pending.append(&mut chunk);
    }

    /// Hand out at most `n` buffered bytes: exactly the front of the
    /// buffer, which keeps the rest.  A read of `n` bytes from a
    /// buffer holding at least `n` returns exactly `n` bytes.
    pub fn take(&mut self, n: usize) -> (r: Vec<u8>)
        ensures
            r@ == old(self)@.take(spec_min(n as int, old(self)@.len() as int)),
            final(self)@ == old(self)@.skip(spec_min(n as int, old(self)@.len() as int)),
            r@ + final(self)@ == old(self)@,
    {
        let k = if n < self.pending.len() {
            n
        } else {
            self.pending.len()
        };
        let mut tail = self.pending.split_off(k);
        core::mem::swap(&mut self.pending, &mut tail);
        proof {
            assert(tail@ =~= old(self)@.take(spec_min(n as int, old(self)@.len() as int)));
            assert(self.pending@ =~= old(self)@.skip(
                spec_min(n as int, old(self)@.len() as int),
            ));
            assert(tail@ + self.pending@ =~= old(self)@);
        }
        tail
    }
}

/// The smaller of two quantities.
pub open spec fn spec_min(a: int, b: int) -> int {
    if a < b {
        a
    } else {
        b
    }
}

/// Feeding then draining reproduces the stream: what `feed` accepted
/// comes back out of `take` byte for byte, however the chunk sizes of
/// the source and the read sizes of the consumer disagree.
pub proof fn lemma_rechunk_preserves_stream(buffered: Seq<u8>, chunk: Seq<u8>, n: int)
    requires
        0 <= n,
    ensures
        (buffered + chunk).take(spec_min(n, (buffered + chunk).len() as int)) + (buffered
            + chunk).skip(spec_min(n, (buffered + chunk).len() as int)) == buffered + chunk,
{
    let whole = buffered + chunk;
    let k = spec_min(n, whole.len() as int);
    assert(whole.take(k) + whole.skip(k) =~= whole);
}

} // verus!
