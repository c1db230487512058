//! A fixed-capacity byte buffer with overwrite-on-overflow semantics.
//!
//! The buffer retains at most `cap()` bytes in FIFO order. Appending more than
//! the free space allows drops the oldest bytes; appending a chunk at least as
//! large as the whole capacity keeps only the chunk's own tail. Reading is
//! non-destructive (`peek`) or consuming (`skip`), both restricted to the
//! currently readable prefix.

use vstd::prelude::*;

verus! {

use std::collections::VecDeque;

/// The contents of a buffer of capacity `cap` holding `s` after `bytes` is
/// appended: the last `min(cap, s.len() + bytes.len())` bytes of `s + bytes`,
/// in order. Oldest bytes are dropped first; nothing is ever reordered.
pub open spec fn pushed(s: Seq<u8>, bytes: Seq<u8>, cap: nat) -> Seq<u8> {
    if s.len() + bytes.len() <= cap {
        s + bytes
    } else {
        (s + bytes).skip(s.len() + bytes.len() - cap)
    }
}

/// Appending never leaves more than `cap` bytes behind, and the resulting
/// length is exactly `min(cap, s.len() + bytes.len())`.
pub proof fn lemma_pushed_len(s: Seq<u8>, bytes: Seq<u8>, cap: nat)
    ensures
        pushed(s, bytes, cap).len() <= cap,
        pushed(s, bytes, cap).len() == (if s.len() + bytes.len() <= cap {
            s.len() + bytes.len()
        } else {
            cap
        }),
{
}

/// Appending nothing changes nothing: a buffer within capacity is left exactly
/// as it was by a push of the empty sequence.
pub proof fn lemma_push_nothing(s: Seq<u8>, cap: nat)
    requires
        s.len() <= cap,
    ensures
        pushed(s, Seq::<u8>::empty(), cap) == s,
{
}

/// A buffer of capacity zero retains nothing, whatever is pushed into it.
pub proof fn lemma_capacity_zero(s: Seq<u8>, bytes: Seq<u8>)
    ensures
        pushed(s, bytes, 0).len() == 0,
{
}

/// Skipping everything that is readable leaves nothing readable.
pub proof fn lemma_skip_all(s: Seq<u8>)
    ensures
        s.skip(s.len() as int) == Seq::<u8>::empty(),
{
}

/// A FIFO byte buffer bounded by a fixed capacity. Its view is the retained
/// byte sequence, oldest first.
pub struct RingBuffer {
    queue: VecDeque<u8>,
    // `VecDeque` rounds the capacity it is asked for up, so the exact bound
    // has to be remembered separately.
    capacity: usize,
}

impl View for RingBuffer {
    type V = Seq<u8>;

    closed spec fn view(&self) -> Seq<u8> {
        self.queue@
    }
}

impl RingBuffer {
    /// The capacity fixed at construction; the contents never exceed it.
    pub closed spec fn cap(&self) -> nat {
        self.capacity as nat
    }

    /// Bytes currently available to read.
    pub open spec fn readable(&self) -> nat {
        self@.len()
    }

    /// Bytes that can be pushed before any existing content is overwritten.
    pub open spec fn writable(&self) -> nat {
        (self.cap() - self@.len()) as nat
    }

    /// The buffer's invariant: it never holds more than its capacity.
    pub open spec fn wf(&self) -> bool {
        self@.len() <= self.cap()
    }

    /// What is readable and what is still writable always sum to the capacity.
    pub proof fn lemma_readable_writable_complement(&self)
        requires
            self.wf(),
        ensures
            self.readable() + self.writable() == self.cap(),
    {
    }

    /// Creates an empty buffer of the given capacity. Capacity zero is valid
    /// and yields a buffer that discards everything pushed into it.
    pub fn new(capacity: usize) -> (r: RingBuffer)
        ensures
            r.wf(),
            r@ == Seq::<u8>::empty(),
            r.cap() == capacity,
    {
        RingBuffer { queue: VecDeque::with_capacity(capacity), capacity }
    }

    /// How many bytes can be read from the buffer.
    pub fn read_available(&self) -> (n: usize)
        ensures
            n == self.readable(),
    {
        self.queue.len()
    }

    /// How many bytes can be written without overwriting existing contents.
    pub fn write_available(&self) -> (n: usize)
        requires
            self.wf(),
        ensures
            n == self.writable(),
    {
        self.capacity - self.queue.len()
    }

    /// Returns the first `n` readable bytes, in order, without consuming them.
    /// The contents are copied out, so the result stays intact across later
    /// mutations.
    pub fn peek(&self, n: usize) -> (r: Vec<u8>)
        requires
            n <= self@.len(),
        ensures
            r@ == self@.subrange(0, n as int),
    {
        let mut r: Vec<u8> = Vec::new();
        let mut i: usize = 0;
        while i < n
            invariant
                i <= n,
                n <= self@.len(),
                r@ == self@.subrange(0, i as int),
            decreases n - i,
        {
            r.push(self.queue[i]);
            i = i + 1;
        }
        r
    }

    /// Removes the first `n` readable bytes; the remainder keeps its order.
    pub fn skip(&mut self, n: usize)
        requires
            old(self).wf(),
            n <= old(self)@.len(),
        ensures
            final(self).wf(),
            final(self).cap() == old(self).cap(),
            final(self)@ == old(self)@.skip(n as int),
            final(self)@.len() == old(self)@.len() - n,
    {
        let mut i: usize = 0;
        while i < n
            invariant
                i <= n,
                n <= old(self)@.len(),
                self.cap() == old(self).cap(),
                self@ == old(self)@.skip(i as int),
            decreases n - i,
        {
            let _ = self.queue.pop_front();
            i = i + 1;
        }
    }

    /// Appends `bytes`, dropping the oldest contents as needed so that the
    /// capacity is never exceeded; a chunk at least as large as the capacity
    /// replaces the contents with its own tail. Never fails, whatever the
    /// chunk's length.
    pub fn push(&mut self, bytes: &[u8])
        requires
            old(self).wf(),
        ensures
            final(self).wf(),
            final(self).cap() == old(self).cap(),
            final(self)@ == pushed(old(self)@, bytes@, old(self).cap()),
    {
        let leeway = self.capacity - self.queue.len();

        if bytes.len() <= leeway {
            // There's enough leeway to insert all bytes.
            self.extend_from(bytes, 0);
        } else if bytes.len() >= self.capacity {
            // Not enough room to fit everything: drop all contents and keep
            // only the chunk's own tail.
            self.queue.clear();
            self.extend_from(bytes, bytes.len() - self.capacity);
        } else {
            // Make just enough room to fit everything.
            let excess = bytes.len() - leeway;
            self.skip(excess);
            self.extend_from(bytes, 0);
        }
    }

    /// Appends `bytes[start..]` to the back of the queue, in order.
    fn extend_from(&mut self, bytes: &[u8], start: usize)
        requires
            start <= bytes@.len(),
        ensures
            final(self).cap() == old(self).cap(),
            final(self)@ == old(self)@ + bytes@.skip(start as int),
    {
        let mut i: usize = start;
        while i < bytes.len()
            invariant
                start <= i <= bytes@.len(),
                self.cap() == old(self).cap(),
                self@ == old(self)@ + bytes@.subrange(start as int, i as int),
            decreases bytes@.len() - i,
        {
            self.queue.push_back(bytes[i]);
            i = i + 1;
        }
    }
}

} // verus!
