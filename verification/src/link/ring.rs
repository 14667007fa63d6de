//! Fixed-capacity byte queue for staging UART traffic.
//!
//! Not synchronised: the caller provides the lock.

use vstd::prelude::*;

verus! {

/// A byte FIFO of capacity `N`. Its view is the queue, oldest byte first.
pub struct RingBuf<const N: usize> {
    buf: [u8; N],
    head: usize,
    tail: usize,
    len: usize,
}

/// Slot of the `i`th queued byte.
spec fn slot(head: int, i: int, capacity: int) -> int {
    if head + i < capacity {
        head + i
    } else {
        head + i - capacity
    }
}

impl<const N: usize> View for RingBuf<N> {
    type V = Seq<u8>;

    closed spec fn view(&self) -> Seq<u8> {
        Seq::new(self.len as nat, |i: int| self.buf@[slot(self.head as int, i, N as int)])
    }
}

impl<const N: usize> RingBuf<N> {
    /// Head and tail lie in the buffer, `len` slots apart.
    pub closed spec fn wf(&self) -> bool {
        &&& self.len <= N
        &&& N == 0 ==> self.head == 0 && self.tail == 0
        &&& N > 0 ==> self.head < N && self.tail < N && self.tail == slot(
            self.head as int,
            self.len as int,
            N as int,
        )
    }

    /// The queue never holds more than its capacity.
    pub proof fn lemma_bounded(&self)
        requires
            self.wf(),
        ensures
            self@.len() <= N,
    {
    }

    /// An empty queue.
    pub fn new() -> (ring: Self)
        ensures
            ring.wf(),
            ring@ == Seq::<u8>::empty(),
    {
        let ring = RingBuf { buf: [0u8; N], head: 0, tail: 0, len: 0 };
        assert(ring@ =~= Seq::<u8>::empty());
        ring
    }

    #[must_use]
    pub fn len(&self) -> (len: usize)
        ensures
            len == self@.len(),
    {
        self.len
    }

    #[must_use]
    pub fn is_empty(&self) -> (empty: bool)
        ensures
            empty == (self@.len() == 0),
    {
        self.len == 0
    }

    #[must_use]
    pub fn is_full(&self) -> (full: bool)
        ensures
            full == (self@.len() == N),
    {
        self.len == N
    }

    /// Append one byte; `false`, with the byte dropped, if the queue is full.
    pub fn push(&mut self, b: u8) -> (accepted: bool)
        requires
            old(self).wf(),
        ensures
            final(self).wf(),
            accepted == (old(self)@.len() < N),
            final(self)@ == if accepted {
                old(self)@.push(b)
            } else {
                old(self)@
            },
    {
        if self.len == N {
            return false;
        }
        let ghost before = self@;
        self.buf[self.tail] = b;
        self.tail = if self.tail + 1 == N {
            0
        } else {
            self.tail + 1
        };
        self.len = self.len + 1;
        assert(self@ =~= before.push(b));
        true
    }

    /// Remove the oldest byte, or `None` if the queue is empty.
    pub fn pop(&mut self) -> (oldest: Option<u8>)
        requires
            old(self).wf(),
        ensures
            final(self).wf(),
            old(self)@.len() == 0 ==> oldest is None && final(self)@ == old(self)@,
            old(self)@.len() > 0 ==> oldest == Some(old(self)@[0]) && final(self)@
                == old(self)@.drop_first(),
    {
        if self.len == 0 {
            return None;
        }
        let ghost before = self@;
        let b: u8 = self.buf[self.head];
        self.head = if self.head + 1 == N {
            0
        } else {
            self.head + 1
        };
        self.len = self.len - 1;
        assert(self@ =~= before.drop_first());
        Some(b)
    }
}

impl<const N: usize> Default for RingBuf<N> {
    fn default() -> (ring: Self)
        ensures
            ring.wf(),
            ring@ == Seq::<u8>::empty(),
    {
        Self::new()
    }
}

} // verus!
