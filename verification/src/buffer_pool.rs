//! A fixed-capacity pool of reusable byte buffers.
//!
//! The pool is created with `capacity` empty buffers and hands them out one at
//! a time. Acquiring clears the buffer it returns; releasing puts a buffer
//! back unless the pool is already full, in which case the buffer is dropped
//! and a discard is recorded. If the availability count permits a checkout
//! that the queue cannot satisfy, a fresh buffer is synthesized and a fallback
//! is recorded, so the discrepancy is observable rather than silent.
//!
//! The count stays honest only while every acquire is paired with exactly
//! one release per connection; a caller that shares the pool across tasks
//! must keep that pairing, and the fallback and discard counters make any
//! drift visible.

use vstd::prelude::*;

verus! {

/// A counter increment that sticks at the maximum instead of wrapping.
pub open spec fn spec_bump(n: u64) -> u64 {
    if n < u64::MAX {
        (n + 1) as u64
    } else {
        n
    }
}

/// A pool of reusable byte buffers with a fixed capacity.
#[derive(Debug)]
pub struct BufferPool {
    /// The maximum number of buffers the pool may hold.
    max_size: u8,
    /// How many buffers the accounting says are available to acquire.
    current_size: u8,
    /// The idle buffers, handed out front-first and returned at the back.
    buffers: Vec<Vec<u8>>,
    /// How many times a checkout had to synthesize a fresh buffer because the
    /// queue was empty while the accounting still permitted an acquire.
    fallbacks: u64,
    /// How many released buffers were dropped because the pool was full.
    discards: u64,
}

impl BufferPool {
    #[verifier::type_invariant]
    spec fn wf(&self) -> bool {
        &&& self.current_size <= self.max_size
        &&& self.buffers@.len() <= self.current_size
    }

    /// The capacity the pool was created with.
    pub closed spec fn capacity(&self) -> u8 {
        self.max_size
    }

    /// The available-count: how many acquires may still succeed.
    pub closed spec fn available(&self) -> u8 {
        self.current_size
    }

    /// The contents of the idle buffers, front first.
    pub closed spec fn idle(&self) -> Seq<Seq<u8>> {
        self.buffers@.map_values(|b: Vec<u8>| b@)
    }

    /// How many acquires were served by synthesizing a fresh buffer.
    pub closed spec fn fallback_count(&self) -> u64 {
        self.fallbacks
    }

    /// How many released buffers were dropped because the pool was full.
    pub closed spec fn discard_count(&self) -> u64 {
        self.discards
    }

    /// Creates a pool pre-populated with `max_size` empty buffers.
    pub fn new(max_size: u8) -> (pool: Self)
        ensures
            pool.capacity() == max_size,
            pool.available() == max_size,
            pool.idle().len() == max_size,
            forall|i: int| 0 <= i < pool.idle().len() ==> pool.idle()[i].len() == 0,
            pool.fallback_count() == 0,
            pool.discard_count() == 0,
    {
        let mut buffers: Vec<Vec<u8>> = Vec::new();
        let mut i: u8 = 0;
        while i < max_size
            invariant
                i <= max_size,
                buffers@.len() == i,
                forall|j: int| 0 <= j < buffers@.len() ==> buffers@[j]@.len() == 0,
            decreases max_size - i,
        {
            buffers.push(Vec::new());
            i = i + 1;
        }
        let pool = BufferPool {
            max_size,
            current_size: max_size,
            buffers,
            fallbacks: 0,
            discards: 0,
        };
        proof {
            assert(pool.idle().len() == max_size);
        }
        pool
    }

    /// Acquires a buffer. Returns `None` exactly when the available-count is
    /// zero; otherwise the count drops by one and the returned buffer is
    /// empty. When the queue itself is empty a fresh buffer is synthesized
    /// and the fallback count records it.
    pub fn acquire(&mut self) -> (r: Option<Vec<u8>>)
        ensures
            final(self).capacity() == old(self).capacity(),
            final(self).discard_count() == old(self).discard_count(),
            r is None <==> old(self).available() == 0,
            old(self).available() == 0 ==> *final(self) == *old(self),
            old(self).available() > 0 ==> {
                &&& final(self).available() == old(self).available() - 1
                &&& r matches Some(b) && b@.len() == 0
                &&& if old(self).idle().len() > 0 {
                        final(self).idle() == old(self).idle().drop_first()
                            && final(self).fallback_count() == old(self).fallback_count()
                    } else {
                        final(self).idle() == old(self).idle()
                            && final(self).fallback_count() == spec_bump(
                            old(self).fallback_count(),
                        )
                    }
            },
    {
        proof {
            use_type_invariant(&*self);
        }
        if self.current_size == 0 {
            return None;
        }
        if self.buffers.len() > 0 {
            let mut buffers: Vec<Vec<u8>> = Vec::new();
            std::mem::swap(&mut buffers, &mut self.buffers);
            let mut buffer = buffers.remove(0);
            self.current_size = self.current_size - 1;
            std::mem::swap(&mut buffers, &mut self.buffers);
            buffer.clear();
            proof {
                assert(self.idle() =~= old(self).idle().drop_first());
            }
            Some(buffer)
        } else {
            self.current_size = self.current_size - 1;
            if self.fallbacks < u64::MAX {
                self.fallbacks = self.fallbacks + 1;
            }
            proof {
                assert(self.idle() =~= old(self).idle());
            }
            Some(Vec::new())
        }
    }

    /// Releases a buffer back to the pool. If the available-count is below
    /// the capacity the buffer is queued and the count rises by one;
    /// otherwise the buffer is dropped, the count stays, and the discard
    /// count records it. The count never exceeds the capacity.
    pub fn release(&mut self, buffer: Vec<u8>)
        ensures
            final(self).capacity() == old(self).capacity(),
            final(self).fallback_count() == old(self).fallback_count(),
            final(self).available() <= final(self).capacity(),
            old(self).available() < old(self).capacity() ==> {
                &&& final(self).available() == old(self).available() + 1
                &&& final(self).idle() == old(self).idle().push(buffer@)
                &&& final(self).discard_count() == old(self).discard_count()
            },
            old(self).available() >= old(self).capacity() ==> {
                &&& final(self).available() == old(self).available()
                &&& final(self).idle() == old(self).idle()
                &&& final(self).discard_count() == spec_bump(old(self).discard_count())
            },
    {
        proof {
            use_type_invariant(&*self);
        }
        if self.current_size < self.max_size {
            self.current_size = self.current_size + 1;
            let mut buffers: Vec<Vec<u8>> = Vec::new();
            std::mem::swap(&mut buffers, &mut self.buffers);
            buffers.push(buffer);
            std::mem::swap(&mut buffers, &mut self.buffers);
            proof {
                assert(self.idle() =~= old(self).idle().push(buffer@));
            }
        } else {
            if self.discards < u64::MAX {
                self.discards = self.discards + 1;
            }
            proof {
                assert(self.idle() =~= old(self).idle());
            }
        }
    }

    /// The capacity the pool was created with.
    pub fn max_size(&self) -> (r: u8)
        ensures
            r == self.capacity(),
    {
        self.max_size
    }

    /// How many acquires may still succeed.
    pub fn current_size(&self) -> (r: u8)
        ensures
            r == self.available(),
    {
        self.current_size
    }

    /// How many acquires were served by synthesizing a fresh buffer.
    pub fn fallback_count_value(&self) -> (r: u64)
        ensures
            r == self.fallback_count(),
    {
        self.fallbacks
    }

    /// How many released buffers were dropped because the pool was full.
    pub fn discard_count_value(&self) -> (r: u64)
        ensures
            r == self.discard_count(),
    {
        self.discards
    }
}

/// One paired acquire/release cycle restores the available-count: if a pool
/// with a positive count hands out a buffer and the buffer is then released,
/// the count returns to its starting value and stays within the capacity.
/// Repeated over any number of non-overlapping cycles, the count therefore
/// ends where it began.
pub proof fn lemma_acquire_release_round_trip(
    before: BufferPool,
    mid: BufferPool,
    after: BufferPool,
)
    requires
        before.available() > 0,
        before.available() <= before.capacity(),
        // `mid` is `before` after a successful acquire
        mid.capacity() == before.capacity(),
        mid.available() == before.available() - 1,
        // `after` is `mid` after releasing the acquired buffer
        after.capacity() == mid.capacity(),
        mid.available() < mid.capacity() ==> after.available() == mid.available() + 1,
        mid.available() >= mid.capacity() ==> after.available() == mid.available(),
    ensures
        after.available() == before.available(),
        after.available() <= after.capacity(),
{
}

} // verus!
