//! Pools of reusable byte buffers. A pool hands out cleared buffers and takes
//! them back while it has room and the buffer is large enough to be worth
//! keeping.

use vstd::prelude::*;
use std::collections::VecDeque;

verus! {

/// `Vec::capacity`; the allocator decides it, so only its lower bound (the
/// length) is known.
#[verifier::external_body]
fn vec_capacity(v: &Vec<u8>) -> (r: usize)
    ensures
        r >= v@.len(),
{
    v.capacity()
}

/// Smallest capacity a returned buffer must have to be kept.
pub const MIN_RETAINED_CAPACITY: usize = 1024;

/// A buffer taken from a pool.
pub struct PooledBuffer {
    buffer: Vec<u8>,
}

impl View for PooledBuffer {
    type V = Seq<u8>;

    closed spec fn view(&self) -> Seq<u8> {
        self.buffer@
    }
}

impl PooledBuffer {
    /// The underlying vector, for writing.
    pub fn as_mut_vec(&mut self) -> (r: &mut Vec<u8>)
        ensures
            r@ == old(self)@,
            final(self)@ == final(r)@,
    {
        &mut self.buffer
    }

    /// The underlying vector.
    pub fn as_vec(&self) -> (r: &Vec<u8>)
        ensures
            r@ == self@,
    {
        &self.buffer
    }

    /// The contents.
    pub fn as_slice(&self) -> (r: &[u8])
        ensures
            r@ == self@,
    {
        self.buffer.as_slice()
    }

    /// The capacity (at least the length).
    pub fn capacity(&self) -> (r: usize)
        ensures
            r >= self@.len(),
    {
        vec_capacity(&self.buffer)
    }

    /// The length.
    pub fn len(&self) -> (r: usize)
        ensures
            r == self@.len(),
    {
        self.buffer.len()
    }

    /// Whether the buffer is empty.
    pub fn is_empty(&self) -> (r: bool)
        ensures
            r == (self@.len() == 0),
    {
        self.buffer.len() == 0
    }

    /// Empties the buffer.
    pub fn clear(&mut self)
        ensures
            final(self)@ == Seq::<u8>::empty(),
    {
        self.buffer.clear();
    }

    /// Appends bytes.
    pub fn extend_from_slice(&mut self, other: &[u8])
        ensures
            final(self)@ == old(self)@ + other@,
    {
        crate::wire::append_bytes(&mut self.buffer, other);
    }

    /// Appends one byte.
    pub fn push(&mut self, byte: u8)
        ensures
            final(self)@ == old(self)@.push(byte),
    {
        self.buffer.push(byte);
    }

    /// Reserves room for `additional` more bytes; the contents are unchanged.
    pub fn reserve(&mut self, additional: usize)
        ensures
            final(self)@ == old(self)@,
    {
        self.buffer.reserve(additional);
    }
}

/// A pool of byte buffers of a nominal size, holding at most
/// `max_pool_size` idle buffers.
pub struct BufferPool {
    buffers: VecDeque<Vec<u8>>,
    buffer_size: usize,
    max_pool_size: usize,
}

impl BufferPool {
    /// Number of idle buffers.
    pub closed spec fn idle(&self) -> nat {
        self.buffers@.len()
    }

    /// The nominal buffer size.
    pub closed spec fn spec_buffer_size(&self) -> usize {
        self.buffer_size
    }

    /// The most idle buffers kept.
    pub closed spec fn spec_max_pool_size(&self) -> usize {
        self.max_pool_size
    }

    /// Idle buffers are empty and never more than the maximum.
    pub closed spec fn wf(&self) -> bool {
        &&& self.buffers@.len() <= self.max_pool_size
        &&& forall|i: int| 0 <= i < self.buffers@.len() ==> (#[trigger] self.buffers@[i])@.len() == 0
    }

    /// An empty pool.
    pub fn new(buffer_size: usize, max_pool_size: usize) -> (r: BufferPool)
        ensures
            r.wf(),
            r.idle() == 0,
            r.spec_buffer_size() == buffer_size,
            r.spec_max_pool_size() == max_pool_size,
    {
        BufferPool { buffers: VecDeque::with_capacity(max_pool_size), buffer_size, max_pool_size }
    }

    /// The default pool: 16 KiB buffers, at most 64 idle.
    pub fn default_pool() -> (r: BufferPool)
        ensures
            r.wf(),
            r.idle() == 0,
            r.spec_buffer_size() == 16384,
            r.spec_max_pool_size() == 64,
    {
        BufferPool::new(16384, 64)
    }

    /// Takes an idle buffer, or a new one when none is idle; it is empty.
    pub fn get(&mut self) -> (r: PooledBuffer)
        requires
            old(self).wf(),
        ensures
            final(self).wf(),
            r@ == Seq::<u8>::empty(),
            final(self).idle() == if old(self).idle() > 0 {
                (old(self).idle() - 1) as nat
            } else {
                0
            },
            final(self).spec_buffer_size() == old(self).spec_buffer_size(),
            final(self).spec_max_pool_size() == old(self).spec_max_pool_size(),
    {
        let mut buffer = match self.buffers.pop_front() {
            Some(b) => b,
            None => Vec::with_capacity(self.buffer_size),
        };
        buffer.clear();
        let cap = vec_capacity(&buffer);
        if cap < self.buffer_size {
            buffer.reserve(self.buffer_size - cap);
        }
        assert forall|i: int| 0 <= i < self.buffers@.len() implies (#[trigger] self.buffers@[i])@.len()
            == 0 by {
            assert(self.buffers@[i] == old(self).buffers@[i + 1]);
        }
        PooledBuffer { buffer }
    }

    /// Number of idle buffers.
    pub fn size(&self) -> (r: usize)
        ensures
            r == self.idle(),
    {
        self.buffers.len()
    }

    /// Gives a buffer back. It is kept (cleared) when the pool has room and
    /// its capacity is at least [`MIN_RETAINED_CAPACITY`]; otherwise it is
    /// dropped. Returns whether it was kept. The capacity is the allocator's
    /// choice, so on a pool with room the outcome is stated for either answer
    /// (see [`BufferPool::recycle_with_capacity`] for the decision itself).
    pub fn recycle(&mut self, buffer: PooledBuffer) -> (kept: bool)
        requires
            old(self).wf(),
        ensures
            final(self).wf(),
            gave_back(*old(self), *final(self), kept),
            old(self).idle() >= old(self).spec_max_pool_size() ==> !kept,
    {
        let cap = vec_capacity(&buffer.buffer);
        self.recycle_with_capacity(buffer, cap)
    }

    /// Gives back a buffer whose capacity is `capacity`: it is kept exactly
    /// when the pool has room and `capacity` is at least
    /// [`MIN_RETAINED_CAPACITY`].
    pub fn recycle_with_capacity(&mut self, buffer: PooledBuffer, capacity: usize) -> (kept: bool)
        requires
            old(self).wf(),
        ensures
            final(self).wf(),
            kept == (old(self).idle() < old(self).spec_max_pool_size() && capacity
                >= MIN_RETAINED_CAPACITY),
            gave_back(*old(self), *final(self), kept),
    {
        let mut b = buffer.buffer;
        if self.buffers.len() < self.max_pool_size && capacity >= MIN_RETAINED_CAPACITY {
            b.clear();
            self.buffers.push_back(b);
            assert forall|i: int| 0 <= i < self.buffers@.len() implies (
            #[trigger] self.buffers@[i])@.len() == 0 by {
                if i < old(self).buffers@.len() {
                    assert(self.buffers@[i] == old(self).buffers@[i]);
                }
            }
            true
        } else {
            false
        }
    }

    /// Fills the pool with new buffers up to `count` idle ones (never beyond
    /// the maximum). Returns how many were created.
    pub fn warm_up(&mut self, count: usize) -> (created: usize)
        requires
            old(self).wf(),
        ensures
            final(self).wf(),
            created as int == min_int(
                if count >= old(self).idle() {
                    count - old(self).idle()
                } else {
                    0
                },
                old(self).spec_max_pool_size() - old(self).idle(),
            ),
            final(self).idle() == old(self).idle() + created,
            final(self).spec_buffer_size() == old(self).spec_buffer_size(),
            final(self).spec_max_pool_size() == old(self).spec_max_pool_size(),
    {
        let current = self.buffers.len();
        let wanted = count.saturating_sub(current);
        let room = self.max_pool_size - current;
        let to_create = if wanted < room {
            wanted
        } else {
            room
        };
        let mut k: usize = 0;
        while k < to_create
            invariant
                k <= to_create,
                to_create <= self.max_pool_size - current,
                current == old(self).buffers@.len(),
                self.buffers@.len() == current + k,
                self.buffer_size == old(self).buffer_size,
                self.max_pool_size == old(self).max_pool_size,
                forall|i: int| 0 <= i < self.buffers@.len() ==> (#[trigger] self.buffers@[i])@.len() == 0,
            decreases to_create - k,
        {
            let ghost before = self.buffers@;
            self.buffers.push_back(Vec::with_capacity(self.buffer_size));
            assert forall|i: int| 0 <= i < self.buffers@.len() implies (
            #[trigger] self.buffers@[i])@.len() == 0 by {
                if i < before.len() {
                    assert(self.buffers@[i] == before[i]);
                }
            }
            k = k + 1;
        }
        to_create
    }
}

/// A pool never holds more idle buffers than its maximum.
pub proof fn law_pool_bounded(pool: BufferPool)
    requires
        pool.wf(),
    ensures
        pool.idle() <= pool.spec_max_pool_size(),
{
}

/// The smaller of two integers.
pub open spec fn min_int(a: int, b: int) -> int {
    if a <= b {
        a
    } else {
        b
    }
}

/// `after` is `before` with one idle buffer taken, if there was one.
pub open spec fn took_one(before: BufferPool, after: BufferPool) -> bool {
    &&& after.idle() == if before.idle() > 0 {
        (before.idle() - 1) as nat
    } else {
        0
    }
    &&& after.spec_buffer_size() == before.spec_buffer_size()
    &&& after.spec_max_pool_size() == before.spec_max_pool_size()
}

/// `after` is `before` with one more idle buffer when `kept`, else the same
/// number; a kept buffer needs room.
pub open spec fn gave_back(before: BufferPool, after: BufferPool, kept: bool) -> bool {
    &&& kept ==> before.idle() < before.spec_max_pool_size() && after.idle() == before.idle() + 1
    &&& !kept ==> after.idle() == before.idle()
    &&& after.spec_buffer_size() == before.spec_buffer_size()
    &&& after.spec_max_pool_size() == before.spec_max_pool_size()
}

/// Idle buffers after warming a pool holding `idle` of at most `max` up to
/// `count`.
pub open spec fn warmed_idle(idle: nat, max: nat, count: nat) -> int {
    idle + min_int(
        if count >= idle {
            count - idle
        } else {
            0
        },
        max - idle,
    )
}

/// `after` is `before` warmed up to `count` idle buffers.
pub open spec fn warmed(before: BufferPool, after: BufferPool, count: nat) -> bool {
    &&& after.idle() == warmed_idle(before.idle(), before.spec_max_pool_size() as nat, count)
    &&& after.spec_buffer_size() == before.spec_buffer_size()
    &&& after.spec_max_pool_size() == before.spec_max_pool_size()
}

/// Warming up never takes a pool beyond its maximum: after `warm_up(count)`
/// a pool holds the larger of what it held and `min(count, max)`.
pub proof fn law_warm_up_size(idle: nat, max: nat, count: nat)
    requires
        idle <= max,
    ensures
        ({
            let created = min_int(
                if count >= idle {
                    count - idle
                } else {
                    0
                },
                max - idle,
            );
            &&& idle + created <= max
            &&& idle + created == if idle >= count {
                idle as int
            } else {
                min_int(count as int, max as int)
            }
        }),
{
}

/// Which of the global pools serves a request of a given expected size.
#[derive(Debug, Clone, Copy, PartialEq, Eq, Structural)]
pub enum PoolClass {
    /// 2 KiB buffers (expected size up to 2048 bytes).
    Small,
    /// 16 KiB buffers (up to 16384 bytes).
    Medium,
    /// 128 KiB buffers (up to 131072 bytes).
    Large,
    /// 1 MiB buffers (anything larger).
    ExtraLarge,
}

/// The pool for an expected size.
pub open spec fn class_for(expected_size: usize) -> PoolClass {
    if expected_size <= 2048 {
        PoolClass::Small
    } else if expected_size <= 16384 {
        PoolClass::Medium
    } else if expected_size <= 131072 {
        PoolClass::Large
    } else {
        PoolClass::ExtraLarge
    }
}

/// Occupancy of the global pools.
#[derive(Debug, Clone, Copy)]
pub struct BufferPoolStats {
    pub small_pool_size: usize,
    pub medium_pool_size: usize,
    pub large_pool_size: usize,
    pub extra_large_pool_size: usize,
}

/// Four pools for small, medium, large and extra-large payloads.
pub struct GlobalBufferPools {
    small: BufferPool,
    medium: BufferPool,
    large: BufferPool,
    extra_large: BufferPool,
}

impl GlobalBufferPools {
    /// All four pools are consistent.
    pub closed spec fn wf(&self) -> bool {
        self.small.wf() && self.medium.wf() && self.large.wf() && self.extra_large.wf()
    }

    /// The pool of a class.
    pub closed spec fn pool(&self, c: PoolClass) -> BufferPool {
        match c {
            PoolClass::Small => self.small,
            PoolClass::Medium => self.medium,
            PoolClass::Large => self.large,
            PoolClass::ExtraLarge => self.extra_large,
        }
    }

    /// Empty pools of 2 KiB (at most 32 idle), 16 KiB (64), 128 KiB (16) and
    /// 1 MiB (8) buffers.
    pub fn new() -> (r: GlobalBufferPools)
        ensures
            r.wf(),
            r.pool(PoolClass::Small).spec_buffer_size() == 2048,
            r.pool(PoolClass::Small).spec_max_pool_size() == 32,
            r.pool(PoolClass::Medium).spec_buffer_size() == 16384,
            r.pool(PoolClass::Medium).spec_max_pool_size() == 64,
            r.pool(PoolClass::Large).spec_buffer_size() == 131072,
            r.pool(PoolClass::Large).spec_max_pool_size() == 16,
            r.pool(PoolClass::ExtraLarge).spec_buffer_size() == 1048576,
            r.pool(PoolClass::ExtraLarge).spec_max_pool_size() == 8,
            forall|c: PoolClass| #[trigger] r.pool(c).idle() == 0,
    {
        GlobalBufferPools {
            small: BufferPool::new(2048, 32),
            medium: BufferPool::new(16384, 64),
            large: BufferPool::new(131072, 16),
            extra_large: BufferPool::new(1048576, 8),
        }
    }

    /// The pool class for an expected payload size.
    pub fn class_for_size(expected_size: usize) -> (r: PoolClass)
        ensures
            r == class_for(expected_size),
    {
        if expected_size <= 2048 {
            PoolClass::Small
        } else if expected_size <= 16384 {
            PoolClass::Medium
        } else if expected_size <= 131072 {
            PoolClass::Large
        } else {
            PoolClass::ExtraLarge
        }
    }

    /// A buffer from the pool that suits `expected_size`; that pool gives up
    /// one idle buffer (if it had one), the others are unchanged.
    pub fn get_buffer(&mut self, expected_size: usize) -> (r: PooledBuffer)
        requires
            old(self).wf(),
        ensures
            final(self).wf(),
            r@ == Seq::<u8>::empty(),
            took_one(old(self).pool(class_for(expected_size)), final(self).pool(class_for(expected_size))),
            forall|c: PoolClass|
                c != class_for(expected_size) ==> #[trigger] final(self).pool(c) == old(self).pool(c),
    {
        match GlobalBufferPools::class_for_size(expected_size) {
            PoolClass::Small => self.small.get(),
            PoolClass::Medium => self.medium.get(),
            PoolClass::Large => self.large.get(),
            PoolClass::ExtraLarge => self.extra_large.get(),
        }
    }

    /// A buffer from the small pool.
    pub fn get_small(&mut self) -> (r: PooledBuffer)
        requires
            old(self).wf(),
        ensures
            final(self).wf(),
            r@ == Seq::<u8>::empty(),
            took_one(old(self).pool(PoolClass::Small), final(self).pool(PoolClass::Small)),
            forall|c: PoolClass|
                c != PoolClass::Small ==> #[trigger] final(self).pool(c) == old(self).pool(c),
    {
        self.small.get()
    }

    /// A buffer from the medium pool.
    pub fn get_medium(&mut self) -> (r: PooledBuffer)
        requires
            old(self).wf(),
        ensures
            final(self).wf(),
            r@ == Seq::<u8>::empty(),
            took_one(old(self).pool(PoolClass::Medium), final(self).pool(PoolClass::Medium)),
            forall|c: PoolClass|
                c != PoolClass::Medium ==> #[trigger] final(self).pool(c) == old(self).pool(c),
    {
        self.medium.get()
    }

    /// A buffer from the large pool.
    pub fn get_large(&mut self) -> (r: PooledBuffer)
        requires
            old(self).wf(),
        ensures
            final(self).wf(),
            r@ == Seq::<u8>::empty(),
            took_one(old(self).pool(PoolClass::Large), final(self).pool(PoolClass::Large)),
            forall|c: PoolClass|
                c != PoolClass::Large ==> #[trigger] final(self).pool(c) == old(self).pool(c),
    {
        self.large.get()
    }

    /// A buffer from the extra-large pool.
    pub fn get_extra_large(&mut self) -> (r: PooledBuffer)
        requires
            old(self).wf(),
        ensures
            final(self).wf(),
            r@ == Seq::<u8>::empty(),
            took_one(old(self).pool(PoolClass::ExtraLarge), final(self).pool(PoolClass::ExtraLarge)),
            forall|c: PoolClass|
                c != PoolClass::ExtraLarge ==> #[trigger] final(self).pool(c) == old(self).pool(c),
    {
        self.extra_large.get()
    }

    /// Gives a buffer back to the pool of `class` (as [`BufferPool::recycle`]);
    /// the other pools are unchanged.
    pub fn recycle(&mut self, class: PoolClass, buffer: PooledBuffer) -> (kept: bool)
        requires
            old(self).wf(),
        ensures
            final(self).wf(),
            gave_back(old(self).pool(class), final(self).pool(class), kept),
            old(self).pool(class).idle() >= old(self).pool(class).spec_max_pool_size() ==> !kept,
            forall|c: PoolClass| c != class ==> #[trigger] final(self).pool(c) == old(self).pool(c),
    {
        match class {
            PoolClass::Small => self.small.recycle(buffer),
            PoolClass::Medium => self.medium.recycle(buffer),
            PoolClass::Large => self.large.recycle(buffer),
            PoolClass::ExtraLarge => self.extra_large.recycle(buffer),
        }
    }

    /// Pre-fills the pools up to 16 small, 32 medium, 8 large and 4
    /// extra-large idle buffers (within their maximums).
    pub fn warm_up(&mut self)
        requires
            old(self).wf(),
        ensures
            final(self).wf(),
            warmed(old(self).pool(PoolClass::Small), final(self).pool(PoolClass::Small), 16),
            warmed(old(self).pool(PoolClass::Medium), final(self).pool(PoolClass::Medium), 32),
            warmed(old(self).pool(PoolClass::Large), final(self).pool(PoolClass::Large), 8),
            warmed(
                old(self).pool(PoolClass::ExtraLarge),
                final(self).pool(PoolClass::ExtraLarge),
                4,
            ),
    {
        self.small.warm_up(16);
        self.medium.warm_up(32);
        self.large.warm_up(8);
        self.extra_large.warm_up(4);
    }

    /// Idle buffers per pool.
    pub fn stats(&self) -> (r: BufferPoolStats)
        ensures
            r.small_pool_size == self.pool(PoolClass::Small).idle(),
            r.medium_pool_size == self.pool(PoolClass::Medium).idle(),
            r.large_pool_size == self.pool(PoolClass::Large).idle(),
            r.extra_large_pool_size == self.pool(PoolClass::ExtraLarge).idle(),
    {
        BufferPoolStats {
            small_pool_size: self.small.size(),
            medium_pool_size: self.medium.size(),
            large_pool_size: self.large.size(),
            extra_large_pool_size: self.extra_large.size(),
        }
    }
}

} // verus!
