//! A byte ring with mirrored-buffer semantics: writers append whole frames,
//! the single reader sees the unread bytes as one contiguous logical span
//! regardless of where they physically wrap, and consumes them in order.
//!
//! Appended and consumed spans are kept multiples of four bytes so that the
//! physical offset at which the next frame starts is always aligned for a
//! message header.

use vstd::prelude::*;
use vstd::arithmetic::div_mod::{
    lemma_fundamental_div_mod, lemma_mod_bound, lemma_mod_equivalence, lemma_mod_multiples_basic,
    lemma_mod_multiples_vanish, lemma_small_mod,
};

use crate::alignment::{
    lemma_difference_of_multiples_of_four, lemma_sum_of_multiples_of_four,
};

verus! {

/// The largest backing store a ring may have, comfortably clear of address
/// arithmetic overflow on any target.
pub const MAXIMUM_RING_CAPACITY: usize = 0x1000_0000;

/// A multiple of four stays a multiple of four when reduced modulo a capacity
/// that is itself a multiple of four.
proof fn lemma_mod_preserves_multiple_of_four(x: int, capacity: int)
    requires
        0 <= x,
        0 < capacity,
        x % 4 == 0,
        capacity % 4 == 0,
    ensures
        (x % capacity) % 4 == 0,
{
    lemma_fundamental_div_mod(x, capacity);
    lemma_mod_bound(x, capacity);
    let q = x / capacity;
    let m = capacity / 4;
    lemma_fundamental_div_mod(capacity, 4);
    assert(capacity * q == 4 * (m * q)) by (nonlinear_arith)
        requires
            capacity == 4 * m,
    ;
    lemma_mod_multiples_basic(m * q, 4);
    assert((m * q) * 4 == 4 * (m * q)) by (nonlinear_arith);
    lemma_difference_of_multiples_of_four(x, capacity * q);
}

/// Two positions strictly less than one capacity apart occupy distinct
/// physical slots.
proof fn lemma_ring_positions_distinct(a: int, b: int, capacity: int)
    requires
        0 <= a < b,
        b - a < capacity,
    ensures
        a % capacity != b % capacity,
{
    lemma_mod_equivalence(b, a, capacity);
    lemma_small_mod((b - a) as nat, capacity as nat);
}

/// Reducing a position modulo the capacity before adding to it does not
/// change where further offsets land.
proof fn lemma_ring_position_shift(x: int, y: int, capacity: int)
    requires
        0 <= x,
        0 <= y,
        0 < capacity,
    ensures
        (x % capacity + y) % capacity == (x + y) % capacity,
{
    lemma_fundamental_div_mod(x, capacity);
    let q = x / capacity;
    lemma_mod_multiples_vanish(q, x % capacity + y, capacity);
    assert(capacity * q + (x % capacity + y) == x + y);
}

/// The ring: a fixed block of storage, the physical offset of the first
/// unread byte, and how many bytes are buffered.
///
/// An operating-system-backed deployment realises this interface with a
/// mirrored memory mapping; here modular indexing provides it, and reads
/// copy the requested span out so that callers always see contiguous bytes.
pub struct RingBuffer {
    storage: Vec<u8>,
    first_unread: usize,
    used: usize,
}

impl RingBuffer {
    /// The ring's capacity in bytes.
    pub closed spec fn capacity(&self) -> int {
        self.storage@.len() as int
    }

    /// The physical offset of the first unread byte: where the next frame to
    /// be read starts in the backing store.
    pub closed spec fn start_offset(&self) -> int {
        self.first_unread as int
    }

    /// The physical offset at which the next appended byte will land: where
    /// the next frame to be written starts in the backing store.
    pub closed spec fn write_offset(&self) -> int {
        (self.first_unread + self.used) % self.capacity()
    }

    /// The buffered bytes, oldest first, as the single contiguous span the
    /// reader observes.
    pub closed spec fn contents(&self) -> Seq<u8> {
        Seq::new(
            self.used as nat,
            |i: int| self.storage@[(self.first_unread + i) % self.capacity()],
        )
    }

    /// Well-formedness: a positive four-byte-aligned capacity within bounds,
    /// a read position inside the store, and aligned read position and fill
    /// level so that frame starts stay header-aligned.
    pub open spec fn wf(&self) -> bool {
        &&& 0 < self.capacity() <= MAXIMUM_RING_CAPACITY
        &&& self.capacity() % 4 == 0
        &&& self.start_offset() < self.capacity()
        &&& self.start_offset() % 4 == 0
        &&& self.contents().len() <= self.capacity()
        &&& self.contents().len() % 4 == 0
    }

    /// Allocates a ring of `capacity` zeroed bytes.
    pub fn new(capacity: usize) -> (r: Self)
        requires
            0 < capacity <= MAXIMUM_RING_CAPACITY,
            capacity % 4 == 0,
        ensures
            r.wf(),
            r.capacity() == capacity,
            r.contents() == Seq::<u8>::empty(),
            r.start_offset() == 0,
    {
        let mut storage: Vec<u8> = Vec::new();
        let mut i: usize = 0;
        while i < capacity
            invariant
                i <= capacity,
                storage@.len() == i,
            decreases capacity - i,
        {
            storage.push(0);
            i = i + 1;
        }
        let r = RingBuffer { storage, first_unread: 0, used: 0 };
        proof {
            assert(r.contents() =~= Seq::<u8>::empty());
        }
        r
    }

    /// The capacity in bytes.
    pub fn capacity_in_bytes(&self) -> (r: usize)
        ensures
            r == self.capacity(),
    {
        self.storage.len()
    }

    /// How many bytes are buffered and unread.
    pub fn used_bytes(&self) -> (r: usize)
        requires
            self.wf(),
        ensures
            r == self.contents().len(),
    {
        self.used
    }

    /// How many further bytes the ring can take before it is full.
    pub fn available_bytes(&self) -> (r: usize)
        requires
            self.wf(),
        ensures
            r == self.capacity() - self.contents().len(),
    {
        self.storage.len() - self.used
    }

    /// A well-formed ring's write offset is header-size-aligned and inside
    /// the store.
    pub proof fn lemma_write_offset_aligned(&self)
        requires
            self.wf(),
        ensures
            self.write_offset() % 4 == 0,
            0 <= self.write_offset() < self.capacity(),
    {
        lemma_sum_of_multiples_of_four(self.first_unread as int, self.used as int);
        lemma_mod_preserves_multiple_of_four(self.first_unread + self.used, self.capacity());
        lemma_mod_bound(self.first_unread + self.used, self.capacity());
    }

    /// The physical offset at which the next appended frame will start.
    pub fn current_write_offset(&self) -> (r: usize)
        requires
            self.wf(),
        ensures
            r == self.write_offset(),
            r % 4 == 0,
            r < self.capacity(),
    {
        let cap = self.storage.len();
        let r = (self.first_unread + self.used) % cap;
        proof {
            self.lemma_write_offset_aligned();
        }
        r
    }

    /// Appends `bytes` after the currently buffered span.
    ///
    /// The span must fit, and must be a whole number of four-byte units so
    /// that the following frame start stays header-aligned.
    pub fn append(&mut self, bytes: &Vec<u8>)
        requires
            old(self).wf(),
            bytes@.len() % 4 == 0,
            old(self).contents().len() + bytes@.len() <= old(self).capacity(),
        ensures
            final(self).wf(),
            final(self).capacity() == old(self).capacity(),
            final(self).start_offset() == old(self).start_offset(),
            final(self).contents() == old(self).contents() + bytes@,
    {
        let cap = self.storage.len();
        let count = bytes.len();
        let mut i: usize = 0;
        while i < count
            invariant
                i <= count,
                count == bytes@.len(),
                self.storage@.len() == old(self).storage@.len(),
                self.first_unread == old(self).first_unread,
                self.used == old(self).used,
                old(self).wf(),
                cap == self.capacity(),
                old(self).used + count <= cap,
                forall|j: int|
                    0 <= j < old(self).used ==> self.storage@[#[trigger] ((old(
                    self,
                    ).first_unread + j) % (cap as int))] == old(self).storage@[(old(
                    self,
                    ).first_unread + j) % (cap as int)],
                forall|j: int|
                    0 <= j < i ==> self.storage@[#[trigger] ((old(self).first_unread + old(
                    self,
                    ).used + j) % (cap as int))] == bytes@[j],
            decreases count - i,
        {
            let pos = (self.first_unread + self.used + i) % cap;
            proof {
                lemma_mod_bound(self.first_unread + self.used + i, cap as int);
                let base = old(self).first_unread as int;
                assert forall|j: int| 0 <= j < old(self).used implies #[trigger] ((base + j) % (
                cap as int)) != pos as int by {
                    lemma_ring_positions_distinct(
                        base + j,
                        base + old(self).used + i,
                        cap as int,
                    );
                }
                assert forall|j: int| 0 <= j < i implies #[trigger] ((base + old(self).used + j) % (
                cap as int)) != pos as int by {
                    lemma_ring_positions_distinct(
                        base + old(self).used + j,
                        base + old(self).used + i,
                        cap as int,
                    );
                }
            }
            self.storage.set(pos, bytes[i]);
            i = i + 1;
        }
        proof {
            lemma_sum_of_multiples_of_four(old(self).used as int, count as int);
        }
        self.used = self.used + count;
        proof {
            assert forall|k: int| 0 <= k < self.used implies self.contents()[k] == (old(
                self,
            ).contents() + bytes@)[k] by {
                if k >= old(self).used {
                    assert(old(self).first_unread + k == old(self).first_unread + old(self).used
                        + (k - old(self).used));
                }
            }
            assert(self.contents() =~= old(self).contents() + bytes@);
        }
    }

    /// Copies `count` bytes starting `offset` bytes into the buffered span.
    ///
    /// This is the mirrored read: the copy is contiguous for the caller even
    /// where the span physically wraps.
    pub fn read_bytes(&self, offset: usize, count: usize) -> (r: Vec<u8>)
        requires
            self.wf(),
            offset + count <= self.contents().len(),
        ensures
            r@ == self.contents().subrange(offset as int, offset + count),
    {
        let cap = self.storage.len();
        let mut r: Vec<u8> = Vec::new();
        let mut i: usize = 0;
        while i < count
            invariant
                i <= count,
                self.wf(),
                offset + count <= self.contents().len(),
                cap == self.capacity(),
                r@.len() == i,
                forall|j: int| 0 <= j < i ==> r@[j] == self.contents()[offset + j],
            decreases count - i,
        {
            let pos = (self.first_unread + offset + i) % cap;
            proof {
                lemma_mod_bound(self.first_unread + offset + i, cap as int);
            }
            r.push(self.storage[pos]);
            i = i + 1;
        }
        proof {
            assert(r@ =~= self.contents().subrange(offset as int, offset + count));
        }
        r
    }

    /// Releases the first `count` buffered bytes: the reader has finished
    /// with one frame and the writer may reuse its space.
    pub fn consume(&mut self, count: usize)
        requires
            old(self).wf(),
            count % 4 == 0,
            count <= old(self).contents().len(),
        ensures
            final(self).wf(),
            final(self).capacity() == old(self).capacity(),
            final(self).contents() == old(self).contents().skip(count as int),
            final(self).start_offset() == (old(self).start_offset() + count) % old(self).capacity(),
    {
        let cap = self.storage.len();
        proof {
            lemma_sum_of_multiples_of_four(self.first_unread as int, count as int);
            lemma_mod_preserves_multiple_of_four(self.first_unread + count, cap as int);
            lemma_mod_bound(self.first_unread + count, cap as int);
        }
        self.first_unread = (self.first_unread + count) % cap;
        self.used = self.used - count;
        proof {
            assert forall|k: int| 0 <= k < self.used implies self.contents()[k] == old(
                self,
            ).contents()[count + k] by {
                lemma_ring_position_shift(old(self).first_unread + count, k, cap as int);
                assert(old(self).first_unread + count + k == old(self).first_unread + (count
                    + k));
            }
            assert(self.contents() =~= old(self).contents().skip(count as int));
        }
    }
}

} // verus!
