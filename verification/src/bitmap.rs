//! A bitmap kept in memory, 64 bits to the word.

use vstd::prelude::*;
use crate::memory::{frame_of, FrameMemory, WORD_SIZE};

verus! {

/// A bitmap of `size_bits` bits whose words start at the address `data`.
pub struct BitMapPtr {
    data: u64,
    size_bits: u64,
}

/// Address of the word that holds bit `index` of a bitmap at `data`.
pub open spec fn bit_word(data: u64, index: u64) -> int {
    data + (index / 64) * 8
}

/// Position of bit `index` in its word.
pub open spec fn bit_shift(index: u64) -> u64 {
    index % 64
}

impl BitMapPtr {
    /// Address of the first word.
    pub closed spec fn base(&self) -> u64 {
        self.data
    }

    /// Number of bits.
    pub closed spec fn len(&self) -> u64 {
        self.size_bits
    }

    /// Whether bit `index` belongs to the bitmap and its word to `mem`.
    pub open spec fn holds<M: FrameMemory>(&self, mem: &M, index: u64) -> bool {
        &&& index < self.len()
        &&& self.base() % WORD_SIZE == 0
        &&& bit_word(self.base(), index) <= u64::MAX
        &&& mem.mapped(frame_of(bit_word(self.base(), index) as u64))
    }

    /// The value of bit `index`.
    pub open spec fn bit<M: FrameMemory>(&self, mem: &M, index: u64) -> bool {
        (mem.word(bit_word(self.base(), index) as u64) >> bit_shift(index)) & 1 == 1
    }

    /// A bitmap of `size_bits` bits at the address `data`.
    pub fn new(data: u64, size_bits: u64) -> (b: BitMapPtr)
        ensures
            b.base() == data,
            b.len() == size_bits,
    {
        BitMapPtr { data, size_bits }
    }

    /// Address of the word that holds bit `index`, and the position of the
    /// bit in it.
    fn index2offsets(&self, index: u64) -> (r: (u64, u64))
        requires
            bit_word(self.base(), index) <= u64::MAX,
        ensures
            r.0 == bit_word(self.base(), index),
            r.1 == bit_shift(index),
            r.1 < 64,
    {
        let offset = (index & !63u64) >> 6;
        let shift = index & 63;
        assert((index & !63u64) >> 6 == index / 64) by (bit_vector);
        assert(index & 63 == index % 64) by (bit_vector);
        (self.data + offset * 8, shift)
    }

    /// Inverts bit `index`.
    pub fn flip_at<M: FrameMemory>(&mut self, mem: &mut M, index: u64)
        requires
            old(self).holds(old(mem), index),
        ensures
            final(self).base() == old(self).base(),
            final(self).len() == old(self).len(),
            final(mem).word(bit_word(old(self).base(), index) as u64) == old(mem).word(
                bit_word(old(self).base(), index) as u64,
            ) ^ (1u64 << bit_shift(index)),
            final(self).bit(final(mem), index) == !old(self).bit(old(mem), index),
            forall|a: u64|
                a != bit_word(old(self).base(), index) ==> #[trigger] final(mem).word(a) == old(mem).word(a),
            forall|f: u64| #[trigger] final(mem).mapped(f) == old(mem).mapped(f),
    {
        let (ent, shift) = self.index2offsets(index);
        let w = mem.read_word(ent);
        assert(shift < 64 ==> (((w ^ (1u64 << shift)) >> shift) & 1 == 1) == !((w >> shift) & 1
            == 1)) by (bit_vector);
        mem.write_word(ent, w ^ (1u64 << shift));
    }

    /// Sets bit `index`.
    pub fn set_at<M: FrameMemory>(&mut self, mem: &mut M, index: u64)
        requires
            old(self).holds(old(mem), index),
        ensures
            final(self).base() == old(self).base(),
            final(self).len() == old(self).len(),
            final(mem).word(bit_word(old(self).base(), index) as u64) == old(mem).word(
                bit_word(old(self).base(), index) as u64,
            ) | (1u64 << bit_shift(index)),
            final(self).bit(final(mem), index),
            forall|a: u64|
                a != bit_word(old(self).base(), index) ==> #[trigger] final(mem).word(a) == old(mem).word(a),
            forall|f: u64| #[trigger] final(mem).mapped(f) == old(mem).mapped(f),
    {
        let (ent, shift) = self.index2offsets(index);
        let w = mem.read_word(ent);
        assert(shift < 64 ==> ((w | (1u64 << shift)) >> shift) & 1 == 1) by (bit_vector);
        mem.write_word(ent, w | (1u64 << shift));
    }

    /// The value of bit `index`.
    pub fn get_at<M: FrameMemory>(&self, mem: &M, index: u64) -> (b: bool)
        requires
            self.holds(mem, index),
        ensures
            b == self.bit(mem, index),
    {
        let (ent, shift) = self.index2offsets(index);
        (mem.read_word(ent) >> shift) & 1 == 1
    }
}

} // verus!
