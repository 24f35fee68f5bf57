//! Memory as the allocators see it: 64-bit words at addresses of the
//! direct-map window, backed frame by frame.

use vstd::prelude::*;
use crate::addr::PAGE_SIZE;

verus! {

/// Size of a link word in bytes.
pub const WORD_SIZE: u64 = 8;

/// Address of the first byte of the frame that holds `va`.
pub open spec fn frame_of(va: u64) -> u64 {
    (va - va % PAGE_SIZE) as u64
}

/// Whether `va` is the address of a frame: on a page boundary and not null.
pub open spec fn is_frame(va: u64) -> bool {
    va != 0 && va % PAGE_SIZE == 0
}

/// Memory that can be read and written a word at a time. The kernel
/// implements it by dereferencing direct-map addresses; `FrameArena` keeps
/// the words in a vector.
pub trait FrameMemory {
    /// Whether the whole frame at address `frame` is backed by memory.
    spec fn mapped(&self, frame: u64) -> bool;

    /// The word stored at the 8-aligned address `va`.
    spec fn word(&self, va: u64) -> u64;

    /// Reads the word at `va`.
    fn read_word(&self, va: u64) -> (w: u64)
        requires
            va % WORD_SIZE == 0,
            self.mapped(frame_of(va)),
        ensures
            w == self.word(va),
    ;

    /// Writes the word at `va` and nothing else.
    fn write_word(&mut self, va: u64, w: u64)
        requires
            va % WORD_SIZE == 0,
            old(self).mapped(frame_of(va)),
        ensures
            final(self).word(va) == w,
            forall|a: u64| a != va ==> #[trigger] final(self).word(a) == old(self).word(a),
            forall|f: u64| #[trigger] final(self).mapped(f) == old(self).mapped(f),
    ;

    /// Fills the frame at `frame` with zeroes and leaves all others alone.
    fn zero_frame(&mut self, frame: u64)
        requires
            frame % PAGE_SIZE == 0,
            old(self).mapped(frame),
        ensures
            forall|a: u64|
                frame <= a < frame + PAGE_SIZE ==> #[trigger] final(self).word(a) == 0,
            forall|a: u64|
                !(frame <= a < frame + PAGE_SIZE) ==> #[trigger] final(self).word(a) == old(self).word(a),
            forall|f: u64| #[trigger] final(self).mapped(f) == old(self).mapped(f),
    ;
}

/// Whether every word of the frame at `frame` past the first is zero.
pub open spec fn tail_zero<M: FrameMemory>(mem: &M, frame: u64) -> bool {
    forall|a: u64| frame < a < frame + PAGE_SIZE ==> #[trigger] mem.word(a) == 0
}

/// Whether the frame at `frame` is filled with zeroes.
pub open spec fn frame_zero<M: FrameMemory>(mem: &M, frame: u64) -> bool {
    forall|a: u64| frame <= a < frame + PAGE_SIZE ==> #[trigger] mem.word(a) == 0
}

/// A run of frames kept in a vector of words, for use where no direct map
/// exists.
pub struct FrameArena {
    base: u64,
    words: Vec<u64>,
}

impl FrameArena {
    /// Whether the arena starts on a page boundary, holds whole frames and
    /// ends inside the address space.
    pub closed spec fn wf(&self) -> bool {
        &&& self.base % PAGE_SIZE == 0
        &&& self.words.len() % 512 == 0
        &&& self.base + self.words.len() * 8 <= u64::MAX
    }

    /// Address of the first frame.
    pub closed spec fn start(&self) -> u64 {
        self.base
    }

    /// Number of frames held.
    pub closed spec fn frames(&self) -> int {
        self.words.len() as int / 512
    }

    /// An arena of `frames` frames at address `base`, every word `fill`, or
    /// `None` where `base` is not on a page boundary, the frames do not fit
    /// below the end of the address space, or their words cannot be counted.
    pub fn new(base: u64, frames: usize, fill: u64) -> (r: Option<FrameArena>)
        ensures
            match r {
                Some(arena) => base % PAGE_SIZE == 0 && base + frames * PAGE_SIZE <= u64::MAX
                    && frames * 512 <= usize::MAX && arena.start() == base && arena.frames()
                    == frames && (forall|a: u64|
                    base <= a < base + frames * PAGE_SIZE && a % WORD_SIZE == 0
                        ==> #[trigger] arena.word(a) == fill) && (forall|f: u64|
                    #[trigger] arena.mapped(f) == (f % PAGE_SIZE == 0 && base <= f && f
                        + PAGE_SIZE <= base + frames * PAGE_SIZE)),
                None => !(base % PAGE_SIZE == 0 && base + frames * PAGE_SIZE <= u64::MAX && frames
                    * 512 <= usize::MAX),
            },
    {
        if base % PAGE_SIZE != 0 || frames > usize::MAX / 512 {
            return None;
        }
        let count: usize = frames * 512;
        if frames as u64 > (u64::MAX - base) / PAGE_SIZE {
            return None;
        }
        let mut words: Vec<u64> = Vec::new();
        let mut i: usize = 0;
        while i < count
            invariant
                i <= count,
                words@.len() == i,
                forall|k: int| 0 <= k < i ==> words@[k] == fill,
            decreases count - i,
        {
            words.push(fill);
            i += 1;
        }
        Some(FrameArena { base, words })
    }
}

impl FrameMemory for FrameArena {
    closed spec fn mapped(&self, frame: u64) -> bool {
        self.wf() && frame % PAGE_SIZE == 0 && self.base <= frame && frame + PAGE_SIZE
            <= self.base + self.words.len() * 8
    }

    closed spec fn word(&self, va: u64) -> u64 {
        if self.base <= va < self.base + self.words.len() * 8 && va % WORD_SIZE == 0 {
            self.words[(va - self.base) / 8]
        } else {
            0
        }
    }

    fn read_word(&self, va: u64) -> (w: u64) {
        self.words[((va - self.base) / WORD_SIZE) as usize]
    }

    fn write_word(&mut self, va: u64, w: u64) {
        let i: usize = ((va - self.base) / WORD_SIZE) as usize;
        self.words.set(i, w);
        assert forall|a: u64| a != va implies #[trigger] self.word(a) == old(self).word(a) by {
            if self.base <= a < self.base + self.words.len() * 8 && a % WORD_SIZE == 0 {
                assert((a - self.base) / 8 != (va - self.base) / 8);
            }
        }
    }

    fn zero_frame(&mut self, frame: u64) {
        let first: usize = ((frame - self.base) / WORD_SIZE) as usize;
        let mut k: usize = 0;
        while k < 512
            invariant
                k <= 512,
                self.base == old(self).base,
                self.words.len() == old(self).words.len(),
                first == (frame - self.base) / 8,
                first + 512 <= self.words.len(),
                forall|j: int| first <= j < first + k ==> self.words@[j] == 0,
                forall|j: int|
                    0 <= j < self.words.len() && !(first <= j < first + k) ==> self.words@[j]
                        == old(self).words@[j],
            decreases 512 - k,
        {
            self.words.set(first + k, 0);
            k += 1;
        }
        assert forall|a: u64| !(frame <= a < frame + PAGE_SIZE) implies #[trigger] self.word(a)
            == old(self).word(a) by {
            if self.base <= a < self.base + self.words.len() * 8 && a % WORD_SIZE == 0 {
                let j = (a - self.base) / 8;
                assert(!(first <= j < first + 512));
            }
        }
    }
}

} // verus!
