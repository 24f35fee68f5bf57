//! Intrusive lists of free frames: each frame on a list holds, in its own
//! first word, the address of the next.

use vstd::prelude::*;
use crate::memory::{frame_of, is_frame, FrameMemory, WORD_SIZE};

verus! {

/// The link word that stands for `next`: the address, or zero for none.
pub open spec fn link_word(next: Option<u64>) -> u64 {
    match next {
        Some(a) => a,
        None => 0,
    }
}

/// Whether `frames` is a chain in `mem` that starts at `head`: the frames
/// are distinct and backed, and each holds the address of the one after it,
/// the last holding zero.
pub open spec fn is_chain<M: FrameMemory>(mem: &M, head: Option<u64>, frames: Seq<u64>) -> bool {
    &&& head == (if frames.len() == 0 {
        None
    } else {
        Some(frames[0])
    })
    &&& frames.no_duplicates()
    &&& forall|i: int|
        #![trigger frames[i]]
        0 <= i < frames.len() ==> is_frame(frames[i]) && mem.mapped(frames[i])
    &&& forall|i: int, j: int|
        #![trigger frames[i], frames[j]]
        0 <= i && j == i + 1 && j < frames.len() ==> mem.word(frames[i]) == frames[j]
    &&& frames.len() > 0 ==> mem.word(frames.last()) == 0
}

/// A chain stays a chain while the link words of its frames stay as they are.
pub(crate) proof fn lemma_chain_untouched<M: FrameMemory>(
    before: &M,
    after: &M,
    head: Option<u64>,
    frames: Seq<u64>,
)
    requires
        is_chain(before, head, frames),
        forall|i: int|
            #![trigger frames[i]]
            0 <= i < frames.len() ==> after.word(frames[i]) == before.word(frames[i])
                && after.mapped(frames[i]),
    ensures
        is_chain(after, head, frames),
{
    if frames.len() > 0 {
        assert(frames.last() == frames[frames.len() - 1]);
    }
}

/// The address of a frame is the address of a word, and of its own frame.
pub(crate) proof fn lemma_frame_is_word(frame: u64)
    requires
        is_frame(frame),
    ensures
        frame % 8 == 0,
        frame_of(frame) == frame,
{
}

/// Without its first frame a chain is the chain that the link word of that
/// frame leads to, whatever is written into that frame afterwards.
proof fn lemma_chain_rest<M: FrameMemory>(
    before: &M,
    after: &M,
    head: Option<u64>,
    frames: Seq<u64>,
)
    requires
        is_chain(before, head, frames),
        frames.len() > 0,
        forall|a: u64| a != frames[0] ==> #[trigger] after.word(a) == before.word(a),
        forall|f: u64| #[trigger] after.mapped(f) == before.mapped(f),
    ensures
        is_chain(
            after,
            if before.word(frames[0]) == 0 {
                None
            } else {
                Some(before.word(frames[0]))
            },
            frames.drop_first(),
        ),
{
    let rest = frames.drop_first();
    assert forall|i: int| #![trigger rest[i]] 0 <= i < rest.len() implies is_frame(rest[i])
        && after.mapped(rest[i]) by {
        assert(rest[i] == frames[i + 1]);
    }
    assert forall|i: int, j: int|
        #![trigger rest[i], rest[j]]
        0 <= i && j == i + 1 && j < rest.len() implies after.word(rest[i]) == rest[j] by {
        assert(rest[i] == frames[i + 1]);
        assert(rest[j] == frames[j + 1]);
        assert(frames[i + 1] != frames[0]);
        assert(before.word(frames[i + 1]) == frames[j + 1]);
    }
    assert forall|i: int, j: int|
        0 <= i < rest.len() && 0 <= j < rest.len() && i != j implies rest[i] != rest[j] by {
        assert(rest[i] == frames[i + 1]);
        assert(rest[j] == frames[j + 1]);
    }
    if frames.len() > 1 {
        assert(rest[0] == frames[1]);
        assert(is_frame(frames[1]));
        assert(before.word(frames[0]) == frames[1]);
        assert(rest.last() == frames.last());
        assert(frames.last() == frames[frames.len() - 1]);
        assert(frames[frames.len() - 1] != frames[0]);
    } else {
        assert(frames.last() == frames[0]);
    }
}

/// With a frame in front whose link word leads to the old head, a chain is
/// a chain one frame longer.
proof fn lemma_chain_grown<M: FrameMemory>(
    before: &M,
    after: &M,
    head: Option<u64>,
    frames: Seq<u64>,
    frame: u64,
)
    requires
        is_chain(before, head, frames),
        is_frame(frame),
        after.mapped(frame),
        !frames.contains(frame),
        after.word(frame) == link_word(head),
        forall|a: u64| a != frame ==> #[trigger] after.word(a) == before.word(a),
        forall|f: u64| #[trigger] after.mapped(f) == before.mapped(f),
    ensures
        is_chain(after, Some(frame), seq![frame] + frames),
{
    let more = seq![frame] + frames;
    assert forall|i: int| #![trigger more[i]] 0 <= i < more.len() implies is_frame(more[i])
        && after.mapped(more[i]) by {
        if i > 0 {
            assert(more[i] == frames[i - 1]);
        }
    }
    assert forall|i: int, j: int|
        #![trigger more[i], more[j]]
        0 <= i && j == i + 1 && j < more.len() implies after.word(more[i]) == more[j] by {
        assert(more[j] == frames[j - 1]);
        if i > 0 {
            assert(more[i] == frames[i - 1]);
            assert(frames.contains(frames[i - 1]));
            assert(before.word(frames[i - 1]) == frames[j - 1]);
        }
    }
    assert forall|i: int, j: int|
        0 <= i < more.len() && 0 <= j < more.len() && i != j implies more[i] != more[j] by {
        if i > 0 {
            assert(more[i] == frames[i - 1]);
            assert(frames.contains(frames[i - 1]));
        }
        if j > 0 {
            assert(more[j] == frames[j - 1]);
            assert(frames.contains(frames[j - 1]));
        }
    }
    if frames.len() > 0 {
        assert(more.last() == frames.last());
        assert(frames.last() == frames[frames.len() - 1]);
        assert(frames.contains(frames[frames.len() - 1]));
    }
}

/// Head of a singly linked list of frames.
pub struct SLListNode {
    /// Address of the first frame of the list.
    pub next: Option<u64>,
    /// The frames of the list, first to last.
    pub frames: Ghost<Seq<u64>>,
}

impl View for SLListNode {
    type V = Seq<u64>;

    open spec fn view(&self) -> Seq<u64> {
        self.frames@
    }
}

impl SLListNode {
    /// Whether the list is a chain in `mem`.
    pub open spec fn wf<M: FrameMemory>(&self, mem: &M) -> bool {
        is_chain(mem, self.next, self@)
    }

    /// An empty list.
    pub fn new() -> (list: SLListNode)
        ensures
            list@ == Seq::<u64>::empty(),
            list.next is None,
    {
        SLListNode { next: None, frames: Ghost(Seq::empty()) }
    }

    /// Whether the list holds no frame.
    pub fn is_empty(&self) -> (r: bool)
        ensures
            r == (self.next is None),
    {
        self.next.is_none()
    }

    /// Puts `frame` at the front of the list, writing the link into the
    /// frame's first word.
    pub fn push<M: FrameMemory>(&mut self, mem: &mut M, frame: u64)
        requires
            old(self).wf(old(mem)),
            is_frame(frame),
            old(mem).mapped(frame),
            !old(self)@.contains(frame),
        ensures
            final(self).wf(final(mem)),
            final(self)@ == seq![frame] + old(self)@,
            final(mem).word(frame) == link_word(old(self).next),
            forall|a: u64| a != frame ==> #[trigger] final(mem).word(a) == old(mem).word(a),
            forall|f: u64| #[trigger] final(mem).mapped(f) == old(mem).mapped(f),
    {
        let link: u64 = match self.next {
            Some(a) => a,
            None => 0,
        };
        proof {
            lemma_frame_is_word(frame);
        }
        let ghost mem0 = *mem;
        let ghost self0 = *self;
        mem.write_word(frame, link);
        let ghost before = self.frames@;
        self.next = Some(frame);
        self.frames = Ghost(seq![frame] + before);
        proof {
            lemma_chain_grown(&mem0, &*mem, self0.next, before, frame);
        }
    }

    /// Takes the first frame off the list and clears the link word in it.
    pub fn pop<M: FrameMemory>(&mut self, mem: &mut M) -> (r: Option<u64>)
        requires
            old(self).wf(old(mem)),
        ensures
            final(self).wf(final(mem)),
            forall|f: u64| #[trigger] final(mem).mapped(f) == old(mem).mapped(f),
            match r {
                None => old(self)@.len() == 0 && final(self)@ == old(self)@ && forall|a: u64|
                    #[trigger] final(mem).word(a) == old(mem).word(a),
                Some(frame) => old(self)@.len() > 0 && frame == old(self)@[0] && final(self)@
                    == old(self)@.drop_first() && is_frame(frame) && final(mem).mapped(frame)
                    && final(mem).word(frame) == 0 && forall|a: u64|
                    a != frame ==> #[trigger] final(mem).word(a) == old(mem).word(a),
            },
    {
        match self.next {
            None => None,
            Some(frame) => {
                let ghost before = self.frames@;
                let ghost mem0 = *mem;
                proof {
                    assert(frame == before[0]);
                    lemma_frame_is_word(frame);
                }
                let link = mem.read_word(frame);
                self.next = if link == 0 {
                    None
                } else {
                    Some(link)
                };
                mem.write_word(frame, 0);
                self.frames = Ghost(before.drop_first());
                proof {
                    lemma_chain_rest(&mem0, &*mem, Some(frame), before);
                }
                Some(frame)
            },
        }
    }
}

/// Head of an intrusive list of words: each entry holds, in itself, the
/// address of the next, and zero ends the list.
pub struct PointerList {
    head: u64,
}

impl PointerList {
    /// Address of the first entry, zero for an empty list.
    pub closed spec fn first(&self) -> u64 {
        self.head
    }

    /// An empty list.
    pub fn new() -> (list: PointerList)
        ensures
            list.first() == 0,
    {
        PointerList { head: 0 }
    }

    /// Whether the list holds no entry.
    pub fn is_empty(&self) -> (r: bool)
        ensures
            r == (self.first() == 0),
    {
        self.head == 0
    }

    /// Puts the word at `ptr` at the front of the list: the word gets the
    /// address of the old first entry.
    pub fn push<M: FrameMemory>(&mut self, mem: &mut M, ptr: u64)
        requires
            ptr % WORD_SIZE == 0,
            old(mem).mapped(frame_of(ptr)),
        ensures
            final(self).first() == ptr,
            final(mem).word(ptr) == old(self).first(),
            forall|a: u64| a != ptr ==> #[trigger] final(mem).word(a) == old(mem).word(a),
            forall|f: u64| #[trigger] final(mem).mapped(f) == old(mem).mapped(f),
    {
        mem.write_word(ptr, self.head);
        self.head = ptr;
    }

    /// Takes the first entry off the list: the list then starts at the
    /// address that the entry holds. Memory stays as it is.
    pub fn pop<M: FrameMemory>(&mut self, mem: &M) -> (r: Option<u64>)
        requires
            old(self).first() != 0 ==> old(self).first() % WORD_SIZE == 0 && mem.mapped(
                frame_of(old(self).first()),
            ),
        ensures
            match r {
                None => old(self).first() == 0 && final(self).first() == 0,
                Some(ptr) => ptr == old(self).first() && ptr != 0 && final(self).first()
                    == mem.word(ptr),
            },
    {
        if self.head == 0 {
            None
        } else {
            let prev = self.head;
            self.head = mem.read_word(prev);
            Some(prev)
        }
    }
}

/// A node of a circular doubly linked list. The node lives in memory at the
/// address `at`: the word there holds the address of the next node, the word
/// after it that of the previous node.
#[derive(Clone, Copy, Debug, PartialEq, Eq, Structural)]
pub struct CDLListNode {
    /// Address of the node.
    pub at: u64,
}

/// Whether a node can live at `at`: both of its words lie in one backed
/// frame.
pub open spec fn node_at<M: FrameMemory>(mem: &M, at: u64) -> bool {
    at != 0 && at % 16 == 0 && mem.mapped(frame_of(at))
}

/// The address of the word that holds the previous-link of the node at `at`.
pub open spec fn prev_slot(at: u64) -> u64 {
    (at + 8) as u64
}

/// The two words of a node at a fit address are words of the same frame.
proof fn lemma_node_words(at: u64)
    requires
        at % 16 == 0,
    ensures
        at % WORD_SIZE == 0,
        at + 8 <= u64::MAX,
        prev_slot(at) % WORD_SIZE == 0,
        frame_of(prev_slot(at)) == frame_of(at),
        prev_slot(at) != at,
{
}

impl CDLListNode {
    /// Address of the node after this one.
    pub open spec fn next_of<M: FrameMemory>(&self, mem: &M) -> u64 {
        mem.word(self.at)
    }

    /// Address of the node before this one.
    pub open spec fn prev_of<M: FrameMemory>(&self, mem: &M) -> u64 {
        mem.word(prev_slot(self.at))
    }

    /// The node at address `at`; memory is not touched.
    pub fn new(at: u64) -> (node: CDLListNode)
        ensures
            node.at == at,
    {
        CDLListNode { at }
    }

    /// Makes the node the only node of a list: it becomes its own next and
    /// previous node.
    pub fn init<M: FrameMemory>(&self, mem: &mut M)
        requires
            node_at(old(mem), self.at),
        ensures
            self.next_of(final(mem)) == self.at,
            self.prev_of(final(mem)) == self.at,
            forall|a: u64|
                a != self.at && a != prev_slot(self.at) ==> #[trigger] final(mem).word(a) == old(mem).word(a),
            forall|f: u64| #[trigger] final(mem).mapped(f) == old(mem).mapped(f),
    {
        proof {
            lemma_node_words(self.at);
        }
        mem.write_word(self.at, self.at);
        mem.write_word(self.at + 8, self.at);
    }

    /// Links the node at `new` after this node: `new` gets this node's next
    /// as its next and this node as its previous, and becomes this node's
    /// next.
    pub fn push_next<M: FrameMemory>(&self, mem: &mut M, new: u64)
        requires
            node_at(old(mem), self.at),
            node_at(old(mem), new),
            new != self.at,
        ensures
            mem_after_link(old(mem), final(mem), new, self.next_of(old(mem)), self.at),
            self.next_of(final(mem)) == new,
            self.prev_of(final(mem)) == self.prev_of(old(mem)),
            forall|a: u64|
                a != new && a != prev_slot(new) && a != self.at ==> #[trigger] final(mem).word(a)
                    == old(mem).word(a),
            forall|f: u64| #[trigger] final(mem).mapped(f) == old(mem).mapped(f),
    {
        proof {
            lemma_node_words(self.at);
            lemma_node_words(new);
        }
        let next = mem.read_word(self.at);
        mem.write_word(new, next);
        mem.write_word(new + 8, self.at);
        mem.write_word(self.at, new);
    }

    /// Links the node at `new` before this node: `new` gets this node as its
    /// next and this node's previous as its previous, and becomes this
    /// node's previous.
    pub fn push_back<M: FrameMemory>(&self, mem: &mut M, new: u64)
        requires
            node_at(old(mem), self.at),
            node_at(old(mem), new),
            new != self.at,
        ensures
            mem_after_link(old(mem), final(mem), new, self.at, self.prev_of(old(mem))),
            self.prev_of(final(mem)) == new,
            self.next_of(final(mem)) == self.next_of(old(mem)),
            forall|a: u64|
                a != new && a != prev_slot(new) && a != prev_slot(self.at) ==> #[trigger] final(mem).word(a) == old(mem).word(a),
            forall|f: u64| #[trigger] final(mem).mapped(f) == old(mem).mapped(f),
    {
        proof {
            lemma_node_words(self.at);
            lemma_node_words(new);
        }
        let prev = mem.read_word(self.at + 8);
        mem.write_word(new, self.at);
        mem.write_word(new + 8, prev);
        mem.write_word(self.at + 8, new);
    }

    /// The node after this one.
    pub fn peek_unchecked<M: FrameMemory>(&self, mem: &M) -> (next: u64)
        requires
            node_at(mem, self.at),
        ensures
            next == self.next_of(mem),
    {
        proof {
            lemma_node_words(self.at);
        }
        mem.read_word(self.at)
    }

    /// The node after this one, or `None` where this node is its own next.
    pub fn peek<M: FrameMemory>(&self, mem: &M) -> (next: Option<u64>)
        requires
            node_at(mem, self.at),
        ensures
            next == (if self.next_of(mem) == self.at {
                None
            } else {
                Some(self.next_of(mem))
            }),
    {
        let next = self.peek_unchecked(mem);
        if next == self.at {
            None
        } else {
            Some(next)
        }
    }

    /// The node before this one.
    pub fn peek_prev_unchecked<M: FrameMemory>(&self, mem: &M) -> (prev: u64)
        requires
            node_at(mem, self.at),
        ensures
            prev == self.prev_of(mem),
    {
        proof {
            lemma_node_words(self.at);
        }
        mem.read_word(self.at + 8)
    }

    /// The node before this one, or `None` where this node is its own
    /// previous.
    pub fn peek_prev<M: FrameMemory>(&self, mem: &M) -> (prev: Option<u64>)
        requires
            node_at(mem, self.at),
        ensures
            prev == (if self.prev_of(mem) == self.at {
                None
            } else {
                Some(self.prev_of(mem))
            }),
    {
        let prev = self.peek_prev_unchecked(mem);
        if prev == self.at {
            None
        } else {
            Some(prev)
        }
    }

    /// Unlinks the node after this one in the forward direction and returns
    /// it: this node's next becomes what was the next of that node. A node
    /// that is its own next stays as it is.
    pub fn pop_next_unchecked<M: FrameMemory>(&self, mem: &mut M) -> (popped: u64)
        requires
            node_at(old(mem), self.at),
            node_at(old(mem), self.next_of(old(mem))),
        ensures
            popped == self.next_of(old(mem)),
            self.next_of(final(mem)) == old(mem).word(popped),
            forall|a: u64| a != self.at ==> #[trigger] final(mem).word(a) == old(mem).word(a),
            forall|f: u64| #[trigger] final(mem).mapped(f) == old(mem).mapped(f),
    {
        proof {
            lemma_node_words(self.at);
        }
        let popped = mem.read_word(self.at);
        proof {
            lemma_node_words(popped);
        }
        let after = mem.read_word(popped);
        mem.write_word(self.at, after);
        popped
    }

    /// Unlinks the node after this one and returns it, or returns `None`
    /// where this node is its own next.
    pub fn pop_next<M: FrameMemory>(&self, mem: &mut M) -> (popped: Option<u64>)
        requires
            node_at(old(mem), self.at),
            node_at(old(mem), self.next_of(old(mem))),
        ensures
            forall|f: u64| #[trigger] final(mem).mapped(f) == old(mem).mapped(f),
            forall|a: u64| a != self.at ==> #[trigger] final(mem).word(a) == old(mem).word(a),
            match popped {
                None => self.next_of(old(mem)) == self.at && self.next_of(final(mem)) == self.at,
                Some(p) => p != self.at && p == self.next_of(old(mem)) && self.next_of(final(mem))
                    == old(mem).word(p),
            },
    {
        proof {
            lemma_node_words(self.at);
        }
        if mem.read_word(self.at) == self.at {
            None
        } else {
            Some(self.pop_next_unchecked(mem))
        }
    }

    /// Unlinks the node before this one in the backward direction and
    /// returns it: this node's previous becomes what was the previous of
    /// that node. A node that is its own previous stays as it is.
    pub fn pop_back_unchecked<M: FrameMemory>(&self, mem: &mut M) -> (popped: u64)
        requires
            node_at(old(mem), self.at),
            node_at(old(mem), self.prev_of(old(mem))),
        ensures
            popped == self.prev_of(old(mem)),
            self.prev_of(final(mem)) == old(mem).word(prev_slot(popped)),
            forall|a: u64|
                a != prev_slot(self.at) ==> #[trigger] final(mem).word(a) == old(mem).word(a),
            forall|f: u64| #[trigger] final(mem).mapped(f) == old(mem).mapped(f),
    {
        proof {
            lemma_node_words(self.at);
        }
        let popped = mem.read_word(self.at + 8);
        proof {
            lemma_node_words(popped);
        }
        let before = mem.read_word(popped + 8);
        mem.write_word(self.at + 8, before);
        popped
    }

    /// Unlinks the node before this one and returns it, or returns `None`
    /// where this node is its own previous.
    pub fn pop_back<M: FrameMemory>(&self, mem: &mut M) -> (popped: Option<u64>)
        requires
            node_at(old(mem), self.at),
            node_at(old(mem), self.prev_of(old(mem))),
        ensures
            forall|f: u64| #[trigger] final(mem).mapped(f) == old(mem).mapped(f),
            forall|a: u64|
                a != prev_slot(self.at) ==> #[trigger] final(mem).word(a) == old(mem).word(a),
            match popped {
                None => self.prev_of(old(mem)) == self.at && self.prev_of(final(mem)) == self.at,
                Some(p) => p != self.at && p == self.prev_of(old(mem)) && self.prev_of(final(mem))
                    == old(mem).word(prev_slot(p)),
            },
    {
        proof {
            lemma_node_words(self.at);
        }
        if mem.read_word(self.at + 8) == self.at {
            None
        } else {
            Some(self.pop_back_unchecked(mem))
        }
    }

    /// Takes the node out of its list: its next node gets its previous node
    /// as previous, its previous node gets its next node as next, and the
    /// node's own two words are cleared.
    pub fn remove<M: FrameMemory>(&self, mem: &mut M)
        requires
            node_at(old(mem), self.at),
            node_at(old(mem), self.next_of(old(mem))),
            node_at(old(mem), self.prev_of(old(mem))),
        ensures
            self.next_of(final(mem)) == 0,
            self.prev_of(final(mem)) == 0,
            self.prev_of(old(mem)) != self.at ==> final(mem).word(self.prev_of(old(mem)))
                == self.next_of(old(mem)),
            self.next_of(old(mem)) != self.at ==> final(mem).word(
                prev_slot(self.next_of(old(mem))),
            ) == self.prev_of(old(mem)),
            forall|a: u64|
                a != self.at && a != prev_slot(self.at) && a != self.prev_of(old(mem)) && a
                    != prev_slot(self.next_of(old(mem))) ==> #[trigger] final(mem).word(a) == old(mem).word(a),
            forall|f: u64| #[trigger] final(mem).mapped(f) == old(mem).mapped(f),
    {
        proof {
            lemma_node_words(self.at);
        }
        let next = mem.read_word(self.at);
        let prev = mem.read_word(self.at + 8);
        proof {
            lemma_node_words(next);
            lemma_node_words(prev);
        }
        mem.write_word(next + 8, prev);
        mem.write_word(prev, next);
        mem.write_word(self.at, 0);
        mem.write_word(self.at + 8, 0);
    }
}

/// Whether `after` is `before` with the node at `new` given the next-link
/// `next` and the previous-link `prev`.
pub open spec fn mem_after_link<M: FrameMemory>(
    before: &M,
    after: &M,
    new: u64,
    next: u64,
    prev: u64,
) -> bool {
    after.word(new) == next && after.word(prev_slot(new)) == prev
}

/// A movable head of a circular doubly linked list: the address of one of
/// its nodes, or nothing.
pub struct CDLListHead {
    node: Option<u64>,
}

impl CDLListHead {
    /// The node that the head stands on.
    pub closed spec fn current(&self) -> Option<u64> {
        self.node
    }

    /// A head of an empty list.
    pub fn new() -> (head: CDLListHead)
        ensures
            head.current() is None,
    {
        CDLListHead { node: None }
    }

    /// The node that the head stands on.
    pub fn peek(&self) -> (node: Option<u64>)
        ensures
            node == self.current(),
    {
        self.node
    }

    /// Puts the node at `new` into the list and moves the head onto it:
    /// before the node that the head stood on, or alone where the list was
    /// empty.
    pub fn push<M: FrameMemory>(&mut self, mem: &mut M, new: u64)
        requires
            node_at(old(mem), new),
            match old(self).current() {
                Some(at) => node_at(old(mem), at) && at != new,
                None => true,
            },
        ensures
            final(self).current() == Some(new),
            match old(self).current() {
                Some(at) => mem_after_link(
                    old(mem),
                    final(mem),
                    new,
                    at,
                    old(mem).word(prev_slot(at)),
                ) && final(mem).word(prev_slot(at)) == new && forall|a: u64|
                    a != new && a != prev_slot(new) && a != prev_slot(at) ==> #[trigger] final(mem).word(a) == old(mem).word(a),
                None => mem_after_link(old(mem), final(mem), new, new, new) && forall|a: u64|
                    a != new && a != prev_slot(new) ==> #[trigger] final(mem).word(a) == old(mem).word(a),
            },
            forall|f: u64| #[trigger] final(mem).mapped(f) == old(mem).mapped(f),
    {
        match self.node {
            Some(at) => {
                CDLListNode::new(at).push_back(mem, new);
            },
            None => {
                CDLListNode::new(new).init(mem);
            },
        }
        self.node = Some(new);
    }

    /// Takes the node that the head stands on out of the list and returns
    /// it; the head moves to the node after it, or stands on nothing where
    /// the node was alone.
    pub fn pop<M: FrameMemory>(&mut self, mem: &mut M) -> (r: Option<u64>)
        requires
            match old(self).current() {
                Some(at) => node_at(old(mem), at) && node_at(old(mem), old(mem).word(at))
                    && node_at(old(mem), old(mem).word(prev_slot(at))),
                None => true,
            },
        ensures
            r == old(self).current(),
            forall|f: u64| #[trigger] final(mem).mapped(f) == old(mem).mapped(f),
            match r {
                None => final(self).current() is None && forall|a: u64|
                    #[trigger] final(mem).word(a) == old(mem).word(a),
                Some(at) => final(self).current() == (if old(mem).word(at) == at {
                    None
                } else {
                    Some(old(mem).word(at))
                }) && final(mem).word(at) == 0 && final(mem).word(prev_slot(at)) == 0,
            },
    {
        match self.node {
            None => None,
            Some(at) => {
                let node = CDLListNode::new(at);
                let next = node.peek(mem);
                node.remove(mem);
                self.node = next;
                Some(at)
            },
        }
    }
}

} // verus!
