//! The frame-allocator capability that the mappers consume, and a simple allocator.
use vstd::prelude::*;

use crate::addr::Frame;
use vstd::seq_lib::seq_to_set_is_finite;

verus! {

/// Something that hands out free physical frames and takes them back.
///
/// Its state is described by the set of frames it may still hand out.
pub trait FrameAllocator {
    spec fn free(&self) -> Set<Frame>;

    /// The allocator's own consistency condition, kept by both operations.
    spec fn inv(&self) -> bool;

    /// Hands out one free frame, or `None` exactly when no frame is left.
    fn allocate_frame(&mut self) -> (r: Option<Frame>)
        requires
            old(self).inv(),
            old(self).free().finite(),
        ensures
            final(self).inv(),
            final(self).free().finite(),
            match r {
                Some(f) => old(self).free().contains(f) && final(self).free() == old(self).free().remove(f),
                None => old(self).free() == Set::<Frame>::empty() && final(self).free() == old(self).free(),
            },
    ;

    /// Takes `frame` back, so that it may be handed out again.
    fn deallocate_frame(&mut self, frame: Frame)
        requires
            old(self).inv(),
            old(self).free().finite(),
        ensures
            final(self).inv(),
            final(self).free().finite(),
            final(self).free() == old(self).free().insert(frame),
    ;
}

/// A frame allocator over an explicit list of free frames; the most recently
/// returned frame is handed out first.
pub struct FrameStack {
    frames: Vec<Frame>,
}

impl FrameStack {
    pub closed spec fn view(&self) -> Seq<Frame> {
        self.frames@
    }

    /// The list holds each frame at most once.
    pub closed spec fn wf(&self) -> bool {
        self.frames@.no_duplicates()
    }

    /// An allocator whose free frames are those of `frames`, listed once each.
    pub fn new(frames: Vec<Frame>) -> (r: FrameStack)
        ensures
            r.inv(),
            r.free().finite(),
            r.free() == frames@.to_set(),
    {
        let mut s = FrameStack { frames: Vec::new() };
        let mut i: usize = 0;
        while i < frames.len()
            invariant
                0 <= i <= frames.len(),
                s.wf(),
                s.frames@.to_set() == frames@.subrange(0, i as int).to_set(),
            decreases frames.len() - i,
        {
            s.give_back(frames[i]);
            assert(frames@.subrange(0, i + 1) == frames@.subrange(0, i as int).push(frames@[i as int]));
            proof {
                frames@.subrange(0, i as int).lemma_push_to_set_commute(frames@[i as int]);
            }
            i = i + 1;
        }
        assert(frames@.subrange(0, frames.len() as int) == frames@);
        proof {
            seq_to_set_is_finite(s.frames@);
        }
        s
    }

    /// An allocator with no free frame at all.
    pub fn empty() -> (r: FrameStack)
        ensures
            r.inv(),
            r.free().finite(),
            r.free() == Set::<Frame>::empty(),
    {
        let r = FrameStack { frames: Vec::new() };
        assert(r.frames@.to_set() =~= Set::<Frame>::empty());
        proof {
            seq_to_set_is_finite(r.frames@);
        }
        r
    }

    /// Number of free frames.
    pub fn len(&self) -> (r: usize)
        requires
            self.inv(),
        ensures
            r == self.free().len(),
    {
        proof {
            self.frames@.unique_seq_to_set();
        }
        self.frames.len()
    }

    /// Whether `frame` is free.
    pub fn contains(&self, frame: Frame) -> (r: bool)
        ensures
            r == self.free().contains(frame),
    {
        self.holds(frame)
    }

    fn holds(&self, frame: Frame) -> (r: bool)
        ensures
            r == self.frames@.contains(frame),
    {
        let mut i: usize = 0;
        while i < self.frames.len()
            invariant
                0 <= i <= self.frames.len(),
                forall|j: int| 0 <= j < i ==> self.frames@[j] != frame,
            decreases self.frames.len() - i,
        {
            if self.frames[i] == frame {
                return true;
            }
            i = i + 1;
        }
        false
    }

    fn give_back(&mut self, frame: Frame)
        requires
            old(self).wf(),
        ensures
            final(self).wf(),
            final(self).frames@.to_set() == old(self).frames@.to_set().insert(frame),
    {
        if self.holds(frame) {
            proof {
                let s = self.frames@.to_set();
                assert(s.contains(frame));
                assert(s.insert(frame) =~= s);
            }
        } else {
            proof {
                self.frames@.lemma_push_to_set_commute(frame);
            }
            self.frames.push(frame);
            assert(self.frames@.no_duplicates()) by {
                let s = self.frames@;
                assert forall|a: int, b: int| 0 <= a < s.len() && 0 <= b < s.len() && a != b
                    implies s[a] != s[b] by {
                    if a == s.len() - 1 {
                        assert(old(self).frames@.contains(s[b]));
                    } else if b == s.len() - 1 {
                        assert(old(self).frames@.contains(s[a]));
                    }
                }
            }
        }
    }
}

impl FrameAllocator for FrameStack {
    closed spec fn free(&self) -> Set<Frame> {
        self.frames@.to_set()
    }

    closed spec fn inv(&self) -> bool {
        self.wf()
    }

    fn allocate_frame(&mut self) -> (r: Option<Frame>) {
        proof {
            seq_to_set_is_finite(self.frames@);
        }
        if self.frames.len() == 0 {
            assert(self.frames@.to_set() =~= Set::<Frame>::empty());
            return None;
        }
        let ghost before = self.frames@;
        let f = self.frames.pop().unwrap();
        proof {
            seq_to_set_is_finite(self.frames@);
            let last = before.len() - 1;
            assert(before[last] == f);
            assert(self.frames@ == before.drop_last());
            assert forall|x: Frame| self.frames@.to_set().contains(x)
                <==> before.to_set().remove(f).contains(x) by {
                if self.frames@.contains(x) {
                    let j = choose|j: int| 0 <= j < self.frames@.len() && self.frames@[j] == x;
                    assert(before[j] == x);
                    assert(j != last);
                }
                if before.contains(x) && x != f {
                    let j = choose|j: int| 0 <= j < before.len() && before[j] == x;
                    assert(j != last);
                    assert(self.frames@[j] == x);
                }
            }
            assert(self.frames@.to_set() =~= before.to_set().remove(f));
            assert(self.frames@.no_duplicates());
        }
        Some(f)
    }

    fn deallocate_frame(&mut self, frame: Frame) {
        self.give_back(frame);
        proof {
            seq_to_set_is_finite(self.frames@);
        }
    }
}

} // verus!
