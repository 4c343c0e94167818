//! The frames that are under way.

use vstd::prelude::*;

verus! {

/// The frames that are under way, the innermost last.
#[derive(Debug)]
pub struct FrameStack<F> {
    frames: Vec<F>,
}

impl<F> View for FrameStack<F> {
    type V = Seq<F>;

    closed spec fn view(&self) -> Seq<F> {
        self.frames@
    }
}

impl<F> FrameStack<F> {
    /// No frames, with room for some.
    pub fn new_prealloc(capacity: usize) -> (r: FrameStack<F>)
        ensures
            r@ == Seq::<F>::empty(),
    {
        FrameStack { frames: Vec::with_capacity(capacity) }
    }

    /// The number of the innermost frame, counted from zero.
    pub fn index(&self) -> (r: Option<usize>)
        ensures
            match r {
                Some(i) => self@.len() == i + 1,
                None => self@.len() == 0,
            },
    {
        if self.frames.len() == 0 {
            None
        } else {
            Some(self.frames.len() - 1)
        }
    }

    /// Adds an innermost frame.
    pub fn push(&mut self, frame: F)
        ensures
            final(self)@ == old(self)@.push(frame),
    {
        self.frames.push(frame);
    }

    /// Drops the innermost frame.
    pub fn pop(&mut self)
        requires
            old(self)@.len() > 0,
        ensures
            final(self)@ == old(self)@.drop_last(),
    {
        let _ = self.frames.pop();
    }

    /// The innermost frame, for writing.
    pub fn get(&mut self) -> (r: &mut F)
        requires
            old(self)@.len() > 0,
        ensures
            *r == old(self)@.last(),
            final(self)@ == old(self)@.drop_last().push(*final(r)),
    {
        let i: usize = self.frames.len() - 1;
        proof {
            let before = self.frames@;
            assert forall|frame: F| #[trigger]
                before.update(before.len() - 1, frame) == before.drop_last().push(frame) by {
                assert(before.update(before.len() - 1, frame) =~= before.drop_last().push(frame));
            }
        }
        &mut self.frames[i]
    }
}

} // verus!
