//! The parts of a machine, and how it goes from frame to frame.

use crate::handler::frame_stack::FrameStack;
use vstd::prelude::*;

verus! {

/// A frame.
pub trait FrameTr: Sized {
    /// What a frame hands back at its end.
    type FrameResult;

    /// What a frame is made from.
    type FrameInit;

    /// Whether the frame has come to its end.
    spec fn finished(&self) -> bool;

    /// Whether the frame has come to its end.
    fn is_finished(&self) -> (r: bool)
        ensures
            r == self.finished(),
    ;
}

/// Something to go on with, or a result.
#[derive(Debug)]
pub enum ItemOrResult<ITEM, RES> {
    /// Something to go on with.
    Item(ITEM),
    /// A result.
    Result(RES),
}

/// A machine: the context, the instructions, the precompiles and the frames.
pub trait EvmTr: Sized {
    /// What the frames run in.
    type Context;

    /// The instructions.
    type Instructions;

    /// The precompiles.
    type Precompiles;

    /// The frames.
    type Frame: FrameTr;

    /// The context.
    spec fn context(&self) -> Self::Context;

    /// The instructions.
    spec fn instructions(&self) -> Self::Instructions;

    /// The precompiles.
    spec fn precompiles(&self) -> Self::Precompiles;

    /// The frames that are under way.
    spec fn frames(&self) -> Seq<Self::Frame>;

    /// All parts.
    fn all(&self) -> (r: (
        &Self::Context,
        &Self::Instructions,
        &Self::Precompiles,
        &FrameStack<Self::Frame>,
    ))
        ensures
            *r.0 == self.context(),
            *r.1 == self.instructions(),
            *r.2 == self.precompiles(),
            r.3@ == self.frames(),
    ;

    /// All parts, for writing.
    fn all_mut(&mut self) -> (r: (
        &mut Self::Context,
        &mut Self::Instructions,
        &mut Self::Precompiles,
        &mut FrameStack<Self::Frame>,
    ))
        ensures
            *r.0 == old(self).context(),
            *r.1 == old(self).instructions(),
            *r.2 == old(self).precompiles(),
            r.3@ == old(self).frames(),
            final(self).context() == *final(r.0),
            final(self).instructions() == *final(r.1),
            final(self).precompiles() == *final(r.2),
            final(self).frames() == final(r.3)@,
    ;

    /// The context, for writing.
    fn ctx(&mut self) -> (r: &mut Self::Context)
        ensures
            *r == old(self).context(),
            final(self).context() == *final(r),
            final(self).instructions() == old(self).instructions(),
            final(self).precompiles() == old(self).precompiles(),
            final(self).frames() == old(self).frames(),
    {
        let (ctx, _, _, _) = self.all_mut();
        ctx
    }

    /// The context, for writing.
    fn ctx_mut(&mut self) -> (r: &mut Self::Context)
        ensures
            *r == old(self).context(),
            final(self).context() == *final(r),
            final(self).instructions() == old(self).instructions(),
            final(self).precompiles() == old(self).precompiles(),
            final(self).frames() == old(self).frames(),
    {
        self.ctx()
    }

    /// The context.
    fn ctx_ref(&self) -> (r: &Self::Context)
        ensures
            *r == self.context(),
    {
        let (ctx, _, _, _) = self.all();
        ctx
    }

    /// The context and the instructions, for writing.
    fn ctx_instructions(&mut self) -> (r: (&mut Self::Context, &mut Self::Instructions))
        ensures
            *r.0 == old(self).context(),
            *r.1 == old(self).instructions(),
            final(self).context() == *final(r.0),
            final(self).instructions() == *final(r.1),
            final(self).precompiles() == old(self).precompiles(),
            final(self).frames() == old(self).frames(),
    {
        let (ctx, instructions, _, _) = self.all_mut();
        (ctx, instructions)
    }

    /// The context and the precompiles, for writing.
    fn ctx_precompiles(&mut self) -> (r: (&mut Self::Context, &mut Self::Precompiles))
        ensures
            *r.0 == old(self).context(),
            *r.1 == old(self).precompiles(),
            final(self).context() == *final(r.0),
            final(self).instructions() == old(self).instructions(),
            final(self).precompiles() == *final(r.1),
            final(self).frames() == old(self).frames(),
    {
        let (ctx, _, precompiles, _) = self.all_mut();
        (ctx, precompiles)
    }

    /// The frames that are under way, for writing.
    fn frame_stack(&mut self) -> (r: &mut FrameStack<Self::Frame>)
        ensures
            r@ == old(self).frames(),
            final(self).context() == old(self).context(),
            final(self).instructions() == old(self).instructions(),
            final(self).precompiles() == old(self).precompiles(),
            final(self).frames() == final(r)@,
    {
        let (_, _, _, frame_stack) = self.all_mut();
        frame_stack
    }

    /// Takes what making a frame came to. A frame becomes the innermost one and is handed out;
    /// a result or an error is handed on, and no frame is added.
    fn frame_init<E>(
        &mut self,
        made: Result<ItemOrResult<Self::Frame, <Self::Frame as FrameTr>::FrameResult>, E>,
    ) -> (r: Result<ItemOrResult<&mut Self::Frame, <Self::Frame as FrameTr>::FrameResult>, E>)
        ensures
            final(self).context() == old(self).context(),
            final(self).instructions() == old(self).instructions(),
            final(self).precompiles() == old(self).precompiles(),
            match made {
                Ok(ItemOrResult::Item(frame)) => r matches Ok(ItemOrResult::Item(top)) && *top
                    == frame && final(self).frames() == old(self).frames().push(*final(top)),
                Ok(ItemOrResult::Result(result)) => r matches Ok(ItemOrResult::Result(x)) && x
                    == result && final(self).frames() == old(self).frames(),
                Err(e) => r matches Err(x) && x == e && final(self).frames()
                    == old(self).frames(),
            },
    {
        match made {
            Err(e) => Err(e),
            Ok(ItemOrResult::Result(result)) => Ok(ItemOrResult::Result(result)),
            Ok(ItemOrResult::Item(frame)) => {
                let frames = self.frame_stack();
                let ghost before = frames@;
                frames.push(frame);
                assert(frames@.drop_last() =~= before);
                Ok(ItemOrResult::Item(frames.get()))
            },
        }
    }

    /// Leaves the innermost frame, if it has come to its end. Hands out the frame that its
    /// result goes to, or nothing if it was the outermost one.
    fn frame_return_result(&mut self) -> (r: Option<&mut Self::Frame>)
        requires
            old(self).frames().len() > 0,
        ensures
            final(self).context() == old(self).context(),
            final(self).instructions() == old(self).instructions(),
            final(self).precompiles() == old(self).precompiles(),
            ({
                let left = if old(self).frames().last().finished() {
                    old(self).frames().drop_last()
                } else {
                    old(self).frames()
                };
                match r {
                    None => left.len() == 0 && final(self).frames() == left,
                    Some(frame) => left.len() > 0 && *frame == left.last() && final(self).frames()
                        == left.drop_last().push(*final(frame)),
                }
            }),
    {
        let frames = self.frame_stack();
        if frames.get().is_finished() {
            frames.pop();
        }
        if frames.index().is_none() {
            return None;
        }
        Some(frames.get())
    }
}

} // verus!
