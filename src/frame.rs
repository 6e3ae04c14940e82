//! A frame context that is created on first use.
use vstd::prelude::*;

verus! {

/// What starts recording a new frame.
pub trait FrameSource<F> {
    /// A new, empty frame context.
    fn new_frame(&self) -> F;
}

/// Holds at most one frame context, created from the global context only when
/// it is first asked for.
pub struct LazyFrameContext<G, F> {
    global_context: G,
    frame_context: Option<F>,
}

impl<G: FrameSource<F>, F> LazyFrameContext<G, F> {
    /// The global context that new frames are made from.
    pub closed spec fn global(&self) -> G {
        self.global_context
    }

    /// The frame context held, if any.
    pub closed spec fn frame(&self) -> Option<F> {
        self.frame_context
    }

    /// Holds no frame context yet.
    pub fn new(global_context: G) -> (r: LazyFrameContext<G, F>)
        ensures
            r.global() == global_context,
            r.frame() is None,
    {
        LazyFrameContext { global_context, frame_context: None }
    }

    /// The frame context held, made first if there is none.
    pub fn get_mut(&mut self) -> (r: &mut F)
        ensures
            old(self).frame() matches Some(f) ==> *r == f,
            final(self).frame() == Some(*final(r)),
            final(self).global() == old(self).global(),
    {
        let frame = match self.frame_context.take() {
            Some(f) => f,
            None => self.global_context.new_frame(),
        };
        self.frame_context.insert(frame)
    }

    /// Takes the frame context out, or makes a new one if there is none; none
    /// is held afterwards.
    pub fn take(&mut self) -> (r: F)
        ensures
            old(self).frame() matches Some(f) ==> r == f,
            final(self).frame() is None,
            final(self).global() == old(self).global(),
    {
        match self.frame_context.take() {
            Some(f) => f,
            None => self.global_context.new_frame(),
        }
    }
}

} // verus!
