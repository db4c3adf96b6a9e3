use vstd::prelude::*;

verus! {

/// The context that creates mixers, which sum stamped audio into one stereo buffer.
pub struct MixingContextImpl {}

impl MixingContextImpl {
    /// A mixing context; it holds no state of its own.
    pub fn new() -> (r: MixingContextImpl)
        ensures
            r == (MixingContextImpl {}),
    {
        MixingContextImpl {}
    }
}

impl Default for MixingContextImpl {
    fn default() -> (r: MixingContextImpl)
        ensures
            r == (MixingContextImpl {}),
    {
        MixingContextImpl::new()
    }
}

} // verus!
