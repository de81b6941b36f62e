use vstd::prelude::*;

verus! {

/// Stable identifier of a body and of the particle that rides on it: a slot index plus the
/// generation of that slot, so that a reused slot never aliases a removed body.
#[derive(Clone, Copy, PartialEq, Eq, Structural, Debug, Hash)]
pub struct Handle {
    pub index: u32,
    pub generation: u32,
}

impl Handle {
    pub fn new(index: u32, generation: u32) -> (r: Self)
        ensures
            r.index == index,
            r.generation == generation,
    {
        Handle { index, generation }
    }
}

} // verus!
