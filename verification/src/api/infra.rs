use vstd::prelude::*;

verus! {

/// Something that can be asked to stop.
pub trait Stoppable {
    fn stop(&self);
}

} // verus!
