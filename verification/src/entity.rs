use vstd::prelude::*;

verus! {

/// Handle of one simulated object: its zero-based index in creation order.
/// An entity carries no data of its own.
pub type Entity = usize;

} // verus!
