use vstd::prelude::*;

verus! {

/// Where an entity is in the world: the top-left corner of its sprite.
#[derive(Clone, Copy, Debug, PartialEq, Eq, Structural)]
pub struct Position {
    pub x: i32,
    pub y: i32,
}

} // verus!
