use vstd::prelude::*;

verus! {

/// How far an entity moves per second along each axis.
#[derive(Clone, Copy, Debug, PartialEq, Eq, Structural)]
pub struct Velocity {
    pub x: i32,
    pub y: i32,
}

impl Velocity {
    /// The velocity of an entity at rest.
    pub open spec fn zero() -> Velocity {
        Velocity { x: 0, y: 0 }
    }

    /// Whether the entity moves along at least one axis.
    pub open spec fn spec_is_moving(&self) -> bool {
        self.x != 0 || self.y != 0
    }

    /// Computes [`Self::spec_is_moving`].
    #[verifier::when_used_as_spec(spec_is_moving)]
    pub fn is_moving(&self) -> (moving: bool)
        ensures
            moving == self.spec_is_moving(),
    {
        self.x != 0 || self.y != 0
    }
}

impl Default for Velocity {
    fn default() -> (v: Velocity)
        ensures
            v == Velocity::zero(),
    {
        Velocity { x: 0, y: 0 }
    }
}

} // verus!
