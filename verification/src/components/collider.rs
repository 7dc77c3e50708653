use crate::components::position::Position;
use crate::math::{Rect, Vec2};
use vstd::prelude::*;

verus! {

/// The shape of an entity for collisions. The collision rectangle may be
/// smaller than the part of the sprite that is visible: `collision_offset`
/// places it relative to the position, `sprite_padding` is the margin between
/// the position and the visible part, whose extent is `visible_size`.
#[derive(Clone, Copy, Debug, PartialEq, Eq, Structural)]
pub struct Collider {
    pub collision_offset: Vec2,
    pub collision_size: Vec2,
    pub sprite_padding: Vec2,
    pub visible_size: Vec2,
}

impl Collider {
    /// The collision rectangle of an entity at `position`: of the size
    /// `collision_size`, at `collision_offset` from the position.
    pub open spec fn spec_rect_at(&self, position: Position) -> Rect {
        Rect {
            x: (position.x + self.collision_offset.x) as i64,
            y: (position.y + self.collision_offset.y) as i64,
            w: self.collision_size.x as i64,
            h: self.collision_size.y as i64,
        }
    }

    /// Computes [`Self::spec_rect_at`].
    #[verifier::when_used_as_spec(spec_rect_at)]
    pub fn rect_at(&self, position: Position) -> (rect: Rect)
        ensures
            rect == self.spec_rect_at(position),
    {
        Rect {
            x: position.x as i64 + self.collision_offset.x as i64,
            y: position.y as i64 + self.collision_offset.y as i64,
            w: self.collision_size.x as i64,
            h: self.collision_size.y as i64,
        }
    }
}

} // verus!
