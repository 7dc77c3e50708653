//! Where the camera looks.

use crate::components::position::Position;
use crate::math::{clamp, spec_clamp, Vec2};
use crate::systems::pass::{find_player, player_position};
use crate::world::{Columns, World, WORLD_HEIGHT, WORLD_WIDTH};
use vstd::prelude::*;

verus! {

/// The point that the camera looks at for a player at `position`: the middle
/// of the player, 24 pixels right of and below its position, but no nearer
/// to an edge of the world than half of what the camera shows, which is 512
/// pixels wide and 288 pixels high.
pub open spec fn focus(position: Position) -> Vec2 {
    Vec2 {
        x: spec_clamp(position.x + 24_000, 256_000, WORLD_WIDTH - 256_000) as i32,
        y: spec_clamp(position.y + 24_000, 144_000, WORLD_HEIGHT - 144_000) as i32,
    }
}

/// The point that the camera looks at: the focus on the player, if there is one.
pub open spec fn camera_target(columns: Columns) -> Option<Vec2> {
    match player_position(columns) {
        Some(position) => Some(focus(position)),
        None => None,
    }
}

/// The point at which to aim the camera, if there is a player.
pub fn camera_systems(world: &World) -> (target: Option<Vec2>)
    requires
        world@.wf(),
    ensures
        target == camera_target(world@),
{
    match find_player(world) {
        Some((position, _)) => {
            let x: i64 = clamp(position.x as i64 + 24_000, 256_000, WORLD_WIDTH as i64 - 256_000);
            let y: i64 = clamp(position.y as i64 + 24_000, 144_000, WORLD_HEIGHT as i64 - 144_000);
            Some(Vec2 { x: x as i32, y: y as i32 })
        },
        None => None,
    }
}

} // verus!
