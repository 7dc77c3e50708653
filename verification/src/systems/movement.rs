//! How entities move, and what stops them.

use crate::components::collider::Collider;
use crate::components::position::Position;
use crate::components::velocity::Velocity;
use crate::entity::Entity;
use crate::math::{clamp, displacement, narrow, scaled, spec_clamp, spec_narrow, Rect};
use crate::query::is_selection;
use crate::systems::pass::{frontier, lemma_frontier, lemma_frontier_grows};
use crate::world::{Columns, World, WORLD_HEIGHT, WORLD_WIDTH};
use vstd::prelude::*;

verus! {

/// Whether `rect` overlaps one of the obstacles.
pub open spec fn collides(rect: Rect, obstacles: Seq<Rect>) -> bool {
    exists|i: int| 0 <= i < obstacles.len() && #[trigger] rect.overlaps(&obstacles[i])
}

/// Whether `player_box` overlaps one of the obstacles.
pub fn check_collision_with_objects(player_box: Rect, obstacles: &Vec<Rect>) -> (hit: bool)
    ensures
        hit == collides(player_box, obstacles@),
{
    let mut i: usize = 0;
    while i < obstacles.len()
        invariant
            i <= obstacles.len(),
            forall|j: int| 0 <= j < i ==> !(#[trigger] player_box.overlaps(&obstacles@[j])),
        decreases obstacles.len() - i,
    {
        if player_box.overlaps(&obstacles[i]) {
            return true;
        }
        i += 1;
    }
    false
}

/// Whether the visible part of an entity with this collider has an extent
/// that is not negative and fits into the world, so that there is a place
/// for the entity within the bounds.
pub open spec fn fits(collider: Collider) -> bool {
    &&& 0 <= collider.visible_size.x <= WORLD_WIDTH
    &&& 0 <= collider.visible_size.y <= WORLD_HEIGHT
}

/// Where an entity at `position` would be after the time `dt` at the
/// velocity `velocity`, if nothing stopped it.
pub open spec fn provisional(position: Position, velocity: Velocity, dt: u32) -> (int, int) {
    (
        position.x + scaled(velocity.x as int, dt as int),
        position.y + scaled(velocity.y as int, dt as int),
    )
}

/// The collision rectangle of an entity whose position would be `at`.
pub open spec fn collision_box(at: (int, int), collider: Collider) -> Rect {
    Rect {
        x: (at.0 + collider.collision_offset.x) as i64,
        y: (at.1 + collider.collision_offset.y) as i64,
        w: collider.collision_size.x as i64,
        h: collider.collision_size.y as i64,
    }
}

/// Whether an entity is kept from moving in a frame of the length `dt`: its
/// collision rectangle would overlap an obstacle where the entity would be.
pub open spec fn is_blocked(
    position: Position,
    velocity: Velocity,
    collider: Collider,
    obstacles: Seq<Rect>,
    dt: u32,
) -> bool {
    collides(collision_box(provisional(position, velocity, dt), collider), obstacles)
}

/// The coordinate nearest to `at` at which the visible part of an entity,
/// which begins `padding` after the coordinate and is `visible` long, lies
/// within a world that is `world` long. Where the visible part is longer than
/// the world, it is the coordinate at which the visible part begins where the
/// world begins, or ends where the world ends if `at` lies beyond that.
pub open spec fn bounded_at(at: int, padding: i32, visible: i32, world: i32) -> int {
    spec_clamp(at + padding, 0, world - visible) - padding
}

/// [`bounded_at`], as near as an `i32` comes to it.
pub open spec fn bounded(at: int, padding: i32, visible: i32, world: i32) -> i32 {
    spec_narrow(bounded_at(at, padding, visible, world))
}

/// Whether the place to which an entity moves in a frame of the length `dt`
/// can be stored: each of its coordinates is in the range of an `i32`.
pub open spec fn lands(position: Position, velocity: Velocity, collider: Collider, dt: u32) -> bool {
    let at = provisional(position, velocity, dt);
    &&& i32::MIN <= bounded_at(
        at.0,
        collider.sprite_padding.x,
        collider.visible_size.x,
        WORLD_WIDTH,
    ) <= i32::MAX
    &&& i32::MIN <= bounded_at(
        at.1,
        collider.sprite_padding.y,
        collider.visible_size.y,
        WORLD_HEIGHT,
    ) <= i32::MAX
}

/// Where an entity is after a frame of the length `dt`: where it was, if it
/// is kept from moving; else as far as its velocity takes it, but no farther
/// than where its visible part reaches the bounds of the world.
pub open spec fn spec_step(
    position: Position,
    velocity: Velocity,
    collider: Collider,
    obstacles: Seq<Rect>,
    dt: u32,
) -> Position {
    if is_blocked(position, velocity, collider, obstacles, dt) {
        position
    } else {
        let at = provisional(position, velocity, dt);
        Position {
            x: bounded(at.0, collider.sprite_padding.x, collider.visible_size.x, WORLD_WIDTH),
            y: bounded(at.1, collider.sprite_padding.y, collider.visible_size.y, WORLD_HEIGHT),
        }
    }
}

/// Where an entity is after a frame of the length `dt`.
pub fn step(
    position: Position,
    velocity: Velocity,
    collider: Collider,
    obstacles: &Vec<Rect>,
    dt: u32,
) -> (next: Position)
    ensures
        next == spec_step(position, velocity, collider, obstacles@, dt),
{
    let x: i64 = position.x as i64 + displacement(velocity.x, dt);
    let y: i64 = position.y as i64 + displacement(velocity.y, dt);
    let collision_box: Rect = Rect {
        x: x + collider.collision_offset.x as i64,
        y: y + collider.collision_offset.y as i64,
        w: collider.collision_size.x as i64,
        h: collider.collision_size.y as i64,
    };
    if check_collision_with_objects(collision_box, obstacles) {
        position
    } else {
        let clamped_x: i64 = clamp(
            x + collider.sprite_padding.x as i64,
            0,
            WORLD_WIDTH as i64 - collider.visible_size.x as i64,
        );
        let clamped_y: i64 = clamp(
            y + collider.sprite_padding.y as i64,
            0,
            WORLD_HEIGHT as i64 - collider.visible_size.y as i64,
        );
        Position {
            x: narrow((clamped_x - collider.sprite_padding.x as i64) as i128),
            y: narrow((clamped_y - collider.sprite_padding.y as i64) as i128),
        }
    }
}

/// Whether the query of the pass selects `entity`: it has a position, a
/// velocity and a collider.
pub open spec fn is_mobile(columns: Columns, entity: int) -> bool {
    &&& columns.positions[entity] is Some
    &&& columns.velocities[entity] is Some
    &&& columns.colliders[entity] is Some
}

/// What the slot of `entity` for positions holds after the pass: an entity
/// with a velocity and a collider has made its step; any other slot is as it
/// was.
pub open spec fn movement_slot(columns: Columns, obstacles: Seq<Rect>, dt: u32, entity: int) -> Option<
    Position,
> {
    match (columns.positions[entity], columns.velocities[entity], columns.colliders[entity]) {
        (Some(position), Some(velocity), Some(collider)) => Some(
            spec_step(position, velocity, collider, obstacles, dt),
        ),
        _ => columns.positions[entity],
    }
}

/// The world after the pass for a frame of the length `dt`.
pub open spec fn after_movement(columns: Columns, obstacles: Seq<Rect>, dt: u32) -> Columns {
    Columns {
        positions: Seq::new(
            columns.len(),
            |entity: int| movement_slot(columns, obstacles, dt, entity),
        ),
        ..columns
    }
}

/// Moves every entity that has a position, a velocity and a collider, for a
/// frame of the length `dt`.
pub fn movement_systems(world: &mut World, obstacles: &Vec<Rect>, dt: u32)
    requires
        old(world)@.wf(),
    ensures
        final(world)@ == after_movement(old(world)@, obstacles@, dt),
        final(world)@.wf(),
{
    let entities: Vec<Entity> = world.query::<(&mut Position, &Velocity, &Collider)>();
    let ghost before = world@;
    let count: Entity = world.entities_count();
    proof {
        assert forall|entity: int| 0 <= entity < frontier(entities@, 0, before.len()) implies
            movement_slot(before, obstacles@, dt, entity) == before.positions[entity] by {
            lemma_frontier::<(&mut Position, &Velocity, &Collider)>(
                before,
                entities@,
                0,
                entity as Entity,
            );
        }
    }
    let mut k: usize = 0;
    while k < entities.len()
        invariant
            k <= entities.len(),
            before.len() == count,
            is_selection::<(&mut Position, &Velocity, &Collider)>(before, entities@),
            before.wf(),
            world@.wf(),
            world@.len() == before.len(),
            world@ == (Columns { positions: world@.positions, ..before }),
            forall|entity: int|
                #![trigger world@.positions[entity]]
                0 <= entity < before.len() ==> world@.positions[entity] == if entity < frontier(
                    entities@,
                    k as int,
                    before.len(),
                ) {
                    movement_slot(before, obstacles@, dt, entity)
                } else {
                    before.positions[entity]
                },
        decreases entities.len() - k,
    {
        let entity: Entity = entities[k];
        proof {
            lemma_frontier_grows::<(&mut Position, &Velocity, &Collider)>(
                before,
                entities@,
                k as int,
            );
            assert(is_mobile(before, entity as int));
        }
        match (
            world.positions.get_mut(entity),
            world.velocities.get(entity),
            world.colliders.get(entity),
        ) {
            (Some(position), Some(velocity), Some(collider)) => {
                *position = step(*position, *velocity, *collider, obstacles, dt);
            },
            _ => {
                assert(false);
            },
        }
        proof {
            assert forall|other: int|
                entity < other < frontier(entities@, k + 1, before.len()) implies movement_slot(
                before,
                obstacles@,
                dt,
                other,
            ) == before.positions[other] by {
                lemma_frontier::<(&mut Position, &Velocity, &Collider)>(
                    before,
                    entities@,
                    k + 1,
                    other as Entity,
                );
            }
        }
        k += 1;
    }
    proof {
        assert(world@.positions =~= after_movement(before, obstacles@, dt).positions);
    }
}

/// Whether the visible part of an entity at `position` lies within the world.
pub open spec fn in_bounds(position: Position, collider: Collider) -> bool {
    &&& 0 <= position.x + collider.sprite_padding.x <= WORLD_WIDTH - collider.visible_size.x
    &&& 0 <= position.y + collider.sprite_padding.y <= WORLD_HEIGHT - collider.visible_size.y
}

/// An entity that is kept from moving stays where it is, whatever its
/// velocity and however long the frame.
pub proof fn lemma_blocked_stays(
    position: Position,
    velocity: Velocity,
    collider: Collider,
    obstacles: Seq<Rect>,
    dt: u32,
)
    requires
        is_blocked(position, velocity, collider, obstacles, dt),
    ensures
        spec_step(position, velocity, collider, obstacles, dt) == position,
{
}

/// The pass leaves every entity where it was whose collision rectangle
/// would overlap an obstacle.
pub proof fn lemma_movement_rejected(columns: Columns, obstacles: Seq<Rect>, dt: u32, entity: int)
    requires
        columns.wf(),
        0 <= entity < columns.len(),
        is_mobile(columns, entity),
        is_blocked(
            columns.positions[entity]->0,
            columns.velocities[entity]->0,
            columns.colliders[entity]->0,
            obstacles,
            dt,
        ),
    ensures
        after_movement(columns, obstacles, dt).positions[entity] == columns.positions[entity],
{
}

/// Whether an entity either moves to a place that can be stored, or is
/// kept from moving and is within the bounds of the world.
pub open spec fn settles(
    position: Position,
    velocity: Velocity,
    collider: Collider,
    obstacles: Seq<Rect>,
    dt: u32,
) -> bool {
    if is_blocked(position, velocity, collider, obstacles, dt) {
        in_bounds(position, collider)
    } else {
        lands(position, velocity, collider, dt)
    }
}

/// An entity that moves ends within the bounds of the world, if its visible
/// part fits into the world and the place can be stored; and so does one
/// that is kept from moving, if it was within the bounds.
pub proof fn lemma_step_in_bounds(
    position: Position,
    velocity: Velocity,
    collider: Collider,
    obstacles: Seq<Rect>,
    dt: u32,
)
    requires
        fits(collider),
        settles(position, velocity, collider, obstacles, dt),
    ensures
        in_bounds(spec_step(position, velocity, collider, obstacles, dt), collider),
{
}

/// After the pass the visible part of every entity that can move lies
/// within the world, if it fits into the world and the entity moved to a
/// place that can be stored, or was within the bounds and kept from moving.
pub proof fn lemma_movement_in_bounds(columns: Columns, obstacles: Seq<Rect>, dt: u32, entity: int)
    requires
        columns.wf(),
        0 <= entity < columns.len(),
        is_mobile(columns, entity),
        fits(columns.colliders[entity]->0),
        settles(
            columns.positions[entity]->0,
            columns.velocities[entity]->0,
            columns.colliders[entity]->0,
            obstacles,
            dt,
        ),
    ensures
        after_movement(columns, obstacles, dt).positions[entity] is Some,
        in_bounds(
            after_movement(columns, obstacles, dt).positions[entity]->0,
            columns.colliders[entity]->0,
        ),
{
    lemma_step_in_bounds(
        columns.positions[entity]->0,
        columns.velocities[entity]->0,
        columns.colliders[entity]->0,
        obstacles,
        dt,
    );
}

/// A place always can be stored for a collider whose margin is not
/// negative and whose visible part fits into the world.
pub proof fn lemma_lands(position: Position, velocity: Velocity, collider: Collider, dt: u32)
    requires
        fits(collider),
        0 <= collider.sprite_padding.x,
        0 <= collider.sprite_padding.y,
    ensures
        lands(position, velocity, collider, dt),
{
}

} // verus!
