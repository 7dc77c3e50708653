//! How an enemy moves and times its swings.

use crate::components::enemy::{AIType, Enemy};
use crate::components::position::Position;
use crate::components::velocity::Velocity;
use crate::entity::Entity;
use crate::math::{directed, lemma_directed_length, narrow, size, spec_directed, spec_narrow, Vec2};
use crate::systems::aggro::{point, spec_point};
use crate::query::is_selection;
use crate::systems::pass::{find_player, frontier, lemma_frontier, lemma_frontier_grows, player_position};
use crate::world::{Columns, World};
use vstd::prelude::*;

verus! {

/// The velocity of the speed `speed` that leads an enemy at `enemy` straight
/// to the player at `player`; rest where the two are at the same place.
pub open spec fn spec_toward_player(enemy: Position, player: Position, speed: i32) -> Velocity {
    let toward = spec_directed(spec_point(enemy), spec_point(player), speed);
    Velocity { x: toward.x, y: toward.y }
}

/// Computes [`spec_toward_player`].
#[verifier::when_used_as_spec(spec_toward_player)]
pub fn toward_player(enemy: Position, player: Position, speed: i32) -> (velocity: Velocity)
    ensures
        velocity == spec_toward_player(enemy, player, speed),
{
    let toward: Vec2 = directed(point(enemy), point(player), speed);
    Velocity { x: toward.x, y: toward.y }
}

/// An enemy that heads for the player has the speed asked for, but for the
/// rounding of the coordinates of its velocity: the velocity is no longer
/// than the speed, and would be longer with either coordinate one thousandth
/// farther from zero.
pub proof fn lemma_toward_player_has_speed(enemy: Position, player: Position, speed: i32)
    requires
        enemy != player,
        speed > i32::MIN,
    ensures
        ({
            let v = spec_toward_player(enemy, player, speed);
            &&& v.x * v.x + v.y * v.y <= speed * speed
            &&& speed * speed < (size(v.x as int) + 1) * (size(v.x as int) + 1) + (size(v.y as int)
                + 1) * (size(v.y as int) + 1)
        }),
{
    lemma_directed_length(spec_point(enemy), spec_point(player), speed);
}

/// Whether `drawn` is a velocity that a wandering enemy with the walk speed
/// `walk_speed` can draw: rest, or its walk speed in the direction of a point
/// in reach.
pub open spec fn is_draw(drawn: Velocity, walk_speed: i32) -> bool {
    drawn == Velocity::zero() || exists|toward: Vec2|
        Enemy::in_reach(toward) && drawn == Enemy::course(toward, walk_speed)
}

/// Whether a wandering enemy changes its direction in a frame of the length `dt`.
pub open spec fn turns(enemy: Enemy, dt: u32) -> bool {
    enemy.movement_timer + dt >= enemy.change_direction_interval
}

/// Whether an attacking enemy begins a swing in a frame of the length `dt`.
pub open spec fn swings(enemy: Enemy, dt: u32) -> bool {
    enemy.attack_timer + dt >= enemy.attack_interval
}

/// Whether an attacking enemy is in a swing during a frame of the length
/// `dt`: it begins one or was in one.
pub open spec fn in_swing(enemy: Enemy, dt: u32) -> bool {
    swings(enemy, dt) || enemy.attacking
}

/// For how long the swing of an attacking enemy has lasted at the end of a
/// frame of the length `dt`.
pub open spec fn swing_time(enemy: Enemy, dt: u32) -> i32 {
    if swings(enemy, dt) {
        spec_narrow(dt as int)
    } else {
        spec_narrow(enemy.attack_animation_timer + dt)
    }
}

/// The enemy after a frame of the length `dt`.
///
/// A wandering enemy is in no swing; its timer runs, and starts again from
/// zero when it reaches the interval at which the enemy changes direction. A
/// chasing enemy is in no swing. An attacking enemy lets its timer run, and
/// begins a swing when the timer reaches the interval between swings, from
/// where the timer starts again; a swing ends when it has lasted its
/// duration. A dead enemy stays as it is.
pub open spec fn moved(enemy: Enemy, dt: u32) -> Enemy {
    match enemy.ai_type {
        AIType::Wander => Enemy {
            attacking: false,
            movement_timer: if turns(enemy, dt) {
                0
            } else {
                spec_narrow(enemy.movement_timer + dt)
            },
            ..enemy
        },
        AIType::ChasePlayer => Enemy { attacking: false, ..enemy },
        AIType::Attack => Enemy {
            attack_timer: if swings(enemy, dt) {
                0
            } else {
                spec_narrow(enemy.attack_timer + dt)
            },
            attacking: in_swing(enemy, dt) && swing_time(enemy, dt)
                < enemy.attack_animation_duration,
            attack_animation_timer: if in_swing(enemy, dt) {
                swing_time(enemy, dt)
            } else {
                enemy.attack_animation_timer
            },
            ..enemy
        },
        AIType::Dead => enemy,
    }
}

/// The velocity of the enemy `enemy` at `position` after a frame of the
/// length `dt`, with the player at `player`; `drawn` is the velocity that the
/// enemy draws if it changes its direction.
///
/// A wandering enemy keeps its velocity until it changes direction. A chasing
/// enemy heads for the player at its chase speed. An attacking enemy heads
/// for the player at its attack speed while in a swing, and rests between
/// swings. A dead enemy rests.
pub open spec fn velocity_of(
    enemy: Enemy,
    velocity: Velocity,
    position: Position,
    player: Position,
    dt: u32,
    drawn: Velocity,
) -> Velocity {
    match enemy.ai_type {
        AIType::Wander => if turns(enemy, dt) {
            drawn
        } else {
            velocity
        },
        AIType::ChasePlayer => toward_player(position, player, enemy.chase_speed),
        AIType::Attack => if in_swing(enemy, dt) {
            toward_player(position, player, enemy.attack_speed)
        } else {
            Velocity::zero()
        },
        AIType::Dead => Velocity::zero(),
    }
}

/// Whether `after` and `after_velocity` are what an enemy and its velocity
/// can be after a frame of the length `dt`: the enemy is as [`moved`] says,
/// and the velocity as [`velocity_of`] says for some velocity that the enemy
/// can draw.
pub open spec fn is_step(
    enemy: Enemy,
    velocity: Velocity,
    position: Position,
    player: Position,
    dt: u32,
    after: Enemy,
    after_velocity: Velocity,
) -> bool {
    &&& after == moved(enemy, dt)
    &&& exists|drawn: Velocity|
        is_draw(drawn, enemy.walk_speed) && after_velocity == velocity_of(
            enemy,
            velocity,
            position,
            player,
            dt,
            drawn,
        )
}

/// Lets a frame of the length `dt` pass for the enemy at `position`, with
/// the player at `player`. What a wandering enemy draws when it changes its
/// direction is left to chance.
pub fn advance(
    enemy: &mut Enemy,
    velocity: &mut Velocity,
    position: Position,
    player: Position,
    dt: u32,
)
    ensures
        is_step(*old(enemy), *old(velocity), position, player, dt, *final(enemy), *final(velocity)),
{
    let ghost start = *enemy;
    let ghost start_velocity = *velocity;
    match enemy.ai_type {
        AIType::Wander => {
            enemy.attacking = false;
            let timer: i64 = enemy.movement_timer as i64 + dt as i64;
            if timer >= enemy.change_direction_interval as i64 {
                enemy.movement_timer = 0;
                enemy.change_direction(velocity, enemy.walk_speed);
            } else {
                enemy.movement_timer = narrow(timer as i128);
            }
            assert(is_draw(*velocity, start.walk_speed) || !turns(start, dt));
            proof {
                let drawn = if turns(start, dt) {
                    *velocity
                } else {
                    Velocity::zero()
                };
                assert(is_draw(drawn, start.walk_speed) && *velocity == velocity_of(
                    start,
                    start_velocity,
                    position,
                    player,
                    dt,
                    drawn,
                ));
            }
        },
        AIType::ChasePlayer => {
            enemy.attacking = false;
            *velocity = toward_player(position, player, enemy.chase_speed);
            assert(is_draw(Velocity::zero(), start.walk_speed) && *velocity == velocity_of(
                start,
                start_velocity,
                position,
                player,
                dt,
                Velocity::zero(),
            ));
        },
        AIType::Attack => {
            let timer: i64 = enemy.attack_timer as i64 + dt as i64;
            if timer >= enemy.attack_interval as i64 {
                enemy.attack_timer = 0;
                enemy.attacking = true;
                enemy.attack_animation_timer = 0;
            } else {
                enemy.attack_timer = narrow(timer as i128);
            }
            if enemy.attacking {
                enemy.attack_animation_timer = narrow(
                    enemy.attack_animation_timer as i128 + dt as i128,
                );
                *velocity = toward_player(position, player, enemy.attack_speed);
                if enemy.attack_animation_timer >= enemy.attack_animation_duration {
                    enemy.attacking = false;
                }
            } else {
                velocity.x = 0;
                velocity.y = 0;
            }
            assert(is_draw(Velocity::zero(), start.walk_speed) && *velocity == velocity_of(
                start,
                start_velocity,
                position,
                player,
                dt,
                Velocity::zero(),
            ));
        },
        AIType::Dead => {
            velocity.x = 0;
            velocity.y = 0;
            assert(is_draw(Velocity::zero(), start.walk_speed) && *velocity == velocity_of(
                start,
                start_velocity,
                position,
                player,
                dt,
                Velocity::zero(),
            ));
        },
    }
}

/// Whether the query of the pass selects `entity`: it has a position, a
/// velocity and is an enemy.
pub open spec fn moves(columns: Columns, entity: int) -> bool {
    &&& columns.positions[entity] is Some
    &&& columns.velocities[entity] is Some
    &&& columns.enemies[entity] is Some
}

/// Whether `after` is what the world `before` can be after the pass for a
/// frame of the length `dt`. Without a player nothing changes. With one,
/// every enemy with a position and a velocity has made a step
/// ([`is_step`]); nothing else changes.
pub open spec fn is_enemy_movement(before: Columns, after: Columns, dt: u32) -> bool {
    match player_position(before) {
        None => after == before,
        Some(player) => {
            &&& after == (Columns { enemies: after.enemies, velocities: after.velocities, ..before })
            &&& after.enemies.len() == before.len()
            &&& after.velocities.len() == before.len()
            &&& forall|entity: int|
                0 <= entity < before.len() ==> if moves(before, entity) {
                    &&& after.enemies[entity] is Some
                    &&& after.velocities[entity] is Some
                    &&& is_step(
                        before.enemies[entity]->0,
                        before.velocities[entity]->0,
                        before.positions[entity]->0,
                        player,
                        dt,
                        after.enemies[entity]->0,
                        after.velocities[entity]->0,
                    )
                } else {
                    &&& after.enemies[entity] == before.enemies[entity]
                    &&& after.velocities[entity] == before.velocities[entity]
                }
        },
    }
}

/// Lets a frame of the length `dt` pass for every enemy that has a position
/// and a velocity.
pub fn enemy_movement_systems(world: &mut World, dt: u32)
    requires
        old(world)@.wf(),
    ensures
        is_enemy_movement(old(world)@, final(world)@, dt),
        final(world)@.wf(),
{
    let player: Position = match find_player(world) {
        Some((position, _)) => position,
        None => {
            return ;
        },
    };
    let entities: Vec<Entity> = world.query::<(&Position, &mut Velocity, &mut Enemy)>();
    let ghost before = world@;
    let count: Entity = world.entities_count();
    proof {
        assert forall|entity: int| 0 <= entity < frontier(entities@, 0, before.len()) implies !moves(
            before,
            entity,
        ) by {
            lemma_frontier::<(&Position, &mut Velocity, &mut Enemy)>(
                before,
                entities@,
                0,
                entity as Entity,
            );
        }
    }
    let mut k: usize = 0;
    while k < entities.len()
        invariant
            k <= entities.len(),
            before.len() == count,
            is_selection::<(&Position, &mut Velocity, &mut Enemy)>(before, entities@),
            before.wf(),
            world@.wf(),
            world@.len() == before.len(),
            world@ == (Columns { enemies: world@.enemies, velocities: world@.velocities, ..before }),
            forall|entity: int|
                #![trigger world@.enemies[entity]]
                #![trigger world@.velocities[entity]]
                0 <= entity < before.len() ==> if entity < frontier(
                    entities@,
                    k as int,
                    before.len(),
                ) && moves(before, entity) {
                    &&& world@.enemies[entity] is Some
                    &&& world@.velocities[entity] is Some
                    &&& is_step(
                        before.enemies[entity]->0,
                        before.velocities[entity]->0,
                        before.positions[entity]->0,
                        player,
                        dt,
                        world@.enemies[entity]->0,
                        world@.velocities[entity]->0,
                    )
                } else {
                    &&& world@.enemies[entity] == before.enemies[entity]
                    &&& world@.velocities[entity] == before.velocities[entity]
                },
        decreases entities.len() - k,
    {
        let entity: Entity = entities[k];
        proof {
            lemma_frontier_grows::<(&Position, &mut Velocity, &mut Enemy)>(
                before,
                entities@,
                k as int,
            );
        }
        match (
            world.positions.get(entity),
            world.velocities.get_mut(entity),
            world.enemies.get_mut(entity),
        ) {
            (Some(position), Some(velocity), Some(enemy)) => {
                advance(enemy, velocity, *position, player, dt);
            },
            _ => {
                assert(false);
            },
        }
        proof {
            assert forall|other: int|
                entity < other < frontier(entities@, k + 1, before.len()) implies !moves(
                before,
                other,
            ) by {
                lemma_frontier::<(&Position, &mut Velocity, &mut Enemy)>(
                    before,
                    entities@,
                    k + 1,
                    other as Entity,
                );
            }
        }
        k += 1;
    }
}

/// The pass leaves every enemy in the state it was in: what it does is
/// decided elsewhere, and a dead enemy stays dead.
pub proof fn lemma_movement_keeps_state(before: Columns, after: Columns, dt: u32, entity: int)
    requires
        before.wf(),
        is_enemy_movement(before, after, dt),
        0 <= entity < before.len(),
        before.enemies[entity] is Some,
    ensures
        after.enemies[entity] is Some,
        after.enemies[entity]->0.ai_type == before.enemies[entity]->0.ai_type,
{
}

/// A dead enemy comes to rest and stays as it is.
pub proof fn lemma_dead_rests(
    enemy: Enemy,
    velocity: Velocity,
    position: Position,
    player: Position,
    dt: u32,
    after: Enemy,
    after_velocity: Velocity,
)
    requires
        enemy.is_dead(),
        is_step(enemy, velocity, position, player, dt, after, after_velocity),
    ensures
        after == enemy,
        after_velocity == Velocity::zero(),
{
}

} // verus!
