//! How a swing of the player kills enemies.

use crate::components::collider::Collider;
use crate::components::direction::Direction;
use crate::components::enemy::{AIType, Enemy};
use crate::components::position::Position;
use crate::entity::Entity;
use crate::math::Rect;
use crate::query::is_selection;
use crate::components::player::Player;
use crate::systems::pass::{
    find_player, frontier, lemma_first_of_same_selection, lemma_frontier, lemma_frontier_grows, player,
    player_position,
};
use crate::world::{Columns, World};
use vstd::prelude::*;

verus! {

/// The enemy after a frame of the length `dt` has passed for the time until
/// it can be hit: the time runs down to zero and no further.
pub open spec fn spec_cooled(enemy: Enemy, dt: u32) -> Enemy {
    Enemy {
        hit_cooldown: if enemy.hit_cooldown <= 0 {
            enemy.hit_cooldown
        } else if enemy.hit_cooldown <= dt {
            0
        } else {
            (enemy.hit_cooldown - dt) as i32
        },
        ..enemy
    }
}

/// Computes [`spec_cooled`].
#[verifier::when_used_as_spec(spec_cooled)]
pub fn cooled(enemy: Enemy, dt: u32) -> (next: Enemy)
    ensures
        next == spec_cooled(enemy, dt),
{
    let mut next: Enemy = enemy;
    if enemy.hit_cooldown > 0 {
        let left: i64 = enemy.hit_cooldown as i64 - dt as i64;
        next.hit_cooldown = if left <= 0 {
            0
        } else {
            left as i32
        };
    }
    next
}

/// The area that a swing of a player at `position` reaches, by the way the
/// player faces.
pub open spec fn spec_attack_rect(position: Position, direction: Direction) -> Rect {
    match direction {
        Direction::Right => Rect {
            x: (position.x + 30_000) as i64,
            y: (position.y + 24_000) as i64,
            w: 15_000,
            h: 20_000,
        },
        Direction::Left => Rect {
            x: (position.x + 3_000) as i64,
            y: (position.y + 24_000) as i64,
            w: 15_000,
            h: 20_000,
        },
        Direction::Up => Rect {
            x: (position.x + 14_000) as i64,
            y: (position.y + 18_000) as i64,
            w: 20_000,
            h: 20_000,
        },
        Direction::Down => Rect {
            x: (position.x + 15_000) as i64,
            y: (position.y + 36_000) as i64,
            w: 20_000,
            h: 15_000,
        },
    }
}

/// Computes [`spec_attack_rect`].
#[verifier::when_used_as_spec(spec_attack_rect)]
pub fn attack_rect(position: Position, direction: Direction) -> (rect: Rect)
    ensures
        rect == spec_attack_rect(position, direction),
{
    let x: i64 = position.x as i64;
    let y: i64 = position.y as i64;
    match direction {
        Direction::Right => Rect { x: x + 30_000, y: y + 24_000, w: 15_000, h: 20_000 },
        Direction::Left => Rect { x: x + 3_000, y: y + 24_000, w: 15_000, h: 20_000 },
        Direction::Up => Rect { x: x + 14_000, y: y + 18_000, w: 20_000, h: 20_000 },
        Direction::Down => Rect { x: x + 15_000, y: y + 36_000, w: 20_000, h: 15_000 },
    }
}

/// Whether a swing that reaches `reach` kills the enemy: it is alive, can be
/// hit, and the swing overlaps its collision rectangle.
pub open spec fn is_struck(enemy: Enemy, position: Position, collider: Collider, reach: Rect) -> bool {
    &&& !enemy.is_dead()
    &&& reach.overlaps(&collider.rect_at(position))
    &&& enemy.hit_cooldown <= 0
}

/// The enemy after a swing that reaches `reach`.
pub open spec fn spec_struck(enemy: Enemy, position: Position, collider: Collider, reach: Rect) -> Enemy {
    if is_struck(enemy, position, collider, reach) {
        Enemy { ai_type: AIType::Dead, ..enemy }
    } else {
        enemy
    }
}

/// Computes [`spec_struck`].
#[verifier::when_used_as_spec(spec_struck)]
pub fn struck(enemy: Enemy, position: Position, collider: Collider, reach: Rect) -> (next: Enemy)
    ensures
        next == spec_struck(enemy, position, collider, reach),
{
    let mut next: Enemy = enemy;
    if !enemy.is_dead() {
        let target: Rect = collider.rect_at(position);
        if reach.overlaps(&target) && enemy.hit_cooldown <= 0 {
            next.ai_type = AIType::Dead;
        }
    }
    next
}

/// The area that the swing of the player reaches, if there is a player and it
/// is in a swing.
pub open spec fn swing(columns: Columns) -> Option<Rect> {
    match (player_position(columns), player(columns)) {
        (Some(position), Some(player)) => if player.attacking {
            Some(attack_rect(position, player.last_direction))
        } else {
            None
        },
        _ => None,
    }
}

/// What the slot of `entity` for enemies holds after the time `dt` has
/// passed for the time until the enemy can be hit.
pub open spec fn cooled_slot(columns: Columns, dt: u32, entity: int) -> Option<Enemy> {
    match columns.enemies[entity] {
        Some(enemy) => Some(cooled(enemy, dt)),
        None => None,
    }
}

/// The world after the time `dt` has passed for the time until each enemy can be hit.
pub open spec fn after_cooling(columns: Columns, dt: u32) -> Columns {
    Columns {
        enemies: Seq::new(columns.len(), |entity: int| cooled_slot(columns, dt, entity)),
        ..columns
    }
}

/// What the slot of `entity` for enemies holds after a swing that reaches
/// `reach`: an enemy with a position and a collider may have been killed; any
/// other slot is as it was.
pub open spec fn struck_slot(columns: Columns, reach: Rect, entity: int) -> Option<Enemy> {
    match (columns.positions[entity], columns.colliders[entity], columns.enemies[entity]) {
        (Some(position), Some(collider), Some(enemy)) => Some(struck(enemy, position, collider, reach)),
        _ => columns.enemies[entity],
    }
}

/// The world after a swing that reaches `reach`.
pub open spec fn after_swing(columns: Columns, reach: Rect) -> Columns {
    Columns {
        enemies: Seq::new(columns.len(), |entity: int| struck_slot(columns, reach, entity)),
        ..columns
    }
}

/// The world after the pass for a frame of the length `dt`. Without a
/// player nothing changes. With one, first the time passes for the time
/// until each enemy can be hit. Then, if the player is in a swing, every
/// enemy that the swing reaches is killed, as many as there are.
pub open spec fn after_player_attack(columns: Columns, dt: u32) -> Columns {
    if player_position(columns) is None {
        columns
    } else {
        let cooled = after_cooling(columns, dt);
        match swing(cooled) {
            Some(reach) => after_swing(cooled, reach),
            None => cooled,
        }
    }
}

fn cool_enemies(world: &mut World, dt: u32)
    requires
        old(world)@.wf(),
    ensures
        final(world)@ == after_cooling(old(world)@, dt),
        final(world)@.wf(),
{
    let entities: Vec<Entity> = world.query::<&mut Enemy>();
    let ghost before = world@;
    let count: Entity = world.entities_count();
    proof {
        assert forall|entity: int| 0 <= entity < frontier(entities@, 0, before.len()) implies
            cooled_slot(before, dt, entity) == before.enemies[entity] by {
            lemma_frontier::<&mut Enemy>(before, entities@, 0, entity as Entity);
        }
    }
    let mut k: usize = 0;
    while k < entities.len()
        invariant
            k <= entities.len(),
            before.len() == count,
            is_selection::<&mut Enemy>(before, entities@),
            before.wf(),
            world@.wf(),
            world@.len() == before.len(),
            world@ == (Columns { enemies: world@.enemies, ..before }),
            forall|entity: int|
                #![trigger world@.enemies[entity]]
                0 <= entity < before.len() ==> world@.enemies[entity] == if entity < frontier(
                    entities@,
                    k as int,
                    before.len(),
                ) {
                    cooled_slot(before, dt, entity)
                } else {
                    before.enemies[entity]
                },
        decreases entities.len() - k,
    {
        let entity: Entity = entities[k];
        proof {
            lemma_frontier_grows::<&mut Enemy>(before, entities@, k as int);
        }
        match world.enemies.get_mut(entity) {
            Some(enemy) => {
                *enemy = cooled(*enemy, dt);
            },
            None => {
                assert(false);
            },
        }
        proof {
            assert forall|other: int|
                entity < other < frontier(entities@, k + 1, before.len()) implies cooled_slot(
                before,
                dt,
                other,
            ) == before.enemies[other] by {
                lemma_frontier::<&mut Enemy>(before, entities@, k + 1, other as Entity);
            }
        }
        k += 1;
    }
    proof {
        assert(world@.enemies =~= after_cooling(before, dt).enemies);
    }
}

fn strike_enemies(world: &mut World, reach: Rect)
    requires
        old(world)@.wf(),
    ensures
        final(world)@ == after_swing(old(world)@, reach),
        final(world)@.wf(),
{
    let entities: Vec<Entity> = world.query::<(&Position, &Collider, &mut Enemy)>();
    let ghost before = world@;
    let count: Entity = world.entities_count();
    proof {
        assert forall|entity: int| 0 <= entity < frontier(entities@, 0, before.len()) implies
            struck_slot(before, reach, entity) == before.enemies[entity] by {
            lemma_frontier::<(&Position, &Collider, &mut Enemy)>(
                before,
                entities@,
                0,
                entity as Entity,
            );
        }
    }
    let mut k: usize = 0;
    while k < entities.len()
        invariant
            k <= entities.len(),
            before.len() == count,
            is_selection::<(&Position, &Collider, &mut Enemy)>(before, entities@),
            before.wf(),
            world@.wf(),
            world@.len() == before.len(),
            world@ == (Columns { enemies: world@.enemies, ..before }),
            forall|entity: int|
                #![trigger world@.enemies[entity]]
                0 <= entity < before.len() ==> world@.enemies[entity] == if entity < frontier(
                    entities@,
                    k as int,
                    before.len(),
                ) {
                    struck_slot(before, reach, entity)
                } else {
                    before.enemies[entity]
                },
        decreases entities.len() - k,
    {
        let entity: Entity = entities[k];
        proof {
            lemma_frontier_grows::<(&Position, &Collider, &mut Enemy)>(
                before,
                entities@,
                k as int,
            );
        }
        match (
            world.positions.get(entity),
            world.colliders.get(entity),
            world.enemies.get_mut(entity),
        ) {
            (Some(position), Some(collider), Some(enemy)) => {
                *enemy = struck(*enemy, *position, *collider, reach);
            },
            _ => {
                assert(false);
            },
        }
        proof {
            assert forall|other: int|
                entity < other < frontier(entities@, k + 1, before.len()) implies struck_slot(
                before,
                reach,
                other,
            ) == before.enemies[other] by {
                lemma_frontier::<(&Position, &Collider, &mut Enemy)>(
                    before,
                    entities@,
                    k + 1,
                    other as Entity,
                );
            }
        }
        k += 1;
    }
    proof {
        assert(world@.enemies =~= after_swing(before, reach).enemies);
    }
}

/// Resolves the swing of the player for a frame of the length `dt`.
pub fn player_attack_system(world: &mut World, dt: u32)
    requires
        old(world)@.wf(),
    ensures
        final(world)@ == after_player_attack(old(world)@, dt),
        final(world)@.wf(),
{
    let (position, player) = match find_player(world) {
        Some(found) => found,
        None => {
            return ;
        },
    };
    let ghost before = world@;
    cool_enemies(world, dt);
    proof {
        lemma_first_of_same_selection::<(&Position, &Player)>(before, world@);
    }
    if player.attacking {
        strike_enemies(world, attack_rect(position, player.last_direction));
    }
}

/// One swing kills every enemy that it reaches, however many they are: after
/// the pass every enemy is dead that has a position and a collider and that,
/// once the time has passed for it, is struck by the swing of the player.
pub proof fn lemma_swing_kills_all(columns: Columns, dt: u32, reach: Rect, entity: int)
    requires
        columns.wf(),
        player_position(columns) is Some,
        swing(after_cooling(columns, dt)) == Some(reach),
        0 <= entity < columns.len(),
        columns.positions[entity] is Some,
        columns.colliders[entity] is Some,
        columns.enemies[entity] is Some,
        is_struck(
            cooled(columns.enemies[entity]->0, dt),
            columns.positions[entity]->0,
            columns.colliders[entity]->0,
            reach,
        ),
    ensures
        after_player_attack(columns, dt).enemies[entity] is Some,
        after_player_attack(columns, dt).enemies[entity]->0.is_dead(),
{
}

/// The pass brings no dead enemy back to life.
pub proof fn lemma_attack_keeps_dead(columns: Columns, dt: u32, entity: int)
    requires
        columns.wf(),
        0 <= entity < columns.len(),
        columns.enemies[entity] is Some,
        columns.enemies[entity]->0.is_dead(),
    ensures
        after_player_attack(columns, dt).enemies[entity] is Some,
        after_player_attack(columns, dt).enemies[entity]->0.is_dead(),
{
}

} // verus!
