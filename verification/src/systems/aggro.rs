//! How an enemy decides what to do from where the player is.

use crate::components::enemy::{AIType, Enemy};
use crate::components::player::Player;
use crate::components::position::Position;
use crate::entity::Entity;
use crate::math::Vec2;
use crate::query::is_selection;
use crate::systems::pass::{
    find_player, frontier, lemma_first_of_same_selection, lemma_frontier, lemma_frontier_grows,
    player_position,
};
use crate::world::{Columns, World};
use vstd::prelude::*;

verus! {

/// The point at which an entity with the position `position` stands.
pub open spec fn spec_point(position: Position) -> Vec2 {
    Vec2 { x: position.x, y: position.y }
}

/// Computes [`spec_point`].
#[verifier::when_used_as_spec(spec_point)]
pub fn point(position: Position) -> (v: Vec2)
    ensures
        v == spec_point(position),
{
    Vec2 { x: position.x, y: position.y }
}

/// What an enemy that is alive does when the square of its distance to the
/// player is `distance_squared`: it attacks within its attack range, else
/// chases within its aggro range, else wanders.
pub open spec fn choice(distance_squared: int, attack_range: int, aggro_range: int) -> AIType {
    if distance_squared <= attack_range * attack_range {
        AIType::Attack
    } else if distance_squared <= aggro_range * aggro_range {
        AIType::ChasePlayer
    } else {
        AIType::Wander
    }
}

/// The enemy at `position` after it has looked for the player at `player`.
/// A dead enemy stays dead; a living one does what [`choice`] says.
pub open spec fn spec_classified(enemy: Enemy, position: Position, player: Position) -> Enemy {
    if enemy.is_dead() {
        enemy
    } else {
        Enemy {
            ai_type: choice(
                Enemy::distance_squared(point(position), point(player)),
                enemy.attack_range as int,
                enemy.aggro_range as int,
            ),
            ..enemy
        }
    }
}

/// The enemy at `position` after it has looked for the player at `player`.
#[verifier::when_used_as_spec(spec_classified)]
pub fn classified(enemy: Enemy, position: Position, player: Position) -> (next: Enemy)
    ensures
        next == spec_classified(enemy, position, player),
{
    let mut next: Enemy = enemy;
    if !enemy.is_dead() {
        if enemy.should_attack_player(point(position), point(player), enemy.attack_range) {
            next.ai_type = AIType::Attack;
        } else if enemy.should_chase_player(point(position), point(player), enemy.aggro_range) {
            next.ai_type = AIType::ChasePlayer;
        } else {
            next.ai_type = AIType::Wander;
        }
    }
    next
}

/// What the slot of `entity` for enemies holds after the pass: an enemy with
/// a position has looked for the player at `player`; any other slot is as it was.
pub open spec fn aggro_slot(columns: Columns, player: Position, entity: int) -> Option<Enemy> {
    match (columns.positions[entity], columns.enemies[entity]) {
        (Some(position), Some(enemy)) => Some(classified(enemy, position, player)),
        _ => columns.enemies[entity],
    }
}

/// The world after the pass. Without a player nothing changes.
pub open spec fn after_aggro(columns: Columns) -> Columns {
    match player_position(columns) {
        Some(player) => Columns {
            enemies: Seq::new(columns.len(), |entity: int| aggro_slot(columns, player, entity)),
            ..columns
        },
        None => columns,
    }
}

/// Lets every enemy that has a position decide anew whether to wander, to
/// chase the player or to attack it.
pub fn enemy_aggro_system(world: &mut World)
    requires
        old(world)@.wf(),
    ensures
        final(world)@ == after_aggro(old(world)@),
        final(world)@.wf(),
{
    let player: Position = match find_player(world) {
        Some((position, _)) => position,
        None => {
            return ;
        },
    };
    let entities: Vec<Entity> = world.query::<(&Position, &mut Enemy)>();
    let ghost before = world@;
    let count: Entity = world.entities_count();
    proof {
        assert forall|entity: int| 0 <= entity < frontier(entities@, 0, before.len()) implies
            aggro_slot(before, player, entity) == before.enemies[entity] by {
            lemma_frontier::<(&Position, &mut Enemy)>(before, entities@, 0, entity as Entity);
        }
    }
    let mut k: usize = 0;
    while k < entities.len()
        invariant
            k <= entities.len(),
            before.len() == count,
            is_selection::<(&Position, &mut Enemy)>(before, entities@),
            before.wf(),
            world@.wf(),
            world@.len() == before.len(),
            world@ == (Columns { enemies: world@.enemies, ..before }),
            forall|entity: int|
                0 <= entity < before.len() ==> world@.enemies[entity] == if entity < frontier(
                    entities@,
                    k as int,
                    before.len(),
                ) {
                    aggro_slot(before, player, entity)
                } else {
                    before.enemies[entity]
                },
        decreases entities.len() - k,
    {
        let entity: Entity = entities[k];
        proof {
            lemma_frontier_grows::<(&Position, &mut Enemy)>(before, entities@, k as int);
        }
        match (world.positions.get(entity), world.enemies.get_mut(entity)) {
            (Some(position), Some(enemy)) => {
                *enemy = classified(*enemy, *position, player);
            },
            _ => {
                assert(false);
            },
        }
        proof {
            assert forall|other: int| 0 <= other < before.len() implies world@.enemies[other]
                == if other < frontier(entities@, k + 1, before.len()) {
                aggro_slot(before, player, other)
            } else {
                before.enemies[other]
            } by {
                if other > entity && other < frontier(entities@, k + 1, before.len()) {
                    lemma_frontier::<(&Position, &mut Enemy)>(
                        before,
                        entities@,
                        k + 1,
                        other as Entity,
                    );
                }
            }
        }
        k += 1;
    }
    proof {
        assert(world@.enemies =~= after_aggro(before).enemies);
    }
}

/// What a living enemy does goes by its distance to the player alone. With
/// an attack range below the aggro range, an enemy at the distance
/// `distance` attacks where the distance is at most the attack range,
/// chases where it is more than that and at most the aggro range, and
/// wanders where it is more than the aggro range.
pub proof fn lemma_choice_by_distance(distance: int, attack_range: int, aggro_range: int)
    requires
        0 <= distance,
        0 <= attack_range < aggro_range,
    ensures
        distance <= attack_range ==> choice(distance * distance, attack_range, aggro_range)
            == AIType::Attack,
        attack_range < distance <= aggro_range ==> choice(
            distance * distance,
            attack_range,
            aggro_range,
        ) == AIType::ChasePlayer,
        aggro_range < distance ==> choice(distance * distance, attack_range, aggro_range)
            == AIType::Wander,
{
    assert(distance <= attack_range ==> distance * distance <= attack_range * attack_range)
        by (nonlinear_arith)
        requires
            0 <= distance,
            0 <= attack_range,
    ;
    assert(attack_range < distance ==> attack_range * attack_range < distance * distance)
        by (nonlinear_arith)
        requires
            0 <= distance,
            0 <= attack_range,
    ;
    assert(distance <= aggro_range ==> distance * distance <= aggro_range * aggro_range)
        by (nonlinear_arith)
        requires
            0 <= distance,
            0 <= aggro_range,
    ;
    assert(aggro_range < distance ==> aggro_range * aggro_range < distance * distance)
        by (nonlinear_arith)
        requires
            0 <= distance,
            0 <= aggro_range,
    ;
}

/// The same as [`lemma_choice_by_distance`] for a distance of which only
/// the square is known: the three cases are told apart by comparing squares.
pub proof fn lemma_choice_by_square(distance_squared: int, attack_range: int, aggro_range: int)
    requires
        0 <= attack_range < aggro_range,
    ensures
        distance_squared <= attack_range * attack_range ==> choice(
            distance_squared,
            attack_range,
            aggro_range,
        ) == AIType::Attack,
        attack_range * attack_range < distance_squared <= aggro_range * aggro_range ==> choice(
            distance_squared,
            attack_range,
            aggro_range,
        ) == AIType::ChasePlayer,
        aggro_range * aggro_range < distance_squared ==> choice(
            distance_squared,
            attack_range,
            aggro_range,
        ) == AIType::Wander,
{
    assert(attack_range * attack_range <= aggro_range * aggro_range) by (nonlinear_arith)
        requires
            0 <= attack_range < aggro_range,
    ;
}

/// An enemy that looks for the player twice from the same place decides the
/// second time as it did the first.
pub proof fn lemma_classified_again(enemy: Enemy, position: Position, player: Position)
    ensures
        classified(classified(enemy, position, player), position, player) == classified(
            enemy,
            position,
            player,
        ),
{
}

/// A dead enemy stays dead when it looks for the player.
pub proof fn lemma_classified_keeps_dead(enemy: Enemy, position: Position, player: Position)
    requires
        enemy.is_dead(),
    ensures
        classified(enemy, position, player) == enemy,
{
}

/// The pass changes nothing when it is run again while no entity has moved.
pub proof fn lemma_aggro_again(columns: Columns)
    requires
        columns.wf(),
    ensures
        after_aggro(after_aggro(columns)) == after_aggro(columns),
{
    let once = after_aggro(columns);
    lemma_first_of_same_selection::<(&Position, &Player)>(columns, once);
    assert(after_aggro(once).enemies =~= once.enemies);
}

/// The pass leaves a dead enemy as it is.
pub proof fn lemma_aggro_keeps_dead(columns: Columns, entity: int)
    requires
        columns.wf(),
        0 <= entity < columns.len(),
        columns.enemies[entity] is Some,
        columns.enemies[entity]->0.is_dead(),
    ensures
        after_aggro(columns).enemies[entity] == columns.enemies[entity],
{
}

} // verus!
