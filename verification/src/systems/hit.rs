//! How a swing of an enemy hits the player.

use crate::components::collider::Collider;
use crate::components::enemy::Enemy;
use crate::components::player::Player;
use crate::components::position::Position;
use crate::entity::Entity;
use crate::math::Rect;
use crate::query::is_selection;
use crate::systems::pass::{find_player, frontier, lemma_frontier, lemma_frontier_grows, player, player_position};
use crate::world::{Columns, World};
use vstd::prelude::*;

verus! {

/// The player after a frame of the length `dt` has passed for the time
/// until it can be hit again: the time runs down to zero and no further.
pub open spec fn spec_recovered(player: Player, dt: u32) -> Player {
    Player {
        hit_cooldown_timer: if player.hit_cooldown_timer <= 0 {
            player.hit_cooldown_timer
        } else if player.hit_cooldown_timer <= dt {
            0
        } else {
            (player.hit_cooldown_timer - dt) as i32
        },
        ..player
    }
}

/// Computes [`spec_recovered`].
#[verifier::when_used_as_spec(spec_recovered)]
pub fn recovered(player: Player, dt: u32) -> (next: Player)
    ensures
        next == spec_recovered(player, dt),
{
    let mut next: Player = player;
    if player.hit_cooldown_timer > 0 {
        let left: i64 = player.hit_cooldown_timer as i64 - dt as i64;
        next.hit_cooldown_timer = if left <= 0 {
            0
        } else {
            left as i32
        };
    }
    next
}

/// The player after a hit: it cannot be hit again for the length of its cooldown.
pub open spec fn spec_stunned(player: Player) -> Player {
    Player { hit_cooldown_timer: player.hit_cooldown_duration, ..player }
}

/// Computes [`spec_stunned`].
#[verifier::when_used_as_spec(spec_stunned)]
pub fn stunned(player: Player) -> (next: Player)
    ensures
        next == spec_stunned(player),
{
    let mut next: Player = player;
    next.hit_cooldown_timer = player.hit_cooldown_duration;
    next
}

/// The area in which a player at `position` can be hit.
pub open spec fn spec_player_rect(position: Position) -> Rect {
    Rect {
        x: (position.x + 18_000) as i64,
        y: (position.y + 20_000) as i64,
        w: 13_000,
        h: 22_000,
    }
}

/// Computes [`spec_player_rect`].
#[verifier::when_used_as_spec(spec_player_rect)]
pub fn player_rect(position: Position) -> (rect: Rect)
    ensures
        rect == spec_player_rect(position),
{
    Rect { x: position.x as i64 + 18_000, y: position.y as i64 + 20_000, w: 13_000, h: 22_000 }
}

/// Whether two rectangles overlap; a hit is decided by where the two stand
/// at the end of the frame.
fn is_player_hit(player_rect: &Rect, enemy_rect: &Rect) -> (hit: bool)
    ensures
        hit == player_rect.overlaps(enemy_rect),
{
    player_rect.overlaps(enemy_rect)
}

/// Whether `entity` is an enemy in a swing whose collision rectangle
/// overlaps the area `target`.
pub open spec fn threatens(columns: Columns, target: Rect, entity: int) -> bool {
    match (columns.positions[entity], columns.colliders[entity], columns.enemies[entity]) {
        (Some(position), Some(collider), Some(enemy)) => enemy.attacking && target.overlaps(
            &collider.rect_at(position),
        ),
        _ => false,
    }
}

/// Whether some enemy in a swing reaches the area `target`.
pub open spec fn under_threat(columns: Columns, target: Rect) -> bool {
    exists|entity: int| 0 <= entity < columns.len() && #[trigger] threatens(columns, target, entity)
}

/// Whether the player is hit: there is a player that can be hit, and an
/// enemy in a swing that reaches it.
pub open spec fn player_is_hit(columns: Columns) -> bool {
    match (player_position(columns), player(columns)) {
        (Some(position), Some(player)) => player.hit_cooldown_timer <= 0 && under_threat(
            columns,
            player_rect(position),
        ),
        _ => false,
    }
}

/// What the slot of `entity` for players holds after the time `dt` has
/// passed for the time until the player can be hit again.
pub open spec fn recovered_slot(columns: Columns, dt: u32, entity: int) -> Option<Player> {
    match columns.players[entity] {
        Some(player) => Some(recovered(player, dt)),
        None => None,
    }
}

/// The world after the time `dt` has passed for the time until each player can be hit again.
pub open spec fn after_recovery(columns: Columns, dt: u32) -> Columns {
    Columns {
        players: Seq::new(columns.len(), |entity: int| recovered_slot(columns, dt, entity)),
        ..columns
    }
}

/// What the slot of `entity` for players holds after a hit.
pub open spec fn stunned_slot(columns: Columns, entity: int) -> Option<Player> {
    match columns.players[entity] {
        Some(player) => Some(stunned(player)),
        None => None,
    }
}

/// The world after the player was hit.
pub open spec fn after_stun(columns: Columns) -> Columns {
    Columns {
        players: Seq::new(columns.len(), |entity: int| stunned_slot(columns, entity)),
        ..columns
    }
}

/// The world after the pass for a frame of the length `dt`. Without a
/// player nothing changes. With one, first the time passes for the time
/// until the player can be hit again. If the player can then be hit and some
/// enemy in a swing reaches it, the player is hit, once, however many
/// enemies reach it.
pub open spec fn after_hit(columns: Columns, dt: u32) -> Columns {
    if player_position(columns) is None {
        columns
    } else {
        let recovered = after_recovery(columns, dt);
        if player_is_hit(recovered) {
            after_stun(recovered)
        } else {
            recovered
        }
    }
}

fn recover_players(world: &mut World, dt: u32)
    requires
        old(world)@.wf(),
    ensures
        final(world)@ == after_recovery(old(world)@, dt),
        final(world)@.wf(),
{
    let entities: Vec<Entity> = world.query::<&mut Player>();
    let ghost before = world@;
    let count: Entity = world.entities_count();
    proof {
        assert forall|entity: int| 0 <= entity < frontier(entities@, 0, before.len()) implies
            recovered_slot(before, dt, entity) == before.players[entity] by {
            lemma_frontier::<&mut Player>(before, entities@, 0, entity as Entity);
        }
    }
    let mut k: usize = 0;
    while k < entities.len()
        invariant
            k <= entities.len(),
            before.len() == count,
            is_selection::<&mut Player>(before, entities@),
            before.wf(),
            world@.wf(),
            world@.len() == before.len(),
            world@ == (Columns { players: world@.players, ..before }),
            forall|entity: int|
                #![trigger world@.players[entity]]
                0 <= entity < before.len() ==> world@.players[entity] == if entity < frontier(
                    entities@,
                    k as int,
                    before.len(),
                ) {
                    recovered_slot(before, dt, entity)
                } else {
                    before.players[entity]
                },
        decreases entities.len() - k,
    {
        let entity: Entity = entities[k];
        proof {
            lemma_frontier_grows::<&mut Player>(before, entities@, k as int);
        }
        match world.players.get_mut(entity) {
            Some(player) => {
                *player = recovered(*player, dt);
            },
            None => {
                assert(false);
            },
        }
        proof {
            assert forall|other: int|
                entity < other < frontier(entities@, k + 1, before.len()) implies recovered_slot(
                before,
                dt,
                other,
            ) == before.players[other] by {
                lemma_frontier::<&mut Player>(before, entities@, k + 1, other as Entity);
            }
        }
        k += 1;
    }
    proof {
        assert(world@.players =~= after_recovery(before, dt).players);
    }
}

fn stun_players(world: &mut World)
    requires
        old(world)@.wf(),
    ensures
        final(world)@ == after_stun(old(world)@),
        final(world)@.wf(),
{
    let entities: Vec<Entity> = world.query::<&mut Player>();
    let ghost before = world@;
    let count: Entity = world.entities_count();
    proof {
        assert forall|entity: int| 0 <= entity < frontier(entities@, 0, before.len()) implies
            stunned_slot(before, entity) == before.players[entity] by {
            lemma_frontier::<&mut Player>(before, entities@, 0, entity as Entity);
        }
    }
    let mut k: usize = 0;
    while k < entities.len()
        invariant
            k <= entities.len(),
            before.len() == count,
            is_selection::<&mut Player>(before, entities@),
            before.wf(),
            world@.wf(),
            world@.len() == before.len(),
            world@ == (Columns { players: world@.players, ..before }),
            forall|entity: int|
                #![trigger world@.players[entity]]
                0 <= entity < before.len() ==> world@.players[entity] == if entity < frontier(
                    entities@,
                    k as int,
                    before.len(),
                ) {
                    stunned_slot(before, entity)
                } else {
                    before.players[entity]
                },
        decreases entities.len() - k,
    {
        let entity: Entity = entities[k];
        proof {
            lemma_frontier_grows::<&mut Player>(before, entities@, k as int);
        }
        match world.players.get_mut(entity) {
            Some(player) => {
                *player = stunned(*player);
            },
            None => {
                assert(false);
            },
        }
        proof {
            assert forall|other: int|
                entity < other < frontier(entities@, k + 1, before.len()) implies stunned_slot(
                before,
                other,
            ) == before.players[other] by {
                lemma_frontier::<&mut Player>(before, entities@, k + 1, other as Entity);
            }
        }
        k += 1;
    }
    proof {
        assert(world@.players =~= after_stun(before).players);
    }
}

/// Whether some enemy in a swing reaches the area `target`.
fn is_threatened(world: &World, target: Rect) -> (hit: bool)
    requires
        world@.wf(),
    ensures
        hit == under_threat(world@, target),
{
    let entities: Vec<Entity> = world.query::<(&Position, &Collider, &Enemy)>();
    let count: Entity = world.entities_count();
    proof {
        assert forall|entity: int| 0 <= entity < frontier(entities@, 0, world@.len()) implies
            !threatens(world@, target, entity) by {
            lemma_frontier::<(&Position, &Collider, &Enemy)>(world@, entities@, 0, entity as Entity);
        }
    }
    let mut k: usize = 0;
    while k < entities.len()
        invariant
            k <= entities.len(),
            world@.len() == count,
            world@.wf(),
            is_selection::<(&Position, &Collider, &Enemy)>(world@, entities@),
            forall|entity: int|
                0 <= entity < frontier(entities@, k as int, world@.len()) ==> !threatens(
                    world@,
                    target,
                    entity,
                ),
        decreases entities.len() - k,
    {
        let entity: Entity = entities[k];
        proof {
            lemma_frontier_grows::<(&Position, &Collider, &Enemy)>(world@, entities@, k as int);
        }
        match (
            world.positions.get(entity),
            world.colliders.get(entity),
            world.enemies.get(entity),
        ) {
            (Some(position), Some(collider), Some(enemy)) => {
                if enemy.attacking {
                    let reach: Rect = collider.rect_at(*position);
                    if is_player_hit(&target, &reach) {
                        assert(threatens(world@, target, entity as int));
                        return true;
                    }
                }
            },
            _ => {
                assert(false);
            },
        }
        proof {
            assert forall|other: int|
                entity < other < frontier(entities@, k + 1, world@.len()) implies !threatens(
                world@,
                target,
                other,
            ) by {
                lemma_frontier::<(&Position, &Collider, &Enemy)>(
                    world@,
                    entities@,
                    k + 1,
                    other as Entity,
                );
            }
        }
        k += 1;
    }
    false
}

/// Resolves the swings of the enemies against the player for a frame of the
/// length `dt`.
pub fn hit_systems(world: &mut World, dt: u32)
    requires
        old(world)@.wf(),
    ensures
        final(world)@ == after_hit(old(world)@, dt),
        final(world)@.wf(),
{
    if find_player(world).is_none() {
        return ;
    }
    recover_players(world, dt);
    let (position, player) = match find_player(world) {
        Some(found) => found,
        None => {
            return ;
        },
    };
    if player.hit_cooldown_timer <= 0 {
        if is_threatened(world, player_rect(position)) {
            stun_players(world);
        }
    }
}

} // verus!
