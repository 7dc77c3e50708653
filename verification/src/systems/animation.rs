//! How the clip of each sprite is chosen, and how its animation runs.

use crate::components::enemy::{Enemy, ENEMY_CLIPS};
use crate::components::player::{Player, PLAYER_CLIPS};
use crate::components::sprite::{Sprite, SpriteView};
use crate::components::velocity::Velocity;
use crate::entity::Entity;
use crate::query::is_selection;
use crate::systems::pass::{frontier, lemma_frontier, lemma_frontier_grows};
use crate::world::{Columns, World};
use vstd::prelude::*;

verus! {

/// What a slot for sprites holds, as a mathematical value.
pub open spec fn sprite_view(slot: Option<Sprite>) -> Option<SpriteView> {
    match slot {
        Some(sprite) => Some(sprite@),
        None => None,
    }
}

/// Whether `entity` is drawn as a player: it has a sprite, a velocity and is a player.
pub open spec fn shows_player(columns: Columns, entity: int) -> bool {
    &&& columns.sprites[entity] is Some
    &&& columns.velocities[entity] is Some
    &&& columns.players[entity] is Some
}

/// Whether `entity` is drawn as an enemy: it has a sprite, a velocity and is an enemy.
pub open spec fn shows_enemy(columns: Columns, entity: int) -> bool {
    &&& columns.sprites[entity] is Some
    &&& columns.velocities[entity] is Some
    &&& columns.enemies[entity] is Some
}

/// Whether the animation of every entity that is drawn as a player has the
/// clips of a player.
pub open spec fn players_have_clips(columns: Columns) -> bool {
    forall|entity: int|
        0 <= entity < columns.len() && #[trigger] shows_player(columns, entity)
            && columns.sprites[entity]->0@.animation is Some ==> columns.sprites[entity]->0@.clips()
            >= PLAYER_CLIPS
}

/// Whether the animation of every entity that is drawn as an enemy has the
/// clips of an enemy.
pub open spec fn enemies_have_clips(columns: Columns) -> bool {
    forall|entity: int|
        0 <= entity < columns.len() && #[trigger] shows_enemy(columns, entity)
            && columns.sprites[entity]->0@.animation is Some ==> columns.sprites[entity]->0@.clips()
            >= ENEMY_CLIPS
}

/// Whether the animation of every entity that is drawn as a player or as an
/// enemy has the clips that are chosen from.
pub open spec fn has_clips(columns: Columns) -> bool {
    players_have_clips(columns) && enemies_have_clips(columns)
}

/// The sprite of `entity` after the pass for the players.
pub open spec fn player_sprite(columns: Columns, entity: int) -> Option<SpriteView> {
    if shows_player(columns, entity) {
        Some(
            columns.players[entity]->0.animated(
                columns.velocities[entity]->0,
                columns.sprites[entity]->0@,
            ),
        )
    } else {
        sprite_view(columns.sprites[entity])
    }
}

/// Whether `after` is the world `before` after the pass for the players:
/// the sprite of every entity that is drawn as a
/// player shows the clip chosen for the player; nothing else has changed.
pub open spec fn is_player_animation(before: Columns, after: Columns) -> bool {
    &&& after == (Columns { sprites: after.sprites, ..before })
    &&& after.sprites.len() == before.len()
    &&& forall|entity: int|
        0 <= entity < before.len() ==> sprite_view(#[trigger] after.sprites[entity])
            == player_sprite(before, entity)
}

/// Chooses the clip of every entity that is drawn as a player.
pub fn player_animation_system(world: &mut World)
    requires
        old(world)@.wf(),
        players_have_clips(old(world)@),
    ensures
        is_player_animation(old(world)@, final(world)@),
        final(world)@.wf(),
{
    let entities: Vec<Entity> = world.query::<(&mut Sprite, &Velocity, &Player)>();
    let ghost before = world@;
    let count: Entity = world.entities_count();
    proof {
        assert forall|entity: int| 0 <= entity < frontier(entities@, 0, before.len()) implies
            !shows_player(before, entity) by {
            lemma_frontier::<(&mut Sprite, &Velocity, &Player)>(
                before,
                entities@,
                0,
                entity as Entity,
            );
        }
    }
    let mut k: usize = 0;
    while k < entities.len()
        invariant
            k <= entities.len(),
            before.len() == count,
            is_selection::<(&mut Sprite, &Velocity, &Player)>(before, entities@),
            before.wf(),
            players_have_clips(before),
            world@.wf(),
            world@.len() == before.len(),
            world@ == (Columns { sprites: world@.sprites, ..before }),
            forall|entity: int|
                #![trigger world@.sprites[entity]]
                0 <= entity < before.len() ==> sprite_view(world@.sprites[entity]) == if entity
                    < frontier(entities@, k as int, before.len()) {
                    player_sprite(before, entity)
                } else {
                    sprite_view(before.sprites[entity])
                },
        decreases entities.len() - k,
    {
        let entity: Entity = entities[k];
        proof {
            lemma_frontier_grows::<(&mut Sprite, &Velocity, &Player)>(before, entities@, k as int);
            assert(shows_player(before, entity as int));
        }
        assert(sprite_view(world@.sprites[entity as int]) == sprite_view(
            before.sprites[entity as int],
        ));
        match (
            world.sprites.get_mut(entity),
            world.velocities.get(entity),
            world.players.get(entity),
        ) {
            (Some(sprite), Some(velocity), Some(player)) => {
                player.handle_player_animation(velocity, sprite, player);
            },
            _ => {
                assert(false);
            },
        }
        proof {
            assert forall|other: int|
                entity < other < frontier(entities@, k + 1, before.len()) implies !shows_player(
                before,
                other,
            ) by {
                lemma_frontier::<(&mut Sprite, &Velocity, &Player)>(
                    before,
                    entities@,
                    k + 1,
                    other as Entity,
                );
            }
        }
        k += 1;
    }
}

/// The sprite of `entity` after the pass for the enemies.
pub open spec fn enemy_sprite(columns: Columns, entity: int) -> Option<SpriteView> {
    if shows_enemy(columns, entity) {
        Some(
            columns.enemies[entity]->0.animated(
                columns.velocities[entity]->0,
                columns.sprites[entity]->0@,
            ).1,
        )
    } else {
        sprite_view(columns.sprites[entity])
    }
}

/// The slot of `entity` for enemies after the pass for the enemies.
pub open spec fn shown_enemy(columns: Columns, entity: int) -> Option<Enemy> {
    if shows_enemy(columns, entity) {
        Some(
            columns.enemies[entity]->0.animated(
                columns.velocities[entity]->0,
                columns.sprites[entity]->0@,
            ).0,
        )
    } else {
        columns.enemies[entity]
    }
}

/// Whether `after` is the world `before` after the pass for the enemies:
/// the sprite of every entity that is drawn as
/// an enemy shows the clip chosen for the enemy, and the enemy knows whether
/// its death clip has been played; nothing else has changed.
pub open spec fn is_enemy_animation(before: Columns, after: Columns) -> bool {
    &&& after == (Columns { sprites: after.sprites, enemies: after.enemies, ..before })
    &&& after.sprites.len() == before.len()
    &&& after.enemies.len() == before.len()
    &&& forall|entity: int|
        0 <= entity < before.len() ==> sprite_view(#[trigger] after.sprites[entity])
            == enemy_sprite(before, entity)
    &&& forall|entity: int|
        0 <= entity < before.len() ==> #[trigger] after.enemies[entity] == shown_enemy(before, entity)
}

/// Chooses the clip of every entity that is drawn as an enemy.
pub fn enemy_animation_system(world: &mut World)
    requires
        old(world)@.wf(),
        enemies_have_clips(old(world)@),
    ensures
        is_enemy_animation(old(world)@, final(world)@),
        final(world)@.wf(),
{
    let entities: Vec<Entity> = world.query::<(&mut Sprite, &Velocity, &mut Enemy)>();
    let ghost before = world@;
    let count: Entity = world.entities_count();
    proof {
        assert forall|entity: int| 0 <= entity < frontier(entities@, 0, before.len()) implies
            !shows_enemy(before, entity) by {
            lemma_frontier::<(&mut Sprite, &Velocity, &mut Enemy)>(
                before,
                entities@,
                0,
                entity as Entity,
            );
        }
    }
    let mut k: usize = 0;
    while k < entities.len()
        invariant
            k <= entities.len(),
            before.len() == count,
            is_selection::<(&mut Sprite, &Velocity, &mut Enemy)>(before, entities@),
            before.wf(),
            enemies_have_clips(before),
            world@.wf(),
            world@.len() == before.len(),
            world@ == (Columns { sprites: world@.sprites, enemies: world@.enemies, ..before }),
            forall|entity: int|
                #![trigger world@.sprites[entity]]
                0 <= entity < before.len() ==> sprite_view(world@.sprites[entity]) == if entity
                    < frontier(entities@, k as int, before.len()) {
                    enemy_sprite(before, entity)
                } else {
                    sprite_view(before.sprites[entity])
                },
            forall|entity: int|
                #![trigger world@.enemies[entity]]
                0 <= entity < before.len() ==> world@.enemies[entity] == if entity < frontier(
                    entities@,
                    k as int,
                    before.len(),
                ) {
                    shown_enemy(before, entity)
                } else {
                    before.enemies[entity]
                },
        decreases entities.len() - k,
    {
        let entity: Entity = entities[k];
        proof {
            lemma_frontier_grows::<(&mut Sprite, &Velocity, &mut Enemy)>(
                before,
                entities@,
                k as int,
            );
            assert(shows_enemy(before, entity as int));
        }
        assert(sprite_view(world@.sprites[entity as int]) == sprite_view(
            before.sprites[entity as int],
        ));
        match (
            world.sprites.get_mut(entity),
            world.velocities.get(entity),
            world.enemies.get_mut(entity),
        ) {
            (Some(sprite), Some(velocity), Some(enemy)) => {
                enemy.handle_enemy_animation(velocity, sprite);
            },
            _ => {
                assert(false);
            },
        }
        proof {
            assert forall|other: int|
                entity < other < frontier(entities@, k + 1, before.len()) implies !shows_enemy(
                before,
                other,
            ) by {
                lemma_frontier::<(&mut Sprite, &Velocity, &mut Enemy)>(
                    before,
                    entities@,
                    k + 1,
                    other as Entity,
                );
            }
        }
        k += 1;
    }
}

/// The sprite of `entity` after the time `dt` has passed for its animation.
pub open spec fn updated_sprite(columns: Columns, dt: u32, entity: int) -> Option<SpriteView> {
    match columns.sprites[entity] {
        Some(sprite) => Some(sprite@.update(dt)),
        None => None,
    }
}

/// Whether `after` is the world `before` after the time `dt` has passed for
/// the animation of every sprite; nothing else has changed.
pub open spec fn is_update(before: Columns, after: Columns, dt: u32) -> bool {
    &&& after == (Columns { sprites: after.sprites, ..before })
    &&& after.sprites.len() == before.len()
    &&& forall|entity: int|
        0 <= entity < before.len() ==> sprite_view(#[trigger] after.sprites[entity])
            == updated_sprite(before, dt, entity)
}

/// Lets the time `dt` pass for the animation of every sprite.
pub fn update_sprites(world: &mut World, dt: u32)
    requires
        old(world)@.wf(),
    ensures
        is_update(old(world)@, final(world)@, dt),
        final(world)@.wf(),
{
    let entities: Vec<Entity> = world.query::<&mut Sprite>();
    let ghost before = world@;
    let count: Entity = world.entities_count();
    proof {
        assert forall|entity: int| 0 <= entity < frontier(entities@, 0, before.len()) implies
            before.sprites[entity] is None by {
            lemma_frontier::<&mut Sprite>(before, entities@, 0, entity as Entity);
        }
    }
    let mut k: usize = 0;
    while k < entities.len()
        invariant
            k <= entities.len(),
            before.len() == count,
            is_selection::<&mut Sprite>(before, entities@),
            before.wf(),
            world@.wf(),
            world@.len() == before.len(),
            world@ == (Columns { sprites: world@.sprites, ..before }),
            forall|entity: int|
                #![trigger world@.sprites[entity]]
                0 <= entity < before.len() ==> sprite_view(world@.sprites[entity]) == if entity
                    < frontier(entities@, k as int, before.len()) {
                    updated_sprite(before, dt, entity)
                } else {
                    sprite_view(before.sprites[entity])
                },
        decreases entities.len() - k,
    {
        let entity: Entity = entities[k];
        proof {
            lemma_frontier_grows::<&mut Sprite>(before, entities@, k as int);
        }
        assert(sprite_view(world@.sprites[entity as int]) == sprite_view(
            before.sprites[entity as int],
        ));
        match world.sprites.get_mut(entity) {
            Some(sprite) => {
                match &mut sprite.animation {
                    Some(animation) => {
                        animation.update(dt);
                    },
                    None => {},
                }
            },
            None => {
                assert(false);
            },
        }
        proof {
            assert forall|other: int|
                entity < other < frontier(entities@, k + 1, before.len()) implies before.sprites[other] is None by {
                lemma_frontier::<&mut Sprite>(before, entities@, k + 1, other as Entity);
            }
        }
        k += 1;
    }
}

/// The sprite of `entity` at the end of a frame of the length `dt`. Its clip
/// is chosen as for a player if the entity is drawn as one, then as for an
/// enemy if it is drawn as one; once the clip is chosen, the time passes for
/// its animation, one time.
pub open spec fn animated_sprite(columns: Columns, dt: u32, entity: int) -> Option<SpriteView> {
    match columns.sprites[entity] {
        Some(sprite) => {
            let as_player = if shows_player(columns, entity) {
                columns.players[entity]->0.animated(columns.velocities[entity]->0, sprite@)
            } else {
                sprite@
            };
            let as_enemy = if shows_enemy(columns, entity) {
                columns.enemies[entity]->0.animated(
                    columns.velocities[entity]->0,
                    as_player,
                ).1
            } else {
                as_player
            };
            Some(as_enemy.update(dt))
        },
        None => None,
    }
}

/// The slot of `entity` for enemies at the end of a frame of the length `dt`.
pub open spec fn animated_enemy(columns: Columns, entity: int) -> Option<Enemy> {
    if shows_enemy(columns, entity) {
        let sprite = columns.sprites[entity]->0@;
        let as_player = if shows_player(columns, entity) {
            columns.players[entity]->0.animated(columns.velocities[entity]->0, sprite)
        } else {
            sprite
        };
        Some(columns.enemies[entity]->0.animated(columns.velocities[entity]->0, as_player).0)
    } else {
        columns.enemies[entity]
    }
}

/// Whether `after` is the world `before` at the end of a frame of the length
/// `dt`, as far as animation goes: every sprite is as [`animated_sprite`]
/// says and every enemy as [`animated_enemy`] says; nothing else has changed.
pub open spec fn is_animation(before: Columns, after: Columns, dt: u32) -> bool {
    &&& after == (Columns { sprites: after.sprites, enemies: after.enemies, ..before })
    &&& after.sprites.len() == before.len()
    &&& after.enemies.len() == before.len()
    &&& forall|entity: int|
        0 <= entity < before.len() ==> sprite_view(#[trigger] after.sprites[entity])
            == animated_sprite(before, dt, entity)
    &&& forall|entity: int|
        0 <= entity < before.len() ==> #[trigger] after.enemies[entity] == animated_enemy(before, entity)
}

/// Whether [`animation_systems`] can run on the world: the animation of
/// every entity that is drawn as a player or as an enemy has the clips that
/// are chosen from.
pub fn can_animate(world: &World) -> (ready: bool)
    requires
        world@.wf(),
    ensures
        ready == has_clips(world@),
{
    let count: Entity = world.entities_count();
    let mut entity: Entity = 0;
    while entity < count
        invariant
            entity <= count,
            count == world@.len(),
            world@.wf(),
            forall|other: int|
                0 <= other < entity && #[trigger] shows_player(world@, other)
                    && world@.sprites[other]->0@.animation is Some
                    ==> world@.sprites[other]->0@.clips() >= PLAYER_CLIPS,
            forall|other: int|
                0 <= other < entity && #[trigger] shows_enemy(world@, other)
                    && world@.sprites[other]->0@.animation is Some
                    ==> world@.sprites[other]->0@.clips() >= ENEMY_CLIPS,
        decreases count - entity,
    {
        let clips: Option<usize> = match world.get_component::<Sprite>(entity) {
            Some(sprite) => match &sprite.animation {
                Some(animation) => Some(animation.animation_count()),
                None => None,
            },
            None => None,
        };
        let moves: bool = world.get_component::<Velocity>(entity).is_some();
        let is_player: bool = world.get_component::<Player>(entity).is_some();
        let is_enemy: bool = world.get_component::<Enemy>(entity).is_some();
        match clips {
            Some(clips) => {
                if moves && is_player && clips < PLAYER_CLIPS {
                    assert(shows_player(world@, entity as int));
                    return false;
                }
                if moves && is_enemy && clips < ENEMY_CLIPS {
                    assert(shows_enemy(world@, entity as int));
                    return false;
                }
            },
            None => {},
        }
        entity += 1;
    }
    true
}

/// Chooses the clip of every player and every enemy, and then lets the time
/// `dt` pass for the animation of every sprite, once for each.
pub fn animation_systems(world: &mut World, dt: u32)
    requires
        old(world)@.wf(),
        has_clips(old(world)@),
    ensures
        is_animation(old(world)@, final(world)@, dt),
        final(world)@.wf(),
{
    let ghost before = world@;
    player_animation_system(world);
    let ghost as_players = world@;
    proof {
        assert forall|entity: int|
            0 <= entity < as_players.len() && #[trigger] shows_enemy(as_players, entity)
                && as_players.sprites[entity]->0@.animation is Some implies as_players.sprites[entity]->0@.clips()
            >= ENEMY_CLIPS by {
            assert(sprite_view(as_players.sprites[entity]) == player_sprite(before, entity));
            assert(shows_enemy(before, entity));
        }
    }
    enemy_animation_system(world);
    let ghost as_enemies = world@;
    update_sprites(world, dt);
    proof {
        assert forall|entity: int| 0 <= entity < before.len() implies sprite_view(
            #[trigger] world@.sprites[entity],
        ) == animated_sprite(before, dt, entity) by {
            assert(sprite_view(as_players.sprites[entity]) == player_sprite(before, entity));
            assert(sprite_view(as_enemies.sprites[entity]) == enemy_sprite(as_players, entity));
            assert(sprite_view(world@.sprites[entity]) == updated_sprite(as_enemies, dt, entity));
        }
        assert forall|entity: int| 0 <= entity < before.len() implies #[trigger] world@.enemies[entity]
            == animated_enemy(before, entity) by {
            assert(sprite_view(as_players.sprites[entity]) == player_sprite(before, entity));
            assert(as_enemies.enemies[entity] == shown_enemy(as_players, entity));
        }
    }
}

/// Whether the worlds `before` and `after` have the same shape: every
/// entity has components of the same kinds in both, and every sprite has as
/// many clips in the one as in the other.
pub open spec fn same_shape(before: Columns, after: Columns) -> bool {
    &&& after.wf()
    &&& after.len() == before.len()
    &&& forall|entity: int|
        0 <= entity < before.len() ==> {
            &&& (#[trigger] after.sprites[entity]) is Some == before.sprites[entity] is Some
            &&& sprite_view(after.sprites[entity]) is Some ==> {
                &&& after.sprites[entity]->0@.clips() == before.sprites[entity]->0@.clips()
                &&& after.sprites[entity]->0@.animation is Some
                    == before.sprites[entity]->0@.animation is Some
            }
        }
    &&& forall|entity: int|
        0 <= entity < before.len() ==> (#[trigger] after.velocities[entity]) is Some
            == before.velocities[entity] is Some
    &&& forall|entity: int|
        0 <= entity < before.len() ==> (#[trigger] after.players[entity]) is Some
            == before.players[entity] is Some
    &&& forall|entity: int|
        0 <= entity < before.len() ==> (#[trigger] after.enemies[entity]) is Some
            == before.enemies[entity] is Some
}

/// A world has its own shape.
pub proof fn lemma_shape_of_itself(columns: Columns)
    requires
        columns.wf(),
    ensures
        same_shape(columns, columns),
{
}

/// Worlds of the same shape as a third have the same shape.
pub proof fn lemma_shape_carries_over(first: Columns, second: Columns, third: Columns)
    requires
        same_shape(first, second),
        same_shape(second, third),
    ensures
        same_shape(first, third),
{
    assert forall|entity: int| 0 <= entity < first.len() implies {
        &&& (#[trigger] third.sprites[entity]) is Some == first.sprites[entity] is Some
        &&& sprite_view(third.sprites[entity]) is Some ==> {
            &&& third.sprites[entity]->0@.clips() == first.sprites[entity]->0@.clips()
            &&& third.sprites[entity]->0@.animation is Some
                == first.sprites[entity]->0@.animation is Some
        }
    } by {
        assert(second.sprites[entity] is Some == first.sprites[entity] is Some);
    }
    assert forall|entity: int| 0 <= entity < first.len() implies (
    #[trigger] third.velocities[entity]) is Some == first.velocities[entity] is Some by {
        assert(second.velocities[entity] is Some == first.velocities[entity] is Some);
    }
    assert forall|entity: int| 0 <= entity < first.len() implies (
    #[trigger] third.players[entity]) is Some == first.players[entity] is Some by {
        assert(second.players[entity] is Some == first.players[entity] is Some);
    }
    assert forall|entity: int| 0 <= entity < first.len() implies (
    #[trigger] third.enemies[entity]) is Some == first.enemies[entity] is Some by {
        assert(second.enemies[entity] is Some == first.enemies[entity] is Some);
    }
}

/// A world of the same shape as one whose animation can run is one whose
/// animation can run.
pub proof fn lemma_shape_keeps_clips(before: Columns, after: Columns)
    requires
        before.wf(),
        has_clips(before),
        same_shape(before, after),
    ensures
        has_clips(after),
{
    assert forall|entity: int|
        0 <= entity < after.len() && #[trigger] shows_player(after, entity)
            && after.sprites[entity]->0@.animation is Some implies after.sprites[entity]->0@.clips()
        >= PLAYER_CLIPS by {
        assert(after.sprites[entity] is Some == before.sprites[entity] is Some);
        assert(after.velocities[entity] is Some == before.velocities[entity] is Some);
        assert(after.players[entity] is Some == before.players[entity] is Some);
        assert(shows_player(before, entity));
    }
    assert forall|entity: int|
        0 <= entity < after.len() && #[trigger] shows_enemy(after, entity)
            && after.sprites[entity]->0@.animation is Some implies after.sprites[entity]->0@.clips()
        >= ENEMY_CLIPS by {
        assert(after.sprites[entity] is Some == before.sprites[entity] is Some);
        assert(after.velocities[entity] is Some == before.velocities[entity] is Some);
        assert(after.enemies[entity] is Some == before.enemies[entity] is Some);
        assert(shows_enemy(before, entity));
    }
}

/// Animation leaves the world in the shape it had.
pub proof fn lemma_animation_keeps_shape(before: Columns, after: Columns, dt: u32)
    requires
        before.wf(),
        is_animation(before, after, dt),
    ensures
        same_shape(before, after),
{
    assert forall|entity: int| 0 <= entity < before.len() implies {
        &&& (#[trigger] after.sprites[entity]) is Some == before.sprites[entity] is Some
        &&& sprite_view(after.sprites[entity]) is Some ==> {
            &&& after.sprites[entity]->0@.clips() == before.sprites[entity]->0@.clips()
            &&& after.sprites[entity]->0@.animation is Some
                == before.sprites[entity]->0@.animation is Some
        }
    } by {
        assert(sprite_view(after.sprites[entity]) == animated_sprite(before, dt, entity));
        if before.sprites[entity] is Some {
            let sprite = before.sprites[entity]->0@;
            let as_player = if shows_player(before, entity) {
                before.players[entity]->0.animated(before.velocities[entity]->0, sprite)
            } else {
                sprite
            };
            if shows_player(before, entity) {
                before.players[entity]->0.lemma_animated_keeps_clips(
                    before.velocities[entity]->0,
                    sprite,
                );
            }
            if shows_enemy(before, entity) {
                before.enemies[entity]->0.lemma_animated_keeps_clips(
                    before.velocities[entity]->0,
                    as_player,
                );
            }
        }
    }
    assert forall|entity: int| 0 <= entity < before.len() implies (
    #[trigger] after.enemies[entity]) is Some == before.enemies[entity] is Some by {
        assert(after.enemies[entity] == animated_enemy(before, entity));
    }
}

/// Animation leaves every enemy in the state it was in: a dead enemy stays dead.
pub proof fn lemma_animation_keeps_state(before: Columns, after: Columns, dt: u32, entity: int)
    requires
        before.wf(),
        is_animation(before, after, dt),
        0 <= entity < before.len(),
        before.enemies[entity] is Some,
    ensures
        after.enemies[entity] is Some,
        after.enemies[entity]->0.ai_type == before.enemies[entity]->0.ai_type,
{
}

} // verus!
