//! How the player follows the controls.

use crate::components::direction::Direction;
use crate::components::player::Player;
use crate::components::velocity::Velocity;
use crate::entity::Entity;
use crate::math::{directed, narrow, spec_directed, spec_narrow, Vec2};
use crate::query::is_selection;
use crate::systems::pass::{frontier, lemma_frontier, lemma_frontier_grows};
use crate::world::{Columns, World};
use vstd::prelude::*;

verus! {

/// For how long a swing of the player lasts.
pub const ATTACK_TIME: i32 = 300;

/// Which of the controls are held down.
#[derive(Clone, Copy, Debug, PartialEq, Eq, Structural)]
pub struct Input {
    pub up: bool,
    pub down: bool,
    pub left: bool,
    pub right: bool,
    pub attack: bool,
}

/// Where the way that the controls ask for begins, and where it ends: it
/// leads by the walk speed to the right or down where that control is held,
/// and else by the walk speed to the left or up where that control is held.
pub open spec fn spec_way(input: Input, walk_speed: i32) -> (Vec2, Vec2) {
    (
        Vec2 {
            x: if !input.right && input.left {
                walk_speed
            } else {
                0
            },
            y: if !input.down && input.up {
                walk_speed
            } else {
                0
            },
        },
        Vec2 {
            x: if input.right {
                walk_speed
            } else {
                0
            },
            y: if input.down {
                walk_speed
            } else {
                0
            },
        },
    )
}

/// Computes [`spec_way`].
#[verifier::when_used_as_spec(spec_way)]
pub fn way(input: Input, walk_speed: i32) -> (ends: (Vec2, Vec2))
    ensures
        ends == spec_way(input, walk_speed),
{
    (
        Vec2 {
            x: if !input.right && input.left {
                walk_speed
            } else {
                0
            },
            y: if !input.down && input.up {
                walk_speed
            } else {
                0
            },
        },
        Vec2 {
            x: if input.right {
                walk_speed
            } else {
                0
            },
            y: if input.down {
                walk_speed
            } else {
                0
            },
        },
    )
}

/// The velocity that the controls ask for: the walk speed of the player
/// along the way that is held, so that the player is as fast diagonally as
/// along an axis. Right wins over left, and down over up.
pub open spec fn spec_input_velocity(input: Input, walk_speed: i32) -> Velocity {
    let ends = spec_way(input, walk_speed);
    let toward = spec_directed(ends.0, ends.1, walk_speed);
    Velocity { x: toward.x, y: toward.y }
}

/// Computes [`spec_input_velocity`].
#[verifier::when_used_as_spec(spec_input_velocity)]
pub fn input_velocity(input: Input, walk_speed: i32) -> (velocity: Velocity)
    ensures
        velocity == spec_input_velocity(input, walk_speed),
{
    let ends: (Vec2, Vec2) = way(input, walk_speed);
    let toward: Vec2 = directed(ends.0, ends.1, walk_speed);
    Velocity { x: toward.x, y: toward.y }
}

/// The way the player faces: that of the control held, where right wins
/// over left, left over down and down over up; as before where none is held.
pub open spec fn facing(input: Input, last: Direction) -> Direction {
    if input.right {
        Direction::Right
    } else if input.left {
        Direction::Left
    } else if input.down {
        Direction::Down
    } else if input.up {
        Direction::Up
    } else {
        last
    }
}

/// Whether a swing begins: the control for it is held and was not held in
/// the frame before.
pub open spec fn swing_begins(player: Player, input: Input) -> bool {
    input.attack && !player.attack_held
}

/// The time left of the swing of the player once the controls were read.
pub open spec fn swing_left(player: Player, input: Input) -> i32 {
    if swing_begins(player, input) {
        ATTACK_TIME
    } else {
        player.attack_timer
    }
}

/// The player after a frame of the length `dt` in which the controls
/// `input` were held. A swing begins when the control for it goes down, and
/// not again while the control stays down; it counts its time down and ends
/// when none is left.
pub open spec fn spec_steered(player: Player, input: Input, dt: u32) -> Player {
    let left = swing_left(player, input);
    Player {
        last_direction: facing(input, player.last_direction),
        attack_timer: if left >= 0 {
            spec_narrow(left - dt)
        } else {
            left
        },
        attacking: if left >= 0 && left - dt <= 0 {
            false
        } else {
            swing_begins(player, input) || player.attacking
        },
        attack_held: input.attack,
        ..player
    }
}

/// Computes [`spec_steered`].
#[verifier::when_used_as_spec(spec_steered)]
pub fn steered(player: Player, input: Input, dt: u32) -> (next: Player)
    ensures
        next == spec_steered(player, input, dt),
{
    let mut next: Player = player;
    if input.up {
        next.last_direction = Direction::Up;
    }
    if input.down {
        next.last_direction = Direction::Down;
    }
    if input.left {
        next.last_direction = Direction::Left;
    }
    if input.right {
        next.last_direction = Direction::Right;
    }
    if input.attack && !player.attack_held {
        next.attacking = true;
        next.attack_timer = ATTACK_TIME;
    }
    next.attack_held = input.attack;
    if next.attack_timer >= 0 {
        next.attack_timer = narrow(next.attack_timer as i128 - dt as i128);
        if next.attack_timer <= 0 {
            next.attacking = false;
        }
    }
    next
}

/// Whether the query of the pass selects `entity`: it has a velocity and is a player.
pub open spec fn is_steered(columns: Columns, entity: int) -> bool {
    &&& columns.velocities[entity] is Some
    &&& columns.players[entity] is Some
}

/// What the slot of `entity` for velocities holds after the pass.
pub open spec fn velocity_slot(columns: Columns, input: Input, entity: int) -> Option<Velocity> {
    if is_steered(columns, entity) {
        Some(input_velocity(input, columns.players[entity]->0.walk_speed))
    } else {
        columns.velocities[entity]
    }
}

/// What the slot of `entity` for players holds after the pass.
pub open spec fn player_slot(columns: Columns, input: Input, dt: u32, entity: int) -> Option<Player> {
    if is_steered(columns, entity) {
        Some(steered(columns.players[entity]->0, input, dt))
    } else {
        columns.players[entity]
    }
}

/// The world after the pass for a frame of the length `dt` in which the
/// controls `input` were held: every player with a velocity has the velocity
/// that the controls ask for, and has followed the controls.
pub open spec fn after_input(columns: Columns, input: Input, dt: u32) -> Columns {
    Columns {
        velocities: Seq::new(columns.len(), |entity: int| velocity_slot(columns, input, entity)),
        players: Seq::new(columns.len(), |entity: int| player_slot(columns, input, dt, entity)),
        ..columns
    }
}

/// Lets every player that has a velocity follow the controls `input` for a
/// frame of the length `dt`.
pub fn input_systems(world: &mut World, input: Input, dt: u32)
    requires
        old(world)@.wf(),
    ensures
        final(world)@ == after_input(old(world)@, input, dt),
        final(world)@.wf(),
{
    let entities: Vec<Entity> = world.query::<(&mut Velocity, &mut Player)>();
    let ghost before = world@;
    let count: Entity = world.entities_count();
    proof {
        assert forall|entity: int| 0 <= entity < frontier(entities@, 0, before.len()) implies
            !is_steered(before, entity) by {
            lemma_frontier::<(&mut Velocity, &mut Player)>(before, entities@, 0, entity as Entity);
        }
    }
    let mut k: usize = 0;
    while k < entities.len()
        invariant
            k <= entities.len(),
            before.len() == count,
            is_selection::<(&mut Velocity, &mut Player)>(before, entities@),
            before.wf(),
            world@.wf(),
            world@.len() == before.len(),
            world@ == (Columns { velocities: world@.velocities, players: world@.players, ..before }),
            forall|entity: int|
                #![trigger world@.velocities[entity]]
                #![trigger world@.players[entity]]
                0 <= entity < before.len() ==> if entity < frontier(
                    entities@,
                    k as int,
                    before.len(),
                ) {
                    &&& world@.velocities[entity] == velocity_slot(before, input, entity)
                    &&& world@.players[entity] == player_slot(before, input, dt, entity)
                } else {
                    &&& world@.velocities[entity] == before.velocities[entity]
                    &&& world@.players[entity] == before.players[entity]
                },
        decreases entities.len() - k,
    {
        let entity: Entity = entities[k];
        proof {
            lemma_frontier_grows::<(&mut Velocity, &mut Player)>(before, entities@, k as int);
        }
        match (world.velocities.get_mut(entity), world.players.get_mut(entity)) {
            (Some(velocity), Some(player)) => {
                *velocity = input_velocity(input, player.walk_speed);
                *player = steered(*player, input, dt);
            },
            _ => {
                assert(false);
            },
        }
        proof {
            assert forall|other: int|
                entity < other < frontier(entities@, k + 1, before.len()) implies !is_steered(
                before,
                other,
            ) by {
                lemma_frontier::<(&mut Velocity, &mut Player)>(
                    before,
                    entities@,
                    k + 1,
                    other as Entity,
                );
            }
        }
        k += 1;
    }
    proof {
        assert(world@.velocities =~= after_input(before, input, dt).velocities);
        assert(world@.players =~= after_input(before, input, dt).players);
    }
}

} // verus!
