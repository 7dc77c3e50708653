//! One frame of the simulation: the systems, each in its turn.

use crate::math::Rect;
use crate::systems::aggro::{after_aggro, enemy_aggro_system, lemma_aggro_keeps_dead};
use crate::systems::animation::{
    animation_systems, has_clips, is_animation, lemma_animation_keeps_shape,
    lemma_animation_keeps_state, lemma_shape_carries_over, lemma_shape_keeps_clips,
    lemma_shape_of_itself, same_shape,
};
use crate::systems::attack::{after_player_attack, lemma_attack_keeps_dead, player_attack_system};
use crate::systems::enemy_movement::{
    enemy_movement_systems, is_enemy_movement, lemma_movement_keeps_state,
};
use crate::systems::hit::{after_hit, hit_systems};
use crate::systems::input::{after_input, input_systems, Input};
use crate::systems::movement::{after_movement, movement_systems};
use crate::world::{Columns, World};
use vstd::prelude::*;

verus! {

/// The steps of a frame.
#[derive(Clone, Copy, Debug, PartialEq, Eq, Structural)]
pub enum Phase {
    /// The player follows the controls.
    Input,
    /// Every enemy decides what to do.
    Aggro,
    /// Every enemy sets its velocity and times its swings.
    EnemyMovement,
    /// The swing of the player kills enemies.
    PlayerAttack,
    /// The swings of the enemies hit the player.
    PlayerHit,
    /// Every entity moves.
    Movement,
    /// Every sprite gets its clip, and its animation runs.
    Animation,
}

/// The order in which a frame takes its steps.
pub open spec fn frame_order() -> Seq<Phase> {
    seq![
        Phase::Input,
        Phase::Aggro,
        Phase::EnemyMovement,
        Phase::PlayerAttack,
        Phase::PlayerHit,
        Phase::Movement,
        Phase::Animation,
    ]
}

/// The order in which a frame takes its steps.
pub fn phases() -> (order: Vec<Phase>)
    ensures
        order@ == frame_order(),
{
    let mut order: Vec<Phase> = Vec::new();
    order.push(Phase::Input);
    order.push(Phase::Aggro);
    order.push(Phase::EnemyMovement);
    order.push(Phase::PlayerAttack);
    order.push(Phase::PlayerHit);
    order.push(Phase::Movement);
    order.push(Phase::Animation);
    assert(order@ =~= frame_order());
    order
}

/// Whether `after` is what the world `before` can be after the step `phase`
/// of a frame of the length `dt`, in which the controls `input` were held and
/// `obstacles` stood in the way.
pub open spec fn is_phase(
    phase: Phase,
    before: Columns,
    after: Columns,
    input: Input,
    obstacles: Seq<Rect>,
    dt: u32,
) -> bool {
    match phase {
        Phase::Input => after == after_input(before, input, dt),
        Phase::Aggro => after == after_aggro(before),
        Phase::EnemyMovement => is_enemy_movement(before, after, dt),
        Phase::PlayerAttack => after == after_player_attack(before, dt),
        Phase::PlayerHit => after == after_hit(before, dt),
        Phase::Movement => after == after_movement(before, obstacles, dt),
        Phase::Animation => is_animation(before, after, dt),
    }
}

/// Takes one step of a frame.
pub fn run_phase(world: &mut World, phase: Phase, input: Input, obstacles: &Vec<Rect>, dt: u32)
    requires
        old(world)@.wf(),
        phase == Phase::Animation ==> has_clips(old(world)@),
    ensures
        is_phase(phase, old(world)@, final(world)@, input, obstacles@, dt),
        final(world)@.wf(),
{
    match phase {
        Phase::Input => input_systems(world, input, dt),
        Phase::Aggro => enemy_aggro_system(world),
        Phase::EnemyMovement => enemy_movement_systems(world, dt),
        Phase::PlayerAttack => player_attack_system(world, dt),
        Phase::PlayerHit => hit_systems(world, dt),
        Phase::Movement => movement_systems(world, obstacles, dt),
        Phase::Animation => animation_systems(world, dt),
    }
}

/// Whether `states` are the states of the world from step to step of a
/// frame: there is one more of them than there are steps, and each follows
/// from the one before by the step that is due.
pub open spec fn is_run(states: Seq<Columns>, input: Input, obstacles: Seq<Rect>, dt: u32) -> bool {
    &&& states.len() == frame_order().len() + 1
    &&& forall|i: int|
        0 <= i < frame_order().len() ==> is_phase(
            frame_order()[i],
            #[trigger] states[i],
            states[i + 1],
            input,
            obstacles,
            dt,
        )
}

/// Whether `after` is what the world `before` can be after a frame of the
/// length `dt`, in which the controls `input` were held and `obstacles`
/// stood in the way: the steps of the frame lead from the one to the other.
pub open spec fn is_frame(
    before: Columns,
    after: Columns,
    input: Input,
    obstacles: Seq<Rect>,
    dt: u32,
) -> bool {
    exists|states: Seq<Columns>|
        #![trigger is_run(states, input, obstacles, dt)]
        is_run(states, input, obstacles, dt) && states.first() == before && states.last()
            == after
}

/// A step takes no component from an entity and gives it none, and leaves
/// every sprite with the clips it had.
pub proof fn lemma_phase_keeps_shape(
    phase: Phase,
    before: Columns,
    after: Columns,
    input: Input,
    obstacles: Seq<Rect>,
    dt: u32,
)
    requires
        before.wf(),
        is_phase(phase, before, after, input, obstacles, dt),
    ensures
        same_shape(before, after),
{
    match phase {
        Phase::Input => {},
        Phase::Aggro => {},
        Phase::EnemyMovement => {},
        Phase::PlayerAttack => {},
        Phase::PlayerHit => {},
        Phase::Movement => {},
        Phase::Animation => {
            lemma_animation_keeps_shape(before, after, dt);
        },
    }
}

/// A step brings no dead enemy back to life.
pub proof fn lemma_phase_keeps_dead(
    phase: Phase,
    before: Columns,
    after: Columns,
    input: Input,
    obstacles: Seq<Rect>,
    dt: u32,
    entity: int,
)
    requires
        before.wf(),
        is_phase(phase, before, after, input, obstacles, dt),
        0 <= entity < before.len(),
        before.enemies[entity] is Some,
        before.enemies[entity]->0.is_dead(),
    ensures
        after.enemies[entity] is Some,
        after.enemies[entity]->0.is_dead(),
{
    match phase {
        Phase::Input => {},
        Phase::Aggro => {
            lemma_aggro_keeps_dead(before, entity);
        },
        Phase::EnemyMovement => {
            lemma_movement_keeps_state(before, after, dt, entity);
        },
        Phase::PlayerAttack => {
            lemma_attack_keeps_dead(before, dt, entity);
        },
        Phase::PlayerHit => {},
        Phase::Movement => {},
        Phase::Animation => {
            lemma_animation_keeps_state(before, after, dt, entity);
        },
    }
}

/// An enemy that is dead when a frame begins is dead after each of its steps.
pub proof fn lemma_run_keeps_dead(
    states: Seq<Columns>,
    input: Input,
    obstacles: Seq<Rect>,
    dt: u32,
    entity: int,
    steps: int,
)
    requires
        is_run(states, input, obstacles, dt),
        states[0].wf(),
        0 <= entity < states[0].len(),
        states[0].enemies[entity] is Some,
        states[0].enemies[entity]->0.is_dead(),
        0 <= steps <= frame_order().len(),
    ensures
        states[steps].wf(),
        states[steps].len() == states[0].len(),
        states[steps].enemies[entity] is Some,
        states[steps].enemies[entity]->0.is_dead(),
    decreases steps,
{
    if steps > 0 {
        let i = steps - 1;
        lemma_run_keeps_dead(states, input, obstacles, dt, entity, i);
        assert(is_phase(frame_order()[i], states[i], states[i + 1], input, obstacles, dt));
        lemma_phase_keeps_shape(frame_order()[i], states[i], states[i + 1], input, obstacles, dt);
        lemma_phase_keeps_dead(
            frame_order()[i],
            states[i],
            states[i + 1],
            input,
            obstacles,
            dt,
            entity,
        );
    }
}

/// Death is for good: an enemy that is dead when a frame begins is dead when
/// it ends, wherever the player and the enemy are and whatever the frame
/// brings.
pub proof fn lemma_frame_keeps_dead(
    before: Columns,
    after: Columns,
    input: Input,
    obstacles: Seq<Rect>,
    dt: u32,
    entity: int,
)
    requires
        before.wf(),
        is_frame(before, after, input, obstacles, dt),
        0 <= entity < before.len(),
        before.enemies[entity] is Some,
        before.enemies[entity]->0.is_dead(),
    ensures
        after.enemies[entity] is Some,
        after.enemies[entity]->0.is_dead(),
{
    let states = choose|states: Seq<Columns>|
        #![trigger is_run(states, input, obstacles, dt)]
        is_run(states, input, obstacles, dt) && states.first() == before && states.last()
            == after;
    lemma_run_keeps_dead(states, input, obstacles, dt, entity, 7);
}

/// The steps of a frame take no component from an entity and give it none,
/// and leave every sprite with the clips it had.
pub proof fn lemma_run_keeps_shape(
    states: Seq<Columns>,
    input: Input,
    obstacles: Seq<Rect>,
    dt: u32,
    steps: int,
)
    requires
        is_run(states, input, obstacles, dt),
        states[0].wf(),
        0 <= steps <= frame_order().len(),
    ensures
        same_shape(states[0], states[steps]),
    decreases steps,
{
    if steps == 0 {
        lemma_shape_of_itself(states[0]);
    } else {
        let i = steps - 1;
        lemma_run_keeps_shape(states, input, obstacles, dt, i);
        assert(is_phase(frame_order()[i], states[i], states[i + 1], input, obstacles, dt));
        lemma_phase_keeps_shape(frame_order()[i], states[i], states[i + 1], input, obstacles, dt);
        lemma_shape_carries_over(states[0], states[i], states[i + 1]);
    }
}

/// A frame takes no component from an entity and gives it none, and leaves
/// every sprite with the clips it had: after it the animation can run if it
/// could before.
pub proof fn lemma_frame_keeps_shape(
    before: Columns,
    after: Columns,
    input: Input,
    obstacles: Seq<Rect>,
    dt: u32,
)
    requires
        before.wf(),
        is_frame(before, after, input, obstacles, dt),
    ensures
        same_shape(before, after),
        has_clips(before) ==> has_clips(after),
{
    let states = choose|states: Seq<Columns>|
        #![trigger is_run(states, input, obstacles, dt)]
        is_run(states, input, obstacles, dt) && states.first() == before && states.last()
            == after;
    lemma_run_keeps_shape(states, input, obstacles, dt, 7);
    if has_clips(before) {
        lemma_shape_keeps_clips(before, after);
    }
}

/// Whether `states` are the states of the world from frame to frame: each
/// follows from the one before by a frame, for which `frames` gives the
/// controls that were held, the obstacles that stood in the way and the
/// length.
pub open spec fn is_history(states: Seq<Columns>, frames: Seq<(Input, Seq<Rect>, u32)>) -> bool {
    &&& states.len() == frames.len() + 1
    &&& forall|i: int|
        0 <= i < frames.len() ==> is_frame(
            #[trigger] states[i],
            states[i + 1],
            frames[i].0,
            frames[i].1,
            frames[i].2,
        )
}

/// Death is for good, frame after frame: an enemy that is dead at some time
/// is dead at every later time, whatever happens in between.
pub proof fn lemma_history_keeps_dead(
    states: Seq<Columns>,
    frames: Seq<(Input, Seq<Rect>, u32)>,
    entity: int,
    later: int,
)
    requires
        is_history(states, frames),
        states[0].wf(),
        0 <= entity < states[0].len(),
        states[0].enemies[entity] is Some,
        states[0].enemies[entity]->0.is_dead(),
        0 <= later <= frames.len(),
    ensures
        states[later].wf(),
        states[later].len() == states[0].len(),
        states[later].enemies[entity] is Some,
        states[later].enemies[entity]->0.is_dead(),
    decreases later,
{
    if later > 0 {
        let i = later - 1;
        lemma_history_keeps_dead(states, frames, entity, i);
        assert(is_frame(states[i], states[i + 1], frames[i].0, frames[i].1, frames[i].2));
        lemma_frame_keeps_shape(states[i], states[i + 1], frames[i].0, frames[i].1, frames[i].2);
        lemma_frame_keeps_dead(
            states[i],
            states[i + 1],
            frames[i].0,
            frames[i].1,
            frames[i].2,
            entity,
        );
    }
}

/// Runs one frame of the length `dt`, in which the controls `input` are
/// held and `obstacles` stand in the way: every step in its turn.
pub fn run_frame(world: &mut World, input: Input, obstacles: &Vec<Rect>, dt: u32)
    requires
        old(world)@.wf(),
        has_clips(old(world)@),
    ensures
        is_frame(old(world)@, final(world)@, input, obstacles@, dt),
        final(world)@.wf(),
        final(world)@.len() == old(world)@.len(),
        has_clips(final(world)@),
{
    let order: Vec<Phase> = phases();
    let ghost mut states: Seq<Columns> = seq![world@];
    let mut i: usize = 0;
    while i < order.len()
        invariant
            order@ == frame_order(),
            i <= order.len(),
            states.len() == i + 1,
            states.first() == old(world)@,
            states.last() == world@,
            forall|j: int|
                0 <= j < i ==> is_phase(
                    frame_order()[j],
                    #[trigger] states[j],
                    states[j + 1],
                    input,
                    obstacles@,
                    dt,
                ),
            world@.wf(),
            world@.len() == old(world)@.len(),
            has_clips(world@),
        decreases order.len() - i,
    {
        let ghost before = world@;
        run_phase(world, order[i], input, obstacles, dt);
        proof {
            lemma_phase_keeps_shape(order@[i as int], before, world@, input, obstacles@, dt);
            lemma_shape_keeps_clips(before, world@);
            let longer = states.push(world@);
            assert forall|j: int| 0 <= j < i + 1 implies is_phase(
                frame_order()[j],
                #[trigger] longer[j],
                longer[j + 1],
                input,
                obstacles@,
                dt,
            ) by {
                if j < i {
                    assert(longer[j] == states[j]);
                    assert(longer[j + 1] == states[j + 1]);
                }
            }
            states = longer;
        }
        i += 1;
    }
    proof {
        assert(is_run(states, input, obstacles@, dt));
    }
}

} // verus!
