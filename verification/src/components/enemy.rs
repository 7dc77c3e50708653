use crate::animation::{AnimatedSprite, AnimatedSpriteView, Animation};
use crate::components::collider::Collider;
use crate::components::sprite::{Sprite, SpriteView};
use crate::components::velocity::Velocity;
use crate::math::{directed, lemma_directed_length, size, spec_directed, Vec2};
use crate::random::random_below;
use vstd::prelude::*;

verus! {

/// How far from zero a coordinate of the point can be that gives a
/// wandering enemy its direction.
pub const REACH: i32 = 0x4000_0000;

/// How many points a wandering enemy draws at most for one direction.
pub const TRIES: u32 = 32;

/// The number of clips that the sprite sheet of an enemy must hold for
/// [`Enemy::handle_enemy_animation`]: idle, idle sideways, idle up, move
/// down, move sideways, move up, attack down, attack sideways, attack up,
/// damaged and death, in this order.
pub const ENEMY_CLIPS: usize = 11;

/// What an enemy is doing.
#[derive(Clone, Copy, Debug, PartialEq, Eq, Structural)]
pub enum AIType {
    Attack,
    ChasePlayer,
    Wander,
    /// The enemy was killed. It stays so.
    Dead,
}

/// An entity that hunts the player.
#[derive(Clone, Copy, Debug, PartialEq, Eq, Structural)]
pub struct Enemy {
    pub walk_speed: i32,
    pub chase_speed: i32,
    pub attack_speed: i32,
    /// The time between two swings.
    pub attack_interval: i32,
    /// The time since the last change of direction while wandering.
    pub movement_timer: i32,
    pub ai_type: AIType,
    /// The time between two changes of direction while wandering.
    pub change_direction_interval: i32,
    /// Whether a swing is under way.
    pub attacking: bool,
    /// The time since the last swing began.
    pub attack_timer: i32,
    /// The distance to the player within which the enemy chases it.
    pub aggro_range: i32,
    /// The distance to the player within which the enemy attacks it.
    pub attack_range: i32,
    /// The time that the current swing has lasted.
    pub attack_animation_timer: i32,
    /// The time that a swing lasts.
    pub attack_animation_duration: i32,
    /// The time left until the enemy can be hit.
    pub hit_cooldown: i32,
    /// Whether the death clip has been played to its end.
    pub death_animation_finished: bool,
}

impl Enemy {
    /// An enemy with the stock speeds, ranges and timers, wandering.
    pub open spec fn stock() -> Enemy {
        Enemy {
            walk_speed: 24_000,
            chase_speed: 48_000,
            attack_speed: 96_000,
            movement_timer: 0,
            ai_type: AIType::Wander,
            change_direction_interval: 1500,
            attack_interval: 1500,
            attacking: false,
            attack_timer: 1500,
            aggro_range: 100_000,
            attack_range: 60_000,
            attack_animation_timer: 300,
            attack_animation_duration: 300,
            hit_cooldown: 0,
            death_animation_finished: false,
        }
    }

    /// Whether the enemy was killed.
    pub open spec fn spec_is_dead(&self) -> bool {
        self.ai_type == AIType::Dead
    }

    /// Computes [`Self::spec_is_dead`].
    #[verifier::when_used_as_spec(spec_is_dead)]
    pub fn is_dead(&self) -> (dead: bool)
        ensures
            dead == self.spec_is_dead(),
    {
        self.ai_type == AIType::Dead
    }

    /// The velocity of a wandering enemy that has drawn the point `toward`:
    /// its walk speed in the direction in which the point lies from the
    /// origin, and rest if the point is the origin itself.
    pub open spec fn course(toward: Vec2, walk_speed: i32) -> Velocity {
        let course = spec_directed(Vec2 { x: 0, y: 0 }, toward, walk_speed);
        Velocity { x: course.x, y: course.y }
    }

    /// Whether `toward` is a point that a wandering enemy can draw: none of
    /// its coordinates is farther from zero than [`REACH`].
    pub open spec fn in_reach(toward: Vec2) -> bool {
        &&& -REACH <= toward.x <= REACH
        &&& -REACH <= toward.y <= REACH
    }

    /// A wandering enemy that does not rest walks at its walk speed: its
    /// course is no longer than the walk speed, and would be longer with
    /// either coordinate one thousandth farther from zero.
    pub proof fn lemma_course_has_walk_speed(toward: Vec2, walk_speed: i32)
        requires
            toward != (Vec2 { x: 0, y: 0 }),
            walk_speed > i32::MIN,
        ensures
            ({
                let course = Self::course(toward, walk_speed);
                &&& course.x * course.x + course.y * course.y <= walk_speed * walk_speed
                &&& walk_speed * walk_speed < (size(course.x as int) + 1) * (size(course.x as int)
                    + 1) + (size(course.y as int) + 1) * (size(course.y as int) + 1)
            }),
    {
        lemma_directed_length(Vec2 { x: 0, y: 0 }, toward, walk_speed);
    }

    /// Sets the velocity of a wandering enemy from what was drawn for it:
    /// rest where `pause` was drawn, and otherwise `walk_speed` in the
    /// direction of the point `toward`.
    pub fn steer(&self, velocity: &mut Velocity, walk_speed: i32, pause: bool, toward: Vec2)
        ensures
            *final(velocity) == if pause {
                Velocity::zero()
            } else {
                Self::course(toward, walk_speed)
            },
    {
        if pause {
            velocity.x = 0;
            velocity.y = 0;
        } else {
            let course: Vec2 = directed(Vec2 { x: 0, y: 0 }, toward, walk_speed);
            velocity.x = course.x;
            velocity.y = course.y;
        }
    }

    /// Draws one coordinate of a point, evenly from what is in reach.
    fn draw_coordinate() -> (c: i32)
        ensures
            -REACH <= c <= REACH,
    {
        let drawn: u32 = random_below(0x8000_0001);
        (drawn as i64 - REACH as i64) as i32
    }

    /// Whether the point lies in the disc around the origin whose radius is
    /// [`REACH`], and is not the origin.
    fn in_disc(x: i32, y: i32) -> (inside: bool)
        requires
            -REACH <= x <= REACH,
            -REACH <= y <= REACH,
        ensures
            inside == (0 < x * x + y * y <= REACH * REACH),
    {
        assert(0 <= x * x <= 0x1000_0000_0000_0000) by (nonlinear_arith)
            requires
                -0x4000_0000 <= x <= 0x4000_0000,
        ;
        assert(0 <= y * y <= 0x1000_0000_0000_0000) by (nonlinear_arith)
            requires
                -0x4000_0000 <= y <= 0x4000_0000,
        ;
        let n: i64 = (x as i64) * (x as i64) + (y as i64) * (y as i64);
        0 < n && n <= 0x1000_0000_0000_0000
    }

    /// Draws the point that gives a wandering enemy its direction. Points
    /// are drawn evenly from the square in reach until one lies in the disc
    /// within it, so that no direction is more likely than another; the
    /// point drawn at the last of [`TRIES`] tries is taken wherever it lies.
    pub fn draw_direction() -> (toward: Vec2)
        ensures
            Self::in_reach(toward),
    {
        let mut toward: Vec2 = Vec2 { x: Self::draw_coordinate(), y: Self::draw_coordinate() };
        let mut tries: u32 = 1;
        while tries < TRIES && !Self::in_disc(toward.x, toward.y)
            invariant
                Self::in_reach(toward),
            decreases TRIES - tries,
        {
            toward = Vec2 { x: Self::draw_coordinate(), y: Self::draw_coordinate() };
            tries += 1;
        }
        toward
    }

    /// Draws a new velocity for a wandering enemy: with even odds it rests,
    /// and else it walks at `walk_speed` in a direction of which none is
    /// more likely than another. Which of these comes out is left to chance.
    pub fn change_direction(&self, velocity: &mut Velocity, walk_speed: i32)
        ensures
            *final(velocity) == Velocity::zero() || exists|toward: Vec2|
                Self::in_reach(toward) && *final(velocity) == Self::course(toward, walk_speed),
    {
        let toward: Vec2 = Self::draw_direction();
        let coin: u32 = random_below(2);
        self.steer(velocity, walk_speed, coin == 0, toward);
    }

    /// The square of the distance between two points.
    pub open spec fn distance_squared(a: Vec2, b: Vec2) -> int {
        (a.x - b.x) * (a.x - b.x) + (a.y - b.y) * (a.y - b.y)
    }

    /// Whether the two points are no more than `range` apart.
    pub open spec fn within(a: Vec2, b: Vec2, range: i32) -> bool {
        Self::distance_squared(a, b) <= range * range
    }

    fn in_range(a: Vec2, b: Vec2, range: i32) -> (r: bool)
        ensures
            r == Self::within(a, b, range),
    {
        let dx: i128 = a.x as i128 - b.x as i128;
        let dy: i128 = a.y as i128 - b.y as i128;
        let reach: i128 = range as i128;
        assert(0 <= dx * dx <= 0x1_0000_0000_0000_0000) by (nonlinear_arith)
            requires
                -0x1_0000_0000 <= dx <= 0x1_0000_0000,
        ;
        assert(0 <= dy * dy <= 0x1_0000_0000_0000_0000) by (nonlinear_arith)
            requires
                -0x1_0000_0000 <= dy <= 0x1_0000_0000,
        ;
        assert(0 <= reach * reach <= 0x4000_0000_0000_0000) by (nonlinear_arith)
            requires
                -0x8000_0000 <= reach <= 0x8000_0000,
        ;
        dx * dx + dy * dy <= reach * reach
    }

    /// Whether the player is within `attack_range` of the enemy.
    pub fn should_attack_player(&self, enemy_pos: Vec2, player_pos: Vec2, attack_range: i32) -> (r:
        bool)
        ensures
            r == Self::within(enemy_pos, player_pos, attack_range),
    {
        Self::in_range(enemy_pos, player_pos, attack_range)
    }

    /// Whether the player is within `aggro_range` of the enemy.
    pub fn should_chase_player(&self, enemy_pos: Vec2, player_pos: Vec2, aggro_range: i32) -> (r:
        bool)
        ensures
            r == Self::within(enemy_pos, player_pos, aggro_range),
    {
        Self::in_range(enemy_pos, player_pos, aggro_range)
    }

    /// The clip of a moving enemy and whether it is mirrored: sideways
    /// movement wins over vertical movement, and moving left mirrors the clip
    /// for moving right.
    pub open spec fn spec_walk_clip(velocity: Velocity) -> (usize, bool) {
        if velocity.x > 0 {
            (4, false)
        } else if velocity.x < 0 {
            (4, true)
        } else if velocity.y < 0 {
            (5, false)
        } else {
            (3, false)
        }
    }

    /// Computes [`Self::spec_walk_clip`].
    #[verifier::when_used_as_spec(spec_walk_clip)]
    pub fn walk_clip(velocity: Velocity) -> (clip: (usize, bool))
        ensures
            clip == Self::spec_walk_clip(velocity),
    {
        if velocity.x > 0 {
            (4, false)
        } else if velocity.x < 0 {
            (4, true)
        } else if velocity.y < 0 {
            (5, false)
        } else {
            (3, false)
        }
    }

    /// The clip of an enemy at rest that last moved with the clip `last`.
    pub open spec fn spec_idle_clip(last: usize) -> usize {
        if last == 4 {
            1
        } else if last == 5 {
            2
        } else {
            0
        }
    }

    /// Computes [`Self::spec_idle_clip`].
    #[verifier::when_used_as_spec(spec_idle_clip)]
    pub fn idle_clip(last: usize) -> (clip: usize)
        ensures
            clip == Self::spec_idle_clip(last),
    {
        if last == 4 {
            1
        } else if last == 5 {
            2
        } else {
            0
        }
    }

    /// The clip of a swinging enemy that last moved with the clip `last`, by
    /// which the sprite knows which way the enemy faces: sideways or up
    /// after it moved so, and else down.
    pub open spec fn spec_attack_clip(last: usize) -> usize {
        if last == 4 {
            7
        } else if last == 5 {
            8
        } else {
            6
        }
    }

    /// Computes [`Self::spec_attack_clip`].
    #[verifier::when_used_as_spec(spec_attack_clip)]
    pub fn attack_clip(last: usize) -> (clip: usize)
        ensures
            clip == Self::spec_attack_clip(last),
    {
        if last == 4 {
            7
        } else if last == 5 {
            8
        } else {
            6
        }
    }

    /// The animation of a dead enemy after one frame. Until the death clip
    /// has been played to its end that clip is chosen; once it shows its last
    /// frame the animation is stopped, and stays on that frame.
    pub open spec fn dying(&self, animation: AnimatedSpriteView) -> AnimatedSpriteView {
        if self.death_animation_finished {
            animation
        } else if animation.set_animation(10).is_last_frame() {
            animation.set_animation(10).set_playing(false)
        } else {
            animation.set_animation(10)
        }
    }

    /// Whether the death clip has been played to its end once the frame is
    /// over in which the animation was `animation`.
    pub open spec fn death_finished(&self, animation: AnimatedSpriteView) -> bool {
        self.death_animation_finished || (self.is_dead() && animation.set_animation(
            10,
        ).is_last_frame())
    }

    /// The enemy and its sprite once the clip is chosen, for an enemy with
    /// the velocity `velocity`. A sprite without animation stays as it is,
    /// and so does the enemy. A dead enemy plays its death clip once
    /// ([`Enemy::dying`]). A living one that moves shows its moving clip,
    /// which the sprite remembers, and one at rest the idle clip for the clip
    /// last remembered; a swing overrides both with the attack clip for the
    /// remembered clip, by which the sprite knows which way the enemy faces.
    pub open spec fn animated(&self, velocity: Velocity, sprite: SpriteView) -> (Enemy, SpriteView) {
        match sprite.animation {
            None => (*self, sprite),
            Some(animation) => {
                let walk = Self::spec_walk_clip(velocity);
                let walks = !self.is_dead() && velocity.is_moving();
                let last = if walks {
                    walk.0
                } else {
                    sprite.last_animation
                };
                let flipped = if walks {
                    walk.1
                } else {
                    sprite.flipped
                };
                let base = if velocity.is_moving() {
                    animation.set_animation(walk.0)
                } else {
                    animation.set_animation(Self::spec_idle_clip(last))
                };
                let chosen = if self.is_dead() {
                    self.dying(animation)
                } else if self.attacking {
                    base.set_animation(Self::spec_attack_clip(last))
                } else {
                    base
                };
                (
                    Enemy { death_animation_finished: self.death_finished(animation), ..*self },
                    SpriteView { animation: Some(chosen), flipped, last_animation: last, ..sprite },
                )
            },
        }
    }

    /// The choice of a clip leaves the sprite with the clips it had, and the
    /// enemy in the state it was in.
    pub proof fn lemma_animated_keeps_clips(&self, velocity: Velocity, sprite: SpriteView)
        ensures
            self.animated(velocity, sprite).1.clips() == sprite.clips(),
            self.animated(velocity, sprite).1.animation is Some == sprite.animation is Some,
            self.animated(velocity, sprite).0.ai_type == self.ai_type,
    {
    }

    /// Chooses the clip of the enemy for this frame. The time passes for
    /// the animation afterwards, with that of every other sprite.
    pub fn handle_enemy_animation(&mut self, velocity: &Velocity, sprite: &mut Sprite)
        requires
            old(sprite)@.animation is Some ==> old(sprite)@.clips() >= ENEMY_CLIPS,
        ensures
            (*final(self), final(sprite)@) == old(self).animated(*velocity, old(sprite)@),
    {
        if sprite.animation.is_none() {
            return ;
        }
        let dead: bool = self.is_dead();
        if dead {
            if !self.death_animation_finished {
                match &mut sprite.animation {
                    Some(animation) => {
                        animation.set_animation(10);
                        if animation.is_last_frame() {
                            self.death_animation_finished = true;
                            animation.set_playing(false);
                        }
                    },
                    None => {},
                }
            }
        } else {
            let base: usize = if velocity.is_moving() {
                let walk: (usize, bool) = Self::walk_clip(*velocity);
                sprite.flipped = walk.1;
                sprite.last_animation = walk.0;
                walk.0
            } else {
                Self::idle_clip(sprite.last_animation)
            };
            let attack: usize = Self::attack_clip(sprite.last_animation);
            match &mut sprite.animation {
                Some(animation) => {
                    animation.set_animation(base);
                    if self.attacking {
                        animation.set_animation(attack);
                    }
                },
                None => {},
            }
        }
    }
}

impl Default for Enemy {
    fn default() -> (enemy: Enemy)
        ensures
            enemy == Enemy::stock(),
    {
        Enemy {
            walk_speed: 24_000,
            chase_speed: 48_000,
            attack_speed: 96_000,
            movement_timer: 0,
            ai_type: AIType::Wander,
            change_direction_interval: 1500,
            attack_interval: 1500,
            attacking: false,
            attack_timer: 1500,
            aggro_range: 100_000,
            attack_range: 60_000,
            attack_animation_timer: 300,
            attack_animation_duration: 300,
            hit_cooldown: 0,
            death_animation_finished: false,
        }
    }
}

/// The clips of the sprite sheet of a skeleton or a slime, whose attack clips
/// have `attack_frames` frames and whose other clips of movement have
/// `frames` frames.
pub open spec fn enemy_clips(frames: u32, attack_frames: u32) -> Seq<Animation> {
    seq![
        Animation { row: 0, frames, fps: 4 },
        Animation { row: 1, frames, fps: 4 },
        Animation { row: 2, frames, fps: 4 },
        Animation { row: 3, frames, fps: 4 },
        Animation { row: 4, frames, fps: 4 },
        Animation { row: 5, frames, fps: 4 },
        Animation { row: 6, frames: attack_frames, fps: 4 },
        Animation { row: 7, frames: attack_frames, fps: 4 },
        Animation { row: 8, frames: attack_frames, fps: 4 },
        Animation { row: 9, frames: 4, fps: 4 },
        Animation { row: 12, frames: 5, fps: 8 },
    ]
}

fn enemy_sheet(tile: i32, frames: u32, attack_frames: u32) -> (sprite: AnimatedSprite)
    requires
        frames > 0,
        attack_frames > 0,
    ensures
        sprite@ == AnimatedSpriteView::fresh(tile, tile, enemy_clips(frames, attack_frames), true),
{
    let mut clips: Vec<Animation> = Vec::new();
    clips.push(Animation { row: 0, frames, fps: 4 });
    clips.push(Animation { row: 1, frames, fps: 4 });
    clips.push(Animation { row: 2, frames, fps: 4 });
    clips.push(Animation { row: 3, frames, fps: 4 });
    clips.push(Animation { row: 4, frames, fps: 4 });
    clips.push(Animation { row: 5, frames, fps: 4 });
    clips.push(Animation { row: 6, frames: attack_frames, fps: 4 });
    clips.push(Animation { row: 7, frames: attack_frames, fps: 4 });
    clips.push(Animation { row: 8, frames: attack_frames, fps: 4 });
    clips.push(Animation { row: 9, frames: 4, fps: 4 });
    clips.push(Animation { row: 12, frames: 5, fps: 8 });
    assert(clips@ =~= enemy_clips(frames, attack_frames));
    AnimatedSprite::new(tile, tile, clips, true)
}

/// The animation of a skeleton: tiles of 48 pixels, six frames to a clip.
pub fn animated_skeleton() -> (animation: Option<AnimatedSprite>)
    ensures
        animation matches Some(sprite) && sprite@ == AnimatedSpriteView::fresh(
            48_000,
            48_000,
            enemy_clips(6, 6),
            true,
        ),
{
    Some(enemy_sheet(48_000, 6, 6))
}

/// The animation of a slime: tiles of 32 pixels, four frames to a clip and
/// seven to a clip of attack.
pub fn animated_slime() -> (animation: Option<AnimatedSprite>)
    ensures
        animation matches Some(sprite) && sprite@ == AnimatedSpriteView::fresh(
            32_000,
            32_000,
            enemy_clips(4, 7),
            true,
        ),
{
    Some(enemy_sheet(32_000, 4, 7))
}

/// The kinds of enemy that there are. A kind stands for the figures with
/// which an enemy of that kind is spawned.
#[derive(Clone, Copy, Debug, PartialEq, Eq, Structural)]
pub enum Archetype {
    Skeleton,
    Slime,
}

impl Archetype {
    /// The kind that goes by the name `name`: a skeleton by the name
    /// `skeleton`, and a slime by any other.
    pub open spec fn spec_from_name(name: Seq<char>) -> Archetype {
        if name == "skeleton"@ {
            Archetype::Skeleton
        } else {
            Archetype::Slime
        }
    }

    /// The kind that goes by the name `name`.
    pub fn from_name(name: &str) -> (archetype: Archetype)
        ensures
            archetype == Self::spec_from_name(name@),
    {
        let given: String = name.to_string();
        let skeleton: String = "skeleton".to_string();
        if given == skeleton {
            Archetype::Skeleton
        } else {
            Archetype::Slime
        }
    }

    /// The enemy: a skeleton has to come nearer to the player to attack than
    /// a slime.
    pub open spec fn spec_stats(&self) -> Enemy {
        match self {
            Archetype::Skeleton => Enemy { attack_range: 5_000, ..Enemy::stock() },
            Archetype::Slime => Enemy::stock(),
        }
    }

    /// Computes [`Self::spec_stats`].
    #[verifier::when_used_as_spec(spec_stats)]
    pub fn stats(&self) -> (enemy: Enemy)
        ensures
            enemy == self.spec_stats(),
    {
        let mut enemy: Enemy = Enemy::default();
        match self {
            Archetype::Skeleton => {
                enemy.attack_range = 5_000;
            },
            Archetype::Slime => {},
        }
        enemy
    }

    /// The collider: the visible part of a skeleton is twice as large as
    /// that of a slime.
    pub open spec fn spec_collider(&self) -> Collider {
        Collider {
            collision_offset: Vec2 { x: 24_000, y: 16_000 },
            collision_size: Vec2 { x: 16_000, y: 16_000 },
            sprite_padding: Vec2 { x: 8_000, y: 8_000 },
            visible_size: match self {
                Archetype::Skeleton => Vec2 { x: 32_000, y: 32_000 },
                Archetype::Slime => Vec2 { x: 16_000, y: 16_000 },
            },
        }
    }

    /// Computes [`Self::spec_collider`].
    #[verifier::when_used_as_spec(spec_collider)]
    pub fn collider(&self) -> (collider: Collider)
        ensures
            collider == self.spec_collider(),
    {
        Collider {
            collision_offset: Vec2 { x: 24_000, y: 16_000 },
            collision_size: Vec2 { x: 16_000, y: 16_000 },
            sprite_padding: Vec2 { x: 8_000, y: 8_000 },
            visible_size: match self {
                Archetype::Skeleton => Vec2 { x: 32_000, y: 32_000 },
                Archetype::Slime => Vec2 { x: 16_000, y: 16_000 },
            },
        }
    }

    /// The size at which the sprite is drawn.
    pub open spec fn spec_dest_size(&self) -> Vec2 {
        match self {
            Archetype::Skeleton => Vec2 { x: 48_000, y: 48_000 },
            Archetype::Slime => Vec2 { x: 32_000, y: 32_000 },
        }
    }

    /// Computes [`Self::spec_dest_size`].
    #[verifier::when_used_as_spec(spec_dest_size)]
    pub fn dest_size(&self) -> (size: Vec2)
        ensures
            size == self.spec_dest_size(),
    {
        match self {
            Archetype::Skeleton => Vec2 { x: 48_000, y: 48_000 },
            Archetype::Slime => Vec2 { x: 32_000, y: 32_000 },
        }
    }

    /// The animation at the time the enemy is spawned.
    pub open spec fn sheet(&self) -> AnimatedSpriteView {
        match self {
            Archetype::Skeleton => AnimatedSpriteView::fresh(
                48_000,
                48_000,
                enemy_clips(6, 6),
                true,
            ),
            Archetype::Slime => AnimatedSpriteView::fresh(32_000, 32_000, enemy_clips(4, 7), true),
        }
    }

    /// A new animation for an enemy of this kind.
    pub fn animation(&self) -> (animation: Option<AnimatedSprite>)
        ensures
            animation matches Some(sprite) && sprite@ == self.sheet(),
    {
        match self {
            Archetype::Skeleton => animated_skeleton(),
            Archetype::Slime => animated_slime(),
        }
    }
}

} // verus!
