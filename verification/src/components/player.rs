use crate::components::direction::Direction;
use crate::components::sprite::{Sprite, SpriteView};
use crate::components::velocity::Velocity;
use vstd::prelude::*;

verus! {

/// The number of clips that the sprite sheet of a player must hold for
/// [`Player::handle_player_animation`]: idle, down, right, idle right, up,
/// idle up, attack down, attack sideways and attack up, in this order.
pub const PLAYER_CLIPS: usize = 9;

/// The entity that the user steers.
#[derive(Clone, Copy, Debug, PartialEq, Eq, Structural)]
pub struct Player {
    pub walk_speed: i32,
    /// Whether a swing is under way.
    pub attacking: bool,
    /// The time left of the swing; negative once it is over.
    pub attack_timer: i32,
    /// For how long the player cannot be hit again after a hit.
    pub hit_cooldown_duration: i32,
    /// The time left until the player can be hit again.
    pub hit_cooldown_timer: i32,
    /// The way the player last walked.
    pub last_direction: Direction,
    /// Whether the control for the swing was held in the frame before.
    pub attack_held: bool,
}

impl Player {
    /// A player with the stock speed and timers, facing down.
    pub open spec fn stock() -> Player {
        Player {
            walk_speed: 128_000,
            attacking: false,
            attack_timer: 300,
            hit_cooldown_duration: 1000,
            hit_cooldown_timer: 0,
            last_direction: Direction::Down,
            attack_held: false,
        }
    }

    /// The clip of a walking player and whether it is mirrored: sideways
    /// movement wins over vertical movement, and walking left mirrors the
    /// clip for walking right.
    pub open spec fn spec_walk_clip(velocity: Velocity) -> (usize, bool) {
        if velocity.x > 0 {
            (2, false)
        } else if velocity.x < 0 {
            (2, true)
        } else if velocity.y < 0 {
            (4, false)
        } else {
            (1, false)
        }
    }

    /// Computes [`Self::spec_walk_clip`].
    #[verifier::when_used_as_spec(spec_walk_clip)]
    pub fn walk_clip(velocity: Velocity) -> (clip: (usize, bool))
        ensures
            clip == Self::spec_walk_clip(velocity),
    {
        if velocity.x > 0 {
            (2, false)
        } else if velocity.x < 0 {
            (2, true)
        } else if velocity.y < 0 {
            (4, false)
        } else {
            (1, false)
        }
    }

    /// The clip of a player at rest who last walked with the clip `last`.
    pub open spec fn spec_idle_clip(last: usize) -> usize {
        if last == 2 {
            3
        } else if last == 4 {
            5
        } else {
            0
        }
    }

    /// Computes [`Self::spec_idle_clip`].
    #[verifier::when_used_as_spec(spec_idle_clip)]
    pub fn idle_clip(last: usize) -> (clip: usize)
        ensures
            clip == Self::spec_idle_clip(last),
    {
        if last == 2 {
            3
        } else if last == 4 {
            5
        } else {
            0
        }
    }

    /// The clip of a swinging player that faces `direction`.
    pub open spec fn spec_attack_clip(direction: Direction) -> usize {
        match direction {
            Direction::Down => 6,
            Direction::Left => 7,
            Direction::Right => 7,
            Direction::Up => 8,
        }
    }

    /// Computes [`Self::spec_attack_clip`].
    #[verifier::when_used_as_spec(spec_attack_clip)]
    pub fn attack_clip(direction: Direction) -> (clip: usize)
        ensures
            clip == Self::spec_attack_clip(direction),
    {
        match direction {
            Direction::Down => 6,
            Direction::Left => 7,
            Direction::Right => 7,
            Direction::Up => 8,
        }
    }

    /// The sprite of the player once its clip is chosen, for a player with
    /// the velocity `velocity`. A sprite without animation stays as it is.
    /// Otherwise a moving player shows its walking clip, which the sprite
    /// remembers, and a resting one the idle clip for the clip last
    /// remembered; a swing overrides both with the attack clip for the way
    /// the player faces.
    pub open spec fn animated(&self, velocity: Velocity, sprite: SpriteView) -> SpriteView {
        match sprite.animation {
            None => sprite,
            Some(animation) => {
                let walk = Self::spec_walk_clip(velocity);
                let last = if velocity.is_moving() {
                    walk.0
                } else {
                    sprite.last_animation
                };
                let flipped = if velocity.is_moving() {
                    walk.1
                } else {
                    sprite.flipped
                };
                let base = if velocity.is_moving() {
                    animation.set_animation(walk.0)
                } else {
                    animation.set_animation(Self::spec_idle_clip(last))
                };
                let chosen = if self.attacking {
                    base.set_animation(Self::spec_attack_clip(self.last_direction))
                } else {
                    base
                };
                SpriteView { animation: Some(chosen), flipped, last_animation: last, ..sprite }
            },
        }
    }

    /// The choice of a clip leaves the sprite with the clips it had.
    pub proof fn lemma_animated_keeps_clips(&self, velocity: Velocity, sprite: SpriteView)
        ensures
            self.animated(velocity, sprite).clips() == sprite.clips(),
            self.animated(velocity, sprite).animation is Some == sprite.animation is Some,
    {
    }

    /// Chooses the clip of the player `player` for this frame. The time
    /// passes for the animation afterwards, with that of every other sprite.
    pub fn handle_player_animation(&self, velocity: &Velocity, sprite: &mut Sprite, player: &Player)
        requires
            old(sprite)@.animation is Some ==> old(sprite)@.clips() >= PLAYER_CLIPS,
        ensures
            final(sprite)@ == player.animated(*velocity, old(sprite)@),
    {
        if sprite.animation.is_none() {
            return ;
        }
        let moving: bool = velocity.is_moving();
        if moving {
            let walk: (usize, bool) = Self::walk_clip(*velocity);
            sprite.flipped = walk.1;
            sprite.last_animation = walk.0;
        }
        let base: usize = if moving {
            sprite.last_animation
        } else {
            Self::idle_clip(sprite.last_animation)
        };
        let attack: usize = Self::attack_clip(player.last_direction);
        match &mut sprite.animation {
            Some(animation) => {
                animation.set_animation(base);
                if player.attacking {
                    animation.set_animation(attack);
                }
            },
            None => {},
        }
    }
}

impl Default for Player {
    fn default() -> (player: Player)
        ensures
            player == Player::stock(),
    {
        Player {
            walk_speed: 128_000,
            attacking: false,
            attack_timer: 300,
            hit_cooldown_duration: 1000,
            hit_cooldown_timer: 0,
            last_direction: Direction::Down,
            attack_held: false,
        }
    }
}

} // verus!
