use crate::animation::{AnimatedSprite, AnimatedSpriteView};
use crate::math::{Rect, Vec2};
use vstd::prelude::*;

verus! {

/// Names a texture that was loaded before the first frame.
pub type TextureId = u32;

/// How an entity is drawn.
#[derive(Debug)]
pub struct Sprite {
    pub texture: TextureId,
    /// The part of the texture to draw where there is no animation; without
    /// it the whole texture is drawn.
    pub source_rect: Option<Rect>,
    pub animation: Option<AnimatedSprite>,
    pub dest_size: Option<Vec2>,
    /// Whether the sprite is mirrored left to right.
    pub flipped: bool,
    /// The clip that was chosen when the entity last moved.
    pub last_animation: usize,
}

/// What a [`Sprite`] holds, as a mathematical value.
pub struct SpriteView {
    pub texture: TextureId,
    pub source_rect: Option<Rect>,
    pub animation: Option<AnimatedSpriteView>,
    pub dest_size: Option<Vec2>,
    pub flipped: bool,
    pub last_animation: usize,
}

impl View for Sprite {
    type V = SpriteView;

    open spec fn view(&self) -> SpriteView {
        SpriteView {
            texture: self.texture,
            source_rect: self.source_rect,
            animation: match self.animation {
                Some(animation) => Some(animation@),
                None => None,
            },
            dest_size: self.dest_size,
            flipped: self.flipped,
            last_animation: self.last_animation,
        }
    }
}

impl SpriteView {
    /// The number of clips of the animation; zero without an animation.
    pub open spec fn clips(self) -> nat {
        match self.animation {
            Some(animation) => animation.animations.len(),
            None => 0,
        }
    }

    /// The part of the texture to draw: the current frame of the animation,
    /// or else the fixed source rectangle.
    pub open spec fn source(self) -> Option<Rect> {
        match self.animation {
            Some(animation) => Some(animation.frame().source_rect),
            None => self.source_rect,
        }
    }

    /// The sprite after the time `dt` has passed for its animation.
    pub open spec fn update(self, dt: u32) -> SpriteView {
        match self.animation {
            Some(animation) => SpriteView { animation: Some(animation.update(dt)), ..self },
            None => self,
        }
    }
}

} // verus!
