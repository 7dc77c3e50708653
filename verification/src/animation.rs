//! Frame-stepped sprite animation.
//!
//! A sprite sheet is a grid of equally sized tiles. Each row of the grid holds the
//! frames of one clip; an [`AnimatedSprite`] remembers which clip is shown, which
//! frame of it, and how long that frame has been on screen.

use crate::math::{Rect, Vec2, SCALE};
use vstd::prelude::*;

verus! {

/// One clip of a sprite sheet: the row that holds its frames, the number of
/// frames, and the number of frames shown per second.
#[derive(Clone, Copy, Debug, PartialEq, Eq, Structural)]
pub struct Animation {
    pub row: u32,
    pub frames: u32,
    pub fps: u32,
}

/// The tile of the sheet that is on display, and the size it is drawn at.
#[derive(Clone, Copy, Debug, PartialEq, Eq, Structural)]
pub struct AnimationFrame {
    pub source_rect: Rect,
    pub dest_size: Vec2,
}

/// The clips of one sprite sheet and the state of their playback.
#[derive(Debug)]
pub struct AnimatedSprite {
    tile_width: i32,
    tile_height: i32,
    animations: Vec<Animation>,
    current_animation: usize,
    time: u32,
    frame: u32,
    playing: bool,
}

/// What an [`AnimatedSprite`] holds, as a mathematical value.
pub struct AnimatedSpriteView {
    pub tile_width: i32,
    pub tile_height: i32,
    pub animations: Seq<Animation>,
    pub current_animation: usize,
    pub time: u32,
    pub frame: u32,
    pub playing: bool,
}

impl AnimatedSpriteView {
    /// There is a current clip, and every clip has at least one frame.
    pub open spec fn wf(self) -> bool {
        &&& self.current_animation < self.animations.len()
        &&& forall|i: int| 0 <= i < self.animations.len() ==> (#[trigger] self.animations[i]).frames > 0
    }

    /// The clip on display.
    pub open spec fn current(self) -> Animation {
        self.animations[self.current_animation as int]
    }

    /// The state of a sprite that was just made from `animations`.
    pub open spec fn fresh(
        tile_width: i32,
        tile_height: i32,
        animations: Seq<Animation>,
        playing: bool,
    ) -> AnimatedSpriteView {
        AnimatedSpriteView {
            tile_width,
            tile_height,
            animations,
            current_animation: 0,
            time: 0,
            frame: 0,
            playing,
        }
    }

    /// The state after the clip `animation` was chosen: the frame counter is
    /// kept, wrapped to the length of the new clip.
    pub open spec fn set_animation(self, animation: usize) -> AnimatedSpriteView {
        AnimatedSpriteView {
            current_animation: animation,
            frame: (self.frame % self.animations[animation as int].frames) as u32,
            ..self
        }
    }

    /// The state after the frame `frame` was chosen.
    pub open spec fn set_frame(self, frame: u32) -> AnimatedSpriteView {
        AnimatedSpriteView { frame, ..self }
    }

    /// The state after the playback was started or stopped.
    pub open spec fn set_playing(self, playing: bool) -> AnimatedSpriteView {
        AnimatedSpriteView { playing, ..self }
    }

    /// Whether the last frame of the current clip is on display.
    pub open spec fn is_last_frame(self) -> bool {
        self.frame == self.current().frames - 1
    }

    /// The time the current frame has been shown once `dt` more has passed;
    /// it stops counting at the largest `u32`.
    pub open spec fn elapsed(self, dt: u32) -> u32 {
        if self.time + dt > u32::MAX {
            u32::MAX
        } else {
            (self.time + dt) as u32
        }
    }

    /// Whether the current frame has been shown for more than its share of a
    /// second once `dt` more has passed.
    pub open spec fn frame_is_over(self, dt: u32) -> bool {
        self.elapsed(dt) * self.current().fps > SCALE
    }

    /// The state after the time `dt` has passed. While playing, the frame
    /// advances once its time is over, and the timer starts again; in any case
    /// the frame counter is wrapped to the length of the clip.
    pub open spec fn update(self, dt: u32) -> AnimatedSpriteView {
        let frames = self.current().frames;
        if !self.playing {
            AnimatedSpriteView { frame: (self.frame % frames) as u32, ..self }
        } else if self.frame_is_over(dt) {
            AnimatedSpriteView { frame: ((self.frame + 1) % (frames as int)) as u32, time: 0, ..self }
        } else {
            AnimatedSpriteView { frame: (self.frame % frames) as u32, time: self.elapsed(dt), ..self }
        }
    }

    /// The tile on display: tiles are counted from the left edge of the row
    /// of the current clip.
    pub open spec fn frame(self) -> AnimationFrame {
        AnimationFrame {
            source_rect: Rect {
                x: (self.tile_width * self.frame) as i64,
                y: (self.tile_height * self.current().row) as i64,
                w: self.tile_width as i64,
                h: self.tile_height as i64,
            },
            dest_size: Vec2 { x: self.tile_width, y: self.tile_height },
        }
    }
}

impl View for AnimatedSprite {
    type V = AnimatedSpriteView;

    closed spec fn view(&self) -> AnimatedSpriteView {
        AnimatedSpriteView {
            tile_width: self.tile_width,
            tile_height: self.tile_height,
            animations: self.animations@,
            current_animation: self.current_animation,
            time: self.time,
            frame: self.frame,
            playing: self.playing,
        }
    }
}

impl AnimatedSprite {
    #[verifier::type_invariant]
    spec fn inv(&self) -> bool {
        self@.wf()
    }

    /// A sprite over tiles of the given size, showing the first frame of the
    /// first clip.
    pub fn new(tile_width: i32, tile_height: i32, animations: Vec<Animation>, playing: bool) -> (sprite:
        AnimatedSprite)
        requires
            animations.len() > 0,
            forall|i: int| 0 <= i < animations.len() ==> (#[trigger] animations[i]).frames > 0,
        ensures
            sprite@ == AnimatedSpriteView::fresh(tile_width, tile_height, animations@, playing),
            sprite@.wf(),
    {
        AnimatedSprite {
            tile_width,
            tile_height,
            animations,
            current_animation: 0,
            time: 0,
            frame: 0,
            playing,
        }
    }

    /// Chooses the clip to display. The frame counter is not reset.
    pub fn set_animation(&mut self, animation: usize)
        requires
            animation < old(self)@.animations.len(),
        ensures
            final(self)@ == old(self)@.set_animation(animation),
            final(self)@.wf(),
    {
        proof {
            use_type_invariant(&*self);
        }
        self.current_animation = animation;
        let frames: u32 = self.animations[animation].frames;
        self.frame = self.frame % frames;
    }

    /// The index of the clip on display.
    pub fn current_animation(&self) -> (animation: usize)
        ensures
            animation == self@.current_animation,
    {
        self.current_animation
    }

    /// The number of clips.
    pub fn animation_count(&self) -> (count: usize)
        ensures
            count == self@.animations.len(),
            self@.wf(),
    {
        proof {
            use_type_invariant(self);
        }
        self.animations.len()
    }

    /// Shows the given frame of the current clip.
    pub fn set_frame(&mut self, frame: u32)
        ensures
            final(self)@ == old(self)@.set_frame(frame),
    {
        proof {
            use_type_invariant(&*self);
        }
        self.frame = frame;
    }

    /// Whether [`AnimatedSprite::update`] advances the frame.
    pub fn playing(&self) -> (playing: bool)
        ensures
            playing == self@.playing,
    {
        self.playing
    }

    /// Starts or stops the playback.
    pub fn set_playing(&mut self, playing: bool)
        ensures
            final(self)@ == old(self)@.set_playing(playing),
    {
        proof {
            use_type_invariant(&*self);
        }
        self.playing = playing;
    }

    /// Whether the last frame of the current clip is on display.
    pub fn is_last_frame(&self) -> (last: bool)
        ensures
            last == self@.is_last_frame(),
    {
        proof {
            use_type_invariant(self);
        }
        let frames: u32 = self.animations[self.current_animation].frames;
        self.frame == frames - 1
    }

    /// Lets the time `dt` pass.
    pub fn update(&mut self, dt: u32)
        ensures
            final(self)@ == old(self)@.update(dt),
            old(self)@.wf(),
            final(self)@.wf(),
    {
        proof {
            use_type_invariant(&*self);
        }
        let animation: Animation = self.animations[self.current_animation];
        let mut next: u64 = self.frame as u64;
        if self.playing {
            let elapsed: u64 = self.time as u64 + dt as u64;
            self.time = if elapsed > u32::MAX as u64 {
                u32::MAX
            } else {
                elapsed as u32
            };
            assert(self.time * animation.fps <= u64::MAX) by (nonlinear_arith)
                requires
                    0 <= self.time <= u32::MAX,
                    0 <= animation.fps <= u32::MAX,
            ;
            if (self.time as u64) * (animation.fps as u64) > SCALE as u64 {
                next = next + 1;
                self.time = 0;
            }
        }
        self.frame = (next % (animation.frames as u64)) as u32;
    }

    /// The tile on display.
    pub fn frame(&self) -> (frame: AnimationFrame)
        ensures
            frame == self@.frame(),
    {
        proof {
            use_type_invariant(self);
        }
        let animation: Animation = self.animations[self.current_animation];
        assert(-0x8000_0000_0000_0000 < self.tile_width * self.frame < 0x8000_0000_0000_0000)
            by (nonlinear_arith)
            requires
                -0x8000_0000 <= self.tile_width < 0x8000_0000,
                0 <= self.frame < 0x1_0000_0000,
        ;
        assert(-0x8000_0000_0000_0000 < self.tile_height * animation.row < 0x8000_0000_0000_0000)
            by (nonlinear_arith)
            requires
                -0x8000_0000 <= self.tile_height < 0x8000_0000,
                0 <= animation.row < 0x1_0000_0000,
        ;
        AnimationFrame {
            source_rect: Rect {
                x: (self.tile_width as i64) * (self.frame as i64),
                y: (self.tile_height as i64) * (animation.row as i64),
                w: self.tile_width as i64,
                h: self.tile_height as i64,
            },
            dest_size: Vec2 { x: self.tile_width, y: self.tile_height },
        }
    }
}

} // verus!
