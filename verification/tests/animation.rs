use rustling::animation::{AnimatedSprite, Animation, AnimationFrame};
use rustling::math::{Rect, Vec2};

fn two_clips() -> AnimatedSprite {
    AnimatedSprite::new(
        48_000,
        32_000,
        vec![
            Animation { row: 0, frames: 6, fps: 4 },
            Animation { row: 3, frames: 4, fps: 8 },
        ],
        true,
    )
}

#[test]
fn a_new_sprite_shows_the_first_frame_of_the_first_clip() {
    let sprite = two_clips();
    assert_eq!(sprite.current_animation(), 0);
    assert_eq!(sprite.animation_count(), 2);
    assert!(sprite.playing());
    assert!(!sprite.is_last_frame());
    assert_eq!(
        sprite.frame(),
        AnimationFrame {
            source_rect: Rect { x: 0, y: 0, w: 48_000, h: 32_000 },
            dest_size: Vec2 { x: 48_000, y: 32_000 },
        }
    );
}

#[test]
fn the_frame_advances_when_its_time_is_over() {
    let mut sprite = two_clips();
    sprite.update(100);
    assert_eq!(sprite.frame().source_rect.x, 0);
    sprite.update(100);
    assert_eq!(sprite.frame().source_rect.x, 0);
    sprite.update(100);
    assert_eq!(sprite.frame().source_rect.x, 48_000);
    sprite.update(100);
    assert_eq!(sprite.frame().source_rect.x, 48_000);
}

#[test]
fn a_frame_lasts_its_full_share_of_a_second() {
    let mut sprite = two_clips();
    sprite.update(250);
    assert_eq!(sprite.frame().source_rect.x, 0);
    sprite.update(1);
    assert_eq!(sprite.frame().source_rect.x, 48_000);
    let mut other = two_clips();
    other.update(251);
    assert_eq!(other.frame().source_rect.x, 48_000);
}

#[test]
fn the_timer_starts_again_with_each_frame() {
    let mut sprite = two_clips();
    sprite.update(10_000);
    assert_eq!(sprite.frame().source_rect.x, 48_000);
    sprite.update(250);
    assert_eq!(sprite.frame().source_rect.x, 48_000);
    sprite.update(1);
    assert_eq!(sprite.frame().source_rect.x, 96_000);
}

#[test]
fn the_clip_starts_over_after_its_last_frame() {
    let mut sprite = two_clips();
    for expected in [1i64, 2, 3, 4, 5, 0, 1] {
        sprite.update(300);
        assert_eq!(sprite.frame().source_rect.x, 48_000 * expected);
    }
}

#[test]
fn the_last_frame_is_known() {
    let mut sprite = two_clips();
    for _ in 0..5 {
        assert!(!sprite.is_last_frame());
        sprite.update(300);
    }
    assert!(sprite.is_last_frame());
    sprite.update(300);
    assert!(!sprite.is_last_frame());
}

#[test]
fn a_stopped_sprite_keeps_its_frame() {
    let mut sprite = two_clips();
    sprite.update(300);
    sprite.set_playing(false);
    assert!(!sprite.playing());
    sprite.update(10_000);
    sprite.update(10_000);
    assert_eq!(sprite.frame().source_rect.x, 48_000);
    sprite.set_playing(true);
    sprite.update(300);
    assert_eq!(sprite.frame().source_rect.x, 96_000);
}

#[test]
fn a_sprite_made_stopped_does_not_play() {
    let mut sprite = AnimatedSprite::new(16_000, 16_000, vec![Animation { row: 2, frames: 3, fps: 10 }], false);
    sprite.update(5_000);
    assert_eq!(sprite.frame().source_rect, Rect { x: 0, y: 32_000, w: 16_000, h: 16_000 });
}

#[test]
fn choosing_a_clip_keeps_the_frame_counter() {
    let mut sprite = two_clips();
    for _ in 0..3 {
        sprite.update(300);
    }
    sprite.set_animation(1);
    assert_eq!(sprite.current_animation(), 1);
    assert_eq!(
        sprite.frame().source_rect,
        Rect { x: 144_000, y: 96_000, w: 48_000, h: 32_000 }
    );
    assert!(sprite.is_last_frame());
}

#[test]
fn choosing_a_shorter_clip_wraps_the_frame_counter() {
    let mut sprite = two_clips();
    for _ in 0..5 {
        sprite.update(300);
    }
    sprite.set_animation(1);
    assert_eq!(sprite.frame().source_rect.x, 48_000);
}

#[test]
fn the_speed_of_the_clip_decides_when_the_frame_advances() {
    let mut sprite = two_clips();
    sprite.set_animation(1);
    sprite.update(125);
    assert_eq!(sprite.frame().source_rect.x, 0);
    sprite.update(1);
    assert_eq!(sprite.frame().source_rect.x, 48_000);
}

#[test]
fn a_frame_set_beyond_the_clip_is_shown_until_the_next_update() {
    let mut sprite = two_clips();
    sprite.set_playing(false);
    sprite.set_frame(7);
    assert_eq!(sprite.frame().source_rect.x, 336_000);
    sprite.update(0);
    assert_eq!(sprite.frame().source_rect.x, 48_000);
}

#[test]
fn the_largest_frame_counter_does_not_overflow() {
    let mut sprite = two_clips();
    sprite.set_frame(u32::MAX);
    sprite.update(1_000);
    assert_eq!(sprite.frame().source_rect.x, 48_000 * 4);
}

#[test]
fn a_clip_without_speed_never_advances() {
    let mut sprite = AnimatedSprite::new(8_000, 8_000, vec![Animation { row: 0, frames: 2, fps: 0 }], true);
    sprite.update(u32::MAX);
    sprite.update(u32::MAX);
    assert_eq!(sprite.frame().source_rect.x, 0);
}

#[test]
fn the_timer_stops_at_its_limit() {
    let mut sprite = AnimatedSprite::new(8_000, 8_000, vec![Animation { row: 0, frames: 2, fps: 0 }], true);
    for _ in 0..4 {
        sprite.update(u32::MAX);
    }
    sprite.set_playing(true);
    assert_eq!(sprite.frame().source_rect.x, 0);
}
