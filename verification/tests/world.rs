use rustling::components::collider::Collider;
use rustling::components::direction::Direction;
use rustling::components::enemy::{AIType, Enemy};
use rustling::components::player::Player;
use rustling::components::position::Position;
use rustling::components::sprite::Sprite;
use rustling::components::velocity::Velocity;
use rustling::math::{Rect, Vec2};
use rustling::world::{whole_pixels, EntityBuilder, MapObject, World, WORLD_HEIGHT, WORLD_WIDTH};

#[test]
fn the_size_of_the_world() {
    assert_eq!(WORLD_WIDTH, 960_000);
    assert_eq!(WORLD_HEIGHT, 512_000);
}

#[test]
fn a_new_world_is_empty() {
    let world = World::new();
    assert_eq!(world.entities_count(), 0);
    assert!(world.query::<&Position>().is_empty());
}

#[test]
fn handles_count_up_from_zero() {
    let mut world = World::new();
    for expected in 0..50 {
        assert_eq!(world.add_entity(), expected);
        assert_eq!(world.entities_count(), expected + 1);
    }
}

#[test]
fn a_new_entity_has_no_components() {
    let mut world = World::new();
    world.add_entity();
    world.add_component_to_entity(0, Position { x: 1, y: 2 });
    let id = world.add_entity();
    assert!(world.get_component::<Position>(id).is_none());
    assert!(world.get_component::<Velocity>(id).is_none());
    assert!(world.get_component::<Collider>(id).is_none());
    assert!(world.get_component::<Sprite>(id).is_none());
    assert!(world.get_component::<Player>(id).is_none());
    assert!(world.get_component::<Enemy>(id).is_none());
    assert_eq!(world.get_component::<Position>(0), Some(&Position { x: 1, y: 2 }));
}

#[test]
fn every_column_has_a_slot_for_every_entity() {
    let mut world = World::new();
    for _ in 0..7 {
        world.add_entity();
    }
    world.add_component_to_entity(6, Velocity { x: 3, y: 4 });
    world.add_component_to_entity(6, Enemy::default());
    world.add_component_to_entity(6, Player::default());
    world.add_component_to_entity(
        6,
        Collider {
            collision_offset: Vec2::new(1, 2),
            collision_size: Vec2::new(3, 4),
            sprite_padding: Vec2::new(5, 6),
            visible_size: Vec2::new(7, 8),
        },
    );
    assert_eq!(world.get_component::<Velocity>(6), Some(&Velocity { x: 3, y: 4 }));
    assert_eq!(world.get_component::<Enemy>(6), Some(&Enemy::default()));
    assert_eq!(world.get_component::<Player>(6), Some(&Player::default()));
    assert_eq!(world.get_component::<Collider>(6).unwrap().visible_size, Vec2::new(7, 8));
    for entity in 0..6 {
        assert!(world.get_component::<Velocity>(entity).is_none());
        assert!(world.get_component::<Enemy>(entity).is_none());
    }
}

#[test]
fn attaching_again_overwrites() {
    let mut world = World::new();
    let id = world.add_entity();
    world.add_component_to_entity(id, Position { x: 1, y: 2 });
    world.add_component_to_entity(id, Position { x: 3, y: 4 });
    assert_eq!(world.get_component::<Position>(id), Some(&Position { x: 3, y: 4 }));
    assert_eq!(world.entities_count(), 1);
}

#[test]
fn attaching_touches_one_slot_of_one_kind() {
    let mut world = World::new();
    for entity in 0..4 {
        world.add_entity();
        world.add_component_to_entity(entity, Position { x: entity as i32, y: 0 });
        world.add_component_to_entity(entity, Velocity { x: 0, y: entity as i32 });
    }
    world.add_component_to_entity(2, Position { x: 99, y: 99 });
    for entity in 0..4 {
        let expected = if entity == 2 { Position { x: 99, y: 99 } } else { Position { x: entity as i32, y: 0 } };
        assert_eq!(world.get_component::<Position>(entity), Some(&expected));
        assert_eq!(world.get_component::<Velocity>(entity), Some(&Velocity { x: 0, y: entity as i32 }));
    }
}

#[test]
fn writing_through_a_reference_changes_the_slot() {
    let mut world = World::new();
    let id = world.add_entity();
    let other = world.add_entity();
    world.add_component_to_entity(id, Position { x: 1, y: 2 });
    world.add_component_to_entity(other, Position { x: 5, y: 6 });
    world.get_component_mut::<Position>(id).unwrap().x = 10;
    assert_eq!(world.get_component::<Position>(id), Some(&Position { x: 10, y: 2 }));
    assert_eq!(world.get_component::<Position>(other), Some(&Position { x: 5, y: 6 }));
    assert!(world.get_component_mut::<Velocity>(id).is_none());
    assert!(world.get_component_mut::<Enemy>(other).is_none());
}

#[test]
fn a_builder_attaches_to_its_entity() {
    let mut world = World::new();
    world.add_entity();
    world.spawn_entity().with(Position { x: 7, y: 8 }).with(Velocity { x: 1, y: -1 });
    assert_eq!(world.entities_count(), 2);
    assert_eq!(world.get_component::<Position>(1), Some(&Position { x: 7, y: 8 }));
    assert_eq!(world.get_component::<Velocity>(1), Some(&Velocity { x: 1, y: -1 }));
    assert!(world.get_component::<Position>(0).is_none());
}

#[test]
fn a_builder_for_an_entity_that_is_there() {
    let mut world = World::new();
    world.add_entity();
    world.add_entity();
    let builder = EntityBuilder::new(&mut world, 0);
    assert_eq!(builder.entity_id, 0);
    builder.with(Player::default());
    assert_eq!(world.get_component::<Player>(0), Some(&Player::default()));
    assert!(world.get_component::<Player>(1).is_none());
}

#[test]
fn the_player_as_spawned() {
    let mut world = World::new();
    world.add_entity();
    let id = world.spawn_player(100_000, 200_000, 4);
    assert_eq!(id, 1);
    assert_eq!(world.entities_count(), 2);
    assert_eq!(world.get_component::<Position>(id), Some(&Position { x: 100_000, y: 200_000 }));
    assert_eq!(world.get_component::<Velocity>(id), Some(&Velocity { x: 0, y: 0 }));
    assert_eq!(world.get_component::<Player>(id), Some(&Player::default()));
    assert_eq!(world.get_component::<Player>(id).unwrap().last_direction, Direction::Down);
    assert_eq!(
        world.get_component::<Collider>(id),
        Some(&Collider {
            collision_offset: Vec2::new(17_000, 38_000),
            collision_size: Vec2::new(14_000, 5_000),
            sprite_padding: Vec2::new(18_000, 20_000),
            visible_size: Vec2::new(18_000, 26_000),
        })
    );
    assert!(world.get_component::<Enemy>(id).is_none());
    let sprite = world.get_component::<Sprite>(id).unwrap();
    assert_eq!(sprite.texture, 4);
    assert_eq!(sprite.source_rect, Some(Rect::new(0, 0, 48_000, 48_000)));
    assert_eq!(sprite.dest_size, Some(Vec2::new(48_000, 48_000)));
    assert!(!sprite.flipped);
    assert_eq!(sprite.last_animation, 0);
    let animation = sprite.animation.as_ref().unwrap();
    assert_eq!(animation.animation_count(), 10);
    assert_eq!(animation.current_animation(), 0);
    assert!(animation.playing());
    assert_eq!(animation.frame().source_rect, Rect::new(0, 0, 48_000, 48_000));
    assert!(world.get_component::<Position>(0).is_none());
}

#[test]
fn the_clips_of_the_player_as_spawned() {
    let mut world = World::new();
    let id = world.spawn_player(0, 0, 0);
    let rows = [0i64, 3, 4, 1, 5, 2, 6, 7, 8, 9];
    let frames = [6u32, 6, 6, 6, 6, 6, 4, 4, 4, 3];
    let sprite = world.get_component_mut::<Sprite>(id).unwrap();
    let animation = sprite.animation.as_mut().unwrap();
    for clip in 0..10 {
        animation.set_frame(0);
        animation.set_animation(clip);
        assert_eq!(animation.frame().source_rect.y, 48_000 * rows[clip]);
        animation.set_frame(frames[clip] - 1);
        assert!(animation.is_last_frame());
        animation.set_frame(0);
        animation.update(250);
        assert_eq!(animation.frame().source_rect.x, 0);
        animation.update(1);
        assert_eq!(animation.frame().source_rect.x, 48_000);
    }
}

#[test]
fn a_skeleton_as_spawned() {
    let mut world = World::new();
    let id = world.spawn_enemy(10_000, 20_000, "skeleton", 9);
    assert_eq!(id, 0);
    assert_eq!(world.get_component::<Position>(id), Some(&Position { x: 10_000, y: 20_000 }));
    assert_eq!(world.get_component::<Velocity>(id), Some(&Velocity { x: 8_000, y: 8_000 }));
    let enemy = world.get_component::<Enemy>(id).unwrap();
    assert_eq!(enemy.attack_range, 5_000);
    assert_eq!(enemy.aggro_range, 100_000);
    assert_eq!(enemy.ai_type, AIType::Wander);
    assert_eq!(
        world.get_component::<Collider>(id),
        Some(&Collider {
            collision_offset: Vec2::new(24_000, 16_000),
            collision_size: Vec2::new(16_000, 16_000),
            sprite_padding: Vec2::new(8_000, 8_000),
            visible_size: Vec2::new(32_000, 32_000),
        })
    );
    assert!(world.get_component::<Player>(id).is_none());
    let sprite = world.get_component::<Sprite>(id).unwrap();
    assert_eq!(sprite.texture, 9);
    assert_eq!(sprite.source_rect, Some(Rect::new(0, 0, 32_000, 32_000)));
    assert_eq!(sprite.dest_size, Some(Vec2::new(48_000, 48_000)));
    assert!(!sprite.flipped);
    assert_eq!(sprite.last_animation, 0);
    let animation = sprite.animation.as_ref().unwrap();
    assert_eq!(animation.animation_count(), 11);
    assert_eq!(animation.frame().source_rect, Rect::new(0, 0, 48_000, 48_000));
}

#[test]
fn a_slime_as_spawned() {
    let mut world = World::new();
    world.add_entity();
    let id = world.spawn_enemy(-5, 7, "slime", 2);
    assert_eq!(id, 1);
    assert_eq!(world.get_component::<Position>(id), Some(&Position { x: -5, y: 7 }));
    assert_eq!(world.get_component::<Velocity>(id), Some(&Velocity { x: 8_000, y: 8_000 }));
    assert_eq!(world.get_component::<Enemy>(id), Some(&Enemy::default()));
    assert_eq!(world.get_component::<Collider>(id).unwrap().visible_size, Vec2::new(16_000, 16_000));
    let sprite = world.get_component::<Sprite>(id).unwrap();
    assert_eq!(sprite.dest_size, Some(Vec2::new(32_000, 32_000)));
    assert_eq!(sprite.animation.as_ref().unwrap().frame().source_rect, Rect::new(0, 0, 32_000, 32_000));
}

#[test]
fn an_enemy_of_an_unknown_name_is_a_slime() {
    let mut world = World::new();
    let id = world.spawn_enemy(0, 0, "dragon", 2);
    assert_eq!(world.get_component::<Enemy>(id), Some(&Enemy::default()));
    assert_eq!(world.get_component::<Sprite>(id).unwrap().dest_size, Some(Vec2::new(32_000, 32_000)));
}

#[test]
fn a_decoration_from_the_map() {
    let mut world = World::new();
    let object = MapObject {
        world_x: 64_000,
        world_y: 128_000,
        world_w: 16_500,
        world_h: 32_999,
        source_rect: Rect::new(0, 16_000, 16_000, 32_000),
        dest_size: Vec2::new(16_000, 32_000),
        row: 2,
        frames: 4,
    };
    let id = world.add_object(&object, 6);
    assert_eq!(id, 0);
    assert_eq!(world.entities_count(), 1);
    assert_eq!(world.get_component::<Position>(id), Some(&Position { x: 64_000, y: 96_000 }));
    assert!(world.get_component::<Velocity>(id).is_none());
    assert!(world.get_component::<Collider>(id).is_none());
    let sprite = world.get_component_mut::<Sprite>(id).unwrap();
    assert_eq!(sprite.texture, 6);
    assert_eq!(sprite.source_rect, Some(Rect::new(0, 16_000, 16_000, 32_000)));
    assert_eq!(sprite.dest_size, Some(Vec2::new(16_000, 32_000)));
    assert!(!sprite.flipped);
    assert_eq!(sprite.last_animation, 0);
    let animation = sprite.animation.as_mut().unwrap();
    assert_eq!(animation.animation_count(), 1);
    assert!(animation.playing());
    assert_eq!(animation.frame().source_rect, Rect::new(0, 64_000, 16_000, 32_000));
    animation.update(125);
    assert_eq!(animation.frame().source_rect.x, 0);
    animation.update(1);
    assert_eq!(animation.frame().source_rect.x, 16_000);
    animation.set_frame(3);
    assert!(animation.is_last_frame());
}

#[test]
fn a_decoration_high_above_the_map() {
    let mut world = World::new();
    let object = MapObject {
        world_x: 0,
        world_y: i32::MIN,
        world_w: -4,
        world_h: 0,
        source_rect: Rect::new(0, 0, 1, 1),
        dest_size: Vec2::new(1, 1),
        row: 0,
        frames: 1,
    };
    let id = world.add_object(&object, 0);
    assert_eq!(world.get_component::<Position>(id), Some(&Position { x: 0, y: i32::MIN }));
    let sprite = world.get_component::<Sprite>(id).unwrap();
    assert_eq!(sprite.animation.as_ref().unwrap().frame().dest_size, Vec2::new(0, 0));
}

#[test]
fn extents_in_whole_pixels() {
    assert_eq!(whole_pixels(16_000), 16_000);
    assert_eq!(whole_pixels(16_999), 16_000);
    assert_eq!(whole_pixels(999), 0);
    assert_eq!(whole_pixels(0), 0);
    assert_eq!(whole_pixels(-1), 0);
    assert_eq!(whole_pixels(i32::MIN), 0);
    assert_eq!(whole_pixels(i32::MAX), 2_147_483_000);
}

#[test]
fn a_column_has_a_slot_for_every_entity() {
    let mut world = World::new();
    assert_eq!(world.positions.len(), 0);
    for _ in 0..3 {
        world.add_entity();
    }
    assert_eq!(world.positions.len(), 3);
    assert_eq!(world.velocities.len(), 3);
    assert_eq!(world.colliders.len(), 3);
    assert_eq!(world.sprites.len(), 3);
    assert_eq!(world.players.len(), 3);
    assert_eq!(world.enemies.len(), 3);
}

#[test]
fn a_column_reads_and_writes_its_slots() {
    let mut world = World::new();
    for _ in 0..3 {
        world.add_entity();
    }
    assert!(world.positions.get(1).is_none());
    assert!(world.positions.get_mut(1).is_none());
    world.positions.set(1, Position { x: 4, y: 5 });
    assert_eq!(world.positions.get(1), Some(&Position { x: 4, y: 5 }));
    assert_eq!(world.get_component::<Position>(1), Some(&Position { x: 4, y: 5 }));
    world.positions.get_mut(1).unwrap().y = 9;
    world.positions.set(2, Position { x: 0, y: 0 });
    assert_eq!(world.positions.get(1), Some(&Position { x: 4, y: 9 }));
    assert!(world.positions.get(0).is_none());
    assert_eq!(world.positions.len(), 3);
    world.positions.set(1, Position { x: 7, y: 7 });
    assert_eq!(world.get_component::<Position>(1), Some(&Position { x: 7, y: 7 }));
}

#[test]
fn one_kind_is_written_while_others_are_read() {
    let mut world = World::new();
    world.spawn_entity().with(Position { x: 1, y: 2 }).with(Velocity { x: 10, y: 20 }).with(Enemy::default());
    world.spawn_entity().with(Position { x: 3, y: 4 }).with(Velocity { x: 30, y: 40 });
    for entity in 0..2 {
        if let (Some(position), Some(velocity)) = (world.positions.get_mut(entity), world.velocities.get(entity)) {
            position.x += velocity.x;
            position.y += velocity.y;
        }
    }
    assert_eq!(world.positions.get(0), Some(&Position { x: 11, y: 22 }));
    assert_eq!(world.positions.get(1), Some(&Position { x: 33, y: 44 }));
    if let (Some(position), Some(velocity), Some(enemy)) =
        (world.positions.get(0), world.velocities.get_mut(0), world.enemies.get_mut(0))
    {
        velocity.x = position.x;
        enemy.attacking = true;
    }
    assert_eq!(world.velocities.get(0), Some(&Velocity { x: 11, y: 20 }));
    assert!(world.enemies.get(0).unwrap().attacking);
}
