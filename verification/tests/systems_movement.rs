use rustling::components::collider::Collider;
use rustling::components::direction::Direction;
use rustling::components::player::Player;
use rustling::components::position::Position;
use rustling::components::velocity::Velocity;
use rustling::math::{Rect, Vec2};
use rustling::systems::camera::camera_systems;
use rustling::systems::input::{input_systems, input_velocity, steered, way, Input, ATTACK_TIME};
use rustling::systems::movement::{check_collision_with_objects, movement_systems, step};
use rustling::world::{World, WORLD_HEIGHT, WORLD_WIDTH};

fn hero_collider() -> Collider {
    Collider {
        collision_offset: Vec2::new(17_000, 38_000),
        collision_size: Vec2::new(14_000, 5_000),
        sprite_padding: Vec2::new(18_000, 20_000),
        visible_size: Vec2::new(18_000, 26_000),
    }
}

fn held(up: bool, down: bool, left: bool, right: bool, attack: bool) -> Input {
    Input { up, down, left, right, attack }
}

fn walker(position: Position, velocity: Velocity) -> World {
    let mut world = World::new();
    world.spawn_entity().with(position).with(velocity).with(hero_collider());
    world
}

#[test]
fn an_entity_moves_by_its_velocity() {
    let mut world = walker(Position { x: 100_000, y: 100_000 }, Velocity { x: 128_000, y: 0 });
    movement_systems(&mut world, &Vec::new(), 16);
    assert_eq!(world.get_component::<Position>(0), Some(&Position { x: 102_048, y: 100_000 }));
    assert_eq!(world.get_component::<Velocity>(0), Some(&Velocity { x: 128_000, y: 0 }));
    assert_eq!(world.get_component::<Collider>(0), Some(&hero_collider()));
}

#[test]
fn an_entity_moves_as_far_back_as_forth() {
    let start = Position { x: 100_000, y: 100_000 };
    let none = Vec::new();
    assert_eq!(step(start, Velocity { x: 90_509, y: 90_509 }, hero_collider(), &none, 16), Position { x: 101_448, y: 101_448 });
    assert_eq!(step(start, Velocity { x: -90_509, y: -90_509 }, hero_collider(), &none, 16), Position { x: 98_552, y: 98_552 });
    assert_eq!(step(start, Velocity { x: -90_509, y: -90_509 }, hero_collider(), &none, 17), Position { x: 98_462, y: 98_462 });
}

#[test]
fn an_entity_at_rest_stays() {
    let start = Position { x: 100_000, y: 100_000 };
    assert_eq!(step(start, Velocity { x: 0, y: 0 }, hero_collider(), &Vec::new(), 5_000), start);
    assert_eq!(step(start, Velocity { x: 128_000, y: -128_000 }, hero_collider(), &Vec::new(), 0), start);
}

#[test]
fn an_obstacle_in_the_way_stops_the_entity() {
    let obstacles = vec![Rect::new(120_000, 140_000, 10_000, 10_000)];
    for dt in [1u32, 16, 33, 100] {
        for velocity in [Velocity { x: 128_000, y: 0 }, Velocity { x: 1, y: 1 }, Velocity { x: -30_000, y: 20_000 }] {
            let mut world = walker(Position { x: 100_000, y: 100_000 }, velocity);
            movement_systems(&mut world, &obstacles, dt);
            assert_eq!(world.get_component::<Position>(0), Some(&Position { x: 100_000, y: 100_000 }));
        }
    }
}

#[test]
fn an_obstacle_stops_the_whole_step() {
    let obstacles = vec![Rect::new(133_000, 100_000, 10_000, 100_000)];
    let start = Position { x: 100_000, y: 100_000 };
    let free = step(start, Velocity { x: 0, y: 128_000 }, hero_collider(), &obstacles, 16);
    assert_eq!(free, Position { x: 100_000, y: 102_048 });
    let stopped = step(start, Velocity { x: 128_000, y: 128_000 }, hero_collider(), &obstacles, 16);
    assert_eq!(stopped, start);
}

#[test]
fn an_obstacle_that_the_entity_would_touch_stops_it() {
    let start = Position { x: 100_000, y: 100_000 };
    let velocity = Velocity { x: 128_000, y: 0 };
    let touching = vec![Rect::new(133_048, 143_000, 10, 10)];
    assert_eq!(step(start, velocity, hero_collider(), &touching, 16), start);
    let apart = vec![Rect::new(133_049, 143_000, 10, 10)];
    assert_eq!(step(start, velocity, hero_collider(), &apart, 16), Position { x: 102_048, y: 100_000 });
}

#[test]
fn any_obstacle_of_many_stops_the_entity() {
    let mut obstacles = Vec::new();
    for k in 0..20 {
        obstacles.push(Rect::new(500_000 + k, 500_000, 1, 1));
    }
    let start = Position { x: 100_000, y: 100_000 };
    let velocity = Velocity { x: 128_000, y: 0 };
    assert_eq!(step(start, velocity, hero_collider(), &obstacles, 16), Position { x: 102_048, y: 100_000 });
    obstacles.push(Rect::new(120_000, 140_000, 10_000, 10_000));
    assert_eq!(step(start, velocity, hero_collider(), &obstacles, 16), start);
    obstacles.reverse();
    assert_eq!(step(start, velocity, hero_collider(), &obstacles, 16), start);
}

#[test]
fn collisions_with_obstacles() {
    let obstacles = vec![Rect::new(0, 0, 10, 10), Rect::new(100, 100, 10, 10)];
    assert!(check_collision_with_objects(Rect::new(5, 5, 1, 1), &obstacles));
    assert!(check_collision_with_objects(Rect::new(110, 110, 1, 1), &obstacles));
    assert!(!check_collision_with_objects(Rect::new(50, 50, 1, 1), &obstacles));
    assert!(!check_collision_with_objects(Rect::new(5, 5, 1, 1), &Vec::new()));
}

#[test]
fn the_world_ends_at_its_bounds() {
    let none = Vec::new();
    let up_left = step(Position { x: 0, y: 0 }, Velocity { x: -128_000, y: -128_000 }, hero_collider(), &none, 1_000);
    assert_eq!(up_left, Position { x: -18_000, y: -20_000 });
    let down_right = step(Position { x: 900_000, y: 480_000 }, Velocity { x: 128_000, y: 128_000 }, hero_collider(), &none, 1_000);
    assert_eq!(down_right, Position { x: 924_000, y: 466_000 });
    assert_eq!(down_right.x + 18_000 + 18_000, WORLD_WIDTH);
    assert_eq!(down_right.y + 20_000 + 26_000, WORLD_HEIGHT);
}

#[test]
fn an_entity_beyond_the_bounds_comes_back() {
    let none = Vec::new();
    let lost = step(Position { x: 1_000_000_000, y: -1_000_000_000 }, Velocity { x: 0, y: 0 }, hero_collider(), &none, 0);
    assert_eq!(lost, Position { x: 924_000, y: -20_000 });
}

#[test]
fn the_visible_part_stays_within_the_bounds() {
    let none = Vec::new();
    let mut position = Position { x: 100_000, y: 100_000 };
    let steps = [
        Velocity { x: -128_000, y: 0 },
        Velocity { x: 0, y: -128_000 },
        Velocity { x: 400_000, y: 400_000 },
        Velocity { x: 400_000, y: -30_000 },
        Velocity { x: -90_000, y: 400_000 },
    ];
    for velocity in steps {
        for _ in 0..40 {
            position = step(position, velocity, hero_collider(), &none, 100);
            assert!(0 <= position.x + 18_000 && position.x + 18_000 <= WORLD_WIDTH - 18_000);
            assert!(0 <= position.y + 20_000 && position.y + 20_000 <= WORLD_HEIGHT - 26_000);
        }
    }
    assert_eq!(position, Position { x: 564_000, y: 466_000 });
}

#[test]
fn a_visible_part_larger_than_the_world() {
    let giant = Collider {
        collision_offset: Vec2::new(0, 0),
        collision_size: Vec2::new(1, 1),
        sprite_padding: Vec2::new(0, 0),
        visible_size: Vec2::new(1_000_000, 600_000),
    };
    let none = Vec::new();
    assert_eq!(step(Position { x: 5, y: 5 }, Velocity { x: 0, y: 0 }, giant, &none, 0), Position { x: -40_000, y: -88_000 });
    assert_eq!(step(Position { x: -5, y: -5 }, Velocity { x: 0, y: 0 }, giant, &none, 0), Position { x: 0, y: 0 });
}

#[test]
fn a_margin_beyond_all_measure() {
    let odd = Collider {
        collision_offset: Vec2::new(0, 0),
        collision_size: Vec2::new(1, 1),
        sprite_padding: Vec2::new(i32::MIN, 0),
        visible_size: Vec2::new(10, 10),
    };
    assert_eq!(step(Position { x: 5, y: 5 }, Velocity { x: 0, y: 0 }, odd, &Vec::new(), 0), Position { x: i32::MAX, y: 5 });
}

#[test]
fn the_fastest_entity_does_not_overflow() {
    let none = Vec::new();
    let far = step(Position { x: i32::MAX, y: i32::MIN }, Velocity { x: i32::MAX, y: i32::MIN }, hero_collider(), &none, u32::MAX);
    assert_eq!(far, Position { x: 924_000, y: -20_000 });
}

#[test]
fn only_entities_with_a_collider_and_a_velocity_move() {
    let mut world = World::new();
    world.spawn_entity().with(Position { x: 1, y: 1 }).with(Velocity { x: 128_000, y: 0 });
    world.spawn_entity().with(Position { x: 2, y: 2 }).with(hero_collider());
    world.spawn_entity().with(Velocity { x: 128_000, y: 0 }).with(hero_collider());
    world.spawn_entity().with(Position { x: 4, y: 4 }).with(Velocity { x: 128_000, y: 0 }).with(hero_collider());
    movement_systems(&mut world, &Vec::new(), 1_000);
    assert_eq!(world.get_component::<Position>(0), Some(&Position { x: 1, y: 1 }));
    assert_eq!(world.get_component::<Position>(1), Some(&Position { x: 2, y: 2 }));
    assert!(world.get_component::<Position>(2).is_none());
    assert_eq!(world.get_component::<Position>(3), Some(&Position { x: 128_004, y: 4 }));
}

#[test]
fn the_controls_set_the_velocity() {
    assert_eq!(input_velocity(held(false, false, false, false, false), 128_000), Velocity { x: 0, y: 0 });
    assert_eq!(input_velocity(held(true, false, false, false, false), 128_000), Velocity { x: 0, y: -128_000 });
    assert_eq!(input_velocity(held(false, true, false, false, false), 128_000), Velocity { x: 0, y: 128_000 });
    assert_eq!(input_velocity(held(false, false, true, false, false), 128_000), Velocity { x: -128_000, y: 0 });
    assert_eq!(input_velocity(held(false, false, false, true, false), 128_000), Velocity { x: 128_000, y: 0 });
}

#[test]
fn a_diagonal_is_no_faster_than_an_axis() {
    assert_eq!(input_velocity(held(false, true, false, true, false), 128_000), Velocity { x: 90_509, y: 90_509 });
    assert_eq!(input_velocity(held(false, true, true, false, false), 128_000), Velocity { x: -90_509, y: 90_509 });
    assert_eq!(input_velocity(held(true, false, true, false, false), 128_000), Velocity { x: -90_509, y: -90_509 });
    assert_eq!(input_velocity(held(true, false, false, true, false), 128_000), Velocity { x: 90_509, y: -90_509 });
}

#[test]
fn opposite_controls_do_not_cancel() {
    assert_eq!(input_velocity(held(true, true, false, false, false), 128_000), Velocity { x: 0, y: 128_000 });
    assert_eq!(input_velocity(held(false, false, true, true, false), 128_000), Velocity { x: 128_000, y: 0 });
    assert_eq!(input_velocity(held(true, true, true, true, true), 128_000), Velocity { x: 90_509, y: 90_509 });
}

#[test]
fn a_player_without_speed_stays() {
    assert_eq!(input_velocity(held(true, false, false, true, false), 0), Velocity { x: 0, y: 0 });
}

#[test]
fn the_way_that_the_controls_ask_for() {
    let origin = Vec2::new(0, 0);
    assert_eq!(way(held(false, false, false, false, false), 5), (origin, origin));
    assert_eq!(way(held(false, false, false, true, false), 5), (origin, Vec2::new(5, 0)));
    assert_eq!(way(held(false, false, true, false, false), 5), (Vec2::new(5, 0), origin));
    assert_eq!(way(held(false, false, true, true, false), 5), (origin, Vec2::new(5, 0)));
    assert_eq!(way(held(true, false, false, false, false), 5), (Vec2::new(0, 5), origin));
    assert_eq!(way(held(true, true, true, false, true), 5), (Vec2::new(5, 0), Vec2::new(0, 5)));
}

#[test]
fn a_player_with_a_negative_speed_walks_where_it_is_steered() {
    assert_eq!(input_velocity(held(false, false, true, false, false), -128_000), Velocity { x: -128_000, y: 0 });
    assert_eq!(input_velocity(held(false, true, false, true, false), -128_000), Velocity { x: 90_509, y: 90_509 });
    assert_eq!(input_velocity(held(true, false, false, false, false), i32::MIN), Velocity { x: 0, y: i32::MIN });
    assert_eq!(input_velocity(held(false, true, false, false, false), i32::MIN), Velocity { x: 0, y: i32::MAX });
}

#[test]
fn the_player_faces_where_it_is_steered() {
    let player = Player::default();
    assert_eq!(steered(player, held(false, false, false, false, false), 16).last_direction, Direction::Down);
    assert_eq!(steered(player, held(true, false, false, false, false), 16).last_direction, Direction::Up);
    assert_eq!(steered(player, held(true, true, false, false, false), 16).last_direction, Direction::Down);
    assert_eq!(steered(player, held(true, true, true, false, false), 16).last_direction, Direction::Left);
    assert_eq!(steered(player, held(true, true, true, true, false), 16).last_direction, Direction::Right);
    assert_eq!(steered(player, held(false, false, true, false, false), 16).last_direction, Direction::Left);
    assert_eq!(steered(player, held(false, false, false, true, true), 16).last_direction, Direction::Right);
    let mut facing_up = player;
    facing_up.last_direction = Direction::Up;
    assert_eq!(steered(facing_up, held(false, false, false, false, true), 16).last_direction, Direction::Up);
}

#[test]
fn a_swing_of_the_player_lasts_its_time() {
    assert_eq!(ATTACK_TIME, 300);
    let mut player = Player::default();
    player.attack_timer = -1;
    let strike = held(false, false, false, false, true);
    let idle = held(false, false, false, false, false);
    player = steered(player, strike, 16);
    assert!(player.attacking);
    assert!(player.attack_held);
    assert_eq!(player.attack_timer, 284);
    player = steered(player, idle, 200);
    assert!(player.attacking);
    assert!(!player.attack_held);
    assert_eq!(player.attack_timer, 84);
    player = steered(player, idle, 84);
    assert!(!player.attacking);
    assert_eq!(player.attack_timer, 0);
    player = steered(player, idle, 16);
    assert!(!player.attacking);
    assert_eq!(player.attack_timer, -16);
    player = steered(player, idle, 16);
    assert!(!player.attacking);
    assert_eq!(player.attack_timer, -16);
}

#[test]
fn a_swing_begins_when_the_control_goes_down_and_not_while_it_stays_down() {
    let strike = held(false, false, false, false, true);
    let idle = held(false, false, false, false, false);
    let mut player = Player::default();
    player.attack_timer = -1;
    player = steered(player, strike, 200);
    assert!(player.attacking);
    assert_eq!(player.attack_timer, 100);
    player = steered(player, strike, 200);
    assert!(!player.attacking);
    assert!(player.attack_held);
    assert_eq!(player.attack_timer, -100);
    for _ in 0..5 {
        player = steered(player, strike, 200);
        assert!(!player.attacking);
        assert_eq!(player.attack_timer, -100);
    }
    player = steered(player, idle, 16);
    assert!(!player.attacking);
    assert!(!player.attack_held);
    player = steered(player, strike, 16);
    assert!(player.attacking);
    assert_eq!(player.attack_timer, 284);
    player = steered(player, idle, 16);
    player = steered(player, strike, 16);
    assert!(player.attacking);
    assert_eq!(player.attack_timer, 284);
}

#[test]
fn a_control_that_was_held_before_begins_no_swing() {
    let mut player = Player::default();
    player.attack_held = true;
    player.attack_timer = -1;
    let next = steered(player, held(false, false, false, false, true), 16);
    assert_eq!(next, player);
}

#[test]
fn a_long_frame_ends_the_swing_at_once() {
    let player = steered(Player::default(), held(false, false, false, false, true), 300);
    assert!(!player.attacking);
    assert_eq!(player.attack_timer, 0);
    let slow = steered(Player::default(), held(false, false, false, false, true), u32::MAX);
    assert!(!slow.attacking);
    assert_eq!(slow.attack_timer, i32::MIN);
}

#[test]
fn the_stock_timer_of_a_swing_counts_down() {
    let player = steered(Player::default(), held(false, false, false, false, false), 100);
    assert_eq!(player.attack_timer, 200);
    assert!(!player.attacking);
    let mut expected = Player::default();
    expected.attack_timer = 200;
    assert_eq!(player, expected);
}

#[test]
fn the_controls_steer_every_player_with_a_velocity() {
    let mut world = World::new();
    world.spawn_entity().with(Player::default()).with(Velocity { x: 5, y: 5 });
    world.spawn_entity().with(Player::default());
    world.spawn_entity().with(Velocity { x: 5, y: 5 });
    let mut slow = Player::default();
    slow.walk_speed = 1_000;
    world.spawn_entity().with(slow).with(Velocity { x: 0, y: 0 }).with(Position { x: 1, y: 1 });
    input_systems(&mut world, held(false, false, true, false, true), 16);
    assert_eq!(world.get_component::<Velocity>(0), Some(&Velocity { x: -128_000, y: 0 }));
    let first = world.get_component::<Player>(0).unwrap();
    assert_eq!(first.last_direction, Direction::Left);
    assert!(first.attacking);
    assert_eq!(first.attack_timer, 284);
    assert_eq!(world.get_component::<Player>(1), Some(&Player::default()));
    assert_eq!(world.get_component::<Velocity>(2), Some(&Velocity { x: 5, y: 5 }));
    assert_eq!(world.get_component::<Velocity>(3), Some(&Velocity { x: -1_000, y: 0 }));
    assert_eq!(world.get_component::<Player>(3).unwrap().last_direction, Direction::Left);
    assert_eq!(world.get_component::<Position>(3), Some(&Position { x: 1, y: 1 }));
}

#[test]
fn the_camera_follows_the_player() {
    let mut world = World::new();
    assert_eq!(camera_systems(&world), None);
    world.spawn_entity().with(Position { x: 400_000, y: 200_000 }).with(Player::default());
    assert_eq!(camera_systems(&world), Some(Vec2::new(424_000, 224_000)));
}

#[test]
fn the_camera_stays_within_the_world() {
    for (position, target) in [
        (Position { x: 100_000, y: 100_000 }, Vec2::new(256_000, 144_000)),
        (Position { x: 900_000, y: 500_000 }, Vec2::new(704_000, 368_000)),
        (Position { x: i32::MIN, y: i32::MAX }, Vec2::new(256_000, 368_000)),
        (Position { x: 232_000, y: 120_000 }, Vec2::new(256_000, 144_000)),
        (Position { x: 232_001, y: 120_001 }, Vec2::new(256_001, 144_001)),
    ] {
        let mut world = World::new();
        world.spawn_entity().with(position).with(Player::default());
        assert_eq!(camera_systems(&world), Some(target));
    }
}

#[test]
fn the_camera_looks_for_the_first_player() {
    let mut world = World::new();
    world.spawn_entity().with(Player::default());
    world.spawn_entity().with(Position { x: 0, y: 0 });
    assert_eq!(camera_systems(&world), None);
    world.spawn_entity().with(Position { x: 400_000, y: 200_000 }).with(Player::default());
    world.spawn_entity().with(Position { x: 0, y: 0 }).with(Player::default());
    assert_eq!(camera_systems(&world), Some(Vec2::new(424_000, 224_000)));
}
