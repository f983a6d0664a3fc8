use tile_platformer::components::{
    EditState, FallingBlock, Hitbox, Moveable, PlatformController, Position, Rectangle, Triggerbox,
};
use tile_platformer::physics::{
    Body, CollisionHandling, FallingBlockHandling, InputHandling, GRAVITY, HOZ_SPEED,
    JUMP_HEIGHT, JUMP_VELOCITY, MAX_COYOTE_TIME, MAX_FALL_COUNT, PADDING, TIME_TO_JUMP_HEIGHT,
};
use tile_platformer::world::{Components, Entity, World};

const PLAYING: EditState = EditState { should_save: false, editing: false };
const EDITING: EditState = EditState { should_save: false, editing: true };

fn wall(world: &mut World, x: i64, y: i64) -> Entity {
    let mut data = Components::empty();
    data.hitbox = Some(Hitbox::new(x, y));
    world.create(data)
}

fn body(world: &mut World, x: i64, y: i64, vx: i64, vy: i64) -> Entity {
    let mut data = Components::empty();
    data.hitbox = Some(Hitbox::new(x, y));
    data.moveable = Some(Moveable { velocity: Position::new(vx, vy), width: 32_000, height: 32_000 });
    world.create(data)
}

fn player(world: &mut World, x: i64, y: i64, vx: i64, vy: i64, c: PlatformController) -> Entity {
    let e = body(world, x, y, vx, vy);
    world.set_controller(e, Some(c));
    e
}

fn velocity(world: &World, e: Entity) -> Position {
    world.moveable(e).unwrap().velocity
}

fn place(world: &World, e: Entity) -> Position {
    world.hitbox(e).unwrap().position
}

#[test]
fn constants_of_the_jump() {
    assert_eq!(MAX_COYOTE_TIME, 15_000);
    assert_eq!(TIME_TO_JUMP_HEIGHT, 550);
    assert_eq!(JUMP_HEIGHT, 66_000);
    assert_eq!(HOZ_SPEED, 200_000);
    assert_eq!(GRAVITY, 436_363);
    assert_eq!(JUMP_VELOCITY, 239_999);
    assert_eq!(PADDING, 50);
    assert_eq!(MAX_FALL_COUNT, 80);
    assert_eq!(GRAVITY, 2 * JUMP_HEIGHT * 1000 * 1000 / (TIME_TO_JUMP_HEIGHT * TIME_TO_JUMP_HEIGHT));
    assert_eq!(JUMP_VELOCITY, GRAVITY * TIME_TO_JUMP_HEIGHT / 1000);
}

#[test]
fn a_body_in_the_open_moves_and_falls() {
    let mut world = World::new();
    let e = body(&mut world, 0, 0, 100_000, 50_000);
    world.maintain();
    CollisionHandling.run(&PLAYING, &mut world, 100);
    assert_eq!(place(&world, e), Position::new(10_000, 5_000));
    assert_eq!(velocity(&world, e), Position::new(100_000, 50_000 + 43_636));
}

#[test]
fn a_wall_to_the_right_stops_the_body_along_x_only() {
    let mut world = World::new();
    let e = body(&mut world, 0, 0, 100_000, 0);
    wall(&mut world, 32_000, 0);
    world.maintain();
    CollisionHandling.run(&PLAYING, &mut world, 100);
    assert_eq!(velocity(&world, e).x, 0);
    assert_eq!(place(&world, e).x, 0);
    assert_eq!(place(&world, e).y, 0);
    assert_eq!(velocity(&world, e).y, 43_636);
    CollisionHandling.run(&PLAYING, &mut world, 100);
    assert_eq!(place(&world, e), Position::new(0, 4363));
    assert_eq!(velocity(&world, e), Position::new(0, 87_272));
}

#[test]
fn a_diagonal_move_past_a_corner_is_not_blocked() {
    let mut world = World::new();
    let e = body(&mut world, 0, 0, 100_000, 100_000);
    wall(&mut world, 33_000, 33_000);
    world.maintain();
    CollisionHandling.run(&PLAYING, &mut world, 100);
    assert_eq!(place(&world, e), Position::new(10_000, 10_000));
    assert_eq!(velocity(&world, e), Position::new(100_000, 100_000 + 43_636));
}

#[test]
fn a_diagonal_move_is_stopped_on_the_blocked_axis_only() {
    let mut world = World::new();
    let e = body(&mut world, 0, 0, 100_000, 100_000);
    wall(&mut world, 35_000, 0);
    world.maintain();
    CollisionHandling.run(&PLAYING, &mut world, 100);
    assert_eq!(place(&world, e), Position::new(0, 10_000));
    assert_eq!(velocity(&world, e), Position::new(0, 100_000 + 43_636));

    let mut world = World::new();
    let e = body(&mut world, 0, 0, 100_000, 100_000);
    wall(&mut world, 0, 35_000);
    world.maintain();
    CollisionHandling.run(&PLAYING, &mut world, 100);
    assert_eq!(place(&world, e), Position::new(10_000, 35_000 - 32_000 - 50));
    assert_eq!(velocity(&world, e), Position::new(100_000, 0));
}

#[test]
fn a_diagonal_move_into_a_corner_is_stopped_on_both_axes() {
    let mut world = World::new();
    let e = body(&mut world, 0, 0, 100_000, 100_000);
    wall(&mut world, 35_000, 0);
    wall(&mut world, 0, 35_000);
    world.maintain();
    CollisionHandling.run(&PLAYING, &mut world, 100);
    assert_eq!(place(&world, e), Position::new(0, 2950));
    assert_eq!(velocity(&world, e), Position::new(0, 0));
}

#[test]
fn landing_grants_the_jump() {
    let mut world = World::new();
    let c = PlatformController { can_jump: false, coyote_time: 7000 };
    let e = player(&mut world, 0, 0, 0, 100_000, c);
    wall(&mut world, 0, 35_000);
    world.maintain();
    CollisionHandling.run(&PLAYING, &mut world, 100);
    assert_eq!(world.controller(e), Some(PlatformController { can_jump: true, coyote_time: 0 }));
    assert_eq!(place(&world, e), Position::new(0, 2950));
    assert_eq!(velocity(&world, e), Position::new(0, 0));
}

#[test]
fn bumping_the_head_leaves_the_controller_alone() {
    let mut world = World::new();
    let c = PlatformController { can_jump: false, coyote_time: 7000 };
    let e = player(&mut world, 0, 40_000, 0, -100_000, c);
    wall(&mut world, 0, 0);
    world.maintain();
    CollisionHandling.run(&PLAYING, &mut world, 100);
    assert_eq!(world.controller(e), Some(c));
    assert_eq!(place(&world, e), Position::new(0, 32_050));
    assert_eq!(velocity(&world, e), Position::new(0, 0));
}

#[test]
fn a_frame_in_the_air_counts_coyote_time() {
    let mut world = World::new();
    let c = PlatformController { can_jump: true, coyote_time: 0 };
    let e = player(&mut world, 0, 0, 0, 0, c);
    world.maintain();
    CollisionHandling.run(&PLAYING, &mut world, 16);
    assert_eq!(world.controller(e), Some(PlatformController { can_jump: false, coyote_time: 1000 }));
    CollisionHandling.run(&PLAYING, &mut world, 16);
    assert_eq!(world.controller(e), Some(PlatformController { can_jump: false, coyote_time: 2000 }));
}

#[test]
fn a_body_without_controller_lands_too() {
    let mut world = World::new();
    let e = body(&mut world, 0, 0, 0, 100_000);
    wall(&mut world, 0, 35_000);
    world.maintain();
    CollisionHandling.run(&PLAYING, &mut world, 100);
    assert_eq!(world.controller(e), None);
    assert_eq!(place(&world, e), Position::new(0, 2950));
}

#[test]
fn a_body_does_not_collide_with_itself_or_with_pending_entities() {
    let mut world = World::new();
    let e = body(&mut world, 0, 0, 100_000, 0);
    world.maintain();
    wall(&mut world, 32_000, 0);
    CollisionHandling.run(&PLAYING, &mut world, 100);
    assert_eq!(place(&world, e), Position::new(10_000, 0));
}

#[test]
fn a_doomed_wall_still_stands_for_the_frame() {
    let mut world = World::new();
    let e = body(&mut world, 0, 0, 100_000, 0);
    let w = wall(&mut world, 32_000, 0);
    world.maintain();
    world.delete(w);
    CollisionHandling.run(&PLAYING, &mut world, 100);
    assert_eq!(place(&world, e).x, 0);
    world.maintain();
    CollisionHandling.run(&PLAYING, &mut world, 100);
    assert_eq!(place(&world, e).x, 0);
    world.set_moveable(e, Some(Moveable { velocity: Position::new(100_000, 0), width: 32_000, height: 32_000 }));
    CollisionHandling.run(&PLAYING, &mut world, 100);
    assert_eq!(place(&world, e).x, 10_000);
}

#[test]
fn bodies_move_one_after_the_other() {
    let mut world = World::new();
    let a = body(&mut world, 0, 0, 100_000, 0);
    let b = body(&mut world, 40_000, 0, 100_000, 0);
    world.maintain();
    CollisionHandling.run(&PLAYING, &mut world, 100);
    // `a` runs into `b` where `b` stood; `b` then moves on freely.
    assert_eq!(place(&world, a).x, 0);
    assert_eq!(velocity(&world, a).x, 0);
    assert_eq!(place(&world, b).x, 50_000);
}

#[test]
fn nothing_moves_while_the_level_is_edited() {
    let mut world = World::new();
    let e = body(&mut world, 0, 0, 100_000, 50_000);
    world.maintain();
    CollisionHandling.run(&EDITING, &mut world, 100);
    assert_eq!(place(&world, e), Position::new(0, 0));
    assert_eq!(velocity(&world, e), Position::new(100_000, 50_000));
    InputHandling.run(&EDITING, &mut world, true, false, true);
    assert_eq!(velocity(&world, e), Position::new(100_000, 50_000));
}

#[test]
fn one_step_of_one_body() {
    let mut world = World::new();
    let e = body(&mut world, 0, 0, 0, 0);
    let still = wall(&mut world, 100_000, 0);
    world.maintain();
    CollisionHandling::step(&mut world, still, 100);
    assert_eq!(place(&world, still), Position::new(100_000, 0));
    CollisionHandling::step(&mut world, e, 1000);
    assert_eq!(place(&world, e), Position::new(0, 0));
    assert_eq!(velocity(&world, e), Position::new(0, 436_363));
    CollisionHandling::step(&mut world, Entity { index: 9 }, 1000);
    assert_eq!(world.len(), 2);
}

#[test]
fn collide_against_one_obstacle() {
    let start = Body {
        velocity: Position::new(5, 7),
        y: 0,
        controller: Some(PlatformController { can_jump: false, coyote_time: 3000 }),
        hit_x: false,
        hit_y: false,
    };
    let cand_x = Rectangle { x: 10_000, y: 0, width: 32_000, height: 32_000 };
    let cand_y = Rectangle { x: 0, y: 10_000, width: 32_000, height: 32_000 };
    let far = Rectangle { x: 500_000, y: 500_000, width: 32_000, height: 32_000 };
    assert_eq!(start.collide(&cand_x, &cand_y, 32_000, &far), start);
    let right = Rectangle { x: 35_000, y: 0, width: 32_000, height: 32_000 };
    let after = start.collide(&cand_x, &cand_y, 32_000, &right);
    assert_eq!(after, Body { velocity: Position::new(0, 7), hit_x: true, ..start });
    let below = Rectangle { x: 0, y: 35_000, width: 32_000, height: 32_000 };
    let after = start.collide(&cand_x, &cand_y, 32_000, &below);
    assert_eq!(
        after,
        Body {
            velocity: Position::new(5, 0),
            y: 2950,
            controller: Some(PlatformController { can_jump: true, coyote_time: 0 }),
            hit_x: false,
            hit_y: true,
        }
    );
    let risen = Rectangle { x: 0, y: -10_000, width: 32_000, height: 32_000 };
    let above = Rectangle { x: 0, y: -40_000, width: 32_000, height: 32_000 };
    let after = start.collide(&cand_x, &risen, 32_000, &above);
    assert_eq!(after, Body { velocity: Position::new(5, 0), y: -7950, hit_y: true, ..start });
}

#[test]
fn keys_set_the_horizontal_speed() {
    let mut world = World::new();
    let c = PlatformController { can_jump: false, coyote_time: 15_000 };
    let e = player(&mut world, 0, 0, 5, 7, c);
    world.maintain();
    InputHandling.run(&PLAYING, &mut world, true, false, false);
    assert_eq!(velocity(&world, e), Position::new(-200_000, 7));
    InputHandling.run(&PLAYING, &mut world, false, true, false);
    assert_eq!(velocity(&world, e), Position::new(200_000, 7));
    InputHandling.run(&PLAYING, &mut world, true, true, false);
    assert_eq!(velocity(&world, e), Position::new(-200_000, 7));
    InputHandling.run(&PLAYING, &mut world, false, false, false);
    assert_eq!(velocity(&world, e), Position::new(0, 7));
    assert_eq!(world.controller(e), Some(c));
}

#[test]
fn a_jump_needs_ground_or_coyote_time() {
    let spent = PlatformController { can_jump: false, coyote_time: 15_000 };
    let mut world = World::new();
    let e = player(&mut world, 0, 0, 0, 7, spent);
    world.maintain();
    InputHandling.run(&PLAYING, &mut world, false, false, true);
    assert_eq!(velocity(&world, e), Position::new(0, 7));
    assert_eq!(world.controller(e), Some(spent));

    world.set_controller(e, Some(PlatformController { can_jump: true, coyote_time: 15_000 }));
    InputHandling.run(&PLAYING, &mut world, false, false, true);
    assert_eq!(velocity(&world, e), Position::new(0, -239_999));
    assert_eq!(world.controller(e), Some(spent));

    world.set_moveable(e, Some(Moveable::new()));
    world.set_controller(e, Some(PlatformController { can_jump: false, coyote_time: 14_999 }));
    InputHandling.run(&PLAYING, &mut world, false, false, true);
    assert_eq!(velocity(&world, e), Position::new(0, -239_999));
    assert_eq!(world.controller(e), Some(spent));

    world.set_moveable(e, Some(Moveable::new()));
    world.set_controller(e, Some(PlatformController { can_jump: true, coyote_time: 0 }));
    InputHandling.run(&PLAYING, &mut world, false, false, false);
    assert_eq!(velocity(&world, e), Position::new(0, 0));
    assert_eq!(world.controller(e), Some(PlatformController { can_jump: true, coyote_time: 0 }));
}

#[test]
fn keys_do_not_reach_bodies_without_controller() {
    let mut world = World::new();
    let e = body(&mut world, 0, 0, 5, 7);
    world.maintain();
    InputHandling.run(&PLAYING, &mut world, true, false, true);
    assert_eq!(velocity(&world, e), Position::new(5, 7));
}

fn falling_block(world: &mut World, x: i64, y: i64) -> Entity {
    let mut data = Components::empty();
    data.hitbox = Some(Hitbox::new(x, y));
    data.triggerbox = Some(Triggerbox { width: 32_000, height: 32_000, position: Position::new(x, y - 1000) });
    data.falling_block = Some(FallingBlock::default());
    world.create(data)
}

#[test]
fn a_falling_block_waits_for_a_player() {
    let mut world = World::new();
    let block = falling_block(&mut world, 0, 100_000);
    let stone = body(&mut world, 0, 70_000, 0, 0);
    let hero = player(&mut world, 200_000, 0, 0, 0, PlatformController::new());
    world.maintain();
    for _ in 0..5 {
        FallingBlockHandling.run(&PLAYING, &mut world);
    }
    assert_eq!(world.falling_block(block), Some(FallingBlock { count: 0, should_fall: false }));
    assert!(world.hitbox(stone).is_some());
    assert!(!FallingBlockHandling::player_at(&world, &world.triggerbox(block).unwrap()));
    world.set_hitbox(hero, Some(Hitbox::new(10_000, 68_000)));
    assert!(FallingBlockHandling::player_at(&world, &world.triggerbox(block).unwrap()));
    FallingBlockHandling.run(&EDITING, &mut world);
    assert_eq!(world.falling_block(block), Some(FallingBlock { count: 0, should_fall: false }));
    FallingBlockHandling.run(&PLAYING, &mut world);
    assert_eq!(world.falling_block(block), Some(FallingBlock { count: 0, should_fall: true }));
}

#[test]
fn a_player_that_only_touches_the_sensor_edge_does_not_set_it_off() {
    let mut world = World::new();
    let block = falling_block(&mut world, 0, 100_000);
    player(&mut world, 0, 67_000, 0, 0, PlatformController::new());
    world.maintain();
    FallingBlockHandling.run(&PLAYING, &mut world);
    assert_eq!(world.falling_block(block), Some(FallingBlock { count: 0, should_fall: false }));
}

#[test]
fn a_falling_block_counts_and_then_drops_once() {
    let mut world = World::new();
    let block = falling_block(&mut world, 0, 100_000);
    let hero = player(&mut world, 0, 68_000, 0, 0, PlatformController::new());
    world.maintain();
    FallingBlockHandling.run(&PLAYING, &mut world);
    assert_eq!(world.falling_block(block), Some(FallingBlock { count: 0, should_fall: true }));
    world.set_hitbox(hero, Some(Hitbox::new(500_000, 0)));
    for frame in 1..=81u32 {
        FallingBlockHandling.run(&PLAYING, &mut world);
        assert_eq!(world.falling_block(block), Some(FallingBlock { count: frame, should_fall: true }));
        assert_eq!(world.moveable(block), None);
    }
    FallingBlockHandling.run(&PLAYING, &mut world);
    assert_eq!(world.falling_block(block), Some(FallingBlock { count: 81, should_fall: true }));
    assert_eq!(world.moveable(block), Some(Moveable::new()));
    world.set_moveable(
        block,
        Some(Moveable { velocity: Position::new(1, 2), width: 32_000, height: 32_000 }),
    );
    FallingBlockHandling.run(&PLAYING, &mut world);
    assert_eq!(world.falling_block(block), Some(FallingBlock { count: 81, should_fall: true }));
    assert_eq!(velocity(&world, block), Position::new(1, 2));
}

#[test]
fn a_dropped_block_falls_under_gravity() {
    let mut world = World::new();
    let block = falling_block(&mut world, 0, 100_000);
    world.set_falling_block(block, Some(FallingBlock { count: 81, should_fall: true }));
    world.maintain();
    FallingBlockHandling.run(&PLAYING, &mut world);
    CollisionHandling.run(&PLAYING, &mut world, 1000);
    assert_eq!(place(&world, block), Position::new(0, 100_000));
    assert_eq!(velocity(&world, block), Position::new(0, 436_363));
    CollisionHandling.run(&PLAYING, &mut world, 1000);
    assert_eq!(place(&world, block), Position::new(0, 536_363));
}
