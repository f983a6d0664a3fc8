use tile_platformer::components::{
    EditBtn, EditState, Hitbox, Icon, IconKind, Moveable, PlatformController, Position, Rect,
    ToolPalette,
};
use tile_platformer::editor::EditBtnHandle;
use tile_platformer::game::{Game, Input};
use tile_platformer::persist::Deserialize;
use tile_platformer::world::{Components, Entity, Life, World};

const REST: Input = Input {
    dt: 100,
    left: false,
    right: false,
    jump: false,
    toggle: false,
    mouse: Position { x: 600_000, y: 600_000 },
    pressed: false,
    down: false,
    released: false,
};

/// A player above a floor tile, the three icons and the three buttons.
fn start() -> Game {
    let mut world = World::new();
    let mut player = Components::empty();
    player.controller = Some(PlatformController::new());
    player.moveable = Some(Moveable::new());
    player.hitbox = Some(Hitbox::new(0, 0));
    world.create(player);
    let mut floor = Components::empty();
    floor.hitbox = Some(Hitbox::new(0, 40_000));
    world.create(floor);
    for (kind, y) in [
        (IconKind::EmptyBox, 15_000),
        (IconKind::Bin, 60_000),
        (IconKind::FileSaveClassic, 105_000),
    ] {
        let mut icon = Components::empty();
        icon.icon = Some(Icon::new(kind, Position::new(500_000, y)));
        world.create(icon);
    }
    for (slot, tool) in ToolPalette::all().into_iter().enumerate() {
        let mut button = Components::empty();
        button.edit_btn = Some(EditBtn {
            tool,
            bounds: Rect {
                width: 100_000,
                height: 50_000,
                position: Position::new(100_000 * slot as i64 + 250_000, 100_000),
            },
            text: tool.name(),
        });
        world.create(button);
    }
    world.maintain();
    Game::new(world)
}

const PLAYER: Entity = Entity { index: 0 };

#[test]
fn a_new_game_is_in_edit_mode() {
    let game = start();
    assert_eq!(game.edit_state, EditState { should_save: false, editing: true });
    assert_eq!(game.palette, EditBtnHandle::new());
    assert!(game.check());
}

#[test]
fn a_game_with_a_body_without_hitbox_is_not_ready() {
    let mut game = start();
    game.world.set_hitbox(PLAYER, None);
    assert!(!game.check());
    game.world.set_moveable(PLAYER, None);
    assert!(game.check());
}

#[test]
fn the_simulation_rests_in_edit_mode() {
    let mut game = start();
    let frame = game.frame(&Input { left: true, jump: true, ..REST });
    assert_eq!(game.world.hitbox(PLAYER), Some(Hitbox::new(0, 0)));
    assert_eq!(game.world.moveable(PLAYER), Some(Moveable::new()));
    assert!(frame.save.is_none());
    assert_eq!(frame.scene.buttons.len(), 3);
    assert_eq!(frame.scene.icons.len(), 3);
}

#[test]
fn the_toggle_takes_hold_at_the_end_of_the_frame() {
    let mut game = start();
    let frame = game.frame(&Input { toggle: true, left: true, ..REST });
    // The frame itself still ran in edit mode, but is drawn as played.
    assert_eq!(game.world.moveable(PLAYER), Some(Moveable::new()));
    assert!(!game.edit_state.editing);
    assert!(frame.scene.buttons.is_empty());
    assert!(frame.scene.icons.is_empty());
    game.frame(&Input { left: true, ..REST });
    assert_eq!(game.world.moveable(PLAYER).unwrap().velocity, Position::new(-200_000, 43_636));
    assert_eq!(game.world.hitbox(PLAYER).unwrap().position, Position::new(-20_000, 0));
}

#[test]
fn steering_comes_before_the_move_and_landing_before_the_next_jump() {
    let mut game = start();
    game.frame(&Input { toggle: true, ..REST });
    // Fall onto the floor: 8 units to go.
    let mut frames = 0;
    while game.world.controller(PLAYER) != Some(PlatformController { can_jump: true, coyote_time: 0 }) {
        game.frame(&REST);
        frames += 1;
        assert!(frames < 100);
    }
    assert_eq!(game.world.hitbox(PLAYER).unwrap().position, Position::new(0, 40_000 - 32_000 - 50));
    assert_eq!(game.world.moveable(PLAYER).unwrap().velocity, Position::new(0, 0));
    // Jump: the velocity is set and the body moves in the same frame.
    game.frame(&Input { jump: true, ..REST });
    assert_eq!(game.world.hitbox(PLAYER).unwrap().position, Position::new(0, 7950 - 23_999));
    assert_eq!(game.world.moveable(PLAYER).unwrap().velocity, Position::new(0, -239_999 + 43_636));
    assert_eq!(
        game.world.controller(PLAYER),
        Some(PlatformController { can_jump: false, coyote_time: 16_000 })
    );
}

#[test]
fn placing_through_frames() {
    let mut game = start();
    game.frame(&Input { mouse: Position::new(300_000, 125_000), released: true, ..REST });
    let ghost = Entity { index: 8 };
    assert_eq!(game.palette.selected_entity, Some(ghost));
    assert_eq!(game.world.life(ghost), Life::Live);
    let before = game.world.count();
    game.frame(&Input { mouse: Position::new(70_500, 133_000), down: true, ..REST });
    assert_eq!(game.world.count(), before + 1);
    let placed = Entity { index: 9 };
    assert_eq!(game.world.life(placed), Life::Live);
    assert_eq!(game.world.hitbox(placed), Some(Hitbox::new(64_000, 128_000)));
    assert_eq!(game.world.marker(placed), Some(0));
    assert_eq!(game.world.position(ghost), Some(Position::new(64_000, 128_000)));
    game.frame(&Input { mouse: Position::new(70_500, 133_000), down: true, ..REST });
    assert_eq!(game.world.count(), before + 1);
    // A press inside the placed object takes hold of it.
    game.frame(&Input { mouse: Position::new(70_500, 133_000), pressed: true, ..REST });
    assert!(game.world.drag_box(placed).unwrap().dragging);
}

#[test]
fn saving_and_clearing_through_frames() {
    let mut game = start();
    game.frame(&Input { mouse: Position::new(300_000, 125_000), released: true, ..REST });
    game.frame(&Input { mouse: Position::new(70_500, 133_000), down: true, ..REST });
    let frame = game.frame(&Input { mouse: Position::new(510_000, 110_000), released: true, ..REST });
    assert_eq!(game.edit_state, EditState { should_save: false, editing: true });
    let text = match frame.save {
        Some(Ok(text)) => text,
        other => panic!("expected the level, got {:?}", other.map(|r| r.map_err(|e| format!("{:?}", e)))),
    };
    let frame = game.frame(&REST);
    assert!(frame.save.is_none());

    let placed = Entity { index: 9 };
    game.frame(&Input { mouse: Position::new(510_000, 20_000), released: true, ..REST });
    assert_eq!(game.world.life(placed), Life::Free);
    assert_eq!(game.world.life(Entity { index: 8 }), Life::Live);
    assert_eq!(game.world.life(PLAYER), Life::Live);

    assert!(Deserialize.run(&mut game.world, &text).is_ok());
    game.world.maintain();
    let back = game.world.find_marker(0).unwrap();
    assert_eq!(back, Entity { index: 10 });
    assert_eq!(game.world.hitbox(back), Some(Hitbox::new(64_000, 128_000)));
    assert_eq!(game.world.sprite(back).as_ref().map(|s| s.name.as_str()), Some("block"));
    assert_eq!(game.world.next_marker(), 1);
}

#[test]
fn markers_stay_with_their_entities_through_frames() {
    let mut game = start();
    game.frame(&Input { mouse: Position::new(300_000, 125_000), released: true, ..REST });
    for tile in 0..4 {
        game.frame(&Input { mouse: Position::new(tile * 32_000 + 5, 200_000), down: true, ..REST });
    }
    let markers: Vec<Option<u64>> =
        (0..game.world.len()).map(|index| game.world.marker(Entity { index })).collect();
    game.frame(&Input { toggle: true, ..REST });
    for _ in 0..10 {
        game.frame(&Input { right: true, jump: true, ..REST });
    }
    let after: Vec<Option<u64>> =
        (0..game.world.len()).map(|index| game.world.marker(Entity { index })).collect();
    assert_eq!(after, markers);
    assert_eq!(markers.iter().flatten().count(), 4);
}
