use tile_platformer::components::{Hitbox, Moveable, Position, Sprite, ToolPalette};
use tile_platformer::utils::create_ent;
use tile_platformer::world::{Components, Entity, Life, World};

fn solid(x: i64, y: i64) -> Components {
    let mut data = Components::empty();
    data.hitbox = Some(Hitbox::new(x, y));
    data
}

#[test]
fn a_new_world_is_empty() {
    let world = World::new();
    assert_eq!(world.len(), 0);
    assert_eq!(world.count(), 0);
    assert_eq!(world.next_marker(), 0);
    assert_eq!(world.life(Entity { index: 0 }), Life::Free);
    assert_eq!(world.hitbox(Entity { index: 0 }), None);
}

#[test]
fn creation_waits_for_maintain() {
    let mut world = World::new();
    let e = world.create(solid(0, 0));
    assert_eq!(e, Entity { index: 0 });
    assert_eq!(world.life(e), Life::Pending);
    assert!(world.present(e));
    assert!(!world.is_visible(e));
    assert_eq!(world.count(), 0);
    assert_eq!(world.hitbox(e), Some(Hitbox::new(0, 0)));
    world.maintain();
    assert_eq!(world.life(e), Life::Live);
    assert!(world.is_visible(e));
    assert_eq!(world.count(), 1);
}

#[test]
fn deletion_waits_for_maintain() {
    let mut world = World::new();
    let e = world.create(solid(0, 0));
    world.maintain();
    world.delete(e);
    assert_eq!(world.life(e), Life::Doomed);
    assert!(world.is_visible(e));
    assert_eq!(world.count(), 1);
    assert_eq!(world.hitbox(e), Some(Hitbox::new(0, 0)));
    world.maintain();
    assert_eq!(world.life(e), Life::Free);
    assert_eq!(world.count(), 0);
    assert_eq!(world.hitbox(e), None);
    assert_eq!(world.len(), 1);
}

#[test]
fn deleting_a_pending_entity_withdraws_it() {
    let mut world = World::new();
    let e = world.create(solid(0, 0));
    world.delete(e);
    assert_eq!(world.life(e), Life::Free);
    assert_eq!(world.hitbox(e), None);
    world.maintain();
    assert_eq!(world.count(), 0);
}

#[test]
fn deleting_what_is_not_there_changes_nothing() {
    let mut world = World::new();
    let e = world.create(solid(0, 0));
    world.maintain();
    world.delete(Entity { index: 7 });
    world.delete(e);
    world.delete(e);
    assert_eq!(world.life(e), Life::Doomed);
    world.maintain();
    world.delete(e);
    assert_eq!(world.life(e), Life::Free);
    assert_eq!(world.len(), 1);
}

#[test]
fn rows_are_not_used_again() {
    let mut world = World::new();
    let a = world.create(solid(0, 0));
    world.maintain();
    world.delete(a);
    world.maintain();
    let b = world.create(solid(1, 1));
    assert_eq!(b, Entity { index: 1 });
    assert_eq!(world.life(a), Life::Free);
}

#[test]
fn markers_are_handed_out_in_order_and_never_again() {
    let mut world = World::new();
    let a = world.create_marked(solid(0, 0));
    let b = world.create_marked(solid(1, 1));
    let c = world.create(solid(2, 2));
    assert_eq!(world.marker(a), Some(0));
    assert_eq!(world.marker(b), Some(1));
    assert_eq!(world.marker(c), None);
    assert_eq!(world.next_marker(), 2);
    world.maintain();
    world.delete(b);
    world.maintain();
    let d = world.create_marked(solid(3, 3));
    assert_eq!(world.marker(d), Some(2));
    assert_eq!(world.marker(b), None);
    assert_eq!(world.find_marker(0), Some(a));
    assert_eq!(world.find_marker(1), None);
    assert_eq!(world.find_marker(2), Some(d));
}

#[test]
fn adopted_entities_bring_their_markers() {
    let mut world = World::new();
    let a = world.adopt(solid(0, 0), 10);
    assert_eq!(a, Some(Entity { index: 0 }));
    assert_eq!(world.marker(Entity { index: 0 }), Some(10));
    assert_eq!(world.next_marker(), 11);
    assert_eq!(world.adopt(solid(1, 1), 10), None);
    assert_eq!(world.len(), 1);
    assert_eq!(world.adopt(solid(1, 1), 3), Some(Entity { index: 1 }));
    assert_eq!(world.next_marker(), 11);
    assert_eq!(world.adopt(solid(2, 2), u64::MAX), None);
    assert_eq!(world.len(), 2);
    let fresh = world.create_marked(solid(3, 3));
    assert_eq!(world.marker(fresh), Some(11));
}

#[test]
fn components_are_set_and_taken_away() {
    let mut world = World::new();
    let e = world.create(Components::empty());
    assert_eq!(world.moveable(e), None);
    world.set_moveable(e, Some(Moveable::new()));
    assert_eq!(world.moveable(e), Some(Moveable::new()));
    world.set_moveable(e, None);
    assert_eq!(world.moveable(e), None);
    world.set_position(e, Some(Position::new(1, 2)));
    assert_eq!(world.position(e), Some(Position::new(1, 2)));
    world.set_sprite(e, Some(Sprite { name: "block".to_string() }));
    assert_eq!(world.sprite(e).as_ref().map(|s| s.name.as_str()), Some("block"));
    world.set_sprite(e, None);
    assert!(world.sprite(e).is_none());
}

#[test]
fn setting_a_component_of_nothing_changes_nothing() {
    let mut world = World::new();
    world.set_hitbox(Entity { index: 0 }, Some(Hitbox::new(0, 0)));
    assert_eq!(world.len(), 0);
    let e = world.create(Components::empty());
    world.delete(e);
    world.set_hitbox(e, Some(Hitbox::new(0, 0)));
    assert_eq!(world.hitbox(e), None);
}

#[test]
fn a_block_is_a_marked_solid_tile() {
    let mut world = World::new();
    create_ent(&mut world, ToolPalette::Block, Position::new(64_000, 96_000));
    let e = Entity { index: 0 };
    assert_eq!(world.len(), 1);
    assert_eq!(world.life(e), Life::Pending);
    assert_eq!(world.marker(e), Some(0));
    assert_eq!(
        world.hitbox(e),
        Some(Hitbox { width: 32_000, height: 32_000, position: Position::new(64_000, 96_000) })
    );
    assert_eq!(world.sprite(e).as_ref().map(|s| s.name.as_str()), Some("block"));
    assert!(world.drag_box(e).is_some());
    assert!(world.falling_block(e).is_none());
    assert!(world.triggerbox(e).is_none());
}

#[test]
fn a_falling_block_has_a_sensor_one_unit_higher() {
    let mut world = World::new();
    create_ent(&mut world, ToolPalette::FallingBlock, Position::new(64_000, 96_000));
    let e = Entity { index: 0 };
    assert_eq!(world.marker(e), Some(0));
    assert_eq!(world.hitbox(e), Some(Hitbox::new(64_000, 96_000)));
    let trigger = world.triggerbox(e).unwrap();
    assert_eq!(trigger.position, Position::new(64_000, 95_000));
    assert_eq!((trigger.width, trigger.height), (32_000, 32_000));
    let block = world.falling_block(e).unwrap();
    assert_eq!((block.count, block.should_fall), (0, false));
    assert_eq!(world.sprite(e).as_ref().map(|s| s.name.as_str()), Some("fallingblock"));
    assert!(world.drag_box(e).is_some());
    assert!(world.moveable(e).is_none());
}

#[test]
fn a_spike_block_makes_nothing() {
    let mut world = World::new();
    create_ent(&mut world, ToolPalette::SpikeBlock, Position::new(0, 0));
    assert_eq!(world.len(), 0);
    assert_eq!(world.next_marker(), 0);
}
