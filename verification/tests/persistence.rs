use tile_platformer::components::{Hitbox, Position, Sprite, ToolPalette};
use tile_platformer::editor::EditBtnHandle;
use tile_platformer::persist::{Deserialize, LoadError, Row, SavedEntity, Serialize};
use tile_platformer::utils::create_ent;
use tile_platformer::world::{Components, Entity, Life, World};

fn plain(records: &[SavedEntity]) -> Vec<(u64, Option<Hitbox>, Option<Position>, Option<String>)> {
    records
        .iter()
        .map(|r| (r.marker, r.hitbox, r.position, r.sprite.as_ref().map(|s| s.name.clone())))
        .collect()
}

fn level() -> World {
    let mut world = World::new();
    // Furniture without marker.
    let mut player = Components::empty();
    player.hitbox = Some(Hitbox::new(150_000, 250_000));
    world.create(player);
    create_ent(&mut world, ToolPalette::Block, Position::new(0, 320_000));
    create_ent(&mut world, ToolPalette::FallingBlock, Position::new(64_000, 96_000));
    EditBtnHandle::place(&mut world, ToolPalette::SpikeBlock, Position::new(-32_000, 0));
    let mut odd = Components::empty();
    odd.position = Some(Position::new(-5, 7));
    odd.sprite = Some(Sprite { name: "a \"quoted\" name\n".to_string() });
    world.create_marked(odd);
    world.create_marked(Components::empty());
    world.maintain();
    world
}

#[test]
fn collect_lists_the_marked_entities() {
    let world = level();
    let records = Serialize::collect(&world);
    assert_eq!(
        plain(&records),
        vec![
            (0, Some(Hitbox::new(0, 320_000)), None, Some("block".to_string())),
            (1, Some(Hitbox::new(64_000, 96_000)), None, Some("fallingblock".to_string())),
            (2, Some(Hitbox::new(-32_000, 0)), None, Some("spikeblock".to_string())),
            (3, None, Some(Position::new(-5, 7)), Some("a \"quoted\" name\n".to_string())),
            (4, None, None, None),
        ]
    );
}

#[test]
fn collect_leaves_out_what_is_pending_and_keeps_what_is_doomed() {
    let mut world = World::new();
    create_ent(&mut world, ToolPalette::Block, Position::new(0, 0));
    world.maintain();
    create_ent(&mut world, ToolPalette::Block, Position::new(32_000, 0));
    world.delete(Entity { index: 0 });
    let records = Serialize::collect(&world);
    assert_eq!(plain(&records), vec![(0, Some(Hitbox::new(0, 0)), None, Some("block".to_string()))]);
}

#[test]
fn rows_and_records_stand_for_each_other() {
    let record = SavedEntity {
        marker: 9,
        hitbox: Some(Hitbox { width: 3, height: 4, position: Position::new(1, 2) }),
        position: Some(Position::new(5, 6)),
        sprite: Some(Sprite { name: "block".to_string() }),
    };
    let row: Row = record.to_row();
    assert_eq!(row, (9, Some((1, 2, 3, 4)), Some((5, 6)), Some("block".to_string())));
    let back = SavedEntity::from_row(&row);
    assert_eq!(plain(&[back]), plain(&[record]));
    let bare = SavedEntity::from_row(&(1, None, None, None));
    assert_eq!(plain(&[bare]), vec![(1, None, None, None)]);
    let rows: Vec<Row> = vec![(1, None, None, None), (2, None, Some((3, 4)), None)];
    let records = Deserialize::records(&rows);
    assert_eq!(
        plain(&records),
        vec![(1, None, None, None), (2, None, Some(Position::new(3, 4)), None)]
    );
    assert_eq!(Serialize::rows(&records), rows);
}

#[test]
fn the_text_names_what_is_saved() {
    let mut world = World::new();
    create_ent(&mut world, ToolPalette::Block, Position::new(64_000, 96_000));
    world.maintain();
    let text = Serialize.run(&world).unwrap();
    assert!(text.contains("\"block\""));
    assert!(text.contains("64000"));
    assert!(text.contains("96000"));
    assert!(text.contains("32000"));
    assert!(!text.contains('\r'));
    let empty = Serialize.run(&World::new()).unwrap();
    assert_eq!(empty.trim(), "[]");
}

#[test]
fn a_saved_level_comes_back_as_it_was() {
    let world = level();
    let text = Serialize.run(&world).unwrap();
    let mut fresh = World::new();
    assert!(Deserialize.run(&mut fresh, &text).is_ok());
    assert_eq!(fresh.len(), 5);
    assert_eq!(fresh.life(Entity { index: 0 }), Life::Pending);
    fresh.maintain();
    assert_eq!(plain(&Serialize::collect(&fresh)), plain(&Serialize::collect(&world)));
    let mut markers: Vec<u64> =
        (0..fresh.len()).filter_map(|index| fresh.marker(Entity { index })).collect();
    markers.sort();
    markers.dedup();
    assert_eq!(markers.len(), 5);
    assert_eq!(fresh.next_marker(), 5);
    assert_eq!(Serialize.run(&fresh).unwrap(), text);
}

#[test]
fn markers_go_on_after_a_load() {
    let mut world = World::new();
    let text = "[(7, Some((0, 0, 32000, 32000)), None, Some(\"block\")), (2, None, None, None)]";
    assert!(Deserialize.run(&mut world, text).is_ok());
    assert_eq!(world.next_marker(), 8);
    assert_eq!(world.marker(Entity { index: 0 }), Some(7));
    assert_eq!(world.marker(Entity { index: 1 }), Some(2));
    let e = world.create_marked(Components::empty());
    assert_eq!(world.marker(e), Some(8));
}

#[test]
fn loading_merges_into_the_entities_that_carry_the_marker() {
    let mut world = level();
    let text = "[(1, None, Some((5, 6)), Some(\"spikeblock\")), (40, None, None, Some(\"block\")), (40, Some((1, 2, 3, 4)), None, None)]";
    assert!(Deserialize.run(&mut world, text).is_ok());
    let known = world.find_marker(1).unwrap();
    assert_eq!(known, Entity { index: 2 });
    assert_eq!(world.hitbox(known), None);
    assert_eq!(world.position(known), Some(Position::new(5, 6)));
    assert_eq!(world.sprite(known).as_ref().map(|s| s.name.as_str()), Some("spikeblock"));
    // What the saved level does not speak of stays.
    assert!(world.falling_block(known).is_some());
    assert_eq!(world.len(), 7);
    let new = world.find_marker(40).unwrap();
    assert_eq!(new, Entity { index: 6 });
    assert_eq!(world.life(new), Life::Pending);
    assert_eq!(
        world.hitbox(new),
        Some(Hitbox { width: 3, height: 4, position: Position::new(1, 2) })
    );
    assert!(world.sprite(new).is_none());
    assert_eq!(world.next_marker(), 41);
    assert_eq!(world.hitbox(Entity { index: 0 }), Some(Hitbox::new(150_000, 250_000)));
}

#[test]
fn a_text_that_is_no_level_is_refused() {
    for text in ["", "nonsense", "[(1, None, None)]", "[(1, None, None, None)] trailing", "[(-1, None, None, None)]"] {
        let mut world = level();
        let before = plain(&Serialize::collect(&world));
        match Deserialize.run(&mut world, text) {
            Err(LoadError::Malformed(message)) => assert!(!message.is_empty()),
            other => panic!("expected a malformed level, got {:?}", other),
        }
        assert_eq!(world.len(), 6);
        assert_eq!(plain(&Serialize::collect(&world)), before);
    }
}

#[test]
fn the_last_marker_is_refused() {
    let mut world = World::new();
    let text = "[(3, None, None, None), (18446744073709551615, None, None, None)]";
    assert!(matches!(Deserialize.run(&mut world, text), Err(LoadError::MarkerOutOfRange)));
    assert_eq!(world.len(), 0);
    assert_eq!(world.next_marker(), 0);
    let records = vec![SavedEntity { marker: u64::MAX, hitbox: None, position: None, sprite: None }];
    assert!(matches!(Deserialize::restore(&mut world, &records), Err(LoadError::MarkerOutOfRange)));
    let records = vec![SavedEntity { marker: u64::MAX - 1, hitbox: None, position: None, sprite: None }];
    assert!(Deserialize::restore(&mut world, &records).is_ok());
    assert_eq!(world.next_marker(), u64::MAX);
}

#[test]
fn an_empty_level_loads_nothing() {
    let mut world = level();
    assert!(Deserialize.run(&mut world, "[]").is_ok());
    assert_eq!(world.len(), 6);
    assert_eq!(world.next_marker(), 5);
}
