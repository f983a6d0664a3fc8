//! Entities keep their identity.
//!
//! Whatever a system does to the world, an entity that is still there
//! afterwards is the entity that stood in its row before, under the marker it
//! had, and the world keeps its rules. This is what lets a marker name an
//! entity across saves.

use crate::components::{Hitbox, Position, ToolPalette};
use crate::editor::{
    cleared, drag_all, first_block, icon_clicked, lemma_first_block, place_spec, EditBtnHandle,
};
use crate::game::{edited, frame_spec, simulated, GameView, Input};
use crate::persist::{loadable, restore_all, restore_upto, SavedView};
use crate::physics::{collision_pass, fall_all, steer_all, step_body};
use crate::utils::create_ent_spec;
use crate::world::{
    law_marker_is_for_life, lemma_components_keep_rules, lemma_evolves_on, ComponentsView,
    WorldView,
};
use vstd::prelude::*;

verus! {

/// Whether `later` is `w` with some rows changed in their components, or
/// doomed, and nothing else.
pub open spec fn same_entities(w: WorldView, later: WorldView) -> bool {
    &&& later.entities.len() == w.entities.len()
    &&& later.next_marker == w.next_marker
    &&& forall|i: int|
        0 <= i < w.entities.len() ==> (#[trigger] later.entities[i]).marker
            == w.entities[i].marker && later.entities[i].present() == w.entities[i].present() && (
        !w.entities[i].present() ==> later.entities[i] == w.entities[i])
}

proof fn lemma_same_entities(w: WorldView, later: WorldView)
    requires
        w.wf(),
        same_entities(w, later),
    ensures
        later.wf(),
        w.evolves_to(later),
{
    assert forall|i: int, j: int|
        0 <= i < later.entities.len() && 0 <= j < later.entities.len() && i != j && (
        #[trigger] later.entities[i]).marker is Some implies later.entities[i].marker != (
    #[trigger] later.entities[j]).marker by {
        assert(w.entities[i].marker != w.entities[j].marker);
    }
    assert forall|i: int|
        0 <= i < later.entities.len() && !(#[trigger] later.entities[i]).present() implies later.entities[i]
        == crate::world::EntityView::vacant() by {
        assert(!w.entities[i].present());
    }
    assert forall|i: int|
        0 <= i < later.entities.len() && (#[trigger] later.entities[i]).marker is Some implies later.entities[i].marker->0
        < later.next_marker by {
        assert(w.entities[i].marker is Some);
    }
}

/// Steering changes no identity.
pub proof fn law_steering_keeps_identity(w: WorldView, left: bool, right: bool, jump: bool)
    requires
        w.wf(),
    ensures
        steer_all(w, left, right, jump).wf(),
        w.evolves_to(steer_all(w, left, right, jump)),
        same_entities(w, steer_all(w, left, right, jump)),
{
    lemma_same_entities(w, steer_all(w, left, right, jump));
}

proof fn lemma_same_entities_on(a: WorldView, b: WorldView, c: WorldView)
    requires
        same_entities(a, b),
        same_entities(b, c),
    ensures
        same_entities(a, c),
{
    assert forall|i: int| 0 <= i < a.entities.len() implies (#[trigger] c.entities[i]).marker
        == a.entities[i].marker && c.entities[i].present() == a.entities[i].present() && (
    !a.entities[i].present() ==> c.entities[i] == a.entities[i]) by {
        assert(b.entities[i].marker == a.entities[i].marker);
    }
}

proof fn lemma_step_keeps_entities(w: WorldView, i: int, dt: i64)
    ensures
        same_entities(w, step_body(w, i, dt)),
{
}

/// Moving the bodies changes no identity.
pub proof fn law_collisions_keep_identity(w: WorldView, dt: i64, n: int)
    requires
        w.wf(),
    ensures
        collision_pass(w, dt, n).wf(),
        w.evolves_to(collision_pass(w, dt, n)),
        same_entities(w, collision_pass(w, dt, n)),
    decreases n,
{
    if n > 0 {
        law_collisions_keep_identity(w, dt, n - 1);
        let before = collision_pass(w, dt, n - 1);
        lemma_step_keeps_entities(before, n - 1, dt);
        lemma_same_entities_on(w, before, step_body(before, n - 1, dt));
    }
    lemma_same_entities(w, collision_pass(w, dt, n));
}

/// The falling blocks change no identity.
pub proof fn law_falling_keeps_identity(w: WorldView)
    requires
        w.wf(),
    ensures
        fall_all(w).wf(),
        w.evolves_to(fall_all(w)),
        same_entities(w, fall_all(w)),
{
    lemma_same_entities(w, fall_all(w));
}

/// Dragging changes no identity.
pub proof fn law_dragging_keeps_identity(w: WorldView, mouse: Position, pressed: bool, released: bool)
    requires
        w.wf(),
    ensures
        drag_all(w, mouse, pressed, released).wf(),
        w.evolves_to(drag_all(w, mouse, pressed, released)),
        same_entities(w, drag_all(w, mouse, pressed, released)),
{
    lemma_same_entities(w, drag_all(w, mouse, pressed, released));
}

/// Clearing the level changes no identity: the placed objects are doomed, and
/// until the frame is settled they are who they were.
pub proof fn law_clearing_keeps_identity(w: WorldView)
    requires
        w.wf(),
    ensures
        cleared(w).wf(),
        w.evolves_to(cleared(w)),
        same_entities(w, cleared(w)),
{
    lemma_same_entities(w, cleared(w));
}

/// Placing a tool changes no identity, and the object it makes gets a marker
/// of its own.
pub proof fn law_placing_keeps_identity(w: WorldView, tool: ToolPalette, at: Position)
    requires
        w.wf(),
        w.next_marker < u64::MAX,
    ensures
        place_spec(w, tool, at).wf(),
        w.evolves_to(place_spec(w, tool, at)),
{
    let target = Hitbox::tile(at.x, at.y);
    let object = crate::editor::placed_object(tool, at);
    lemma_first_block(w, target, 0);
    match first_block(w, target) {
        Some(i) => {
            let doomed = w.deleted(i);
            law_marker_is_for_life(w, i, object, 0);
            assert(doomed.wf());
            law_marker_is_for_life(doomed, i, object, 0);
            lemma_evolves_on(w, doomed, doomed.created_marked(object));
        },
        None => {
            law_marker_is_for_life(w, 0, object, 0);
        },
    }
}

/// Making an object changes no identity.
pub proof fn law_making_keeps_identity(w: WorldView, tool: ToolPalette, at: Position)
    requires
        w.wf(),
        w.next_marker < u64::MAX,
    ensures
        create_ent_spec(w, tool, at).wf(),
        w.evolves_to(create_ent_spec(w, tool, at)),
{
}

/// The clicks on the palette change no identity and hand out no marker.
pub proof fn law_clicks_keep_identity(
    handle: EditBtnHandle,
    w: WorldView,
    mouse: Position,
    released: bool,
    n: int,
)
    requires
        w.wf(),
    ensures
        handle.clicks_upto(w, mouse, released, n).world.wf(),
        w.evolves_to(handle.clicks_upto(w, mouse, released, n).world),
        handle.clicks_upto(w, mouse, released, n).world.next_marker == w.next_marker,
    decreases n,
{
    if n > 0 {
        law_clicks_keep_identity(handle, w, mouse, released, n - 1);
        let before = handle.clicks_upto(w, mouse, released, n - 1);
        let after = handle.clicks_upto(w, mouse, released, n);
        if EditBtnHandle::clicked(before.world, mouse, released, n - 1) {
            let button = before.world.get(n - 1).data.edit_btn->0;
            let made = crate::editor::ghost_object(button.text, mouse);
            let shown = ComponentsView { sprite: Some(button.text), ..made };
            match before.handle.selection() {
                None => {
                    law_marker_is_for_life(before.world, 0, made, 0);
                },
                Some((entity, tool)) => {
                    law_marker_is_for_life(before.world, entity.index as int, shown, 0);
                    lemma_components_keep_rules(before.world, entity.index as int, shown);
                },
            }
            lemma_evolves_on(w, before.world, after.world);
        }
    }
}

/// One frame of the palette changes no identity.
pub proof fn law_palette_keeps_identity(
    handle: EditBtnHandle,
    w: WorldView,
    mouse: Position,
    released: bool,
    down: bool,
)
    requires
        w.wf(),
        w.next_marker < u64::MAX,
    ensures
        handle.run_spec(w, mouse, released, down).1.wf(),
        w.evolves_to(handle.run_spec(w, mouse, released, down).1),
{
    let n = w.entities.len() as int;
    law_clicks_keep_identity(handle, w, mouse, released, n);
    let step = handle.clicks_upto(w, mouse, released, n);
    match step.handle.selection() {
        Some((ghost, tool)) => {
            let at = mouse.snap_floor_spec();
            let shown = ComponentsView { position: Some(at), ..ComponentsView::empty() };
            let moved = step.world.with_position(ghost.index as int, Some(at));
            law_marker_is_for_life(step.world, ghost.index as int, shown, 0);
            lemma_components_keep_rules(step.world, ghost.index as int, shown);
            lemma_evolves_on(w, step.world, moved);
            if !step.pressed && down {
                law_placing_keeps_identity(moved, tool, at);
                lemma_evolves_on(w, moved, place_spec(moved, tool, at));
            }
        },
        None => {},
    }
}

/// Reading a saved level changes no identity: the entities that were there
/// stay who they were, and those that come in bring markers that were free.
pub proof fn law_loading_keeps_identity(w: WorldView, records: Seq<SavedView>, n: int)
    requires
        w.wf(),
        loadable(records),
        0 <= n <= records.len(),
    ensures
        restore_upto(w, records, n).wf(),
        w.evolves_to(restore_upto(w, records, n)),
    decreases n,
{
    if n > 0 {
        law_loading_keeps_identity(w, records, n - 1);
        let before = restore_upto(w, records, n - 1);
        let record = records[n - 1];
        let data = crate::persist::restored_components(record);
        match before.marker_row(record.marker) {
            Some(i) => {
                let a = before.with_hitbox(i, record.hitbox);
                let b = a.with_position(i, record.position);
                let c = b.with_sprite(i, record.sprite);
                law_marker_is_for_life(before, i, data, 0);
                lemma_components_keep_rules(before, i, data);
                law_marker_is_for_life(a, i, data, 0);
                lemma_components_keep_rules(a, i, data);
                law_marker_is_for_life(b, i, data, 0);
                lemma_components_keep_rules(b, i, data);
                lemma_evolves_on(before, a, b);
                lemma_evolves_on(before, b, c);
            },
            None => {
                law_marker_is_for_life(before, 0, data, record.marker);
                assert(!before.has_marker(record.marker));
                let after = before.adopted(data, record.marker);
                assert(after.wf()) by {
                    assert forall|i: int, j: int|
                        0 <= i < after.entities.len() && 0 <= j < after.entities.len() && i != j
                            && (#[trigger] after.entities[i]).marker is Some implies after.entities[i].marker
                        != (#[trigger] after.entities[j]).marker by {
                        if i < before.entities.len() && j < before.entities.len() {
                            assert(before.entities[i].marker != before.entities[j].marker);
                        } else if i < before.entities.len() {
                            assert(before.entities[i].marker != Some(record.marker));
                        } else {
                            assert(before.entities[j].marker != Some(record.marker));
                        }
                    }
                }
            },
        }
        lemma_evolves_on(w, before, restore_upto(w, records, n));
    }
}

/// A whole frame changes no identity, and leaves a world that keeps its rules
/// and is settled.
pub proof fn law_frame_keeps_identity(g: GameView, input: Input)
    requires
        g.world.wf(),
        g.world.next_marker < u64::MAX,
    ensures
        frame_spec(g, input).world.wf(),
        frame_spec(g, input).world.settled(),
        g.world.evolves_to(frame_spec(g, input).world),
{
    let editing = g.edit_state.editing;
    let w = g.world;
    let sim = simulated(w, editing, input);
    if !editing {
        let steered = steer_all(w, input.left, input.right, input.jump);
        law_steering_keeps_identity(w, input.left, input.right, input.jump);
        let n = steered.entities.len() as int;
        law_collisions_keep_identity(steered, input.dt, n);
        let moved = collision_pass(steered, input.dt, n);
        law_falling_keeps_identity(moved);
        lemma_evolves_on(w, steered, moved);
        lemma_evolves_on(w, moved, sim);
    }
    assert(sim.wf() && w.evolves_to(sim) && sim.next_marker == w.next_marker);
    let dragged = if editing {
        drag_all(sim, input.mouse, input.pressed, input.released)
    } else {
        sim
    };
    if editing {
        law_dragging_keeps_identity(sim, input.mouse, input.pressed, input.released);
        lemma_evolves_on(w, sim, dragged);
    }
    let placed = if editing {
        g.palette.run_spec(dragged, input.mouse, input.released, input.down).1
    } else {
        dragged
    };
    if editing {
        law_palette_keeps_identity(g.palette, dragged, input.mouse, input.released, input.down);
        lemma_evolves_on(w, dragged, placed);
    }
    let e = edited(g, input);
    assert(e.world == if icon_clicked(
        placed,
        input.mouse,
        input.released,
        crate::components::IconKind::EmptyBox,
    ) {
        cleared(placed)
    } else {
        placed
    });
    law_clearing_keeps_identity(placed);
    lemma_evolves_on(w, placed, e.world);
    law_marker_is_for_life(e.world, 0, ComponentsView::empty(), 0);
    crate::world::law_maintain_settles(e.world);
    lemma_evolves_on(w, e.world, e.world.maintained());
}

/// Reading a whole saved level changes no identity.
pub proof fn law_level_keeps_identity(w: WorldView, records: Seq<SavedView>)
    requires
        w.wf(),
        loadable(records),
    ensures
        restore_all(w, records).wf(),
        w.evolves_to(restore_all(w, records)),
{
    law_loading_keeps_identity(w, records, records.len() as int);
}

} // verus!
