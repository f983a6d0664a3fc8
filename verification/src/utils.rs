//! Making the objects of a level.

use crate::components::{DragBox, FallingBlock, Hitbox, Position, Sprite, ToolPalette, Triggerbox};
use crate::fixed::{fx_sub, fx_sub_spec, GRID, UNIT};
use crate::world::{Components, ComponentsView, World, WorldView};
use vstd::prelude::*;

verus! {

/// The components of the object that `tool` makes at `position`, if it makes
/// one. A block is a solid tile. A falling block is a solid tile with a sensor
/// of the same size that sits one world unit higher.
pub open spec fn object_of(tool: ToolPalette, position: Position) -> Option<ComponentsView> {
    match tool {
        ToolPalette::Block => Some(
            ComponentsView {
                hitbox: Some(Hitbox { width: GRID, height: GRID, position }),
                drag_box: Some(DragBox::idle()),
                sprite: Some(tool.name_spec()),
                ..ComponentsView::empty()
            },
        ),
        ToolPalette::FallingBlock => Some(
            ComponentsView {
                falling_block: Some(FallingBlock { count: 0, should_fall: false }),
                sprite: Some(tool.name_spec()),
                triggerbox: Some(
                    Triggerbox {
                        width: GRID,
                        height: GRID,
                        position: Position { x: position.x, y: fx_sub_spec(position.y, UNIT) },
                    },
                ),
                drag_box: Some(DragBox::idle()),
                hitbox: Some(Hitbox { width: GRID, height: GRID, position }),
                ..ComponentsView::empty()
            },
        ),
        ToolPalette::SpikeBlock => None,
    }
}

/// The world after the object of `tool` has been asked for at `position`.
pub open spec fn create_ent_spec(w: WorldView, tool: ToolPalette, position: Position) -> WorldView {
    match object_of(tool, position) {
        Some(object) => w.created_marked(object),
        None => w,
    }
}

/// Asks for the object of `ty` at `position`, with an identity marker of its
/// own, so that it is saved with the level.
pub fn create_ent(world: &mut World, ty: ToolPalette, position: Position)
    requires
        old(world).wf(),
        old(world)@.next_marker < u64::MAX,
    ensures
        final(world).wf(),
        final(world)@ == create_ent_spec(old(world)@, ty, position),
{
    match ty {
        ToolPalette::Block => {
            let mut object = Components::empty();
            object.hitbox = Some(Hitbox { width: GRID, height: GRID, position });
            object.drag_box = Some(DragBox::default());
            object.sprite = Some(Sprite { name: ty.name() });
            assert(Some(object@) == object_of(ty, position));
            world.create_marked(object);
        },
        ToolPalette::FallingBlock => {
            let mut object = Components::empty();
            object.falling_block = Some(FallingBlock::default());
            object.sprite = Some(Sprite { name: ty.name() });
            object.triggerbox = Some(
                Triggerbox {
                    position: Position { x: position.x, y: fx_sub(position.y, UNIT) },
                    width: GRID,
                    height: GRID,
                },
            );
            object.drag_box = Some(DragBox::default());
            object.hitbox = Some(Hitbox { width: GRID, height: GRID, position });
            assert(Some(object@) == object_of(ty, position));
            world.create_marked(object);
        },
        _ => {},
    }
}

} // verus!
