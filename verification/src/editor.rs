//! The level editor: the tool palette and the placing of objects.

use crate::components::{
    CollisionsPoint, CollisionsRec, DragBox, EditState, Hitbox, IconKind, Position, Sprite,
    ToolPalette,
};
use crate::world::{
    lemma_count_agrees, lemma_count_without, lemma_settled_stays, Components, ComponentsView,
    EditBtnView, Entity, EntityView, Life, World, WorldView,
};
use vstd::prelude::*;

verus! {

/// The palette state machine. While a tool is selected, one entity, the ghost,
/// follows the mouse and shows what would be placed.
#[derive(Debug, Clone, Copy, PartialEq, Eq, Structural)]
pub struct EditBtnHandle {
    pub selected_entity: Option<Entity>,
    pub selected_tool: Option<ToolPalette>,
}

/// The palette state while the buttons under the mouse are gone through.
pub struct EditStep {
    pub handle: EditBtnHandle,
    pub world: WorldView,
    /// Whether a button took the click of this frame.
    pub pressed: bool,
}

/// The object that `tool` places on the tile at `at`.
pub open spec fn placed_object(tool: ToolPalette, at: Position) -> ComponentsView {
    ComponentsView {
        drag_box: Some(DragBox::idle()),
        sprite: Some(tool.name_spec()),
        hitbox: Some(Hitbox::tile(at.x, at.y)),
        ..ComponentsView::empty()
    }
}

/// The ghost that a click on a button labelled `text` brings up at `at`.
pub open spec fn ghost_object(text: Seq<char>, at: Position) -> ComponentsView {
    ComponentsView { sprite: Some(text), position: Some(at), ..ComponentsView::empty() }
}

/// Whether row `i` is a placed object that covers part of `target`.
pub open spec fn blocks(w: WorldView, target: Hitbox, i: int) -> bool {
    &&& w.visible(i)
    &&& w.get(i).data.sprite is Some
    &&& w.get(i).data.hitbox matches Some(h)
    &&& h.overlaps(target)
}

/// The first row from `i` on that blocks `target`.
pub open spec fn first_block_from(w: WorldView, target: Hitbox, i: int) -> Option<int>
    decreases w.entities.len() - i,
{
    if i < 0 || i >= w.entities.len() {
        None
    } else if blocks(w, target, i) {
        Some(i)
    } else {
        first_block_from(w, target, i + 1)
    }
}

/// The first row that blocks `target`.
pub open spec fn first_block(w: WorldView, target: Hitbox) -> Option<int> {
    first_block_from(w, target, 0)
}

/// The world after `tool` has been put on the tile at `at`. An object of the
/// same kind already there leaves the world as it is; one of another kind is
/// deleted and the new object takes its place.
pub open spec fn place_spec(w: WorldView, tool: ToolPalette, at: Position) -> WorldView {
    match first_block(w, Hitbox::tile(at.x, at.y)) {
        Some(i) => if w.get(i).data.sprite == Some(tool.name_spec()) {
            w
        } else {
            w.deleted(i).created_marked(placed_object(tool, at))
        },
        None => w.created_marked(placed_object(tool, at)),
    }
}

/// What `first_block_from` finds: the first row from `i` on that blocks
/// `target`, and nothing where no row does.
pub proof fn lemma_first_block(w: WorldView, target: Hitbox, i: int)
    requires
        0 <= i,
    ensures
        match first_block_from(w, target, i) {
            Some(k) => i <= k < w.entities.len() && blocks(w, target, k) && forall|j: int|
                i <= j < k ==> !blocks(w, target, j),
            None => forall|j: int| i <= j < w.entities.len() ==> !blocks(w, target, j),
        },
    decreases w.entities.len() - i,
{
    if i < w.entities.len() && !blocks(w, target, i) {
        lemma_first_block(w, target, i + 1);
    }
}

/// The row that a placed object of `tool` at `at` makes once it is settled.
pub open spec fn placed_row(w: WorldView, tool: ToolPalette, at: Position) -> EntityView {
    EntityView { life: Life::Live, marker: Some(w.next_marker), data: placed_object(tool, at) }
}

/// Placing a tool on a tile whose first object is of the same kind changes
/// nothing.
pub proof fn law_place_same_kind(w: WorldView, tool: ToolPalette, at: Position)
    requires
        first_block(w, Hitbox::tile(at.x, at.y)) is Some,
        w.get(first_block(w, Hitbox::tile(at.x, at.y))->0).data.sprite == Some(tool.name_spec()),
    ensures
        place_spec(w, tool, at) == w,
        place_spec(w, tool, at).count() == w.count(),
{
}

/// Placing a tool on a tile whose first object is of another kind replaces
/// that object. Once the frame is settled the old object is gone and one new
/// object of the tool's kind stands on the tile, under a marker that was never
/// used before; every other entity is as it was, and the world has as many
/// entities as before.
pub proof fn law_place_other_kind(w: WorldView, tool: ToolPalette, at: Position)
    requires
        w.wf(),
        w.settled(),
        w.next_marker < u64::MAX,
        first_block(w, Hitbox::tile(at.x, at.y)) is Some,
        w.get(first_block(w, Hitbox::tile(at.x, at.y))->0).data.sprite != Some(tool.name_spec()),
    ensures
        ({
            let old_row = first_block(w, Hitbox::tile(at.x, at.y))->0;
            let after = place_spec(w, tool, at).maintained();
            &&& after.wf()
            &&& after.count() == w.count()
            &&& after.entities.len() == w.entities.len() + 1
            &&& after.entities[old_row] == EntityView::vacant()
            &&& forall|j: int|
                0 <= j < w.entities.len() && j != old_row ==> after.entities[j] == w.entities[j]
            &&& after.entities[w.entities.len() as int] == placed_row(w, tool, at)
            &&& !w.has_marker(w.next_marker)
        }),
{
    let target = Hitbox::tile(at.x, at.y);
    let i = first_block(w, target)->0;
    let n = w.entities.len() as int;
    lemma_first_block(w, target, 0);
    let after = place_spec(w, tool, at).maintained();
    assert(w.entities[i].life == Life::Live);
    assert(after.entities[i] == EntityView::vacant());
    assert(forall|j: int| 0 <= j < n && j != i ==> after.entities[j] == w.entities[j]);
    lemma_count_without(w, after, i, n);
    assert(after.count_upto(n + 1) == after.count_upto(n) + 1);
    assert(!w.has_marker(w.next_marker)) by {
        if w.has_marker(w.next_marker) {
            let k = choose|k: int|
                0 <= k < w.entities.len() && (#[trigger] w.entities[k]).marker == Some(
                    w.next_marker,
                );
            assert(w.entities[k].marker->0 < w.next_marker);
        }
    }
}

/// Placing a tool on a free tile adds one object of the tool's kind and
/// leaves every other entity as it was.
pub proof fn law_place_on_free_tile(w: WorldView, tool: ToolPalette, at: Position)
    requires
        w.wf(),
        w.settled(),
        w.next_marker < u64::MAX,
        first_block(w, Hitbox::tile(at.x, at.y)) is None,
    ensures
        ({
            let after = place_spec(w, tool, at).maintained();
            &&& after.wf()
            &&& after.count() == w.count() + 1
            &&& after.entities.len() == w.entities.len() + 1
            &&& forall|j: int| 0 <= j < w.entities.len() ==> after.entities[j] == w.entities[j]
            &&& after.entities[w.entities.len() as int] == placed_row(w, tool, at)
        }),
{
    let n = w.entities.len() as int;
    let after = place_spec(w, tool, at).maintained();
    assert(forall|j: int| 0 <= j < n ==> after.entities[j] == w.entities[j]);
    lemma_count_agrees(w, after, n);
    assert(after.count_upto(n + 1) == after.count_upto(n) + 1);
}

/// Placing is idempotent: where at most one object stands on a tile, placing
/// a tool there, settling the frame and placing the same tool there again
/// changes nothing the second time.
pub proof fn law_place_twice(w: WorldView, tool: ToolPalette, at: Position)
    requires
        w.wf(),
        w.settled(),
        w.next_marker < u64::MAX - 1,
        forall|j: int, k: int|
            blocks(w, Hitbox::tile(at.x, at.y), j) && blocks(w, Hitbox::tile(at.x, at.y), k) ==> j
                == k,
    ensures
        ({
            let once = place_spec(w, tool, at).maintained();
            place_spec(once, tool, at) == once
        }),
{
    let target = Hitbox::tile(at.x, at.y);
    let n = w.entities.len() as int;
    let once = place_spec(w, tool, at).maintained();
    lemma_first_block(w, target, 0);
    match first_block(w, target) {
        Some(i) => {
            if w.get(i).data.sprite == Some(tool.name_spec()) {
                lemma_settled_stays(w);
            } else {
                law_place_other_kind(w, tool, at);
                assert(forall|j: int| 0 <= j < n ==> !blocks(once, target, j)) by {
                    assert forall|j: int| 0 <= j < n implies !blocks(once, target, j) by {
                        if j != i && blocks(once, target, j) {
                            assert(blocks(w, target, j));
                        }
                    }
                }
                assert(blocks(once, target, n));
                lemma_first_block(once, target, 0);
            }
        },
        None => {
            law_place_on_free_tile(w, tool, at);
            assert(forall|j: int| 0 <= j < n ==> !blocks(once, target, j)) by {
                assert forall|j: int| 0 <= j < n implies !blocks(once, target, j) by {
                    if blocks(once, target, j) {
                        assert(blocks(w, target, j));
                    }
                }
            }
            assert(blocks(once, target, n));
            lemma_first_block(once, target, 0);
        },
    }
}

impl EditBtnHandle {
    /// The ghost and its tool, if a tool is selected.
    pub open spec fn selection(self) -> Option<(Entity, ToolPalette)> {
        match (self.selected_entity, self.selected_tool) {
            (Some(e), Some(t)) => Some((e, t)),
            _ => None,
        }
    }

    /// The state with nothing selected.
    pub open spec fn idle() -> EditBtnHandle {
        EditBtnHandle { selected_entity: None, selected_tool: None }
    }

    /// The same selection, with a half-filled state read as no selection.
    pub open spec fn normal(self) -> EditBtnHandle {
        if self.selection() is Some {
            self
        } else {
            EditBtnHandle::idle()
        }
    }

    /// One click on `button`. With nothing selected, a ghost for the button's
    /// tool is asked for; a click on the selected tool withdraws the ghost and
    /// the selection; a click on another tool relabels the ghost.
    pub open spec fn click(step: EditStep, button: EditBtnView, mouse: Position) -> EditStep {
        match step.handle.selection() {
            None => EditStep {
                handle: EditBtnHandle {
                    selected_entity: Some(Entity { index: step.world.entities.len() as usize }),
                    selected_tool: Some(button.tool),
                },
                world: step.world.created(ghost_object(button.text, mouse)),
                pressed: true,
            },
            Some((ghost, tool)) => if tool == button.tool {
                EditStep {
                    handle: EditBtnHandle::idle(),
                    world: step.world.deleted(ghost.index as int),
                    pressed: true,
                }
            } else {
                EditStep {
                    handle: EditBtnHandle {
                        selected_entity: Some(ghost),
                        selected_tool: Some(button.tool),
                    },
                    world: step.world.with_sprite(ghost.index as int, Some(button.text)),
                    pressed: true,
                }
            },
        }
    }

    /// Whether the click of this frame lands on the button in row `i`.
    pub open spec fn clicked(w: WorldView, mouse: Position, released: bool, i: int) -> bool {
        &&& released
        &&& w.visible(i)
        &&& w.get(i).data.edit_btn matches Some(button)
        &&& button.bounds.rectangle().contains(mouse)
    }

    /// The state after the buttons in the first `n` rows have had their turn.
    pub open spec fn clicks_upto(
        self,
        w: WorldView,
        mouse: Position,
        released: bool,
        n: int,
    ) -> EditStep
        decreases n,
    {
        if n <= 0 {
            EditStep { handle: self.normal(), world: w, pressed: false }
        } else {
            let before = self.clicks_upto(w, mouse, released, n - 1);
            if Self::clicked(before.world, mouse, released, n - 1) {
                Self::click(before, before.world.get(n - 1).data.edit_btn->0, mouse)
            } else {
                before
            }
        }
    }

    /// One frame of the editor. The buttons take the click first. Then, while
    /// a tool is selected, the ghost moves to the tile under the mouse, and
    /// with the mouse button held and no palette button clicked the tool is
    /// placed there.
    pub open spec fn run_spec(
        self,
        w: WorldView,
        mouse: Position,
        released: bool,
        down: bool,
    ) -> (EditBtnHandle, WorldView) {
        let step = self.clicks_upto(w, mouse, released, w.entities.len() as int);
        match step.handle.selection() {
            Some((ghost, tool)) => {
                let at = mouse.snap_floor_spec();
                let moved = step.world.with_position(ghost.index as int, Some(at));
                (
                    step.handle,
                    if !step.pressed && down {
                        place_spec(moved, tool, at)
                    } else {
                        moved
                    },
                )
            },
            None => (step.handle, step.world),
        }
    }

    /// The state with nothing selected.
    pub fn new() -> (handle: EditBtnHandle)
        ensures
            handle == EditBtnHandle::idle(),
    {
        EditBtnHandle { selected_entity: None, selected_tool: None }
    }

    /// Puts `tool` on the tile whose corner is `at`.
    pub fn place(world: &mut World, tool: ToolPalette, at: Position)
        requires
            old(world).wf(),
            old(world)@.next_marker < u64::MAX,
        ensures
            final(world).wf(),
            final(world)@ == place_spec(old(world)@, tool, at),
    {
        let target = Hitbox::new(at.x, at.y);
        let name = tool.name();
        let n = world.len();
        let mut i: usize = 0;
        let mut hit: Option<usize> = None;
        while i < n
            invariant_except_break
                hit is None,
            invariant
                i <= n,
                n == world@.entities.len(),
                world@ == old(world)@,
                first_block(world@, target) == first_block_from(world@, target, i as int),
            ensures
                match hit {
                    Some(k) => first_block(world@, target) == Some(k as int),
                    None => first_block(world@, target) is None,
                },
            decreases n - i,
        {
            let entity = Entity { index: i };
            if world.is_visible(entity) && world.sprite(entity).is_some() {
                if let Some(h) = world.hitbox(entity) {
                    if h.collision_rec(target) {
                        hit = Some(i);
                        break ;
                    }
                }
            }
            i = i + 1;
        }
        let mut can_place = true;
        if let Some(k) = hit {
            let entity = Entity { index: k };
            let same = match world.sprite(entity) {
                Some(s) => s.name == name,
                None => false,
            };
            if same {
                can_place = false;
            } else {
                world.delete(entity);
            }
        }
        if can_place {
            let mut object = Components::empty();
            object.drag_box = Some(DragBox::default());
            object.sprite = Some(Sprite { name });
            object.hitbox = Some(target);
            assert(object@ == placed_object(tool, at));
            world.create_marked(object);
        }
    }

    /// Runs the editor for one frame. `mouse` is the cursor in world
    /// coordinates, `released` tells whether the left button was let go in
    /// this frame, `down` whether it is held. Outside edit mode nothing
    /// happens.
    pub fn run(
        &mut self,
        edit_state: &EditState,
        world: &mut World,
        mouse: Position,
        released: bool,
        down: bool,
    )
        requires
            old(world).wf(),
            old(world)@.next_marker < u64::MAX,
        ensures
            final(world).wf(),
            !edit_state.editing ==> *final(self) == *old(self) && final(world)@ == old(world)@,
            edit_state.editing ==> (*final(self), final(world)@) == old(self).run_spec(
                old(world)@,
                mouse,
                released,
                down,
            ),
    {
        if !edit_state.editing {
            return ;
        }
        if self.selected_entity.is_none() || self.selected_tool.is_none() {
            self.selected_entity = None;
            self.selected_tool = None;
        }
        let n = world.len();
        let mut pressed = false;
        let mut i: usize = 0;
        while i < n
            invariant
                i <= n,
                n == old(world)@.entities.len(),
                world.wf(),
                world@.next_marker == old(world)@.next_marker,
                (EditStep { handle: *self, world: world@, pressed }) == old(self).clicks_upto(
                    old(world)@,
                    mouse,
                    released,
                    i as int,
                ),
            decreases n - i,
        {
            let entity = Entity { index: i };
            let mut clicked: Option<(String, ToolPalette)> = None;
            if released && world.is_visible(entity) {
                if let Some(button) = world.edit_btn(entity) {
                    if button.point_inside_rec(mouse) {
                        clicked = Some((button.text.clone(), button.tool));
                    }
                }
            }
            if let Some((text, tool)) = clicked {
                match (self.selected_entity, self.selected_tool) {
                    (Some(ghost), Some(selected)) => {
                        if selected == tool {
                            world.delete(ghost);
                            self.selected_entity = None;
                            self.selected_tool = None;
                        } else {
                            world.set_sprite(ghost, Some(Sprite { name: text }));
                            self.selected_tool = Some(tool);
                        }
                    },
                    _ => {
                        let mut ghost = Components::empty();
                        ghost.sprite = Some(Sprite { name: text });
                        ghost.position = Some(mouse);
                        assert(ghost@ == ghost_object(text@, mouse));
                        let made = world.create(ghost);
                        self.selected_entity = Some(made);
                        self.selected_tool = Some(tool);
                    },
                }
                pressed = true;
            }
            i = i + 1;
        }
        if let (Some(ghost), Some(tool)) = (self.selected_entity, self.selected_tool) {
            let at = mouse.snap_floor();
            world.set_position(ghost, Some(at));
            if !pressed && down {
                Self::place(world, tool, at);
            }
        }
    }
}

/// One frame in the drag of one object. A press inside the object takes hold
/// of it and remembers where; while held, the object follows the mouse from
/// grid corner to grid corner; a release lets go.
pub open spec fn drag_step(row: EntityView, mouse: Position, pressed: bool, released: bool) -> EntityView {
    if row.visible() && row.data.drag_box is Some && row.data.hitbox is Some {
        let drag = row.data.drag_box->0;
        let h = row.data.hitbox->0;
        let held = if pressed && h.rectangle().contains(mouse) {
            DragBox { dragging: true, drag_offset: mouse.sub_spec(h.position) }
        } else {
            drag
        };
        let moved = if held.dragging {
            Hitbox { position: mouse.sub_spec(held.drag_offset).snap_round_spec(), ..h }
        } else {
            h
        };
        EntityView {
            data: ComponentsView {
                drag_box: Some(DragBox { dragging: held.dragging && !released, ..held }),
                hitbox: Some(moved),
                ..row.data
            },
            ..row
        }
    } else {
        row
    }
}

/// The world after every draggable object has lived through one frame.
pub open spec fn drag_all(w: WorldView, mouse: Position, pressed: bool, released: bool) -> WorldView {
    WorldView {
        entities: Seq::new(
            w.entities.len(),
            |i: int| drag_step(w.entities[i], mouse, pressed, released),
        ),
        ..w
    }
}

/// Drags placed objects over the grid.
pub struct EditDragHandler;

impl EditDragHandler {
    /// Runs one frame. `pressed` and `released` tell whether the left mouse
    /// button went down or came up in this frame. Outside edit mode nothing
    /// happens.
    pub fn run(
        &mut self,
        edit_state: &EditState,
        world: &mut World,
        mouse: Position,
        pressed: bool,
        released: bool,
    )
        requires
            old(world).wf(),
        ensures
            final(world).wf(),
            !edit_state.editing ==> final(world)@ == old(world)@,
            edit_state.editing ==> final(world)@ == drag_all(old(world)@, mouse, pressed, released),
    {
        if !edit_state.editing {
            return ;
        }
        let n = world.len();
        let mut i: usize = 0;
        while i < n
            invariant
                i <= n,
                n == old(world)@.entities.len(),
                world.wf(),
                world@.entities.len() == n,
                world@.next_marker == old(world)@.next_marker,
                forall|j: int|
                    0 <= j < i ==> (#[trigger] world@.entities[j]) == drag_step(
                        old(world)@.entities[j],
                        mouse,
                        pressed,
                        released,
                    ),
                forall|j: int|
                    i <= j < n ==> (#[trigger] world@.entities[j]) == old(world)@.entities[j],
            decreases n - i,
        {
            let entity = Entity { index: i };
            let ghost before = world@;
            if world.is_visible(entity) {
                if let (Some(drag), Some(h)) = (world.drag_box(entity), world.hitbox(entity)) {
                    let mut drag = drag;
                    let mut h = h;
                    if pressed && h.point_inside_rec(mouse) {
                        drag.drag_offset = mouse - h.position;
                        drag.dragging = true;
                    }
                    if drag.dragging {
                        h.position = (mouse - drag.drag_offset).snap_round();
                    }
                    if released {
                        drag.dragging = false;
                    }
                    world.set_drag_box(entity, Some(drag));
                    world.set_hitbox(entity, Some(h));
                }
            }
            assert(world@.entities[i as int] == drag_step(
                before.entities[i as int],
                mouse,
                pressed,
                released,
            ));
            assert(forall|j: int|
                0 <= j < n && j != i ==> (#[trigger] world@.entities[j]) == before.entities[j]);
            i = i + 1;
        }
        assert(world@.entities =~= drag_all(old(world)@, mouse, pressed, released).entities);
    }
}

/// Whether row `i` is an icon of the given kind with `mouse` over it.
pub open spec fn icon_under(w: WorldView, mouse: Position, kind: IconKind, i: int) -> bool {
    &&& w.visible(i)
    &&& w.get(i).data.icon matches Some(icon)
    &&& icon.icon == kind
    &&& icon.hit_area().rectangle().contains(mouse)
}

/// Whether the click of this frame lands on an icon of the given kind.
pub open spec fn icon_clicked(w: WorldView, mouse: Position, released: bool, kind: IconKind) -> bool {
    released && exists|i: int| 0 <= i < w.entities.len() && icon_under(w, mouse, kind, i)
}

/// What clearing the level makes of one row: a visible entity with an identity
/// marker is doomed.
pub open spec fn cleared_row(row: EntityView) -> EntityView {
    if row.visible() && row.marker is Some {
        EntityView { life: Life::Doomed, ..row }
    } else {
        row
    }
}

/// The world after the level has been cleared: every placed object is doomed,
/// everything else stays.
pub open spec fn cleared(w: WorldView) -> WorldView {
    WorldView {
        entities: Seq::new(w.entities.len(), |i: int| cleared_row(w.entities[i])),
        ..w
    }
}

/// Carries out the toolbar icons.
pub struct IconButtonsHandler;

impl IconButtonsHandler {
    /// Whether the click of this frame lands on an icon of the given kind.
    pub fn clicked(world: &World, mouse: Position, released: bool, kind: IconKind) -> (hit: bool)
        ensures
            hit == icon_clicked(world@, mouse, released, kind),
    {
        if !released {
            return false;
        }
        let n = world.len();
        let mut i: usize = 0;
        while i < n
            invariant
                i <= n,
                released,
                n == world@.entities.len(),
                forall|k: int| 0 <= k < i ==> !icon_under(world@, mouse, kind, k),
            decreases n - i,
        {
            let entity = Entity { index: i };
            if world.is_visible(entity) {
                if let Some(icon) = world.icon(entity) {
                    let area = Hitbox::new(icon.position.x, icon.position.y);
                    if icon.icon == kind && area.point_inside_rec(mouse) {
                        assert(icon_under(world@, mouse, kind, i as int));
                        return true;
                    }
                }
            }
            i = i + 1;
        }
        false
    }

    /// Asks for the deletion of every placed object.
    pub fn clear(world: &mut World)
        requires
            old(world).wf(),
        ensures
            final(world).wf(),
            final(world)@ == cleared(old(world)@),
    {
        let n = world.len();
        let mut i: usize = 0;
        while i < n
            invariant
                i <= n,
                n == old(world)@.entities.len(),
                world.wf(),
                world@.entities.len() == n,
                world@.next_marker == old(world)@.next_marker,
                forall|j: int|
                    0 <= j < i ==> (#[trigger] world@.entities[j]) == cleared_row(
                        old(world)@.entities[j],
                    ),
                forall|j: int|
                    i <= j < n ==> (#[trigger] world@.entities[j]) == old(world)@.entities[j],
            decreases n - i,
        {
            let entity = Entity { index: i };
            let ghost before = world@;
            if world.is_visible(entity) && world.marker(entity).is_some() {
                world.delete(entity);
            }
            assert(world@.entities[i as int] == cleared_row(before.entities[i as int]));
            assert(forall|j: int|
                0 <= j < n && j != i ==> (#[trigger] world@.entities[j]) == before.entities[j]);
            i = i + 1;
        }
        assert(world@.entities =~= cleared(old(world)@).entities);
    }

    /// Runs one frame, in edit mode or not. A click on the clear icon asks for
    /// the deletion of every placed object; a click on the save icon raises
    /// `should_save`.
    pub fn run(
        &mut self,
        edit_state: &mut EditState,
        world: &mut World,
        mouse: Position,
        released: bool,
    )
        requires
            old(world).wf(),
        ensures
            final(world).wf(),
            final(edit_state).editing == old(edit_state).editing,
            final(edit_state).should_save == (old(edit_state).should_save || icon_clicked(
                old(world)@,
                mouse,
                released,
                IconKind::FileSaveClassic,
            )),
            final(world)@ == if icon_clicked(old(world)@, mouse, released, IconKind::EmptyBox) {
                cleared(old(world)@)
            } else {
                old(world)@
            },
    {
        if Self::clicked(world, mouse, released, IconKind::FileSaveClassic) {
            edit_state.should_save = true;
        }
        if Self::clicked(world, mouse, released, IconKind::EmptyBox) {
            Self::clear(world);
        }
    }
}

} // verus!
