//! The entity store.
//!
//! A world is a growing table of entities. Each entity is a bundle of optional
//! components, addressed by the index it was created at. Entities asked for
//! during a frame wait as `Pending`, and entities deleted during a frame linger
//! as `Doomed`, until [`World::maintain`] settles both at once. Iteration over
//! the world sees the settled entities only; the holder of an [`Entity`] can
//! read and write its components from the moment it was asked for.

use crate::components::{
    DragBox, EditBtn, FallingBlock, Hitbox, Icon, Moveable, PlatformController, Position, Rect,
    Sprite, ToolPalette, Transform, Triggerbox,
};
use vstd::prelude::*;

verus! {

/// Where an entity stands in its life cycle.
#[derive(Debug, Clone, Copy, PartialEq, Eq, Structural)]
pub enum Life {
    /// No entity: never created here, or deleted and settled.
    Free,
    /// Asked for during this frame; becomes `Live` at the next `maintain`.
    Pending,
    Live,
    /// Deleted during this frame; becomes `Free` at the next `maintain`.
    Doomed,
}

/// Handle of an entity: the index of its row in the world.
#[derive(Debug, Clone, Copy, PartialEq, Eq, Structural)]
pub struct Entity {
    pub index: usize,
}

/// The components of one entity, each of them optional.
#[derive(Debug)]
pub struct Components {
    pub position: Option<Position>,
    pub transform: Option<Transform>,
    pub hitbox: Option<Hitbox>,
    pub triggerbox: Option<Triggerbox>,
    pub controller: Option<PlatformController>,
    pub moveable: Option<Moveable>,
    pub falling_block: Option<FallingBlock>,
    pub edit_btn: Option<EditBtn>,
    pub rect: Option<Rect>,
    pub drag_box: Option<DragBox>,
    pub sprite: Option<Sprite>,
    pub icon: Option<Icon>,
}

/// What a palette button is, with its label as a sequence of characters.
pub struct EditBtnView {
    pub bounds: Rect,
    pub text: Seq<char>,
    pub tool: ToolPalette,
}

/// What a bundle of components is, with strings as sequences of characters.
pub struct ComponentsView {
    pub position: Option<Position>,
    pub transform: Option<Transform>,
    pub hitbox: Option<Hitbox>,
    pub triggerbox: Option<Triggerbox>,
    pub controller: Option<PlatformController>,
    pub moveable: Option<Moveable>,
    pub falling_block: Option<FallingBlock>,
    pub edit_btn: Option<EditBtnView>,
    pub rect: Option<Rect>,
    pub drag_box: Option<DragBox>,
    pub sprite: Option<Seq<char>>,
    pub icon: Option<Icon>,
}

impl View for EditBtn {
    type V = EditBtnView;

    open spec fn view(&self) -> EditBtnView {
        EditBtnView { bounds: self.bounds, text: self.text@, tool: self.tool }
    }
}

impl View for Sprite {
    type V = Seq<char>;

    open spec fn view(&self) -> Seq<char> {
        self.name@
    }
}

/// The name of an optional sprite.
pub open spec fn sprite_view(sprite: Option<Sprite>) -> Option<Seq<char>> {
    match sprite {
        Some(s) => Some(s@),
        None => None,
    }
}

/// What an optional palette button is.
pub open spec fn edit_btn_view(button: Option<EditBtn>) -> Option<EditBtnView> {
    match button {
        Some(b) => Some(b@),
        None => None,
    }
}

impl ComponentsView {
    /// The bundle without any component.
    pub open spec fn empty() -> ComponentsView {
        ComponentsView {
            position: None,
            transform: None,
            hitbox: None,
            triggerbox: None,
            controller: None,
            moveable: None,
            falling_block: None,
            edit_btn: None,
            rect: None,
            drag_box: None,
            sprite: None,
            icon: None,
        }
    }
}

impl View for Components {
    type V = ComponentsView;

    open spec fn view(&self) -> ComponentsView {
        ComponentsView {
            position: self.position,
            transform: self.transform,
            hitbox: self.hitbox,
            triggerbox: self.triggerbox,
            controller: self.controller,
            moveable: self.moveable,
            falling_block: self.falling_block,
            edit_btn: edit_btn_view(self.edit_btn),
            rect: self.rect,
            drag_box: self.drag_box,
            sprite: sprite_view(self.sprite),
            icon: self.icon,
        }
    }
}

impl Components {
    /// A bundle without any component.
    pub fn empty() -> (c: Components)
        ensures
            c@ == ComponentsView::empty(),
    {
        Components {
            position: None,
            transform: None,
            hitbox: None,
            triggerbox: None,
            controller: None,
            moveable: None,
            falling_block: None,
            edit_btn: None,
            rect: None,
            drag_box: None,
            sprite: None,
            icon: None,
        }
    }
}

impl Clone for Components {
    fn clone(&self) -> (c: Self)
        ensures
            c == *self,
    {
        let edit_btn = match &self.edit_btn {
            Some(b) => Some(b.clone()),
            None => None,
        };
        let sprite = match &self.sprite {
            Some(s) => Some(s.clone()),
            None => None,
        };
        Components {
            position: self.position,
            transform: self.transform,
            hitbox: self.hitbox,
            triggerbox: self.triggerbox,
            controller: self.controller,
            moveable: self.moveable,
            falling_block: self.falling_block,
            edit_btn,
            rect: self.rect,
            drag_box: self.drag_box,
            sprite,
            icon: self.icon,
        }
    }
}

/// One row of the world.
pub struct EntityView {
    pub life: Life,
    /// The identity marker: a number that names the entity across saves.
    pub marker: Option<u64>,
    pub data: ComponentsView,
}

impl EntityView {
    /// A row that holds no entity.
    pub open spec fn vacant() -> EntityView {
        EntityView { life: Life::Free, marker: None, data: ComponentsView::empty() }
    }

    /// Whether iteration over the world sees this row.
    pub open spec fn visible(self) -> bool {
        self.life == Life::Live || self.life == Life::Doomed
    }

    /// Whether the row holds an entity, settled or not.
    pub open spec fn present(self) -> bool {
        self.life != Life::Free
    }
}

/// What a world is: its rows, and the next identity marker to hand out.
pub struct WorldView {
    pub entities: Seq<EntityView>,
    pub next_marker: u64,
}

impl WorldView {
    /// The row at `i`, or a vacant row where the table has none.
    pub open spec fn get(self, i: int) -> EntityView {
        if 0 <= i < self.entities.len() {
            self.entities[i]
        } else {
            EntityView::vacant()
        }
    }

    /// Whether row `i` holds an entity.
    pub open spec fn present(self, i: int) -> bool {
        self.get(i).present()
    }

    /// Whether iteration sees row `i`.
    pub open spec fn visible(self, i: int) -> bool {
        self.get(i).visible()
    }

    /// The world with row `i` replaced, where the table has such a row.
    pub open spec fn with_row(self, i: int, row: EntityView) -> WorldView {
        if 0 <= i < self.entities.len() {
            WorldView { entities: self.entities.update(i, row), ..self }
        } else {
            self
        }
    }

    /// Free rows are vacant, every marker in use is below the next one to be
    /// handed out, and no two rows carry the same marker.
    pub open spec fn wf(self) -> bool {
        &&& forall|i: int|
            0 <= i < self.entities.len() && !(#[trigger] self.entities[i]).present()
                ==> self.entities[i] == EntityView::vacant()
        &&& forall|i: int|
            0 <= i < self.entities.len() && (#[trigger] self.entities[i]).marker is Some
                ==> self.entities[i].marker->0 < self.next_marker
        &&& forall|i: int, j: int|
            0 <= i < self.entities.len() && 0 <= j < self.entities.len() && i != j
                && (#[trigger] self.entities[i]).marker is Some
                ==> self.entities[i].marker != (#[trigger] self.entities[j]).marker
    }

    /// The world after a new entity with `data` has been asked for.
    pub open spec fn created(self, data: ComponentsView) -> WorldView {
        WorldView {
            entities: self.entities.push(EntityView { life: Life::Pending, marker: None, data }),
            ..self
        }
    }

    /// The world after a new entity with `data` and a fresh identity marker
    /// has been asked for.
    pub open spec fn created_marked(self, data: ComponentsView) -> WorldView {
        WorldView {
            entities: self.entities.push(
                EntityView { life: Life::Pending, marker: Some(self.next_marker), data },
            ),
            next_marker: (self.next_marker + 1) as u64,
        }
    }

    /// The world after the deletion of entity `i` has been asked for. A live
    /// entity is doomed; one that was only asked for is withdrawn at once.
    pub open spec fn deleted(self, i: int) -> WorldView {
        match self.get(i).life {
            Life::Live => self.with_row(i, EntityView { life: Life::Doomed, ..self.get(i) }),
            Life::Pending => self.with_row(i, EntityView::vacant()),
            _ => self,
        }
    }

    /// What `maintain` makes of one row.
    pub open spec fn settled_row(row: EntityView) -> EntityView {
        match row.life {
            Life::Pending => EntityView { life: Life::Live, ..row },
            Life::Doomed => EntityView::vacant(),
            _ => row,
        }
    }

    /// The world after `maintain`: every pending entity is live, every doomed
    /// one is gone.
    pub open spec fn maintained(self) -> WorldView {
        WorldView {
            entities: Seq::new(self.entities.len(), |i: int| Self::settled_row(self.entities[i])),
            ..self
        }
    }

    /// Number of visible entities among the first `n` rows.
    pub open spec fn count_upto(self, n: int) -> nat
        decreases n,
    {
        if n <= 0 {
            0
        } else {
            self.count_upto(n - 1) + if self.visible(n - 1) { 1nat } else { 0nat }
        }
    }

    /// Number of visible entities.
    pub open spec fn count(self) -> nat {
        self.count_upto(self.entities.len() as int)
    }

    /// Whether `later` can have come of this world. No row is lost and none
    /// is used again: a row that holds an entity later held the same entity
    /// before, under the same marker. And no marker that was handed out is
    /// handed out again.
    pub open spec fn evolves_to(self, later: WorldView) -> bool {
        &&& self.entities.len() <= later.entities.len()
        &&& self.next_marker <= later.next_marker
        &&& forall|i: int|
            0 <= i < self.entities.len() && (#[trigger] later.entities[i]).present()
                ==> self.entities[i].present() && later.entities[i].marker
                == self.entities[i].marker
    }

    /// Whether the frame is settled: no entity is pending or doomed.
    pub open spec fn settled(self) -> bool {
        forall|i: int|
            0 <= i < self.entities.len() ==> (#[trigger] self.entities[i]).life == Life::Free
                || self.entities[i].life == Life::Live
    }

    /// Whether some entity carries the marker `id`.
    pub open spec fn has_marker(self, id: u64) -> bool {
        exists|i: int| 0 <= i < self.entities.len() && (#[trigger] self.entities[i]).marker == Some(id)
    }

    /// The row of the entity that carries the marker `id`.
    pub open spec fn marker_row(self, id: u64) -> Option<int> {
        if self.has_marker(id) {
            Some(
                choose|i: int|
                    0 <= i < self.entities.len() && (#[trigger] self.entities[i]).marker == Some(
                        id,
                    ),
            )
        } else {
            None
        }
    }

    /// The world after a new entity with `data` has been asked for under the
    /// marker `id`, which it brings along. Markers handed out later lie above
    /// `id`.
    pub open spec fn adopted(self, data: ComponentsView, id: u64) -> WorldView {
        WorldView {
            entities: self.entities.push(
                EntityView { life: Life::Pending, marker: Some(id), data },
            ),
            next_marker: if id >= self.next_marker {
                (id + 1) as u64
            } else {
                self.next_marker
            },
        }
    }

    /// The world with a bare position of entity `i` set to `value`; unchanged where
    /// there is no such entity.
    pub open spec fn with_position(self, i: int, value: Option<Position>) -> WorldView {
        if self.present(i) {
            self.with_row(
                i,
                EntityView { data: ComponentsView { position: value, ..self.get(i).data }, ..self.get(i) },
            )
        } else {
            self
        }
    }

    /// The world with a transform of entity `i` set to `value`; unchanged where
    /// there is no such entity.
    pub open spec fn with_transform(self, i: int, value: Option<Transform>) -> WorldView {
        if self.present(i) {
            self.with_row(
                i,
                EntityView { data: ComponentsView { transform: value, ..self.get(i).data }, ..self.get(i) },
            )
        } else {
            self
        }
    }

    /// The world with the solid rectangle of entity `i` set to `value`; unchanged where
    /// there is no such entity.
    pub open spec fn with_hitbox(self, i: int, value: Option<Hitbox>) -> WorldView {
        if self.present(i) {
            self.with_row(
                i,
                EntityView { data: ComponentsView { hitbox: value, ..self.get(i).data }, ..self.get(i) },
            )
        } else {
            self
        }
    }

    /// The world with the sensor rectangle of entity `i` set to `value`; unchanged where
    /// there is no such entity.
    pub open spec fn with_triggerbox(self, i: int, value: Option<Triggerbox>) -> WorldView {
        if self.present(i) {
            self.with_row(
                i,
                EntityView { data: ComponentsView { triggerbox: value, ..self.get(i).data }, ..self.get(i) },
            )
        } else {
            self
        }
    }

    /// The world with the jump state of entity `i` set to `value`; unchanged where
    /// there is no such entity.
    pub open spec fn with_controller(self, i: int, value: Option<PlatformController>) -> WorldView {
        if self.present(i) {
            self.with_row(
                i,
                EntityView { data: ComponentsView { controller: value, ..self.get(i).data }, ..self.get(i) },
            )
        } else {
            self
        }
    }

    /// The world with the physics body of entity `i` set to `value`; unchanged where
    /// there is no such entity.
    pub open spec fn with_moveable(self, i: int, value: Option<Moveable>) -> WorldView {
        if self.present(i) {
            self.with_row(
                i,
                EntityView { data: ComponentsView { moveable: value, ..self.get(i).data }, ..self.get(i) },
            )
        } else {
            self
        }
    }

    /// The world with the falling-block countdown of entity `i` set to `value`; unchanged where
    /// there is no such entity.
    pub open spec fn with_falling_block(self, i: int, value: Option<FallingBlock>) -> WorldView {
        if self.present(i) {
            self.with_row(
                i,
                EntityView { data: ComponentsView { falling_block: value, ..self.get(i).data }, ..self.get(i) },
            )
        } else {
            self
        }
    }

    /// The world with the palette button of entity `i` set to `value`; unchanged where
    /// there is no such entity.
    pub open spec fn with_edit_btn(self, i: int, value: Option<EditBtnView>) -> WorldView {
        if self.present(i) {
            self.with_row(
                i,
                EntityView { data: ComponentsView { edit_btn: value, ..self.get(i).data }, ..self.get(i) },
            )
        } else {
            self
        }
    }

    /// The world with a plain rectangle of entity `i` set to `value`; unchanged where
    /// there is no such entity.
    pub open spec fn with_rect(self, i: int, value: Option<Rect>) -> WorldView {
        if self.present(i) {
            self.with_row(
                i,
                EntityView { data: ComponentsView { rect: value, ..self.get(i).data }, ..self.get(i) },
            )
        } else {
            self
        }
    }

    /// The world with the drag state of entity `i` set to `value`; unchanged where
    /// there is no such entity.
    pub open spec fn with_drag_box(self, i: int, value: Option<DragBox>) -> WorldView {
        if self.present(i) {
            self.with_row(
                i,
                EntityView { data: ComponentsView { drag_box: value, ..self.get(i).data }, ..self.get(i) },
            )
        } else {
            self
        }
    }

    /// The world with the sprite of entity `i` set to `value`; unchanged where
    /// there is no such entity.
    pub open spec fn with_sprite(self, i: int, value: Option<Seq<char>>) -> WorldView {
        if self.present(i) {
            self.with_row(
                i,
                EntityView { data: ComponentsView { sprite: value, ..self.get(i).data }, ..self.get(i) },
            )
        } else {
            self
        }
    }

    /// The world with the toolbar icon of entity `i` set to `value`; unchanged where
    /// there is no such entity.
    pub open spec fn with_icon(self, i: int, value: Option<Icon>) -> WorldView {
        if self.present(i) {
            self.with_row(
                i,
                EntityView { data: ComponentsView { icon: value, ..self.get(i).data }, ..self.get(i) },
            )
        } else {
            self
        }
    }

}

/// What comes of a world that came of another came of that one too.
pub proof fn lemma_evolves_on(a: WorldView, b: WorldView, c: WorldView)
    requires
        a.evolves_to(b),
        b.evolves_to(c),
    ensures
        a.evolves_to(c),
{
    assert forall|i: int| 0 <= i < a.entities.len() && (#[trigger] c.entities[i]).present() implies a.entities[i].present()
        && c.entities[i].marker == a.entities[i].marker by {
        assert(b.entities[i].present());
    }
}

/// An identity marker is for life. Whatever is done to a world through its
/// entity store, creating, deleting, settling, or changing a component, every
/// entity that is still there afterwards carries the marker it had before.
pub proof fn law_marker_is_for_life(w: WorldView, i: int, data: ComponentsView, id: u64)
    requires
        w.wf(),
    ensures
        w.evolves_to(w.created(data)),
        w.next_marker < u64::MAX ==> w.evolves_to(w.created_marked(data)),
        id < u64::MAX ==> w.evolves_to(w.adopted(data, id)),
        w.evolves_to(w.deleted(i)),
        w.evolves_to(w.maintained()),
        w.evolves_to(w.with_position(i, data.position)),
        w.evolves_to(w.with_transform(i, data.transform)),
        w.evolves_to(w.with_hitbox(i, data.hitbox)),
        w.evolves_to(w.with_triggerbox(i, data.triggerbox)),
        w.evolves_to(w.with_controller(i, data.controller)),
        w.evolves_to(w.with_moveable(i, data.moveable)),
        w.evolves_to(w.with_falling_block(i, data.falling_block)),
        w.evolves_to(w.with_edit_btn(i, data.edit_btn)),
        w.evolves_to(w.with_rect(i, data.rect)),
        w.evolves_to(w.with_drag_box(i, data.drag_box)),
        w.evolves_to(w.with_sprite(i, data.sprite)),
        w.evolves_to(w.with_icon(i, data.icon)),
{
}

/// Changing a component keeps the rules of the world.
pub proof fn lemma_components_keep_rules(w: WorldView, i: int, data: ComponentsView)
    requires
        w.wf(),
    ensures
        w.with_position(i, data.position).wf(),
        w.with_hitbox(i, data.hitbox).wf(),
        w.with_controller(i, data.controller).wf(),
        w.with_moveable(i, data.moveable).wf(),
        w.with_sprite(i, data.sprite).wf(),
{
}

/// `maintain` leaves a settled world as it is.
pub proof fn lemma_settled_stays(w: WorldView)
    requires
        w.settled(),
    ensures
        w.maintained() == w,
{
    assert(w.maintained().entities =~= w.entities);
}

/// After `maintain` nothing is half made or half deleted, and the rules of
/// the world still hold.
pub proof fn law_maintain_settles(w: WorldView)
    ensures
        w.maintained().settled(),
        w.wf() ==> w.maintained().wf(),
{
}

/// Two worlds that agree on which of their first `n` rows are visible have as
/// many visible entities among them.
pub proof fn lemma_count_agrees(a: WorldView, b: WorldView, n: int)
    requires
        forall|j: int| 0 <= j < n ==> a.visible(j) == b.visible(j),
    ensures
        a.count_upto(n) == b.count_upto(n),
    decreases n,
{
    if n > 0 {
        lemma_count_agrees(a, b, n - 1);
    }
}

/// Where `b` differs from `a`, among the first `n` rows, in that row `i` is
/// visible in `a` and not in `b`, it has one visible entity less.
pub proof fn lemma_count_without(a: WorldView, b: WorldView, i: int, n: int)
    requires
        0 <= i < n,
        a.visible(i),
        !b.visible(i),
        forall|j: int| 0 <= j < n && j != i ==> a.visible(j) == b.visible(j),
    ensures
        b.count_upto(n) + 1 == a.count_upto(n),
    decreases n,
{
    if n - 1 == i {
        lemma_count_agrees(a, b, n - 1);
    } else {
        lemma_count_without(a, b, i, n - 1);
    }
}

struct Slot {
    life: Life,
    marker: Option<u64>,
    data: Components,
}

impl View for Slot {
    type V = EntityView;

    closed spec fn view(&self) -> EntityView {
        EntityView { life: self.life, marker: self.marker, data: self.data@ }
    }
}

/// The entity store.
pub struct World {
    slots: Vec<Slot>,
    next_marker: u64,
}

impl View for World {
    type V = WorldView;

    closed spec fn view(&self) -> WorldView {
        WorldView {
            entities: self.slots@.map_values(|s: Slot| s@),
            next_marker: self.next_marker,
        }
    }
}

impl World {
    /// Whether the world keeps its own rules; every world made and changed
    /// through this interface does.
    pub open spec fn wf(&self) -> bool {
        self@.wf()
    }

    /// The empty world.
    pub fn new() -> (world: World)
        ensures
            world.wf(),
            world@.entities.len() == 0,
            world@.next_marker == 0,
    {
        World { slots: Vec::new(), next_marker: 0 }
    }

    /// Number of rows, free ones included.
    pub fn len(&self) -> (n: usize)
        ensures
            n == self@.entities.len(),
    {
        self.slots.len()
    }

    /// The marker that the next marked entity will get.
    pub fn next_marker(&self) -> (m: u64)
        ensures
            m == self@.next_marker,
    {
        self.next_marker
    }

    /// Where `entity` stands in its life cycle; `Free` for a handle that
    /// names no row.
    pub fn life(&self, entity: Entity) -> (life: Life)
        ensures
            life == self@.get(entity.index as int).life,
    {
        if entity.index < self.slots.len() {
            self.slots[entity.index].life
        } else {
            Life::Free
        }
    }

    /// Whether iteration over the world sees `entity`.
    pub fn is_visible(&self, entity: Entity) -> (visible: bool)
        ensures
            visible == self@.visible(entity.index as int),
    {
        let life = self.life(entity);
        life == Life::Live || life == Life::Doomed
    }

    /// Whether `entity` names an entity, settled or not.
    pub fn present(&self, entity: Entity) -> (present: bool)
        ensures
            present == self@.present(entity.index as int),
    {
        self.life(entity) != Life::Free
    }

    /// The identity marker of `entity`, if it has one.
    pub fn marker(&self, entity: Entity) -> (marker: Option<u64>)
        ensures
            marker == self@.get(entity.index as int).marker,
    {
        if entity.index < self.slots.len() {
            self.slots[entity.index].marker
        } else {
            None
        }
    }

    /// Asks for a new entity made of `data`. It exists from now on, and is
    /// seen by iteration after the next `maintain`.
    pub fn create(&mut self, data: Components) -> (entity: Entity)
        requires
            old(self).wf(),
        ensures
            final(self).wf(),
            final(self)@ == old(self)@.created(data@),
            entity.index == old(self)@.entities.len(),
    {
        let index = self.slots.len();
        self.slots.push(Slot { life: Life::Pending, marker: None, data });
        assert(self@.entities =~= old(self)@.created(data@).entities);
        Entity { index }
    }

    /// Asks for a new entity made of `data` and gives it an identity marker
    /// that no entity has carried before.
    pub fn create_marked(&mut self, data: Components) -> (entity: Entity)
        requires
            old(self).wf(),
            old(self)@.next_marker < u64::MAX,
        ensures
            final(self).wf(),
            final(self)@ == old(self)@.created_marked(data@),
            entity.index == old(self)@.entities.len(),
    {
        let index = self.slots.len();
        self.slots.push(Slot { life: Life::Pending, marker: Some(self.next_marker), data });
        self.next_marker = self.next_marker + 1;
        assert(self@.entities =~= old(self)@.created_marked(data@).entities);
        Entity { index }
    }

    /// Asks for the deletion of `entity`. A live entity stays visible until
    /// the next `maintain`; one that was only asked for is withdrawn at once.
    pub fn delete(&mut self, entity: Entity)
        requires
            old(self).wf(),
        ensures
            final(self).wf(),
            final(self)@ == old(self)@.deleted(entity.index as int),
    {
        if entity.index < self.slots.len() {
            match self.slots[entity.index].life {
                Life::Live => {
                    self.slots[entity.index].life = Life::Doomed;
                    assert(self@.entities =~= old(self)@.deleted(entity.index as int).entities);
                },
                Life::Pending => {
                    self.slots[entity.index] = Slot {
                        life: Life::Free,
                        marker: None,
                        data: Components::empty(),
                    };
                    assert(self@.entities =~= old(self)@.deleted(entity.index as int).entities);
                },
                _ => {},
            }
        }
    }

    /// Settles the frame: every pending entity becomes live and every doomed
    /// entity is removed, all at once.
    pub fn maintain(&mut self)
        requires
            old(self).wf(),
        ensures
            final(self).wf(),
            final(self)@ == old(self)@.maintained(),
    {
        let n = self.slots.len();
        let mut i: usize = 0;
        while i < n
            invariant
                i <= n,
                n == self.slots.len(),
                self.next_marker == old(self).next_marker,
                self@.entities.len() == old(self)@.entities.len(),
                forall|j: int|
                    0 <= j < i ==> (#[trigger] self@.entities[j]) == WorldView::settled_row(
                        old(self)@.entities[j],
                    ),
                forall|j: int|
                    i <= j < n ==> (#[trigger] self@.entities[j]) == old(self)@.entities[j],
            decreases n - i,
        {
            let ghost before = self@;
            match self.slots[i].life {
                Life::Pending => {
                    self.slots[i].life = Life::Live;
                },
                Life::Doomed => {
                    self.slots[i] = Slot { life: Life::Free, marker: None, data: Components::empty() };
                },
                _ => {},
            }
            assert(self@.entities[i as int] == WorldView::settled_row(before.entities[i as int]));
            assert(forall|j: int|
                0 <= j < n && j != i ==> (#[trigger] self@.entities[j]) == before.entities[j]);
            i = i + 1;
        }
        assert(self@.entities =~= old(self)@.maintained().entities);
    }

    /// Number of entities that iteration sees.
    pub fn count(&self) -> (n: usize)
        ensures
            n == self@.count(),
    {
        let mut n: usize = 0;
        let mut i: usize = 0;
        while i < self.slots.len()
            invariant
                i <= self.slots.len(),
                n == self@.count_upto(i as int),
                n <= i,
            decreases self.slots.len() - i,
        {
            let life = self.slots[i].life;
            if life == Life::Live || life == Life::Doomed {
                n = n + 1;
            }
            i = i + 1;
        }
        n
    }

    /// The entity that carries the marker `id`, if there is one.
    pub fn find_marker(&self, id: u64) -> (found: Option<Entity>)
        requires
            self.wf(),
        ensures
            match found {
                Some(e) => self@.marker_row(id) == Some(e.index as int),
                None => self@.marker_row(id) is None,
            },
    {
        let mut i: usize = 0;
        while i < self.slots.len()
            invariant
                i <= self.slots.len(),
                self.wf(),
                forall|j: int| 0 <= j < i ==> (#[trigger] self@.entities[j]).marker != Some(id),
            decreases self.slots.len() - i,
        {
            if self.slots[i].marker == Some(id) {
                proof {
                    assert(self@.entities[i as int].marker == Some(id));
                    let j = self@.marker_row(id)->0;
                    assert(self@.entities[j].marker == Some(id));
                    assert(j == i);
                }
                return Some(Entity { index: i });
            }
            i = i + 1;
        }
        None
    }

    /// Asks for a new entity made of `data` that carries the marker `id`, as
    /// an entity read back from a saved level does. Where `id` is in use, or
    /// is the last number there is, nothing happens.
    pub fn adopt(&mut self, data: Components, id: u64) -> (entity: Option<Entity>)
        requires
            old(self).wf(),
        ensures
            final(self).wf(),
            id < u64::MAX && !old(self)@.has_marker(id) ==> entity == Some(
                Entity { index: old(self)@.entities.len() as usize },
            ) && final(self)@ == old(self)@.adopted(data@, id),
            !(id < u64::MAX && !old(self)@.has_marker(id)) ==> entity is None && final(self)@
                == old(self)@,
    {
        if id == u64::MAX || self.find_marker(id).is_some() {
            return None;
        }
        let index = self.slots.len();
        self.slots.push(Slot { life: Life::Pending, marker: Some(id), data });
        if id >= self.next_marker {
            self.next_marker = id + 1;
        }
        assert(self@.entities =~= old(self)@.adopted(data@, id).entities);
        Some(Entity { index })
    }

    /// Reads a bare position of `entity`.
    pub fn position(&self, entity: Entity) -> (value: Option<Position>)
        ensures
            value == self@.get(entity.index as int).data.position,
    {
        if entity.index < self.slots.len() {
            self.slots[entity.index].data.position
        } else {
            None
        }
    }

    /// Gives `entity` a bare position `value`, or takes it away with `None`. A handle
    /// that names no entity changes nothing.
    pub fn set_position(&mut self, entity: Entity, value: Option<Position>)
        requires
            old(self).wf(),
        ensures
            final(self).wf(),
            final(self)@ == old(self)@.with_position(entity.index as int, value),
    {
        if entity.index < self.slots.len() && self.slots[entity.index].life != Life::Free {
            self.slots[entity.index].data.position = value;
            assert(self@.entities =~= old(self)@.with_position(entity.index as int, value).entities);
        }
    }

    /// Reads a transform of `entity`.
    pub fn transform(&self, entity: Entity) -> (value: Option<Transform>)
        ensures
            value == self@.get(entity.index as int).data.transform,
    {
        if entity.index < self.slots.len() {
            self.slots[entity.index].data.transform
        } else {
            None
        }
    }

    /// Gives `entity` a transform `value`, or takes it away with `None`. A handle
    /// that names no entity changes nothing.
    pub fn set_transform(&mut self, entity: Entity, value: Option<Transform>)
        requires
            old(self).wf(),
        ensures
            final(self).wf(),
            final(self)@ == old(self)@.with_transform(entity.index as int, value),
    {
        if entity.index < self.slots.len() && self.slots[entity.index].life != Life::Free {
            self.slots[entity.index].data.transform = value;
            assert(self@.entities =~= old(self)@.with_transform(entity.index as int, value).entities);
        }
    }

    /// Reads the solid rectangle of `entity`.
    pub fn hitbox(&self, entity: Entity) -> (value: Option<Hitbox>)
        ensures
            value == self@.get(entity.index as int).data.hitbox,
    {
        if entity.index < self.slots.len() {
            self.slots[entity.index].data.hitbox
        } else {
            None
        }
    }

    /// Gives `entity` the solid rectangle `value`, or takes it away with `None`. A handle
    /// that names no entity changes nothing.
    pub fn set_hitbox(&mut self, entity: Entity, value: Option<Hitbox>)
        requires
            old(self).wf(),
        ensures
            final(self).wf(),
            final(self)@ == old(self)@.with_hitbox(entity.index as int, value),
    {
        if entity.index < self.slots.len() && self.slots[entity.index].life != Life::Free {
            self.slots[entity.index].data.hitbox = value;
            assert(self@.entities =~= old(self)@.with_hitbox(entity.index as int, value).entities);
        }
    }

    /// Reads the sensor rectangle of `entity`.
    pub fn triggerbox(&self, entity: Entity) -> (value: Option<Triggerbox>)
        ensures
            value == self@.get(entity.index as int).data.triggerbox,
    {
        if entity.index < self.slots.len() {
            self.slots[entity.index].data.triggerbox
        } else {
            None
        }
    }

    /// Gives `entity` the sensor rectangle `value`, or takes it away with `None`. A handle
    /// that names no entity changes nothing.
    pub fn set_triggerbox(&mut self, entity: Entity, value: Option<Triggerbox>)
        requires
            old(self).wf(),
        ensures
            final(self).wf(),
            final(self)@ == old(self)@.with_triggerbox(entity.index as int, value),
    {
        if entity.index < self.slots.len() && self.slots[entity.index].life != Life::Free {
            self.slots[entity.index].data.triggerbox = value;
            assert(self@.entities =~= old(self)@.with_triggerbox(entity.index as int, value).entities);
        }
    }

    /// Reads the jump state of `entity`.
    pub fn controller(&self, entity: Entity) -> (value: Option<PlatformController>)
        ensures
            value == self@.get(entity.index as int).data.controller,
    {
        if entity.index < self.slots.len() {
            self.slots[entity.index].data.controller
        } else {
            None
        }
    }

    /// Gives `entity` the jump state `value`, or takes it away with `None`. A handle
    /// that names no entity changes nothing.
    pub fn set_controller(&mut self, entity: Entity, value: Option<PlatformController>)
        requires
            old(self).wf(),
        ensures
            final(self).wf(),
            final(self)@ == old(self)@.with_controller(entity.index as int, value),
    {
        if entity.index < self.slots.len() && self.slots[entity.index].life != Life::Free {
            self.slots[entity.index].data.controller = value;
            assert(self@.entities =~= old(self)@.with_controller(entity.index as int, value).entities);
        }
    }

    /// Reads the physics body of `entity`.
    pub fn moveable(&self, entity: Entity) -> (value: Option<Moveable>)
        ensures
            value == self@.get(entity.index as int).data.moveable,
    {
        if entity.index < self.slots.len() {
            self.slots[entity.index].data.moveable
        } else {
            None
        }
    }

    /// Gives `entity` the physics body `value`, or takes it away with `None`. A handle
    /// that names no entity changes nothing.
    pub fn set_moveable(&mut self, entity: Entity, value: Option<Moveable>)
        requires
            old(self).wf(),
        ensures
            final(self).wf(),
            final(self)@ == old(self)@.with_moveable(entity.index as int, value),
    {
        if entity.index < self.slots.len() && self.slots[entity.index].life != Life::Free {
            self.slots[entity.index].data.moveable = value;
            assert(self@.entities =~= old(self)@.with_moveable(entity.index as int, value).entities);
        }
    }

    /// Reads the falling-block countdown of `entity`.
    pub fn falling_block(&self, entity: Entity) -> (value: Option<FallingBlock>)
        ensures
            value == self@.get(entity.index as int).data.falling_block,
    {
        if entity.index < self.slots.len() {
            self.slots[entity.index].data.falling_block
        } else {
            None
        }
    }

    /// Gives `entity` the falling-block countdown `value`, or takes it away with `None`. A handle
    /// that names no entity changes nothing.
    pub fn set_falling_block(&mut self, entity: Entity, value: Option<FallingBlock>)
        requires
            old(self).wf(),
        ensures
            final(self).wf(),
            final(self)@ == old(self)@.with_falling_block(entity.index as int, value),
    {
        if entity.index < self.slots.len() && self.slots[entity.index].life != Life::Free {
            self.slots[entity.index].data.falling_block = value;
            assert(self@.entities =~= old(self)@.with_falling_block(entity.index as int, value).entities);
        }
    }

    /// Reads a plain rectangle of `entity`.
    pub fn rect(&self, entity: Entity) -> (value: Option<Rect>)
        ensures
            value == self@.get(entity.index as int).data.rect,
    {
        if entity.index < self.slots.len() {
            self.slots[entity.index].data.rect
        } else {
            None
        }
    }

    /// Gives `entity` a plain rectangle `value`, or takes it away with `None`. A handle
    /// that names no entity changes nothing.
    pub fn set_rect(&mut self, entity: Entity, value: Option<Rect>)
        requires
            old(self).wf(),
        ensures
            final(self).wf(),
            final(self)@ == old(self)@.with_rect(entity.index as int, value),
    {
        if entity.index < self.slots.len() && self.slots[entity.index].life != Life::Free {
            self.slots[entity.index].data.rect = value;
            assert(self@.entities =~= old(self)@.with_rect(entity.index as int, value).entities);
        }
    }

    /// Reads the drag state of `entity`.
    pub fn drag_box(&self, entity: Entity) -> (value: Option<DragBox>)
        ensures
            value == self@.get(entity.index as int).data.drag_box,
    {
        if entity.index < self.slots.len() {
            self.slots[entity.index].data.drag_box
        } else {
            None
        }
    }

    /// Gives `entity` the drag state `value`, or takes it away with `None`. A handle
    /// that names no entity changes nothing.
    pub fn set_drag_box(&mut self, entity: Entity, value: Option<DragBox>)
        requires
            old(self).wf(),
        ensures
            final(self).wf(),
            final(self)@ == old(self)@.with_drag_box(entity.index as int, value),
    {
        if entity.index < self.slots.len() && self.slots[entity.index].life != Life::Free {
            self.slots[entity.index].data.drag_box = value;
            assert(self@.entities =~= old(self)@.with_drag_box(entity.index as int, value).entities);
        }
    }

    /// Reads the toolbar icon of `entity`.
    pub fn icon(&self, entity: Entity) -> (value: Option<Icon>)
        ensures
            value == self@.get(entity.index as int).data.icon,
    {
        if entity.index < self.slots.len() {
            self.slots[entity.index].data.icon
        } else {
            None
        }
    }

    /// Gives `entity` the toolbar icon `value`, or takes it away with `None`. A handle
    /// that names no entity changes nothing.
    pub fn set_icon(&mut self, entity: Entity, value: Option<Icon>)
        requires
            old(self).wf(),
        ensures
            final(self).wf(),
            final(self)@ == old(self)@.with_icon(entity.index as int, value),
    {
        if entity.index < self.slots.len() && self.slots[entity.index].life != Life::Free {
            self.slots[entity.index].data.icon = value;
            assert(self@.entities =~= old(self)@.with_icon(entity.index as int, value).entities);
        }
    }

    /// Reads the sprite of `entity`.
    pub fn sprite(&self, entity: Entity) -> (value: &Option<Sprite>)
        ensures
            sprite_view(*value) == self@.get(entity.index as int).data.sprite,
    {
        if entity.index < self.slots.len() {
            &self.slots[entity.index].data.sprite
        } else {
            &None
        }
    }

    /// Gives `entity` the sprite `value`, or takes it away with `None`. A handle
    /// that names no entity changes nothing.
    pub fn set_sprite(&mut self, entity: Entity, value: Option<Sprite>)
        requires
            old(self).wf(),
        ensures
            final(self).wf(),
            final(self)@ == old(self)@.with_sprite(entity.index as int, sprite_view(value)),
    {
        if entity.index < self.slots.len() && self.slots[entity.index].life != Life::Free {
            let ghost shown = sprite_view(value);
            self.slots[entity.index].data.sprite = value;
            assert(self@.entities =~= old(self)@.with_sprite(entity.index as int, shown).entities);
        }
    }

    /// Reads the palette button of `entity`.
    pub fn edit_btn(&self, entity: Entity) -> (value: &Option<EditBtn>)
        ensures
            edit_btn_view(*value) == self@.get(entity.index as int).data.edit_btn,
    {
        if entity.index < self.slots.len() {
            &self.slots[entity.index].data.edit_btn
        } else {
            &None
        }
    }

    /// Gives `entity` the palette button `value`, or takes it away with `None`. A handle
    /// that names no entity changes nothing.
    pub fn set_edit_btn(&mut self, entity: Entity, value: Option<EditBtn>)
        requires
            old(self).wf(),
        ensures
            final(self).wf(),
            final(self)@ == old(self)@.with_edit_btn(entity.index as int, edit_btn_view(value)),
    {
        if entity.index < self.slots.len() && self.slots[entity.index].life != Life::Free {
            let ghost shown = edit_btn_view(value);
            self.slots[entity.index].data.edit_btn = value;
            assert(self@.entities =~= old(self)@.with_edit_btn(entity.index as int, shown).entities);
        }
    }

}

} // verus!
