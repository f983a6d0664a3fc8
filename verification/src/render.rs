//! What the renderer gets to see of the world.

use crate::components::{EditBtn, EditState, Icon, Position};
use crate::world::{EditBtnView, Entity, World, WorldView};
use vstd::prelude::*;

verus! {

/// One sprite to draw: its name, where it stands, and its size where it has
/// one.
#[derive(Debug)]
pub struct SpriteDraw {
    pub name: String,
    pub position: Position,
    /// Width and height.
    pub size: Option<(i64, i64)>,
}

/// What a sprite to draw is, with its name as a sequence of characters.
pub struct SpriteDrawView {
    pub name: Seq<char>,
    pub position: Position,
    pub size: Option<(i64, i64)>,
}

impl View for SpriteDraw {
    type V = SpriteDrawView;

    open spec fn view(&self) -> SpriteDrawView {
        SpriteDrawView { name: self.name@, position: self.position, size: self.size }
    }
}

/// Everything that is drawn in one frame.
#[derive(Debug)]
pub struct Scene {
    /// The sprites, in the order of their entities.
    pub sprites: Vec<SpriteDraw>,
    /// The palette buttons; none while the level is played.
    pub buttons: Vec<EditBtn>,
    /// The toolbar icons; none while the level is played.
    pub icons: Vec<Icon>,
}

/// What a scene is.
pub struct SceneView {
    pub sprites: Seq<SpriteDrawView>,
    pub buttons: Seq<EditBtnView>,
    pub icons: Seq<Icon>,
}

impl View for Scene {
    type V = SceneView;

    open spec fn view(&self) -> SceneView {
        SceneView {
            sprites: self.sprites@.map_values(|s: SpriteDraw| s@),
            buttons: self.buttons@.map_values(|b: EditBtn| b@),
            icons: self.icons@,
        }
    }
}

/// Whether row `i` is drawn as a sprite: it has a sprite, and a hitbox or a
/// position to draw it at.
pub open spec fn is_drawn(w: WorldView, i: int) -> bool {
    &&& w.visible(i)
    &&& w.get(i).data.sprite is Some
    &&& (w.get(i).data.hitbox is Some || w.get(i).data.position is Some)
}

/// How row `i` is drawn. The hitbox, where there is one, says where; the bare
/// position does otherwise.
pub open spec fn drawn(w: WorldView, i: int) -> SpriteDrawView {
    let data = w.get(i).data;
    match data.hitbox {
        Some(h) => SpriteDrawView {
            name: data.sprite->0,
            position: h.position,
            size: Some((h.width, h.height)),
        },
        None => SpriteDrawView { name: data.sprite->0, position: data.position->0, size: None },
    }
}

/// The sprites of the first `n` rows.
pub open spec fn sprites_upto(w: WorldView, n: int) -> Seq<SpriteDrawView>
    decreases n,
{
    if n <= 0 {
        Seq::empty()
    } else if is_drawn(w, n - 1) {
        sprites_upto(w, n - 1).push(drawn(w, n - 1))
    } else {
        sprites_upto(w, n - 1)
    }
}

/// The palette buttons of the first `n` rows.
pub open spec fn buttons_upto(w: WorldView, n: int) -> Seq<EditBtnView>
    decreases n,
{
    if n <= 0 {
        Seq::empty()
    } else if w.visible(n - 1) && w.get(n - 1).data.edit_btn is Some {
        buttons_upto(w, n - 1).push(w.get(n - 1).data.edit_btn->0)
    } else {
        buttons_upto(w, n - 1)
    }
}

/// The toolbar icons of the first `n` rows.
pub open spec fn icons_upto(w: WorldView, n: int) -> Seq<Icon>
    decreases n,
{
    if n <= 0 {
        Seq::empty()
    } else if w.visible(n - 1) && w.get(n - 1).data.icon is Some {
        icons_upto(w, n - 1).push(w.get(n - 1).data.icon->0)
    } else {
        icons_upto(w, n - 1)
    }
}

/// The scene of a world. The buttons and icons of the editor are part of it
/// only while the level is edited.
pub open spec fn scene_of(w: WorldView, editing: bool) -> SceneView {
    let n = w.entities.len() as int;
    SceneView {
        sprites: sprites_upto(w, n),
        buttons: if editing {
            buttons_upto(w, n)
        } else {
            Seq::empty()
        },
        icons: if editing {
            icons_upto(w, n)
        } else {
            Seq::empty()
        },
    }
}

/// Prepares the frame for the renderer.
pub struct DrawSys;

impl DrawSys {
    /// Flips between editing and playing where `toggle` says that the key for
    /// it was pressed, and lists what is to be drawn.
    pub fn run(&mut self, edit_state: &mut EditState, world: &World, toggle: bool) -> (scene: Scene)
        ensures
            final(edit_state).should_save == old(edit_state).should_save,
            final(edit_state).editing == (old(edit_state).editing != toggle),
            scene@ == scene_of(world@, final(edit_state).editing),
    {
        if toggle {
            edit_state.editing = !edit_state.editing;
        }
        let editing = edit_state.editing;
        let mut sprites: Vec<SpriteDraw> = Vec::new();
        let mut buttons: Vec<EditBtn> = Vec::new();
        let mut icons: Vec<Icon> = Vec::new();
        let n = world.len();
        let mut i: usize = 0;
        assert(sprites@.map_values(|s: SpriteDraw| s@) =~= sprites_upto(world@, 0));
        assert(buttons@.map_values(|b: EditBtn| b@) =~= buttons_upto(world@, 0));
        while i < n
            invariant
                i <= n,
                n == world@.entities.len(),
                sprites@.map_values(|s: SpriteDraw| s@) == sprites_upto(world@, i as int),
                editing ==> buttons@.map_values(|b: EditBtn| b@) == buttons_upto(world@, i as int),
                editing ==> icons@ == icons_upto(world@, i as int),
                !editing ==> buttons@.len() == 0 && icons@.len() == 0,
            decreases n - i,
        {
            let entity = Entity { index: i };
            if world.is_visible(entity) {
                if let Some(sprite) = world.sprite(entity) {
                    let place = match world.hitbox(entity) {
                        Some(h) => Some((h.position, Some((h.width, h.height)))),
                        None => match world.position(entity) {
                            Some(p) => Some((p, None)),
                            None => None,
                        },
                    };
                    if let Some((position, size)) = place {
                        let draw = SpriteDraw { name: sprite.name.clone(), position, size };
                        let ghost before = sprites@;
                        sprites.push(draw);
                        assert(sprites@.map_values(|s: SpriteDraw| s@) =~= before.map_values(
                            |s: SpriteDraw| s@,
                        ).push(draw@));
                    }
                }
                if editing {
                    if let Some(button) = world.edit_btn(entity) {
                        let copy = button.clone();
                        let ghost before = buttons@;
                        buttons.push(copy);
                        assert(buttons@.map_values(|b: EditBtn| b@) =~= before.map_values(
                            |b: EditBtn| b@,
                        ).push(copy@));
                    }
                    if let Some(icon) = world.icon(entity) {
                        icons.push(icon);
                    }
                }
            }
            i = i + 1;
        }
        let scene = Scene { sprites, buttons, icons };
        assert(scene@.buttons =~= scene_of(world@, editing).buttons);
        assert(scene@.icons =~= scene_of(world@, editing).icons);
        scene
    }
}

} // verus!
