//! One frame of the game.
//!
//! The game is driven from outside, frame by frame: the caller reads the keys,
//! the mouse and the clock, hands them in, and gets back what to draw and,
//! where the player asked for it, the text of the level to write to disk.

use crate::components::{EditState, IconKind, Position};
use crate::editor::{
    cleared, drag_all, icon_clicked, EditBtnHandle, EditDragHandler, IconButtonsHandler,
};
use crate::persist::{ron_text, rows_of, saved, SaveError, Serialize};
use crate::physics::{
    bodies_have_hitboxes, collision_pass, fall_all, lemma_steering_keeps_hitboxes, steer_all,
    CollisionHandling, FallingBlockHandling, InputHandling,
};
use crate::render::{scene_of, DrawSys, Scene, SceneView};
use crate::world::{World, WorldView};
use vstd::prelude::*;

verus! {

/// What the outside world tells the game in one frame.
#[derive(Debug, Clone, Copy, PartialEq, Eq, Structural)]
pub struct Input {
    /// Time since the last frame, in thousandths of a second.
    pub dt: i64,
    pub left: bool,
    pub right: bool,
    pub jump: bool,
    /// Whether the key that flips between editing and playing was pressed.
    pub toggle: bool,
    /// The mouse in world coordinates.
    pub mouse: Position,
    /// Whether the left mouse button went down in this frame.
    pub pressed: bool,
    /// Whether the left mouse button is held.
    pub down: bool,
    /// Whether the left mouse button came up in this frame.
    pub released: bool,
}

/// The whole state of the game.
pub struct Game {
    pub world: World,
    pub edit_state: EditState,
    pub palette: EditBtnHandle,
}

/// What a frame hands back to the outside world.
pub struct Frame {
    /// What to draw.
    pub scene: Scene,
    /// Where the player asked for the level to be saved: its text, or why
    /// there is none.
    pub save: Option<Result<String, SaveError>>,
}

/// What the game is.
pub struct GameView {
    pub world: WorldView,
    pub edit_state: EditState,
    pub palette: EditBtnHandle,
}

/// The world after the simulation has run: steering, then collisions, then
/// the falling blocks. While the level is edited the simulation rests.
pub open spec fn simulated(w: WorldView, editing: bool, input: Input) -> WorldView {
    if editing {
        w
    } else {
        let steered = steer_all(w, input.left, input.right, input.jump);
        fall_all(collision_pass(steered, input.dt, steered.entities.len() as int))
    }
}

/// The game after the editor has run on top of the simulation: dragging, then
/// the palette, then the toolbar icons. The icons work in either mode.
pub open spec fn edited(g: GameView, input: Input) -> GameView {
    let editing = g.edit_state.editing;
    let w = simulated(g.world, editing, input);
    let dragged = if editing {
        drag_all(w, input.mouse, input.pressed, input.released)
    } else {
        w
    };
    let (palette, placed) = if editing {
        g.palette.run_spec(dragged, input.mouse, input.released, input.down)
    } else {
        (g.palette, dragged)
    };
    GameView {
        world: if icon_clicked(placed, input.mouse, input.released, IconKind::EmptyBox) {
            cleared(placed)
        } else {
            placed
        },
        edit_state: EditState {
            should_save: g.edit_state.should_save || icon_clicked(
                placed,
                input.mouse,
                input.released,
                IconKind::FileSaveClassic,
            ),
            editing,
        },
        palette,
    }
}

/// The game at the end of the frame: the mode flipped where the key was
/// pressed, the request to save taken up, and the frame settled.
pub open spec fn frame_spec(g: GameView, input: Input) -> GameView {
    let e = edited(g, input);
    GameView {
        world: e.world.maintained(),
        edit_state: EditState { should_save: false, editing: e.edit_state.editing != input.toggle },
        palette: e.palette,
    }
}

impl View for Game {
    type V = GameView;

    open spec fn view(&self) -> GameView {
        GameView { world: self.world@, edit_state: self.edit_state, palette: self.palette }
    }
}

impl Game {
    /// Whether the game can run a frame: the world keeps its rules, a marker
    /// is left to hand out, and every body has a hitbox.
    pub open spec fn ready(&self) -> bool {
        &&& self.world.wf()
        &&& self.world@.next_marker < u64::MAX
        &&& bodies_have_hitboxes(self.world@)
    }

    /// A game around `world`, in edit mode, with no tool selected.
    pub fn new(world: World) -> (game: Game)
        ensures
            game.world == world,
            game.edit_state == (EditState { should_save: false, editing: true }),
            game.palette == EditBtnHandle::idle(),
    {
        Game { world, edit_state: EditState::new(), palette: EditBtnHandle::new() }
    }

    /// Whether every body has a hitbox and a marker is left to hand out.
    pub fn check(&self) -> (ready: bool)
        ensures
            ready == (self.world@.next_marker < u64::MAX && bodies_have_hitboxes(self.world@)),
            self.world.wf() ==> ready == self.ready(),
    {
        self.world.next_marker() < u64::MAX && CollisionHandling::ready(&self.world)
    }

    /// Runs one frame. The systems take their turns in a fixed order: the
    /// simulation, the editor, the list of what to draw, the saving, and at
    /// last the settling of the entities that were asked for or deleted.
    pub fn frame(&mut self, input: &Input) -> (out: Frame)
        requires
            old(self).ready(),
        ensures
            final(self).world.wf(),
            final(self)@ == frame_spec(old(self)@, *input),
            out.scene@ == scene_of(
                edited(old(self)@, *input).world,
                final(self).edit_state.editing,
            ),
            out.save is Some == edited(old(self)@, *input).edit_state.should_save,
            out.save matches Some(Ok(text)) ==> ron_text(
                rows_of(saved(edited(old(self)@, *input).world)),
            ) == Some(text@),
            out.save matches Some(Err(_)) ==> ron_text(
                rows_of(saved(edited(old(self)@, *input).world)),
            ) is None,
    {
        let mouse = input.mouse;
        let mut steering = InputHandling;
        let mut collisions = CollisionHandling;
        let mut falling = FallingBlockHandling;
        let mut dragging = EditDragHandler;
        let mut icons = IconButtonsHandler;
        let mut drawing = DrawSys;
        let mut saving = Serialize;
        steering.run(&self.edit_state, &mut self.world, input.left, input.right, input.jump);
        proof {
            if !self.edit_state.editing {
                lemma_steering_keeps_hitboxes(old(self).world@, input.left, input.right, input.jump);
            }
        }
        collisions.run(&self.edit_state, &mut self.world, input.dt);
        falling.run(&self.edit_state, &mut self.world);
        assert(self.world@ == simulated(old(self).world@, self.edit_state.editing, *input));
        assert(self.world@.next_marker == old(self).world@.next_marker) by {
            lemma_simulation_keeps_next_marker(old(self).world@, self.edit_state.editing, *input);
        }
        dragging.run(&self.edit_state, &mut self.world, mouse, input.pressed, input.released);
        self.palette.run(&self.edit_state, &mut self.world, mouse, input.released, input.down);
        icons.run(&mut self.edit_state, &mut self.world, mouse, input.released);
        assert(self@ == edited(old(self)@, *input));
        let scene = drawing.run(&mut self.edit_state, &self.world, input.toggle);
        let save = if self.edit_state.take_save_request() {
            Some(saving.run(&self.world))
        } else {
            None
        };
        self.world.maintain();
        Frame { scene, save }
    }
}

/// The simulation hands out no marker.
pub proof fn lemma_simulation_keeps_next_marker(w: WorldView, editing: bool, input: Input)
    ensures
        simulated(w, editing, input).next_marker == w.next_marker,
{
    if !editing {
        let steered = steer_all(w, input.left, input.right, input.jump);
        lemma_collisions_keep_next_marker(steered, input.dt, steered.entities.len() as int);
    }
}

proof fn lemma_collisions_keep_next_marker(w: WorldView, dt: i64, n: int)
    ensures
        collision_pass(w, dt, n).next_marker == w.next_marker,
        collision_pass(w, dt, n).entities.len() == w.entities.len(),
    decreases n,
{
    if n > 0 {
        lemma_collisions_keep_next_marker(w, dt, n - 1);
    }
}

} // verus!
