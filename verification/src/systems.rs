//! The systems of the game, one per task, gathered in one place.

pub use crate::editor::{EditBtnHandle, EditDragHandler, IconButtonsHandler};
pub use crate::persist::{Deserialize, NetworkSync, Serialize};
pub use crate::physics::{CollisionHandling, FallingBlockHandling, InputHandling};
pub use crate::render::DrawSys;
