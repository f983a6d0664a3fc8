pub mod components;
pub mod editor;
pub mod fixed;
pub mod game;
pub mod identity;
pub mod persist;
pub mod physics;
pub mod render;
pub mod systems;
pub mod utils;
pub mod world;
