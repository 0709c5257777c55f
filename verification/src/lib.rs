//! Core of a small scripted game engine: a reference-counted resource cache
//! for images and sounds, an entity/component scene graph, and the order in
//! which a frame runs systems and components.

pub mod assets;
pub mod color;
pub mod frame;
pub mod image;
pub mod input;
pub mod pool;
pub mod profile;
pub mod scene;
pub mod sound;
pub mod text;
pub mod wav;
