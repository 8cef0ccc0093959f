//! A small real-time simulation core: cellular-automaton grids (Conway life
//! and a falling-sand sandbox), an entity/component registry with a keyed
//! storage, and a camera/viewport that projects a logical pixel buffer into a
//! window-sized framebuffer.

pub mod bresenham;
pub mod camera;
pub mod color;
pub mod component;
pub mod grid;
pub mod letters;
pub mod life;
pub mod entity;
pub mod input;
pub mod pixelmap;
pub mod sand;
pub mod stats;
pub mod storage;
pub mod types;
pub mod world;
mod rng;
