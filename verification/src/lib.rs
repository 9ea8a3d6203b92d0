//! A voxel world library: block coordinates, chunk storage, world state,
//! terrain shaping and chunk meshing, with their behaviour stated as
//! contracts and proved.

pub mod math;
pub mod world;
pub mod render;
pub mod blocks;
pub mod audio;
pub mod nbt;
pub mod entities;
pub mod engine;
pub mod input;
