pub mod chunk;
pub mod coordinates;
pub mod storage;
pub mod world;
pub mod world_manager;
pub mod generator;
