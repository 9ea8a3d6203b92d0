pub mod block;
pub mod light;
pub mod materials;
