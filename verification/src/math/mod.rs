pub mod position;
pub mod trig;
pub mod utils;
pub mod text;
