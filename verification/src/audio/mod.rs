pub mod music;
pub mod sound_engine;
