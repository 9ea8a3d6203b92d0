//! The game engine: owns the run of the game and ticks the world.

pub mod threading;

use vstd::prelude::*;
use crate::world::world::World;

verus! {

/// Ticks run by one call of [`Engine::run`].
pub const RUN_TICKS: u64 = 10;

/// An error that stops the engine.
pub enum EngineError {
    /// The window or event loop could not be set up.
    Window,
}

/// Main game engine.
pub struct Engine {}

impl Engine {
    /// Creates the engine; this always succeeds.
    pub fn new() -> (r: Result<Self, EngineError>)
        ensures
            r is Ok,
    {
        Ok(Engine {})
    }

    /// Runs the game: ten world ticks. The world's time goes up by ten and
    /// nothing else in it changes.
    pub fn run(&mut self, world: &mut World) -> (r: Result<(), EngineError>)
        requires
            old(world).props().1 + RUN_TICKS <= u64::MAX,
        ensures
            r is Ok,
            ({
                let o = old(world).props();
                final(world).props() == (o.0, (o.1 + RUN_TICKS) as u64, o.2, o.3, o.4, o.5, o.6, o.7)
            }),
            final(world).chunks_view() == old(world).chunks_view(),
            final(world).wf() == old(world).wf(),
    {
        let mut i: u64 = 0;
        while i < RUN_TICKS
            invariant
                i <= RUN_TICKS,
                old(world).props().1 + RUN_TICKS <= u64::MAX,
                ({
                    let o = old(world).props();
                    world.props() == (o.0, (o.1 + i) as u64, o.2, o.3, o.4, o.5, o.6, o.7)
                }),
                world.chunks_view() == old(world).chunks_view(),
                world.wf() == old(world).wf(),
            decreases RUN_TICKS - i,
        {
            world.update();
            i = i + 1;
        }
        Ok(())
    }
}

} // verus!
