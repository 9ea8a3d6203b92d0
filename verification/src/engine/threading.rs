//! Decisions of the world thread: what one turn of its loop does with the
//! message it received, the world and the tick clock.
//!
//! The thread itself (channels, locks, the clock and sleeping) runs outside
//! the library; each turn it hands [`world_thread_step`] what it received and
//! whether a tick is due, and carries out the returned [`WorldStep`].

use vstd::prelude::*;
use crate::math::position::{WorldPos, ChunkPos};
use crate::world::world::World;
use crate::world::world_manager::{block_access_ok, block_written, write_changes_block};

verus! {

/// World ticks per second.
pub const TARGET_TPS: u64 = 20;

/// Length of one tick, in milliseconds.
pub const TICK_MILLIS: u64 = 50;

/// Messages sent between game threads.
#[derive(Debug, Clone)]
pub enum GameMessage {
    /// World update tick.
    WorldTick,
    /// Request world state for rendering.
    RequestWorldState,
    /// Set block at position.
    SetBlock { pos: WorldPos, block_id: u8 },
    /// Add chunk to world.
    AddChunk { chunk_pos: ChunkPos },
    /// Remove chunk from world.
    RemoveChunk { chunk_pos: ChunkPos },
    /// Shutdown all threads.
    Shutdown,
}

/// What the world thread found on its channel in one turn.
pub enum Incoming {
    /// A message arrived.
    Message(GameMessage),
    /// No message was waiting.
    Empty,
    /// Every sender is gone.
    Disconnected,
}

/// What the world thread sends back to the main thread.
#[derive(Debug, Clone)]
pub enum WorldReply {
    /// A tick was run; the tick counter now reads `tick_count`.
    TickCompleted { tick_count: u64 },
    /// The world's state for rendering.
    WorldStateSnapshot { tick_count: u64, time: u64, spawn_x: i32, spawn_y: i32, spawn_z: i32 },
    /// Whether a block write changed a block.
    BlockOperationResult { success: bool },
}

/// Whether the world thread goes on after a turn.
pub enum LoopExit {
    /// Keep running.
    Continue,
    /// Shut down: clear the running flag and stop.
    Shutdown,
    /// Stop because the channel is gone.
    Disconnected,
}

/// The outcome of one turn of the world thread.
pub struct WorldStep {
    /// The reply to send, if any.
    pub reply: Option<WorldReply>,
    /// Whether a tick ran: the tick counter goes up by one and the tick
    /// clock restarts.
    pub ticked: bool,
    /// Whether to sleep briefly before the next turn.
    pub idle: bool,
    /// Whether to go on.
    pub exit: LoopExit,
}

/// Whether a turn runs a tick: on a tick message or an empty channel, and
/// only when a tick is due.
pub open spec fn step_ticks(incoming: Incoming, tick_due: bool) -> bool {
    tick_due && (incoming matches Incoming::Message(GameMessage::WorldTick) || incoming is Empty)
}

/// Whether a turn asks for a tick (whether or not one is due).
pub open spec fn step_wants_tick(incoming: Incoming, tick_due: bool) -> bool {
    incoming matches Incoming::Message(GameMessage::WorldTick) || (incoming is Empty && tick_due)
}

/// The snapshot reply for a world and tick counter.
pub open spec fn snapshot_of(world: World, tick_count: u64) -> WorldReply {
    let p = world.props();
    WorldReply::WorldStateSnapshot {
        tick_count,
        time: p.1,
        spawn_x: p.2,
        spawn_y: p.3,
        spawn_z: p.4,
    }
}

/// The world's state as a reply.
pub fn snapshot(world: &World, tick_count: u64) -> (r: WorldReply)
    ensures
        r == snapshot_of(*world, tick_count),
{
    let (spawn_x, spawn_y, spawn_z) = world.spawn_point();
    WorldReply::WorldStateSnapshot { tick_count, time: world.current_time(), spawn_x, spawn_y, spawn_z }
}

/// One turn of the world thread. `tick_due` says whether a tick's length
/// has passed since the last tick, and `tick_count` is the tick counter.
///
/// A tick message, or an empty channel, runs a tick when one is due and
/// replies with the new count; a state request replies with a snapshot; a
/// block write is carried out and replies with whether it changed a block;
/// chunk messages do nothing; a shutdown or a lost channel ends the loop.
/// The thread idles when it neither asked for nor had a tick due.
pub fn world_thread_step(
    world: &mut World,
    incoming: Incoming,
    tick_due: bool,
    tick_count: u64,
) -> (s: WorldStep)
    requires
        old(world).wf(),
        step_ticks(incoming, tick_due) ==> old(world).props().1 < u64::MAX,
        incoming matches Incoming::Message(GameMessage::SetBlock { pos, block_id }) ==> block_access_ok(
            old(world).chunks_view(),
            pos,
        ),
    ensures
        final(world).wf(),
        s.ticked == step_ticks(incoming, tick_due),
        s.idle == (!(incoming is Disconnected || incoming matches Incoming::Message(
            GameMessage::Shutdown,
        )) && !step_wants_tick(incoming, tick_due) && !tick_due),
        match incoming {
            Incoming::Message(GameMessage::Shutdown) => s.exit is Shutdown,
            Incoming::Disconnected => s.exit is Disconnected,
            _ => s.exit is Continue,
        },
        match incoming {
            Incoming::Message(GameMessage::SetBlock { pos, block_id }) => {
                &&& final(world).props() == old(world).props()
                &&& block_written(old(world).chunks_view(), final(world).chunks_view(), pos, block_id)
                &&& s.reply == Some(
                    WorldReply::BlockOperationResult {
                        success: write_changes_block(old(world).chunks_view(), pos, block_id),
                    },
                )
            },
            Incoming::Message(GameMessage::RequestWorldState) => {
                &&& *final(world) == *old(world)
                &&& s.reply == Some(snapshot_of(*old(world), tick_count))
            },
            _ => if step_ticks(incoming, tick_due) {
                let o = old(world).props();
                &&& final(world).props() == (o.0, (o.1 + 1) as u64, o.2, o.3, o.4, o.5, o.6, o.7)
                &&& final(world).chunks_view() == old(world).chunks_view()
                &&& s.reply == Some(
                    WorldReply::TickCompleted { tick_count: tick_count.wrapping_add(1) },
                )
            } else {
                &&& *final(world) == *old(world)
                &&& s.reply is None
            },
        },
{
    let mut should_tick = false;
    let mut reply: Option<WorldReply> = None;
    let mut exit = LoopExit::Continue;
    match incoming {
        Incoming::Message(GameMessage::WorldTick) => {
            should_tick = true;
        },
        Incoming::Message(GameMessage::RequestWorldState) => {
            reply = Some(snapshot(world, tick_count));
        },
        Incoming::Message(GameMessage::SetBlock { pos, block_id }) => {
            let success = world.set_block(pos, block_id);
            reply = Some(WorldReply::BlockOperationResult { success });
        },
        Incoming::Message(GameMessage::Shutdown) => {
            exit = LoopExit::Shutdown;
        },
        Incoming::Message(_) => {},
        Incoming::Disconnected => {
            exit = LoopExit::Disconnected;
        },
        Incoming::Empty => {
            if tick_due {
                should_tick = true;
            }
        },
    }
    let mut ticked = false;
    let mut idle = false;
    if matches!(exit, LoopExit::Continue) {
        if should_tick && tick_due {
            world.update();
            ticked = true;
            reply = Some(WorldReply::TickCompleted { tick_count: tick_count.wrapping_add(1) });
        }
        if !should_tick && !tick_due {
            idle = true;
        }
    }
    WorldStep { reply, ticked, idle, exit }
}

} // verus!
