//! The single-chunk world that the world thread ticks: world properties,
//! loaded chunks, block access and the tick.
//!
//! Terrain comes from a generator that the caller passes in (a function from
//! a chunk position to the chunk generated there).

use vstd::prelude::*;
use crate::math::position::{WorldPos, ChunkPos};
use crate::world::chunk::Chunk;
use crate::world::storage::{WorldStorage, chunk_pos_of, lists_each_chunk_once};
use crate::world::world_manager::{
    generates_in_place, block_in, block_access_ok, block_written, write_changes_block,
};

verus! {

/// World state: properties and loaded chunks.
pub struct World {
    pub seed: u64,
    pub time: u64,
    pub spawn_x: i32,
    pub spawn_y: i32,
    pub spawn_z: i32,
    /// 0 is the overworld.
    pub dimension: i32,
    chunks: WorldStorage,
    pub snow_covered: bool,
    pub multiplayer: bool,
}

impl World {
    /// The loaded chunks by position.
    pub closed spec fn chunks_view(&self) -> Map<ChunkPos, Chunk> {
        self.chunks@
    }

    /// The world's public properties: seed, time, spawn X, Y and Z,
    /// dimension, snow cover and multiplayer flag.
    pub closed spec fn props(&self) -> (u64, u64, i32, i32, i32, i32, bool, bool) {
        (
            self.seed,
            self.time,
            self.spawn_x,
            self.spawn_y,
            self.spawn_z,
            self.dimension,
            self.snow_covered,
            self.multiplayer,
        )
    }

    /// The world's internal invariant.
    pub closed spec fn wf(&self) -> bool {
        self.chunks.wf()
    }

    /// Every loaded chunk sits at the position it records.
    pub proof fn lemma_chunks_in_place(&self)
        requires
            self.wf(),
        ensures
            forall|c: ChunkPos| #[trigger]
                self.chunks_view().contains_key(c) ==> chunk_pos_of(self.chunks_view()[c]) == c,
            self.chunks_view().dom().finite(),
    {
        self.chunks.lemma_positions_match();
    }

    /// Creates a world with the given seed, spawn at (0, 64, 0), time 0, and
    /// the chunk at (0, 0) generated.
    pub fn new<F: Fn(ChunkPos) -> Chunk>(seed: u64, generate: F) -> (w: World)
        requires
            generates_in_place(generate),
        ensures
            w.wf(),
            w.props() == (seed, 0u64, 0i32, 64i32, 0i32, 0i32, false, false),
            w.chunks_view().dom() == set![ChunkPos { x: 0, z: 0 }],
            call_ensures(generate, (ChunkPos { x: 0, z: 0 },), w.chunks_view()[ChunkPos { x: 0, z: 0 }]),
    {
        let mut world = World {
            seed,
            time: 0,
            spawn_x: 0,
            spawn_y: 64,
            spawn_z: 0,
            dimension: 0,
            chunks: WorldStorage::new(),
            snow_covered: false,
            multiplayer: false,
        };
        world.generate_initial_chunks(&generate);
        world
    }

    /// Generates the chunk at (0, 0) and adds it.
    fn generate_initial_chunks<F: Fn(ChunkPos) -> Chunk>(&mut self, generate: &F)
        requires
            old(self).wf(),
            generates_in_place(*generate),
        ensures
            final(self).wf(),
            final(self).props() == old(self).props(),
            ({
                let p = ChunkPos { x: 0, z: 0 };
                &&& final(self).chunks_view() == old(self).chunks_view().insert(
                    p,
                    final(self).chunks_view()[p],
                )
                &&& call_ensures(*generate, (p,), final(self).chunks_view()[p])
            }),
    {
        let chunk_pos = ChunkPos::new(0, 0);
        let chunk = generate(chunk_pos);
        self.add_chunk(chunk);
    }

    /// The block type at world coordinates; air (0) where no chunk is loaded.
    pub fn get_block(&self, pos: WorldPos) -> (b: u8)
        requires
            block_access_ok(self.chunks_view(), pos),
        ensures
            b == block_in(self.chunks_view(), pos),
    {
        let chunk_pos = pos.to_chunk_pos();
        let local_pos = pos.to_local_pos();
        match self.chunks.get_chunk(chunk_pos) {
            Some(chunk) => chunk.get_block(local_pos),
            None => 0,
        }
    }

    /// Sets a block at world coordinates. Returns whether a loaded chunk's
    /// block changed; where no chunk is loaded nothing changes.
    pub fn set_block(&mut self, pos: WorldPos, block_id: u8) -> (changed: bool)
        requires
            old(self).wf(),
            block_access_ok(old(self).chunks_view(), pos),
        ensures
            final(self).wf(),
            final(self).props() == old(self).props(),
            block_written(old(self).chunks_view(), final(self).chunks_view(), pos, block_id),
            changed == write_changes_block(old(self).chunks_view(), pos, block_id),
    {
        proof {
            self.chunks.lemma_positions_match();
        }
        let chunk_pos = pos.to_chunk_pos();
        let local_pos = pos.to_local_pos();
        let changed = match self.chunks.get_chunk_mut(chunk_pos) {
            Some(chunk) => chunk.set_block(local_pos, block_id),
            None => false,
        };
        proof {
            if !old(self).chunks_view().contains_key(chunk_pos) {
                assert(self.chunks_view() =~= old(self).chunks_view());
            } else {
                assert(self.chunks_view().dom() =~= old(self).chunks_view().dom());
            }
        }
        changed
    }

    /// The chunk at chunk coordinates, if loaded.
    pub fn get_chunk(&self, pos: ChunkPos) -> (r: Option<&Chunk>)
        ensures
            match r {
                Some(c) => self.chunks_view().contains_key(pos) && *c == self.chunks_view()[pos],
                None => !self.chunks_view().contains_key(pos),
            },
    {
        self.chunks.get_chunk(pos)
    }

    /// The chunk at chunk coordinates, if loaded, for modification in place.
    /// Moving the chunk by changing its recorded coordinates is not allowed.
    pub fn get_chunk_mut(&mut self, pos: ChunkPos) -> (r: Option<&mut Chunk>)
        requires
            old(self).wf(),
        ensures
            final(self).props() == old(self).props(),
            match r {
                Some(c) => old(self).chunks_view().contains_key(pos) && *c == old(
                    self,
                ).chunks_view()[pos] && final(self).chunks_view() == old(self).chunks_view().insert(
                    pos,
                    *final(c),
                ),
                None => !old(self).chunks_view().contains_key(pos) && final(self).chunks_view()
                    == old(self).chunks_view(),
            },
            r is Some && chunk_pos_of(*final(r.unwrap())) == pos ==> final(self).wf(),
            r is None ==> final(self).wf(),
    {
        self.chunks.get_chunk_mut(pos)
    }

    /// Adds a chunk at the position it records, replacing any chunk there.
    pub fn add_chunk(&mut self, chunk: Chunk)
        requires
            old(self).wf(),
        ensures
            final(self).wf(),
            final(self).props() == old(self).props(),
            final(self).chunks_view() == old(self).chunks_view().insert(chunk_pos_of(chunk), chunk),
    {
        self.chunks.store_chunk(chunk);
    }

    /// Removes and returns the chunk at chunk coordinates, if loaded.
    pub fn remove_chunk(&mut self, pos: ChunkPos) -> (r: Option<Chunk>)
        requires
            old(self).wf(),
        ensures
            final(self).wf(),
            final(self).props() == old(self).props(),
            final(self).chunks_view() == old(self).chunks_view().remove(pos),
            match r {
                Some(c) => old(self).chunks_view().contains_key(pos) && c == old(
                    self,
                ).chunks_view()[pos],
                None => !old(self).chunks_view().contains_key(pos),
            },
    {
        self.chunks.remove_chunk(pos)
    }

    /// Every loaded chunk, each once, in no particular order.
    pub fn get_all_chunks(&self) -> (r: Vec<&Chunk>)
        requires
            self.wf(),
        ensures
            lists_each_chunk_once(self.chunks_view(), r@),
    {
        self.chunks.all_chunks()
    }

    /// The world's time, in ticks.
    pub fn current_time(&self) -> (t: u64)
        ensures
            t == self.props().1,
    {
        self.time
    }

    /// The spawn point: X, Y and Z.
    pub fn spawn_point(&self) -> (r: (i32, i32, i32))
        ensures
            r == (self.props().2, self.props().3, self.props().4),
    {
        (self.spawn_x, self.spawn_y, self.spawn_z)
    }

    /// Advances the world by one game tick: the time goes up by one and
    /// nothing else changes.
    pub fn update(&mut self)
        requires
            old(self).props().1 < u64::MAX,
        ensures
            ({
                let o = old(self).props();
                final(self).props() == (o.0, (o.1 + 1) as u64, o.2, o.3, o.4, o.5, o.6, o.7)
            }),
            final(self).chunks_view() == old(self).chunks_view(),
            final(self).wf() == old(self).wf(),
    {
        self.time = self.time + 1;
    }
}

} // verus!
