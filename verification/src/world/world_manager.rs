//! The world: loaded chunks, the chunk generation queue and chunk loading
//! around the player.
//!
//! Terrain comes from a generator that the caller passes in (a function
//! from a chunk position to the chunk generated there); the world decides
//! which chunks to generate, keep and drop.

use vstd::prelude::*;
use crate::math::position::{WorldPos, ChunkPos, LocalPos, law_world_pos_decomposes, law_index_is_bijective};
use crate::world::chunk::{Chunk, CHUNK_VOLUME};
use crate::world::storage::{WorldStorage, chunk_pos_of, lists_each_chunk_once};

verus! {

/// Chunk render distance, in chunks.
pub const RENDER_DISTANCE: i32 = 4;

/// Most chunks kept loaded before every chunk is dropped.
pub const MAX_LOADED_CHUNKS: usize = 81;

/// Chunks generated from the queue per tick.
pub const CHUNKS_PER_TICK: usize = 2;

/// Whether a generator puts each chunk it makes at the position asked for.
pub open spec fn generates_in_place<F: Fn(ChunkPos) -> Chunk>(generate: F) -> bool {
    &&& forall|p: ChunkPos| #[trigger] call_requires(generate, (p,))
    &&& forall|p: ChunkPos, c: Chunk| #[trigger]
        call_ensures(generate, (p,), c) ==> chunk_pos_of(c) == p
}

/// The block a world position reads in a map of chunks: the block of the
/// chunk holding it, or air (0) where no chunk is loaded.
pub open spec fn block_in(chunks: Map<ChunkPos, Chunk>, pos: WorldPos) -> u8 {
    let c = pos.spec_to_chunk_pos();
    if chunks.contains_key(c) {
        chunks[c].blocks@[pos.spec_to_local_pos().spec_raw_index() as int]
    } else {
        0
    }
}

/// Whether a world position can be read or written without indexing past
/// the block array of its loaded chunk.
pub open spec fn block_access_ok(chunks: Map<ChunkPos, Chunk>, pos: WorldPos) -> bool {
    chunks.contains_key(pos.spec_to_chunk_pos()) ==> pos.spec_to_local_pos().spec_raw_index()
        < CHUNK_VOLUME
}

/// `after` is `before` with the block at a world position set to
/// `block_id`, where a chunk is loaded there; where none is, the two are
/// the same.
pub open spec fn block_written(
    before: Map<ChunkPos, Chunk>,
    after: Map<ChunkPos, Chunk>,
    pos: WorldPos,
    block_id: u8,
) -> bool {
    let c = pos.spec_to_chunk_pos();
    let i = pos.spec_to_local_pos().spec_raw_index() as int;
    if before.contains_key(c) {
        &&& after.dom() == before.dom()
        &&& forall|d: ChunkPos|
            #![trigger after[d]]
            d != c && before.contains_key(d) ==> after[d] == before[d]
        &&& chunk_pos_of(after[c]) == c
        &&& after[c].blocks@ == before[c].blocks@.update(i, block_id)
    } else {
        after == before
    }
}

/// Whether writing `block_id` at a world position changes a loaded block.
pub open spec fn write_changes_block(chunks: Map<ChunkPos, Chunk>, pos: WorldPos, block_id: u8) -> bool {
    let c = pos.spec_to_chunk_pos();
    chunks.contains_key(c) && chunks[c].blocks@[pos.spec_to_local_pos().spec_raw_index() as int]
        != block_id
}

/// Reading a block back gives what was last written there, where a chunk
/// is loaded, and a write leaves every other block as it was; where no chunk
/// is loaded, a write changes nothing and the block reads as air.
pub proof fn law_world_read_after_write(
    before: Map<ChunkPos, Chunk>,
    after: Map<ChunkPos, Chunk>,
    pos: WorldPos,
    block_id: u8,
    other: WorldPos,
)
    requires
        0 <= pos.y < 128,
        0 <= other.y < 128,
        block_written(before, after, pos, block_id),
    ensures
        before.contains_key(pos.spec_to_chunk_pos()) ==> block_in(after, pos) == block_id,
        !before.contains_key(pos.spec_to_chunk_pos()) ==> after == before && block_in(after, pos) == 0,
        other != pos ==> block_in(after, other) == block_in(before, other),
{
    law_world_pos_decomposes(pos);
    law_world_pos_decomposes(other);
    let lp = pos.spec_to_local_pos();
    let lo = other.spec_to_local_pos();
    lp.lemma_raw_index();
    lo.lemma_raw_index();
    law_index_is_bijective(lp, lo);
}

/// After loading a position, a chunk is loaded there; a chunk that was
/// loaded already is kept as it was.
pub proof fn law_load_chunk_loads<F: Fn(ChunkPos) -> Chunk>(
    before: Map<ChunkPos, Chunk>,
    after: Map<ChunkPos, Chunk>,
    pos: ChunkPos,
    generate: F,
)
    requires
        extended_by(before, after, set![pos], generate),
    ensures
        after.contains_key(pos),
        before.contains_key(pos) ==> after[pos] == before[pos],
        !before.contains_key(pos) ==> call_ensures(generate, (pos,), after[pos]),
        after.dom() == before.dom().insert(pos),
{
    assert(after.dom().contains(pos));
    assert(before.dom() + set![pos] =~= before.dom().insert(pos));
}

/// `after` holds the chunks of `before` unchanged, plus, at each position
/// of `added` that `before` lacks, a chunk that `generate` made for it.
pub open spec fn extended_by<F: Fn(ChunkPos) -> Chunk>(
    before: Map<ChunkPos, Chunk>,
    after: Map<ChunkPos, Chunk>,
    added: Set<ChunkPos>,
    generate: F,
) -> bool {
    &&& after.dom() == before.dom() + added
    &&& forall|p: ChunkPos| #[trigger] before.contains_key(p) ==> after[p] == before[p]
    &&& forall|p: ChunkPos|
        #[trigger] added.contains(p) && !before.contains_key(p) ==> call_ensures(
            generate,
            (p,),
            after[p],
        )
}

/// The nine chunk positions around and including a center chunk.
pub open spec fn neighborhood(center: ChunkPos) -> Set<ChunkPos> {
    Set::new(
        |p: ChunkPos|
            center.x - 1 <= p.x <= center.x + 1 && center.z - 1 <= p.z <= center.z + 1,
    )
}

/// The grid cell `k` (0..81) of the square around a center chunk, walked
/// by X offset from -4 to 4, then Z offset from -4 to 4.
pub open spec fn cell(center: ChunkPos, k: int) -> ChunkPos {
    ChunkPos { x: (center.x + (k / 9 - 4)) as i32, z: (center.z + (k % 9 - 4)) as i32 }
}

/// Whether grid cell `k` lies within the render distance (a circle of
/// radius 4 chunks).
pub open spec fn in_circle(k: int) -> bool {
    (k / 9 - 4) * (k / 9 - 4) + (k % 9 - 4) * (k % 9 - 4) <= 16
}

/// Whether every position within the render distance of a center chunk
/// fits an `i32`.
pub open spec fn center_ok(center: ChunkPos) -> bool {
    &&& -2147483644 <= center.x <= 2147483643
    &&& -2147483644 <= center.z <= 2147483643
}

/// The loaded positions among the first `n` grid cells within the render
/// distance, in walking order.
pub open spec fn near_prefix(center: ChunkPos, loaded: Set<ChunkPos>, n: nat) -> Seq<ChunkPos>
    decreases n,
{
    if n == 0 {
        Seq::empty()
    } else {
        let prev = near_prefix(center, loaded, (n - 1) as nat);
        let p = cell(center, n - 1);
        if in_circle(n - 1) && loaded.contains(p) {
            prev.push(p)
        } else {
            prev
        }
    }
}

/// The positions that loading around a center chunk appends to the queue
/// while walking the first `n` grid cells: each one within the render
/// distance that is neither loaded nor already queued.
pub open spec fn pending_prefix(
    center: ChunkPos,
    loaded: Set<ChunkPos>,
    queue: Seq<ChunkPos>,
    n: nat,
) -> Seq<ChunkPos>
    decreases n,
{
    if n == 0 {
        Seq::empty()
    } else {
        let prev = pending_prefix(center, loaded, queue, (n - 1) as nat);
        let p = cell(center, n - 1);
        if in_circle(n - 1) && !loaded.contains(p) && !(queue + prev).contains(p) {
            prev.push(p)
        } else {
            prev
        }
    }
}

/// The squared distance between two chunk positions.
pub open spec fn sq_dist(c: ChunkPos, center: ChunkPos) -> int {
    (c.x - center.x) * (c.x - center.x) + (c.z - center.z) * (c.z - center.z)
}

/// Whether the offsets of a chunk from a center chunk and their squared
/// distance fit an `i32`.
pub open spec fn distance_ok(c: ChunkPos, center: ChunkPos) -> bool {
    &&& i32::MIN <= c.x - center.x <= i32::MAX
    &&& i32::MIN <= c.z - center.z <= i32::MAX
    &&& sq_dist(c, center) <= i32::MAX
}

/// Whether unloading around a center chunk keeps a chunk: only while at
/// most `MAX_LOADED_CHUNKS` chunks are loaded (`count`), and then only
/// within the render distance plus two chunks.
pub open spec fn kept_after_unload(center: ChunkPos, count: nat, c: ChunkPos) -> bool {
    count <= MAX_LOADED_CHUNKS && sq_dist(c, center) <= (RENDER_DISTANCE + 2) * (RENDER_DISTANCE + 2)
}

/// Unloading around a player at `center` keeps a chunk exactly when at most
/// 81 chunks are loaded and the chunk lies within six chunks of the player,
/// measured as the squared distance over both horizontal axes.
pub proof fn law_unload_keeps_only_nearby(center: ChunkPos, count: nat, p: ChunkPos)
    ensures
        kept_after_unload(center, count, p) <==> (count <= 81 && (p.x - center.x) * (p.x - center.x)
            + (p.z - center.z) * (p.z - center.z) <= 36),
{
}

/// Draining the generation queue with a budget: positions are taken from
/// the end; a loaded one is dropped, an unloaded one is generated and uses
/// up one unit of budget. Gives the queue left over and the positions
/// generated.
pub open spec fn drain_queue(q: Seq<ChunkPos>, loaded: Set<ChunkPos>, budget: nat) -> (Seq<
    ChunkPos,
>, Set<ChunkPos>)
    decreases q.len(),
{
    if budget == 0 || q.len() == 0 {
        (q, Set::empty())
    } else {
        let p = q.last();
        if loaded.contains(p) {
            drain_queue(q.drop_last(), loaded, budget)
        } else {
            let r = drain_queue(q.drop_last(), loaded.insert(p), (budget - 1) as nat);
            (r.0, r.1.insert(p))
        }
    }
}

/// Every position that draining generates was queued.
pub proof fn lemma_drain_generates_queued(q: Seq<ChunkPos>, loaded: Set<ChunkPos>, budget: nat)
    ensures
        forall|p: ChunkPos| #[trigger]
            drain_queue(q, loaded, budget).1.contains(p) ==> q.contains(p),
        drain_queue(q, loaded, budget).1.finite(),
    decreases q.len(),
{
    if budget == 0 || q.len() == 0 {
    } else {
        let p = q.last();
        if loaded.contains(p) {
            lemma_drain_generates_queued(q.drop_last(), loaded, budget);
        } else {
            lemma_drain_generates_queued(q.drop_last(), loaded.insert(p), (budget - 1) as nat);
        }
        assert forall|x: ChunkPos| q.drop_last().contains(x) implies q.contains(x) by {
            let i = choose|i: int| 0 <= i < q.drop_last().len() && q.drop_last()[i] == x;
            assert(q[i] == x);
        }
        assert(q[q.len() - 1] == p);
    }
}

/// Every chunk listed as near a center chunk (among the first `n` grid
/// cells) is loaded and lies within the render distance of it.
pub proof fn law_near_chunks_within_render_distance(
    center: ChunkPos,
    loaded: Set<ChunkPos>,
    n: nat,
)
    requires
        center_ok(center),
        n <= 81,
    ensures
        forall|i: int|
            0 <= i < near_prefix(center, loaded, n).len() ==> loaded.contains(
                #[trigger] near_prefix(center, loaded, n)[i],
            ) && sq_dist(near_prefix(center, loaded, n)[i], center) <= RENDER_DISTANCE
                * RENDER_DISTANCE,
    decreases n,
{
    if n > 0 {
        law_near_chunks_within_render_distance(center, loaded, (n - 1) as nat);
        let k = n - 1;
        let p = cell(center, k);
        let dx = k / 9 - 4;
        let dz = k % 9 - 4;
        assert(-4 <= dx <= 4 && -4 <= dz <= 4);
        assert(p.x == center.x + dx && p.z == center.z + dz);
        assert(sq_dist(p, center) == dx * dx + dz * dz);
        let prev = near_prefix(center, loaded, (n - 1) as nat);
        if in_circle(k) && loaded.contains(p) {
            assert(near_prefix(center, loaded, n) == prev.push(p));
            assert forall|i: int| 0 <= i < prev.len() + 1 implies loaded.contains(
                #[trigger] prev.push(p)[i],
            ) && sq_dist(prev.push(p)[i], center) <= RENDER_DISTANCE * RENDER_DISTANCE by {
                if i < prev.len() {
                    assert(prev.push(p)[i] == prev[i]);
                }
            }
        } else {
            assert(near_prefix(center, loaded, n) == prev);
        }
    }
}

/// Draining leaves a prefix of the queue.
proof fn lemma_drain_leaves_prefix(q: Seq<ChunkPos>, loaded: Set<ChunkPos>, budget: nat)
    ensures
        drain_queue(q, loaded, budget).0.len() <= q.len(),
        drain_queue(q, loaded, budget).0 == q.take(drain_queue(q, loaded, budget).0.len() as int),
    decreases q.len(),
{
    if budget == 0 || q.len() == 0 {
        assert(q.take(q.len() as int) =~= q);
    } else {
        let p = q.last();
        if loaded.contains(p) {
            lemma_drain_leaves_prefix(q.drop_last(), loaded, budget);
        } else {
            lemma_drain_leaves_prefix(q.drop_last(), loaded.insert(p), (budget - 1) as nat);
        }
        let r = drain_queue(q, loaded, budget).0;
        assert(r =~= q.take(r.len() as int));
    }
}

/// The positions appended while loading are new: none is queued already and
/// none is appended twice.
proof fn lemma_pending_is_new(
    center: ChunkPos,
    loaded: Set<ChunkPos>,
    queue: Seq<ChunkPos>,
    n: nat,
)
    requires
        queue.no_duplicates(),
    ensures
        (queue + pending_prefix(center, loaded, queue, n)).no_duplicates(),
    decreases n,
{
    if n > 0 {
        lemma_pending_is_new(center, loaded, queue, (n - 1) as nat);
        let prev = pending_prefix(center, loaded, queue, (n - 1) as nat);
        let p = cell(center, n - 1);
        if in_circle(n - 1) && !loaded.contains(p) && !(queue + prev).contains(p) {
            assert(queue + prev.push(p) =~= (queue + prev).push(p));
            let s = queue + prev;
            assert forall|i: int, j: int|
                0 <= i < s.push(p).len() && 0 <= j < s.push(p).len() && i != j implies s.push(
                p,
            )[i] != s.push(p)[j] by {
                if i == s.len() {
                    assert(s.push(p)[j] == s[j]);
                } else if j == s.len() {
                    assert(s.push(p)[i] == s[i]);
                }
            }
        }
    }
}

/// Every grid cell within the render distance among the first `n` is
/// loaded or queued once loading has walked them.
proof fn lemma_pending_covers(
    center: ChunkPos,
    loaded: Set<ChunkPos>,
    queue: Seq<ChunkPos>,
    n: nat,
)
    ensures
        forall|k: int|
            0 <= k < n && in_circle(k) ==> loaded.contains(#[trigger] cell(center, k)) || (queue
                + pending_prefix(center, loaded, queue, n)).contains(cell(center, k)),
    decreases n,
{
    if n > 0 {
        lemma_pending_covers(center, loaded, queue, (n - 1) as nat);
        let prev = pending_prefix(center, loaded, queue, (n - 1) as nat);
        let now = pending_prefix(center, loaded, queue, n);
        let p = cell(center, n - 1);
        assert forall|x: ChunkPos| (queue + prev).contains(x) implies (queue + now).contains(x) by {
            let i = choose|i: int| 0 <= i < (queue + prev).len() && (queue + prev)[i] == x;
            if now != prev {
                assert(now == prev.push(p));
                assert((queue + now)[i] == x);
            }
        }
        if in_circle(n - 1) && !loaded.contains(p) && !(queue + prev).contains(p) {
            assert(now == prev.push(p));
            assert((queue + now)[(queue + now).len() - 1] == p);
        }
    }
}

/// Loading around a player leaves every chunk position within the render
/// distance loaded or waiting in the queue.
pub proof fn law_loading_covers_render_distance(
    center: ChunkPos,
    loaded: Set<ChunkPos>,
    queue: Seq<ChunkPos>,
    k: int,
)
    requires
        0 <= k < 81,
        in_circle(k),
    ensures
        loaded.contains(cell(center, k)) || (queue + pending_prefix(center, loaded, queue, 81)).contains(
            cell(center, k),
        ),
{
    lemma_pending_covers(center, loaded, queue, 81);
}

/// A queue that holds no position twice keeps that property through a
/// tick: draining it and then queueing the positions to load around a
/// player never repeats a position.
pub proof fn law_queue_stays_distinct(q: Seq<ChunkPos>, loaded: Set<ChunkPos>, center: ChunkPos)
    requires
        q.no_duplicates(),
    ensures
        ({
            let d = drain_queue(q, loaded, CHUNKS_PER_TICK as nat);
            &&& d.0.no_duplicates()
            &&& (d.0 + pending_prefix(center, loaded + d.1, d.0, 81)).no_duplicates()
        }),
{
    let d = drain_queue(q, loaded, CHUNKS_PER_TICK as nat);
    lemma_drain_leaves_prefix(q, loaded, CHUNKS_PER_TICK as nat);
    assert(d.0.no_duplicates()) by {
        assert forall|i: int, j: int|
            0 <= i < d.0.len() && 0 <= j < d.0.len() && i != j implies d.0[i] != d.0[j] by {
            assert(d.0[i] == q[i] && d.0[j] == q[j]);
        }
    }
    lemma_pending_is_new(center, loaded + d.1, d.0, 81);
}

/// Main world state: properties, loaded chunks and the generation queue.
pub struct World {
    pub seed: u64,
    pub time: u64,
    pub spawn_x: i32,
    pub spawn_y: i32,
    pub spawn_z: i32,
    /// 0 is the overworld.
    pub dimension: i32,
    chunks: WorldStorage,
    render_distance: i32,
    max_loaded_chunks: usize,
    chunk_generation_queue: Vec<ChunkPos>,
    chunks_per_tick: usize,
    pub snow_covered: bool,
    pub multiplayer: bool,
}

impl World {
    /// The loaded chunks by position.
    pub closed spec fn chunks_view(&self) -> Map<ChunkPos, Chunk> {
        self.chunks@
    }

    /// The world's public properties: seed, time, spawn X, Y and Z,
    /// dimension, snow cover and multiplayer flag.
    pub closed spec fn props(&self) -> (u64, u64, i32, i32, i32, i32, bool, bool) {
        (
            self.seed,
            self.time,
            self.spawn_x,
            self.spawn_y,
            self.spawn_z,
            self.dimension,
            self.snow_covered,
            self.multiplayer,
        )
    }

    /// The positions waiting to be generated; the last is generated first.
    pub closed spec fn queue(&self) -> Seq<ChunkPos> {
        self.chunk_generation_queue@
    }

    /// The world's internal invariant.
    pub closed spec fn wf(&self) -> bool {
        &&& self.chunks.wf()
        &&& self.render_distance == RENDER_DISTANCE
        &&& self.max_loaded_chunks == MAX_LOADED_CHUNKS
        &&& self.chunks_per_tick == CHUNKS_PER_TICK
    }

    /// Every loaded chunk sits at the position it records.
    pub proof fn lemma_chunks_in_place(&self)
        requires
            self.wf(),
        ensures
            forall|c: ChunkPos| #[trigger]
                self.chunks_view().contains_key(c) ==> chunk_pos_of(self.chunks_view()[c]) == c,
            self.chunks_view().dom().finite(),
    {
        self.chunks.lemma_positions_match();
    }

    /// Creates a world with the given seed, spawn at (0, 64, 0), and
    /// generates the nine chunks around the spawn chunk.
    pub fn new<F: Fn(ChunkPos) -> Chunk>(seed: u64, generate: F) -> (w: World)
        requires
            generates_in_place(generate),
        ensures
            w.wf(),
            w.props() == (seed, 0u64, 0i32, 64i32, 0i32, 0i32, false, false),
            w.queue() == Seq::<ChunkPos>::empty(),
            extended_by(
                Map::<ChunkPos, Chunk>::empty(),
                w.chunks_view(),
                neighborhood(ChunkPos { x: 0, z: 0 }),
                generate,
            ),
    {
        let mut world = World {
            seed,
            time: 0,
            spawn_x: 0,
            spawn_y: 64,
            spawn_z: 0,
            dimension: 0,
            chunks: WorldStorage::new(),
            render_distance: RENDER_DISTANCE,
            max_loaded_chunks: MAX_LOADED_CHUNKS,
            chunk_generation_queue: Vec::new(),
            chunks_per_tick: CHUNKS_PER_TICK,
            snow_covered: false,
            multiplayer: false,
        };
        world.generate_initial_chunks(&generate);
        world
    }

    /// Generates the chunks of the spawn chunk's neighborhood that are not
    /// loaded yet.
    fn generate_initial_chunks<F: Fn(ChunkPos) -> Chunk>(&mut self, generate: &F)
        requires
            old(self).wf(),
            generates_in_place(*generate),
            old(self).spawn_x == 0,
            old(self).spawn_z == 0,
        ensures
            final(self).wf(),
            final(self).props() == old(self).props(),
            final(self).queue() == old(self).queue(),
            extended_by(
                old(self).chunks_view(),
                final(self).chunks_view(),
                neighborhood(ChunkPos { x: 0, z: 0 }),
                *generate,
            ),
    {
        let center = ChunkPos::new(self.spawn_x >> 4, self.spawn_z >> 4);
        assert(center.x == 0 && center.z == 0) by {
            assert(0i32 >> 4 == 0i32) by (bit_vector);
        }
        let ghost before = self.chunks_view();
        proof {
            assert(Set::new(|p: ChunkPos| -1 <= p.x < -1 && -1 <= p.z <= 1) =~= Set::<
                ChunkPos,
            >::empty());
            assert(before.dom() + Set::<ChunkPos>::empty() =~= before.dom());
        }
        for dx in -1i32..2i32
            invariant
                self.wf(),
                self.props() == old(self).props(),
                self.queue() == old(self).queue(),
                center.x == 0 && center.z == 0,
                generates_in_place(*generate),
                before == old(self).chunks_view(),
                extended_by(
                    before,
                    self.chunks_view(),
                    Set::new(|p: ChunkPos| -1 <= p.x < dx && -1 <= p.z <= 1),
                    *generate,
                ),
        {
            proof {
                assert(Set::new(
                    |p: ChunkPos| (-1 <= p.x < dx && -1 <= p.z <= 1) || (p.x == dx && -1 <= p.z
                        < -1),
                ) =~= Set::new(|p: ChunkPos| -1 <= p.x < dx && -1 <= p.z <= 1));
            }
            for dz in -1i32..2i32
                invariant
                    self.wf(),
                    self.props() == old(self).props(),
                    self.queue() == old(self).queue(),
                    center.x == 0 && center.z == 0,
                    -1 <= dx < 2,
                    generates_in_place(*generate),
                    before == old(self).chunks_view(),
                    extended_by(
                        before,
                        self.chunks_view(),
                        Set::new(
                            |p: ChunkPos| (-1 <= p.x < dx && -1 <= p.z <= 1) || (p.x == dx && -1
                                <= p.z < dz),
                        ),
                        *generate,
                    ),
            {
                let chunk_pos = ChunkPos::new(center.x + dx, center.z + dz);
                if !self.chunks.contains_chunk(chunk_pos) {
                    let chunk = generate(chunk_pos);
                    self.chunks.store_chunk(chunk);
                }
                proof {
                    let s_old = Set::new(
                        |p: ChunkPos| (-1 <= p.x < dx && -1 <= p.z <= 1) || (p.x == dx && -1
                            <= p.z < dz),
                    );
                    let s_new = Set::new(
                        |p: ChunkPos| (-1 <= p.x < dx && -1 <= p.z <= 1) || (p.x == dx && -1
                            <= p.z < dz + 1),
                    );
                    assert(s_new =~= s_old.insert(chunk_pos));
                    assert(self.chunks_view().dom() =~= before.dom() + s_new);
                }
            }
            proof {
                assert(Set::new(
                    |p: ChunkPos| (-1 <= p.x < dx && -1 <= p.z <= 1) || (p.x == dx && -1 <= p.z
                        < 2),
                ) =~= Set::new(|p: ChunkPos| -1 <= p.x < dx + 1 && -1 <= p.z <= 1));
            }
        }
        proof {
            assert(Set::new(|p: ChunkPos| -1 <= p.x < 2 && -1 <= p.z <= 1) =~= neighborhood(
                ChunkPos { x: 0, z: 0 },
            ));
        }
    }

    /// The block type at world coordinates; air (0) where no chunk is loaded.
    pub fn get_block(&self, pos: WorldPos) -> (b: u8)
        requires
            block_access_ok(self.chunks_view(), pos),
        ensures
            b == block_in(self.chunks_view(), pos),
    {
        let chunk_pos = pos.to_chunk_pos();
        let local_pos = pos.to_local_pos();
        match self.chunks.get_chunk(chunk_pos) {
            Some(chunk) => chunk.get_block(local_pos),
            None => 0,
        }
    }

    /// Sets a block at world coordinates. Returns whether a loaded chunk's
    /// block changed; where no chunk is loaded nothing changes.
    pub fn set_block(&mut self, pos: WorldPos, block_id: u8) -> (changed: bool)
        requires
            old(self).wf(),
            block_access_ok(old(self).chunks_view(), pos),
        ensures
            final(self).wf(),
            final(self).queue() == old(self).queue(),
            final(self).props() == old(self).props(),
            block_written(old(self).chunks_view(), final(self).chunks_view(), pos, block_id),
            changed == write_changes_block(old(self).chunks_view(), pos, block_id),
    {
        proof {
            self.chunks.lemma_positions_match();
        }
        let chunk_pos = pos.to_chunk_pos();
        let local_pos = pos.to_local_pos();
        let changed = match self.chunks.get_chunk_mut(chunk_pos) {
            Some(chunk) => chunk.set_block(local_pos, block_id),
            None => false,
        };
        proof {
            if !old(self).chunks_view().contains_key(chunk_pos) {
                assert(self.chunks_view() =~= old(self).chunks_view());
            } else {
                assert(self.chunks_view().dom() =~= old(self).chunks_view().dom());
            }
        }
        changed
    }

    /// The chunk at chunk coordinates, if loaded.
    pub fn get_chunk(&self, pos: ChunkPos) -> (r: Option<&Chunk>)
        ensures
            match r {
                Some(c) => self.chunks_view().contains_key(pos) && *c == self.chunks_view()[pos],
                None => !self.chunks_view().contains_key(pos),
            },
    {
        self.chunks.get_chunk(pos)
    }

    /// The chunk at chunk coordinates, if loaded, for modification in place.
    /// Moving the chunk by changing its recorded coordinates is not allowed.
    pub fn get_chunk_mut(&mut self, pos: ChunkPos) -> (r: Option<&mut Chunk>)
        requires
            old(self).wf(),
        ensures
            final(self).props() == old(self).props(),
            final(self).queue() == old(self).queue(),
            match r {
                Some(c) => old(self).chunks_view().contains_key(pos) && *c == old(
                    self,
                ).chunks_view()[pos] && final(self).chunks_view() == old(self).chunks_view().insert(
                    pos,
                    *final(c),
                ),
                None => !old(self).chunks_view().contains_key(pos) && final(self).chunks_view()
                    == old(self).chunks_view(),
            },
            r is Some && chunk_pos_of(*final(r.unwrap())) == pos ==> final(self).wf(),
            r is None ==> final(self).wf(),
    {
        self.chunks.get_chunk_mut(pos)
    }

    /// Adds a chunk at the position it records, replacing any chunk there.
    pub fn add_chunk(&mut self, chunk: Chunk)
        requires
            old(self).wf(),
        ensures
            final(self).wf(),
            final(self).props() == old(self).props(),
            final(self).queue() == old(self).queue(),
            final(self).chunks_view() == old(self).chunks_view().insert(chunk_pos_of(chunk), chunk),
    {
        self.chunks.store_chunk(chunk);
    }

    /// Removes and returns the chunk at chunk coordinates, if loaded.
    pub fn remove_chunk(&mut self, pos: ChunkPos) -> (r: Option<Chunk>)
        requires
            old(self).wf(),
        ensures
            final(self).wf(),
            final(self).props() == old(self).props(),
            final(self).queue() == old(self).queue(),
            final(self).chunks_view() == old(self).chunks_view().remove(pos),
            match r {
                Some(c) => old(self).chunks_view().contains_key(pos) && c == old(
                    self,
                ).chunks_view()[pos],
                None => !old(self).chunks_view().contains_key(pos),
            },
    {
        self.chunks.remove_chunk(pos)
    }

    /// Every loaded chunk, each once, in no particular order.
    pub fn get_all_chunks(&self) -> (r: Vec<&Chunk>)
        requires
            self.wf(),
        ensures
            lists_each_chunk_once(self.chunks_view(), r@),
    {
        self.chunks.all_chunks()
    }

    /// The positions waiting to be generated; the last is generated first.
    pub fn queued_chunks(&self) -> (r: &Vec<ChunkPos>)
        ensures
            r@ == self.queue(),
    {
        &self.chunk_generation_queue
    }

    /// Whether a chunk is loaded.
    pub fn is_chunk_loaded(&self, pos: ChunkPos) -> (b: bool)
        ensures
            b == self.chunks_view().contains_key(pos),
    {
        self.chunks.contains_chunk(pos)
    }

    /// Loads a chunk by generating it, unless it is loaded already.
    /// Returns whether it was generated.
    pub fn load_chunk<F: Fn(ChunkPos) -> Chunk>(&mut self, pos: ChunkPos, generate: F) -> (b: bool)
        requires
            old(self).wf(),
            generates_in_place(generate),
        ensures
            final(self).wf(),
            final(self).props() == old(self).props(),
            final(self).queue() == old(self).queue(),
            b == !old(self).chunks_view().contains_key(pos),
            extended_by(old(self).chunks_view(), final(self).chunks_view(), set![pos], generate),
    {
        if !self.chunks.contains_chunk(pos) {
            let chunk = generate(pos);
            self.chunks.store_chunk(chunk);
            proof {
                assert(self.chunks_view().dom() =~= old(self).chunks_view().dom() + set![pos]);
            }
            true
        } else {
            proof {
                assert(self.chunks_view().dom() =~= old(self).chunks_view().dom() + set![pos]);
            }
            false
        }
    }

    /// The loaded chunks within the render distance of a center chunk,
    /// walking X offsets -4..=4 and, for each, Z offsets -4..=4.
    pub fn get_chunks_near(&self, center_chunk: ChunkPos) -> (r: Vec<&Chunk>)
        requires
            self.wf(),
            center_ok(center_chunk),
        ensures
            ({
                let near = near_prefix(center_chunk, self.chunks_view().dom(), 81);
                &&& r@.len() == near.len()
                &&& forall|i: int|
                    0 <= i < near.len() ==> self.chunks_view().contains_key(#[trigger] near[i])
                        && *r@[i] == self.chunks_view()[near[i]]
            }),
    {
        let mut nearby_chunks: Vec<&Chunk> = Vec::new();
        let rd = self.render_distance;
        let ghost loaded = self.chunks_view().dom();
        let ghost mut n: nat = 0;
        for dx in -rd..rd + 1
            invariant
                rd == RENDER_DISTANCE,
                center_ok(center_chunk),
                loaded == self.chunks_view().dom(),
                -4 <= dx <= 5,
                n == (dx + 4) * 9,
                nearby_chunks@.len() == near_prefix(center_chunk, loaded, n).len(),
                forall|i: int|
                    0 <= i < near_prefix(center_chunk, loaded, n).len() ==> self.chunks_view().contains_key(
                        #[trigger] near_prefix(center_chunk, loaded, n)[i],
                    ) && *nearby_chunks@[i] == self.chunks_view()[near_prefix(
                        center_chunk,
                        loaded,
                        n,
                    )[i]],
        {
            for dz in -rd..rd + 1
                invariant
                    rd == RENDER_DISTANCE,
                    center_ok(center_chunk),
                    loaded == self.chunks_view().dom(),
                    -4 <= dx < 5,
                    -4 <= dz <= 5,
                    n == (dx + 4) * 9 + dz + 4,
                    nearby_chunks@.len() == near_prefix(center_chunk, loaded, n).len(),
                    forall|i: int|
                        0 <= i < near_prefix(center_chunk, loaded, n).len() ==> self.chunks_view().contains_key(
                            #[trigger] near_prefix(center_chunk, loaded, n)[i],
                        ) && *nearby_chunks@[i] == self.chunks_view()[near_prefix(
                            center_chunk,
                            loaded,
                            n,
                        )[i]],
            {
                let chunk_pos = ChunkPos::new(center_chunk.x + dx, center_chunk.z + dz);
                assert(dx * dx <= 16 && dz * dz <= 16 && dx * dx >= 0 && dz * dz >= 0) by (nonlinear_arith)
                    requires
                        -4 <= dx <= 4,
                        -4 <= dz <= 4,
                ;
                let distance_sq = dx * dx + dz * dz;
                let ghost prev = near_prefix(center_chunk, loaded, n);
                proof {
                    assert(n / 9 == dx + 4 && n % 9 == dz + 4);
                    assert(chunk_pos == cell(center_chunk, n as int));
                    assert(in_circle(n as int) == (distance_sq <= rd * rd));
                    reveal_with_fuel(near_prefix, 2);
                    assert(near_prefix(center_chunk, loaded, n + 1) == if in_circle(n as int)
                        && loaded.contains(cell(center_chunk, n as int)) {
                        prev.push(cell(center_chunk, n as int))
                    } else {
                        prev
                    });
                }
                if distance_sq <= rd * rd {
                    if let Some(chunk) = self.chunks.get_chunk(chunk_pos) {
                        nearby_chunks.push(chunk);
                    }
                }
                proof {
                    n = n + 1;
                }
            }
        }
        nearby_chunks
    }

    /// Whether a position waits in the generation queue.
    fn queue_contains(&self, pos: ChunkPos) -> (b: bool)
        ensures
            b == self.queue().contains(pos),
    {
        let n = self.chunk_generation_queue.len();
        for i in 0..n
            invariant
                n == self.chunk_generation_queue@.len(),
                forall|j: int| 0 <= j < i ==> self.chunk_generation_queue@[j] != pos,
        {
            if self.chunk_generation_queue[i] == pos {
                return true;
            }
        }
        false
    }

    /// Queues for generation every position within the render distance of
    /// a center chunk that is neither loaded nor queued yet.
    fn load_chunks_around_player(&mut self, center_chunk: ChunkPos)
        requires
            old(self).wf(),
            center_ok(center_chunk),
        ensures
            final(self).wf(),
            final(self).props() == old(self).props(),
            final(self).chunks_view() == old(self).chunks_view(),
            final(self).queue() == old(self).queue() + pending_prefix(
                center_chunk,
                old(self).chunks_view().dom(),
                old(self).queue(),
                81,
            ),
    {
        let rd = self.render_distance;
        let ghost loaded = self.chunks_view().dom();
        let ghost q0 = self.queue();
        let ghost mut n: nat = 0;
        for dx in -rd..rd + 1
            invariant
                rd == RENDER_DISTANCE,
                center_ok(center_chunk),
                self.wf(),
                self.props() == old(self).props(),
                self.chunks_view() == old(self).chunks_view(),
                loaded == self.chunks_view().dom(),
                q0 == old(self).queue(),
                -4 <= dx <= 5,
                n == (dx + 4) * 9,
                self.queue() == q0 + pending_prefix(center_chunk, loaded, q0, n),
        {
            for dz in -rd..rd + 1
                invariant
                    rd == RENDER_DISTANCE,
                    center_ok(center_chunk),
                    self.wf(),
                    self.props() == old(self).props(),
                    self.chunks_view() == old(self).chunks_view(),
                    loaded == self.chunks_view().dom(),
                    q0 == old(self).queue(),
                    -4 <= dx < 5,
                    -4 <= dz <= 5,
                    n == (dx + 4) * 9 + dz + 4,
                    self.queue() == q0 + pending_prefix(center_chunk, loaded, q0, n),
            {
                let chunk_pos = ChunkPos::new(center_chunk.x + dx, center_chunk.z + dz);
                assert(dx * dx <= 16 && dz * dz <= 16 && dx * dx >= 0 && dz * dz >= 0) by (nonlinear_arith)
                    requires
                        -4 <= dx <= 4,
                        -4 <= dz <= 4,
                ;
                let distance_sq = dx * dx + dz * dz;
                let ghost prev = pending_prefix(center_chunk, loaded, q0, n);
                proof {
                    assert(n / 9 == dx + 4 && n % 9 == dz + 4);
                    assert(chunk_pos == cell(center_chunk, n as int));
                    assert(in_circle(n as int) == (distance_sq <= rd * rd));
                    reveal_with_fuel(pending_prefix, 2);
                    assert(pending_prefix(center_chunk, loaded, q0, n + 1) == if in_circle(n as int)
                        && !loaded.contains(cell(center_chunk, n as int)) && !(q0 + prev).contains(
                        cell(center_chunk, n as int),
                    ) {
                        prev.push(cell(center_chunk, n as int))
                    } else {
                        prev
                    });
                }
                if distance_sq <= rd * rd {
                    if !self.chunks.contains_chunk(chunk_pos) && !self.queue_contains(chunk_pos) {
                        self.chunk_generation_queue.push(chunk_pos);
                        proof {
                            assert(self.queue() =~= q0 + prev.push(chunk_pos));
                        }
                    }
                }
                proof {
                    n = n + 1;
                }
            }
        }
    }

    /// Unloads the chunks that are too far from a center chunk; when more
    /// than `MAX_LOADED_CHUNKS` chunks are loaded, unloads every chunk.
    fn unload_distant_chunks(&mut self, center_chunk: ChunkPos)
        requires
            old(self).wf(),
            forall|c: ChunkPos| #[trigger]
                old(self).chunks_view().contains_key(c) ==> distance_ok(c, center_chunk),
        ensures
            final(self).wf(),
            final(self).props() == old(self).props(),
            final(self).queue() == old(self).queue(),
            final(self).chunks_view() == old(self).chunks_view().restrict(
                Set::new(
                    |c: ChunkPos|
                        kept_after_unload(center_chunk, old(self).chunks_view().dom().len(), c),
                ),
            ),
    {
        proof {
            self.chunks.lemma_positions_match();
        }
        let positions = self.chunks.positions();
        let count = self.chunks.chunk_count();
        let ghost old_view = self.chunks_view();
        let ghost keep = Set::new(
            |c: ChunkPos| kept_after_unload(center_chunk, old_view.dom().len(), c),
        );
        let mut chunks_to_remove: Vec<ChunkPos> = Vec::new();
        let n = positions.len();
        for i in 0..n
            invariant
                n == positions@.len(),
                self.wf(),
                self.chunks_view() == old_view,
                count == old_view.dom().len(),
                positions@.to_set() == old_view.dom(),
                forall|c: ChunkPos| #[trigger]
                    old_view.contains_key(c) ==> distance_ok(c, center_chunk),
                keep == Set::new(
                    |c: ChunkPos| kept_after_unload(center_chunk, old_view.dom().len(), c),
                ),
                chunks_to_remove@.to_set() == positions@.take(i as int).to_set().filter(
                    |c: ChunkPos| !keep.contains(c),
                ),
        {
            let chunk_pos = positions[i];
            proof {
                assert(positions@.to_set().contains(positions@[i as int]));
            }
            assert(distance_ok(chunk_pos, center_chunk));
            let dx = chunk_pos.x - center_chunk.x;
            let dz = chunk_pos.z - center_chunk.z;
            assert(dx * dx >= 0 && dz * dz >= 0) by (nonlinear_arith);
            let distance_sq = dx * dx + dz * dz;
            let max_distance = self.render_distance + 2;
            let far = distance_sq > max_distance * max_distance || count > self.max_loaded_chunks;
            proof {
                assert(far == !keep.contains(chunk_pos));
                assert(positions@.take(i + 1) =~= positions@.take(i as int).push(chunk_pos));
            }
            let ghost r_before = chunks_to_remove@;
            if far {
                chunks_to_remove.push(chunk_pos);
                proof {
                    r_before.lemma_push_to_set_commute(chunk_pos);
                }
            }
            proof {
                let before = positions@.take(i as int).to_set();
                positions@.take(i as int).lemma_push_to_set_commute(chunk_pos);
                assert(positions@.take(i + 1).to_set() =~= before.insert(chunk_pos));
                assert(chunks_to_remove@.to_set() =~= positions@.take(i + 1).to_set().filter(
                    |c: ChunkPos| !keep.contains(c),
                ));
            }
        }
        proof {
            assert(positions@.take(n as int) =~= positions@);
        }
        let ghost removal = chunks_to_remove@.to_set();
        let m = chunks_to_remove.len();
        for j in 0..m
            invariant
                m == chunks_to_remove@.len(),
                self.wf(),
                self.props() == old(self).props(),
                self.queue() == old(self).queue(),
                removal == chunks_to_remove@.to_set(),
                self.chunks_view() == old_view.remove_keys(chunks_to_remove@.take(j as int).to_set()),
        {
            let chunk_pos = chunks_to_remove[j];
            self.chunks.remove_chunk(chunk_pos);
            proof {
                assert(chunks_to_remove@.take(j + 1) =~= chunks_to_remove@.take(j as int).push(
                    chunk_pos,
                ));
                chunks_to_remove@.take(j as int).lemma_push_to_set_commute(chunk_pos);
                assert(chunks_to_remove@.take(j + 1).to_set() =~= chunks_to_remove@.take(
                    j as int,
                ).to_set().insert(chunk_pos));
                assert(self.chunks_view() =~= old_view.remove_keys(chunks_to_remove@.take(
                    j + 1,
                ).to_set()));
            }
        }
        proof {
            assert(chunks_to_remove@.take(m as int) =~= chunks_to_remove@);
            assert(self.chunks_view() =~= old_view.restrict(keep));
        }
    }

    /// Generates up to `CHUNKS_PER_TICK` queued chunks, taking positions
    /// from the end of the queue and dropping those already loaded.
    fn process_chunk_generation_queue<F: Fn(ChunkPos) -> Chunk>(&mut self, generate: &F)
        requires
            old(self).wf(),
            generates_in_place(*generate),
        ensures
            final(self).wf(),
            final(self).props() == old(self).props(),
            ({
                let d = drain_queue(
                    old(self).queue(),
                    old(self).chunks_view().dom(),
                    CHUNKS_PER_TICK as nat,
                );
                &&& final(self).queue() == d.0
                &&& extended_by(old(self).chunks_view(), final(self).chunks_view(), d.1, *generate)
            }),
    {
        let ghost target = drain_queue(
            self.queue(),
            self.chunks_view().dom(),
            CHUNKS_PER_TICK as nat,
        );
        let ghost before = self.chunks_view();
        let ghost mut done = Set::<ChunkPos>::empty();
        let mut generated_count: usize = 0;
        proof {
            assert(before.dom() + done =~= before.dom());
        }
        while generated_count < self.chunks_per_tick && self.chunk_generation_queue.len() > 0
            invariant
                self.wf(),
                self.props() == old(self).props(),
                generates_in_place(*generate),
                before == old(self).chunks_view(),
                generated_count <= CHUNKS_PER_TICK,
                target == drain_queue(
                    old(self).queue(),
                    old(self).chunks_view().dom(),
                    CHUNKS_PER_TICK as nat,
                ),
                ({
                    let cur = drain_queue(
                        self.queue(),
                        self.chunks_view().dom(),
                        (CHUNKS_PER_TICK - generated_count) as nat,
                    );
                    &&& cur.0 == target.0
                    &&& done + cur.1 == target.1
                }),
                extended_by(before, self.chunks_view(), done, *generate),
            decreases self.chunk_generation_queue@.len(),
        {
            let ghost q = self.queue();
            let ghost loaded = self.chunks_view().dom();
            let ghost budget = (CHUNKS_PER_TICK - generated_count) as nat;
            if let Some(chunk_pos) = self.chunk_generation_queue.pop() {
                proof {
                    assert(chunk_pos == q.last());
                    assert(self.queue() == q.drop_last());
                }
                if !self.chunks.contains_chunk(chunk_pos) {
                    let chunk = generate(chunk_pos);
                    self.chunks.store_chunk(chunk);
                    generated_count += 1;
                    proof {
                        let r = drain_queue(q.drop_last(), loaded.insert(chunk_pos), (budget - 1) as nat);
                        assert(drain_queue(q, loaded, budget) == (r.0, r.1.insert(chunk_pos)));
                        assert(self.chunks_view().dom() =~= loaded.insert(chunk_pos));
                        assert(done.insert(chunk_pos) + r.1 =~= done + r.1.insert(chunk_pos));
                        done = done.insert(chunk_pos);
                        assert(self.chunks_view().dom() =~= before.dom() + done);
                    }
                }
            }
        }
        proof {
            let cur = drain_queue(
                self.queue(),
                self.chunks_view().dom(),
                (CHUNKS_PER_TICK - generated_count) as nat,
            );
            assert(cur.1 =~= Set::<ChunkPos>::empty());
            assert(done =~= target.1);
        }
    }

    /// Advances the world by one tick: the time increases by one, up to
    /// `CHUNKS_PER_TICK` queued chunks are generated, and, when a player is
    /// present (`player_chunk` is the chunk the first player stands in),
    /// chunks within the render distance are queued and distant chunks are
    /// unloaded.
    pub fn update<F: Fn(ChunkPos) -> Chunk>(&mut self, generate: F, player_chunk: Option<ChunkPos>)
        requires
            old(self).wf(),
            generates_in_place(generate),
            old(self).props().1 < u64::MAX,
            player_chunk matches Some(c) ==> {
                &&& center_ok(c)
                &&& forall|p: ChunkPos|
                    #![trigger old(self).chunks_view().contains_key(p)]
                    #![trigger old(self).queue().contains(p)]
                    old(self).chunks_view().contains_key(p) || old(self).queue().contains(p)
                        ==> distance_ok(p, c)
            },
        ensures
            final(self).wf(),
            ({
                let o = old(self).props();
                final(self).props() == (o.0, (o.1 + 1) as u64, o.2, o.3, o.4, o.5, o.6, o.7)
            }),
            ({
                let before = old(self).chunks_view();
                let d = drain_queue(old(self).queue(), before.dom(), CHUNKS_PER_TICK as nat);
                let grown = before.dom() + d.1;
                let after = final(self).chunks_view();
                &&& forall|p: ChunkPos| #[trigger]
                    after.contains_key(p) && before.contains_key(p) ==> after[p] == before[p]
                &&& forall|p: ChunkPos| #[trigger]
                    after.contains_key(p) && !before.contains_key(p) ==> call_ensures(
                        generate,
                        (p,),
                        after[p],
                    )
                &&& match player_chunk {
                    None => {
                        &&& final(self).queue() == d.0
                        &&& after.dom() == grown
                    },
                    Some(c) => {
                        &&& final(self).queue() == d.0 + pending_prefix(c, grown, d.0, 81)
                        &&& after.dom() == grown.filter(
                            |p: ChunkPos| kept_after_unload(c, grown.len(), p),
                        )
                    },
                }
            }),
    {
        self.time = self.time + 1;
        let ghost before = self.chunks_view();
        let ghost q0 = self.queue();
        self.process_chunk_generation_queue(&generate);
        let ghost d = drain_queue(q0, before.dom(), CHUNKS_PER_TICK as nat);
        proof {
            lemma_drain_generates_queued(q0, before.dom(), CHUNKS_PER_TICK as nat);
            self.lemma_chunks_in_place();
        }
        if let Some(c) = player_chunk {
            self.load_chunks_around_player(c);
            proof {
                assert forall|p: ChunkPos| #[trigger]
                    self.chunks_view().contains_key(p) implies distance_ok(p, c) by {
                    assert(before == old(self).chunks_view());
                    assert(q0 == old(self).queue());
                    if !before.contains_key(p) {
                        assert(d.1.contains(p));
                        assert(q0.contains(p));
                        assert(old(self).queue().contains(p));
                    } else {
                        assert(old(self).chunks_view().contains_key(p));
                    }
                }
            }
            self.unload_distant_chunks(c);
            proof {
                let grown = before.dom() + d.1;
                assert(self.chunks_view().dom() =~= grown.filter(
                    |p: ChunkPos| kept_after_unload(c, grown.len(), p),
                ));
            }
        }
    }
}

} // verus!
