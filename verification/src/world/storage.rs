//! Chunk storage keyed by chunk position.

use vstd::prelude::*;
use std::collections::HashMap;
use vstd::std_specs::iter::IteratorSpec;
use crate::math::position::ChunkPos;
use crate::world::chunk::Chunk;

verus! {

broadcast use vstd::std_specs::hash::group_hash_axioms;

/// The map key of a chunk position: X in the high 32 bits, Z in the low 32
/// bits, each taken as its two's-complement bit pattern.
pub open spec fn spec_chunk_key(x: i32, z: i32) -> u64 {
    (((x as u32) as u64) << 32u64) | ((z as u32) as u64)
}

/// Distinct chunk positions have distinct keys.
pub proof fn lemma_chunk_key_injective(x1: i32, z1: i32, x2: i32, z2: i32)
    ensures
        spec_chunk_key(x1, z1) == spec_chunk_key(x2, z2) <==> (x1 == x2 && z1 == z2),
{
    assert((((x1 as u32) as u64) << 32u64) | ((z1 as u32) as u64) == (((x2 as u32) as u64)
        << 32u64) | ((z2 as u32) as u64) <==> (x1 == x2 && z1 == z2)) by (bit_vector);
}

/// The map key of a chunk position.
pub fn chunk_key(x: i32, z: i32) -> (k: u64)
    ensures
        k == spec_chunk_key(x, z),
{
    (((x as u32) as u64) << 32u64) | ((z as u32) as u64)
}

/// Mutable access to the value under a key of a `HashMap` keyed by `u64`
/// (`HashMap::get_mut`). Claimed: the result is `None` exactly when the key
/// is absent; otherwise it refers to the stored value, and whatever is
/// written through it becomes the value under that key, the rest of the
/// map unchanged.
#[verifier::external_body]
fn hash_map_get_mut<'a, V>(m: &'a mut HashMap<u64, V>, k: u64) -> (r: Option<&'a mut V>)
    ensures
        match r {
            Some(v) => old(m)@.contains_key(k) && *v == old(m)@[k] && final(m)@ == old(m)@.insert(
                k,
                *final(v),
            ),
            None => !old(m)@.contains_key(k) && final(m)@ == old(m)@,
        },
{
    m.get_mut(&k)
}

/// The position a chunk records for itself.
pub open spec fn chunk_pos_of(c: Chunk) -> ChunkPos {
    ChunkPos { x: c.x, z: c.z }
}

/// Whether a sequence lists every chunk of a map exactly once, in some order.
pub open spec fn lists_each_chunk_once(m: Map<ChunkPos, Chunk>, s: Seq<&Chunk>) -> bool {
    &&& s.len() == m.dom().len()
    &&& forall|i: int|
        0 <= i < s.len() ==> #[trigger] m.contains_key(chunk_pos_of(*s[i])) && m[chunk_pos_of(
            *s[i],
        )] == *s[i]
    &&& forall|i: int, j: int|
        0 <= i < s.len() && 0 <= j < s.len() && i != j ==> chunk_pos_of(*#[trigger] s[i])
            != chunk_pos_of(*#[trigger] s[j])
    &&& forall|c: ChunkPos|
        #[trigger] m.contains_key(c) ==> exists|i: int| 0 <= i < s.len() && chunk_pos_of(*s[i]) == c
}

/// World storage manager: at most one chunk per chunk position.
pub struct WorldStorage {
    chunks: HashMap<u64, Chunk>,
}

/// The chunks of a key-indexed map, by chunk position.
pub closed spec fn view_of(m: Map<u64, Chunk>) -> Map<ChunkPos, Chunk> {
    Map::new(
        |c: ChunkPos| m.contains_key(spec_chunk_key(c.x, c.z)),
        |c: ChunkPos| m[spec_chunk_key(c.x, c.z)],
    )
}

/// Writing under a position's key writes that position.
pub broadcast proof fn lemma_view_of_insert(m: Map<u64, Chunk>, pos: ChunkPos, v: Chunk)
    ensures
        #[trigger] view_of(m.insert(spec_chunk_key(pos.x, pos.z), v)) == view_of(m).insert(pos, v),
{
    let k = spec_chunk_key(pos.x, pos.z);
    assert forall|c: ChunkPos| #![trigger view_of(m.insert(k, v)).contains_key(c)]
        view_of(m.insert(k, v)).contains_key(c) == view_of(m).insert(pos, v).contains_key(c) && (
        view_of(m.insert(k, v)).contains_key(c) ==> view_of(m.insert(k, v))[c] == view_of(m).insert(
            pos,
            v,
        )[c]) by {
        lemma_chunk_key_injective(c.x, c.z, pos.x, pos.z);
    }
    assert(view_of(m.insert(k, v)) =~= view_of(m).insert(pos, v));
}

/// Removing a position's key removes that position.
pub broadcast proof fn lemma_view_of_remove(m: Map<u64, Chunk>, pos: ChunkPos)
    ensures
        #[trigger] view_of(m.remove(spec_chunk_key(pos.x, pos.z))) == view_of(m).remove(pos),
{
    let k = spec_chunk_key(pos.x, pos.z);
    assert forall|c: ChunkPos| #![trigger view_of(m.remove(k)).contains_key(c)]
        view_of(m.remove(k)).contains_key(c) == view_of(m).remove(pos).contains_key(c) && (
        view_of(m.remove(k)).contains_key(c) ==> view_of(m.remove(k))[c] == view_of(m).remove(
            pos,
        )[c]) by {
        lemma_chunk_key_injective(c.x, c.z, pos.x, pos.z);
    }
    assert(view_of(m.remove(k)) =~= view_of(m).remove(pos));
}

/// The stored value under a position's key is the value at that position.
pub broadcast proof fn lemma_view_of_index(m: Map<u64, Chunk>, pos: ChunkPos)
    ensures
        #[trigger] view_of(m).contains_key(pos) == m.contains_key(spec_chunk_key(pos.x, pos.z)),
        view_of(m).contains_key(pos) ==> view_of(m)[pos] == m[spec_chunk_key(pos.x, pos.z)],
{
}

impl View for WorldStorage {
    type V = Map<ChunkPos, Chunk>;

    closed spec fn view(&self) -> Map<ChunkPos, Chunk> {
        view_of(self.chunks@)
    }
}

impl WorldStorage {
    /// Every chunk is stored under the key of the position it records.
    pub closed spec fn wf(&self) -> bool {
        forall|k: u64|
            #[trigger] self.chunks@.contains_key(k) ==> k == spec_chunk_key(
                self.chunks@[k].x,
                self.chunks@[k].z,
            )
    }

    /// In a well-formed storage each chunk sits at the position it records,
    /// and finitely many positions hold chunks.
    pub proof fn lemma_positions_match(&self)
        requires
            self.wf(),
        ensures
            forall|c: ChunkPos| #[trigger]
                self@.contains_key(c) ==> chunk_pos_of(self@[c]) == c,
            self@.dom().finite(),
    {
        assert forall|c: ChunkPos| #[trigger] self@.contains_key(c) implies chunk_pos_of(self@[c])
            == c by {
            let k = spec_chunk_key(c.x, c.z);
            lemma_chunk_key_injective(c.x, c.z, self.chunks@[k].x, self.chunks@[k].z);
        }
        self.lemma_dom_is_image();
    }

    proof fn lemma_dom_is_image(&self)
        requires
            self.wf(),
        ensures
            self@.dom().finite(),
            self@.dom().len() == self.chunks@.dom().len(),
    {
        let f = |k: u64| ChunkPos { x: self.chunks@[k].x, z: self.chunks@[k].z };
        let keys = self.chunks@.dom();
        assert(keys.finite());
        assert forall|a: u64, b: u64| keys.contains(a) && keys.contains(b) && #[trigger] f(a)
            == #[trigger] f(b) implies a == b by {}
        assert(self@.dom() =~= keys.map(f)) by {
            assert forall|c: ChunkPos| self@.dom().contains(c) implies keys.map(f).contains(c) by {
                let k = spec_chunk_key(c.x, c.z);
                lemma_chunk_key_injective(c.x, c.z, self.chunks@[k].x, self.chunks@[k].z);
                assert(f(k) == c);
            }
        }
        vstd::set_lib::lemma_map_size(keys, keys.map(f), f);
    }

    /// Creates an empty storage.
    pub fn new() -> (s: Self)
        ensures
            s.wf(),
            s@ == Map::<ChunkPos, Chunk>::empty(),
    {
        let s = WorldStorage { chunks: HashMap::new() };
        assert(s@ =~= Map::<ChunkPos, Chunk>::empty());
        s
    }

    /// The chunk stored at a position, if any.
    pub fn get_chunk(&self, pos: ChunkPos) -> (r: Option<&Chunk>)
        ensures
            match r {
                Some(c) => self@.contains_key(pos) && *c == self@[pos],
                None => !self@.contains_key(pos),
            },
    {
        let k = chunk_key(pos.x, pos.z);
        self.chunks.get(&k)
    }

    /// The chunk stored at a position, for modification in place.
    pub fn get_chunk_mut(&mut self, pos: ChunkPos) -> (r: Option<&mut Chunk>)
        requires
            old(self).wf(),
        ensures
            match r {
                Some(c) => old(self)@.contains_key(pos) && *c == old(self)@[pos] && final(self)@
                    == old(self)@.insert(pos, *final(c)),
                None => !old(self)@.contains_key(pos) && final(self)@ == old(self)@,
            },
            r is Some && chunk_pos_of(*final(r.unwrap())) == pos ==> final(self).wf(),
            r is None ==> final(self).wf(),
    {
        proof {
            broadcast use lemma_view_of_insert, lemma_view_of_index;
        }
        let k = chunk_key(pos.x, pos.z);
        hash_map_get_mut(&mut self.chunks, k)
    }

    /// Whether a chunk is stored at a position.
    pub fn contains_chunk(&self, pos: ChunkPos) -> (b: bool)
        ensures
            b == self@.contains_key(pos),
    {
        let k = chunk_key(pos.x, pos.z);
        self.chunks.contains_key(&k)
    }

    /// The number of stored chunks.
    pub fn chunk_count(&self) -> (n: usize)
        requires
            self.wf(),
        ensures
            n == self@.dom().len(),
    {
        proof {
            self.lemma_dom_is_image();
        }
        self.chunks.len()
    }

    /// The positions that hold chunks, each once, in the storage's own order.
    pub fn positions(&self) -> (r: Vec<ChunkPos>)
        requires
            self.wf(),
        ensures
            r@.no_duplicates(),
            r@.to_set() == self@.dom(),
            r@.len() == self@.dom().len(),
    {
        proof {
            self.lemma_dom_is_image();
            self.lemma_positions_match();
        }
        let mut r: Vec<ChunkPos> = Vec::new();
        let entries = self.chunks.iter();
        let ghost sq = entries.remaining();
        for (k, c) in it: entries
            invariant
                it.seq() == sq,
                self.wf(),
                self@.dom().len() == self.chunks@.dom().len(),
                r@.len() == it.index(),
                forall|i: int| 0 <= i < it.index() ==> #[trigger] r@[i] == chunk_pos_of(
                    *sq[i].1,
                ),
                forall|i: int|
                    0 <= i < sq.len() ==> #[trigger] self.chunks@.contains_key(*sq[i].0)
                        && self.chunks@[*sq[i].0] == *sq[i].1,
                sq.no_duplicates(),
                sq.len() == self.chunks@.dom().len(),
                forall|k: u64| #[trigger]
                    self.chunks@.contains_key(k) ==> sq.contains((&k, &self.chunks@[k])),
                r@.no_duplicates(),
                forall|i: int| 0 <= i < r@.len() ==> #[trigger] self@.dom().contains(r@[i]),
                forall|c: ChunkPos| #[trigger]
                    self@.dom().contains(c) ==> exists|j: int|
                        0 <= j < sq.len() && chunk_pos_of(*sq[j].1) == c,
        {
            let ghost i = it.index();
            let p = ChunkPos { x: c.x, z: c.z };
            proof {
                assert(sq[i] == (k, c));
                let ki = *sq[i].0;
                assert(self.chunks@.contains_key(ki));
                assert(ki == spec_chunk_key(c.x, c.z));
                assert forall|j: int| 0 <= j < r@.len() implies r@[j] != p by {
                    let kj = *sq[j].0;
                    assert(self.chunks@.contains_key(kj));
                    assert(kj == spec_chunk_key(self.chunks@[kj].x, self.chunks@[kj].z));
                    if r@[j] == p {
                        assert(sq[j] == sq[i]);
                    }
                }
                lemma_chunk_key_injective(c.x, c.z, c.x, c.z);
                assert(self@.dom().contains(p));
            }
            r.push(p);
        }
        proof {
            assert(r@.len() == sq.len());
            assert forall|c: ChunkPos| self@.dom().contains(c) implies r@.contains(c) by {
                let j = choose|j: int| 0 <= j < sq.len() && chunk_pos_of(*sq[j].1) == c;
                assert(r@[j] == c);
            }
            assert(r@.to_set() =~= self@.dom());
        }
        r
    }

    /// Every stored chunk, each once, in the storage's own order.
    pub fn all_chunks(&self) -> (r: Vec<&Chunk>)
        requires
            self.wf(),
        ensures
            lists_each_chunk_once(self@, r@),
    {
        proof {
            self.lemma_dom_is_image();
            self.lemma_positions_match();
        }
        let mut r: Vec<&Chunk> = Vec::new();
        let entries = self.chunks.iter();
        let ghost sq = entries.remaining();
        for (k, c) in it: entries
            invariant
                it.seq() == sq,
                self.wf(),
                self@.dom().len() == self.chunks@.dom().len(),
                r@.len() == it.index(),
                forall|i: int| 0 <= i < it.index() ==> #[trigger] r@[i] == sq[i].1,
                forall|i: int|
                    0 <= i < sq.len() ==> #[trigger] self.chunks@.contains_key(*sq[i].0)
                        && self.chunks@[*sq[i].0] == *sq[i].1,
                sq.no_duplicates(),
                sq.len() == self.chunks@.dom().len(),
                forall|k: u64| #[trigger]
                    self.chunks@.contains_key(k) ==> sq.contains((&k, &self.chunks@[k])),
                forall|c: ChunkPos| #[trigger]
                    self@.dom().contains(c) ==> exists|j: int|
                        0 <= j < sq.len() && chunk_pos_of(*sq[j].1) == c,
        {
            r.push(c);
        }
        proof {
            assert forall|i: int| 0 <= i < r@.len() implies #[trigger] self@.contains_key(
                chunk_pos_of(*r@[i]),
            ) && self@[chunk_pos_of(*r@[i])] == *r@[i] by {
                let ki = *sq[i].0;
                assert(self.chunks@.contains_key(ki));
                assert(ki == spec_chunk_key(self.chunks@[ki].x, self.chunks@[ki].z));
            }
            assert forall|i: int, j: int|
                0 <= i < r@.len() && 0 <= j < r@.len() && i != j implies chunk_pos_of(
                *#[trigger] r@[i],
            ) != chunk_pos_of(*#[trigger] r@[j]) by {
                let ki = *sq[i].0;
                let kj = *sq[j].0;
                assert(self.chunks@.contains_key(ki));
                assert(self.chunks@.contains_key(kj));
                assert(ki == spec_chunk_key(self.chunks@[ki].x, self.chunks@[ki].z));
                assert(kj == spec_chunk_key(self.chunks@[kj].x, self.chunks@[kj].z));
                if chunk_pos_of(*r@[i]) == chunk_pos_of(*r@[j]) {
                    assert(sq[i] == sq[j]);
                }
            }
            assert forall|c: ChunkPos| #[trigger] self@.contains_key(c) implies exists|i: int|
                0 <= i < r@.len() && chunk_pos_of(*r@[i]) == c by {
                let j = choose|j: int| 0 <= j < sq.len() && chunk_pos_of(*sq[j].1) == c;
                assert(chunk_pos_of(*r@[j]) == c);
            }
        }
        r
    }

    /// Stores a chunk at the position it records, replacing any chunk there.
    pub fn store_chunk(&mut self, chunk: Chunk)
        requires
            old(self).wf(),
        ensures
            final(self).wf(),
            final(self)@ == old(self)@.insert(chunk_pos_of(chunk), chunk),
    {
        let ghost pos = chunk_pos_of(chunk);
        let ghost old_view = self@;
        let k = chunk_key(chunk.x, chunk.z);
        self.chunks.insert(k, chunk);
        proof {
            lemma_view_of_insert(old(self).chunks@, pos, chunk);
            assert forall|j: u64| #[trigger] self.chunks@.contains_key(j) implies j
                == spec_chunk_key(self.chunks@[j].x, self.chunks@[j].z) by {
                if j != k {
                    assert(old(self).chunks@.contains_key(j));
                }
            }
        }
    }

    /// Removes and returns the chunk at a position, if any.
    pub fn remove_chunk(&mut self, pos: ChunkPos) -> (r: Option<Chunk>)
        requires
            old(self).wf(),
        ensures
            final(self).wf(),
            final(self)@ == old(self)@.remove(pos),
            match r {
                Some(c) => old(self)@.contains_key(pos) && c == old(self)@[pos],
                None => !old(self)@.contains_key(pos),
            },
    {
        let ghost old_view = self@;
        let k = chunk_key(pos.x, pos.z);
        let r = self.chunks.remove(&k);
        proof {
            lemma_view_of_remove(old(self).chunks@, pos);
            assert forall|j: u64| #[trigger] self.chunks@.contains_key(j) implies j
                == spec_chunk_key(self.chunks@[j].x, self.chunks@[j].z) by {
                assert(old(self).chunks@.contains_key(j));
            }
        }
        r
    }
}

/// A stored chunk is found at the position it records, and storing it
/// leaves every other position as it was.
pub proof fn law_store_then_get(
    before: Map<ChunkPos, Chunk>,
    after: Map<ChunkPos, Chunk>,
    chunk: Chunk,
    other: ChunkPos,
)
    requires
        after == before.insert(chunk_pos_of(chunk), chunk),
    ensures
        after.contains_key(chunk_pos_of(chunk)),
        after[chunk_pos_of(chunk)] == chunk,
        other != chunk_pos_of(chunk) ==> after.contains_key(other) == before.contains_key(other),
        other != chunk_pos_of(chunk) && before.contains_key(other) ==> after[other] == before[other],
{
}

/// A removed position holds no chunk afterwards, and removing it leaves
/// every other position as it was.
pub proof fn law_remove_then_absent(
    before: Map<ChunkPos, Chunk>,
    after: Map<ChunkPos, Chunk>,
    pos: ChunkPos,
    other: ChunkPos,
)
    requires
        after == before.remove(pos),
    ensures
        !after.contains_key(pos),
        other != pos ==> after.contains_key(other) == before.contains_key(other),
        other != pos && before.contains_key(other) ==> after[other] == before[other],
{
}

} // verus!
