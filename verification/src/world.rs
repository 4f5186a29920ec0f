//! Positions, the chunked world map, and the per-chunk mob index.

use vstd::prelude::*;
use crate::block::BlockId;
use crate::chunk::Chunk;

verus! {

/// A block's integer position in the world.
#[derive(Clone, Copy, PartialEq, Eq, Structural, Debug, Hash)]
pub struct BlockPos {
    pub x: i32,
    pub y: i32,
    pub z: i32,
}

impl BlockPos {
    pub fn new(x: i32, y: i32, z: i32) -> (p: BlockPos)
        ensures
            p == (BlockPos { x, y, z }),
    {
        BlockPos { x, y, z }
    }

    /// Offset by whole blocks; coordinates stay inside the workable band.
    pub fn offset(&self, dx: i32, dy: i32, dz: i32) -> (p: BlockPos)
        requires
            in_world_band(*self),
            -16 <= dx <= 16,
            -16 <= dy <= 16,
            -16 <= dz <= 16,
        ensures
            p.x == self.x + dx,
            p.y == self.y + dy,
            p.z == self.z + dz,
    {
        BlockPos { x: self.x + dx, y: self.y + dy, z: self.z + dz }
    }

    /// Squared Euclidean distance to another position.
    pub fn distance_squared(&self, other: &BlockPos) -> (d: u64)
        requires
            in_world_band(*self),
            in_world_band(*other),
        ensures
            d == spec_distance_squared(*self, *other),
    {
        let dx = (self.x as i64 - other.x as i64) as i128;
        let dy = (self.y as i64 - other.y as i64) as i128;
        let dz = (self.z as i64 - other.z as i64) as i128;
        proof {
            assert(dx * dx <= 0x8000_0000 * 0x8000_0000 && dx * dx >= 0 && dy * dy <= 0x8000_0000
                * 0x8000_0000 && dy * dy >= 0 && dz * dz <= 0x8000_0000 * 0x8000_0000 && dz * dz
                >= 0) by (nonlinear_arith)
                requires
                    -0x8000_0000 <= dx <= 0x8000_0000,
                    -0x8000_0000 <= dy <= 0x8000_0000,
                    -0x8000_0000 <= dz <= 0x8000_0000,
            ;
        }
        (dx * dx + dy * dy + dz * dz) as u64
    }
}

/// Squared Euclidean distance between two block positions.
pub open spec fn spec_distance_squared(a: BlockPos, b: BlockPos) -> int {
    (a.x - b.x) * (a.x - b.x) + (a.y - b.y) * (a.y - b.y) + (a.z - b.z) * (a.z - b.z)
}

/// Coordinates far enough from the numeric rim that neighbours and chunk
/// arithmetic cannot wrap. The playable world lies well inside.
pub open spec fn in_world_band(p: BlockPos) -> bool {
    &&& -0x4000_0000 <= p.x <= 0x4000_0000
    &&& -0x4000_0000 <= p.y <= 0x4000_0000
    &&& -0x4000_0000 <= p.z <= 0x4000_0000
}

/// The band plus one step in every direction: where a neighbour of a
/// position in the world band may land, still safe for every lookup.
pub open spec fn in_lookup_band(p: BlockPos) -> bool {
    &&& -0x4100_0000 <= p.x <= 0x4100_0000
    &&& -0x4100_0000 <= p.y <= 0x4100_0000
    &&& -0x4100_0000 <= p.z <= 0x4100_0000
}

/// A chunk's position: block coordinates divided by sixteen, rounding down.
#[derive(Clone, Copy, PartialEq, Eq, Structural, Debug, Hash)]
pub struct ChunkPos {
    pub x: i32,
    pub y: i32,
    pub z: i32,
}

/// Floor division by sixteen.
pub fn floor_div_16(a: i32) -> (r: i32)
    requires
        -0x4100_0000 <= a <= 0x4100_0000,
    ensures
        r == a as int / 16,
{
    let q = a / 16;
    let rem = a % 16;
    if rem < 0 {
        q - 1
    } else {
        q
    }
}

/// Remainder of floor division by sixteen, always in `0 .. 16`.
pub fn floor_mod_16(a: i32) -> (r: i32)
    requires
        -0x4100_0000 <= a <= 0x4100_0000,
    ensures
        r == a as int % 16,
        0 <= r < 16,
{
    let rem = a % 16;
    if rem < 0 {
        rem + 16
    } else {
        rem
    }
}

impl ChunkPos {
    /// The chunk holding a block position.
    pub fn of_block(p: &BlockPos) -> (c: ChunkPos)
        requires
            in_lookup_band(*p),
        ensures
            c.x == p.x as int / 16,
            c.y == p.y as int / 16,
            c.z == p.z as int / 16,
    {
        ChunkPos { x: floor_div_16(p.x), y: floor_div_16(p.y), z: floor_div_16(p.z) }
    }
}

/// The loaded chunks, keyed by chunk position. A block lookup fails exactly
/// when its chunk is not loaded.
pub struct WorldMap {
    pub chunks: Vec<(ChunkPos, Chunk)>,
}

impl WorldMap {
    pub open spec fn wf(self) -> bool {
        forall|i: int| 0 <= i < self.chunks@.len() ==> (#[trigger] self.chunks@[i]).1.wf()
    }

    /// The stored chunk sequence.
    pub open spec fn spec_chunk_at(self, pos: ChunkPos) -> Option<Chunk> {
        spec_find_chunk(self.chunks@, pos)
    }

    /// The block at a world position: looked up in its chunk, absent when
    /// the chunk is not loaded.
    pub open spec fn spec_block_at(self, p: BlockPos) -> Option<BlockId> {
        let cpos = ChunkPos { x: (p.x as int / 16) as i32, y: (p.y as int / 16) as i32, z: (
        p.z as int / 16) as i32 };
        match self.spec_chunk_at(cpos) {
            None => None,
            Some(chunk) => Some(
                chunk.view()[(p.x as int % 16) * 256 + (p.z as int % 16) * 16 + (p.y as int % 16)],
            ),
        }
    }

    /// An empty map.
    pub fn new() -> (w: WorldMap)
        ensures
            w.wf(),
            w.chunks@.len() == 0,
    {
        WorldMap { chunks: Vec::new() }
    }

    /// Load (or replace) the chunk at a position.
    pub fn insert_chunk(&mut self, pos: ChunkPos, chunk: Chunk)
        requires
            old(self).wf(),
            chunk.wf(),
        ensures
            final(self).wf(),
            final(self).spec_chunk_at(pos) == Some(chunk),
    {
        let mut i: usize = 0;
        while i < self.chunks.len()
            invariant
                self.wf(),
                chunk.wf(),
                i <= self.chunks@.len(),
                forall|j: int| 0 <= j < i ==> (#[trigger] self.chunks@[j]).0 != pos,
            decreases self.chunks@.len() - i,
        {
            if self.chunks[i].0 == pos {
                self.chunks[i] = (pos, chunk);
                proof {
                    lemma_find_chunk_first(self.chunks@, pos, i as int);
                }
                return ;
            }
            i = i + 1;
        }
        self.chunks.push((pos, chunk));
        proof {
            lemma_find_chunk_first(self.chunks@, pos, self.chunks@.len() - 1);
        }
    }

    /// The chunk at a position, if loaded.
    pub fn get_chunk(&self, pos: &ChunkPos) -> (r: Option<&Chunk>)
        requires
            self.wf(),
        ensures
            match r {
                Some(c) => self.spec_chunk_at(*pos) == Some(*c) && c.wf(),
                None => self.spec_chunk_at(*pos) is None,
            },
    {
        let mut i: usize = 0;
        while i < self.chunks.len()
            invariant
                self.wf(),
                i <= self.chunks@.len(),
                forall|j: int| 0 <= j < i ==> (#[trigger] self.chunks@[j]).0 != *pos,
            decreases self.chunks@.len() - i,
        {
            if self.chunks[i].0 == *pos {
                proof {
                    lemma_find_chunk_first(self.chunks@, *pos, i as int);
                }
                return Some(&self.chunks[i].1);
            }
            i = i + 1;
        }
        proof {
            lemma_find_chunk_none(self.chunks@, *pos);
        }
        None
    }

    /// The block at a world position; absent exactly when its chunk is not
    /// loaded.
    pub fn get_block(&self, p: &BlockPos) -> (r: Option<BlockId>)
        requires
            self.wf(),
            in_lookup_band(*p),
        ensures
            r == self.spec_block_at(*p),
    {
        let cpos = ChunkPos::of_block(p);
        match self.get_chunk(&cpos) {
            None => None,
            Some(chunk) => {
                let lx = floor_mod_16(p.x) as usize;
                let ly = floor_mod_16(p.y) as usize;
                let lz = floor_mod_16(p.z) as usize;
                Some(chunk.get_xyz(lx, ly, lz))
            },
        }
    }
}

/// The chunk stored under a position: the first entry that carries it.
pub open spec fn spec_find_chunk(chunks: Seq<(ChunkPos, Chunk)>, pos: ChunkPos) -> Option<Chunk>
    decreases chunks.len(),
{
    if chunks.len() == 0 {
        None
    } else if chunks[0].0 == pos {
        Some(chunks[0].1)
    } else {
        spec_find_chunk(chunks.skip(1), pos)
    }
}

proof fn lemma_find_chunk_first(chunks: Seq<(ChunkPos, Chunk)>, pos: ChunkPos, i: int)
    requires
        0 <= i < chunks.len(),
        chunks[i].0 == pos,
        forall|j: int| 0 <= j < i ==> (#[trigger] chunks[j]).0 != pos,
    ensures
        spec_find_chunk(chunks, pos) == Some(chunks[i].1),
    decreases i,
{
    if i > 0 {
        assert(forall|j: int| 0 <= j < i - 1 ==> (#[trigger] chunks.skip(1)[j]).0 != pos);
        assert(chunks.skip(1)[i - 1] == chunks[i]);
        lemma_find_chunk_first(chunks.skip(1), pos, i - 1);
    }
}

proof fn lemma_find_chunk_none(chunks: Seq<(ChunkPos, Chunk)>, pos: ChunkPos)
    requires
        forall|j: int| 0 <= j < chunks.len() ==> (#[trigger] chunks[j]).0 != pos,
    ensures
        spec_find_chunk(chunks, pos) is None,
    decreases chunks.len(),
{
    if chunks.len() > 0 {
        assert(forall|j: int|
            0 <= j < chunks.skip(1).len() ==> (#[trigger] chunks.skip(1)[j]).0 != pos);
        lemma_find_chunk_none(chunks.skip(1), pos);
    }
}

} // verus!
