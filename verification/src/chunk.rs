//! Chunks: 16-per-axis cubes of blocks, their wire encoding, and the maps
//! derived from them.
//!
//! A chunk is stored dense (4096 block ids) or uniform (one id for the whole
//! cube). The wire form always uses the uniform encoding when every block
//! agrees, so encoding followed by decoding canonicalizes: an all-air dense
//! chunk comes back uniform, a chunk with two different blocks comes back
//! dense.

use vstd::prelude::*;
use crate::block::BlockId;

verus! {

/// Blocks per chunk axis.
pub const CHUNK_SIZE: usize = 16;

/// Blocks per chunk.
pub const CHUNK_VOLUME: usize = 4096;

/// A cube of `CHUNK_VOLUME` blocks. Block `(x, y, z)` lives at flat index
/// `x * 256 + z * 16 + y`.
#[derive(Clone, Debug)]
pub enum Chunk {
    /// Every block is this one id.
    Uniform(BlockId),
    /// One id per block, flat in x-z-y order.
    Dense(Vec<BlockId>),
}

/// Every id in the sequence equals the first.
pub open spec fn all_same(v: Seq<BlockId>) -> bool {
    forall|i: int| 0 <= i < v.len() ==> #[trigger] v[i] == v[0]
}

/// Low byte of an id.
pub open spec fn lo_byte(id: BlockId) -> u8 {
    (id % 256) as u8
}

/// High byte of an id.
pub open spec fn hi_byte(id: BlockId) -> u8 {
    (id / 256) as u8
}

/// The wire form of a chunk's blocks: a uniform marker with one id when all
/// blocks agree, else a dense tag followed by each id in little-endian order.
pub open spec fn spec_encode(v: Seq<BlockId>) -> Seq<u8> {
    if all_same(v) {
        seq![0u8, lo_byte(v[0]), hi_byte(v[0])]
    } else {
        seq![1u8] + Seq::new(
            (2 * CHUNK_VOLUME) as nat,
            |i: int|
                if i % 2 == 0 {
                    lo_byte(v[i / 2])
                } else {
                    hi_byte(v[i / 2])
                },
        )
    }
}

/// The blocks a wire form decodes to, or nothing if it is malformed. The
/// uniform marker yields the same id everywhere.
pub open spec fn spec_decode(b: Seq<u8>) -> Option<Seq<BlockId>> {
    if b.len() == 3 && b[0] == 0u8 {
        Some(Seq::new(CHUNK_VOLUME as nat, |i: int| (b[1] + 256 * b[2]) as BlockId))
    } else if b.len() == 1 + 2 * CHUNK_VOLUME && b[0] == 1u8 {
        Some(Seq::new(CHUNK_VOLUME as nat, |i: int| (b[1 + 2 * i] + 256 * b[2 + 2 * i]) as BlockId))
    } else {
        None
    }
}

impl Chunk {
    /// Dense storage holds exactly one id per block.
    pub open spec fn wf(self) -> bool {
        match self {
            Chunk::Uniform(_) => true,
            Chunk::Dense(blocks) => blocks@.len() == CHUNK_VOLUME,
        }
    }

    /// The blocks, one per cell, whatever the storage.
    pub open spec fn view(self) -> Seq<BlockId> {
        match self {
            Chunk::Uniform(id) => Seq::new(CHUNK_VOLUME as nat, |i: int| id),
            Chunk::Dense(blocks) => blocks@,
        }
    }

    /// A chunk of one block everywhere.
    pub fn new_uniform(id: BlockId) -> (c: Chunk)
        ensures
            c.wf(),
            c == Chunk::Uniform(id),
    {
        Chunk::Uniform(id)
    }

    pub fn is_uniform(&self) -> (r: bool)
        ensures
            r == (self is Uniform),
    {
        match self {
            Chunk::Uniform(_) => true,
            Chunk::Dense(_) => false,
        }
    }

    /// The block at a flat index.
    pub fn get(&self, index: usize) -> (id: BlockId)
        requires
            self.wf(),
            index < CHUNK_VOLUME,
        ensures
            id == self.view()[index as int],
    {
        match self {
            Chunk::Uniform(id) => *id,
            Chunk::Dense(blocks) => blocks[index],
        }
    }

    /// The block at chunk-local coordinates.
    pub fn get_xyz(&self, x: usize, y: usize, z: usize) -> (id: BlockId)
        requires
            self.wf(),
            x < CHUNK_SIZE,
            y < CHUNK_SIZE,
            z < CHUNK_SIZE,
        ensures
            id == self.view()[x * 256 + z * 16 + y],
    {
        self.get(x * 256 + z * 16 + y)
    }

    /// Replace the block at a flat index, materializing uniform storage.
    pub fn set(&mut self, index: usize, id: BlockId)
        requires
            old(self).wf(),
            index < CHUNK_VOLUME,
        ensures
            final(self).wf(),
            final(self).view() == old(self).view().update(index as int, id),
    {
        match self {
            Chunk::Uniform(u) => {
                let uniform_id = *u;
                let mut blocks: Vec<BlockId> = Vec::new();
                let mut i: usize = 0;
                while i < CHUNK_VOLUME
                    invariant
                        i <= CHUNK_VOLUME,
                        blocks@.len() == i,
                        forall|j: int| 0 <= j < i ==> blocks@[j] == uniform_id,
                    decreases CHUNK_VOLUME - i,
                {
                    blocks.push(uniform_id);
                    i = i + 1;
                }
                blocks[index] = id;
                let ghost before = self.view();
                *self = Chunk::Dense(blocks);
                proof {
                    assert(self.view() =~= before.update(index as int, id));
                }
            },
            Chunk::Dense(blocks) => {
                blocks[index] = id;
            },
        }
    }

    /// Whether every block holds one id; the id if so.
    pub fn uniform_value(&self) -> (r: Option<BlockId>)
        requires
            self.wf(),
        ensures
            match r {
                Some(id) => all_same(self.view()) && self.view()[0] == id,
                None => !all_same(self.view()),
            },
    {
        match self {
            Chunk::Uniform(id) => Some(*id),
            Chunk::Dense(blocks) => {
                let first = blocks[0];
                let mut i: usize = 1;
                while i < blocks.len()
                    invariant
                        blocks@.len() == CHUNK_VOLUME,
                        self.view() == blocks@,
                        1 <= i <= blocks@.len(),
                        first == blocks@[0],
                        forall|j: int| 0 <= j < i ==> blocks@[j] == first,
                    decreases blocks@.len() - i,
                {
                    if blocks[i] != first {
                        proof {
                            assert(self.view()[i as int] != self.view()[0]);
                        }
                        return None;
                    }
                    i = i + 1;
                }
                Some(first)
            },
        }
    }

    /// Encode for the wire. All-agreeing blocks take the three-byte uniform
    /// form; anything else takes the tagged dense form.
    pub fn to_bytes(&self) -> (bytes: Vec<u8>)
        requires
            self.wf(),
        ensures
            bytes@ == spec_encode(self.view()),
    {
        if let Some(id) = self.uniform_value() {
            let mut bytes: Vec<u8> = Vec::new();
            bytes.push(0u8);
            bytes.push((id % 256) as u8);
            bytes.push((id / 256) as u8);
            proof {
                assert(bytes@ =~= spec_encode(self.view()));
            }
            return bytes;
        }
        let mut bytes: Vec<u8> = Vec::new();
        bytes.push(1u8);
        let mut i: usize = 0;
        while i < CHUNK_VOLUME
            invariant
                self.wf(),
                !all_same(self.view()),
                i <= CHUNK_VOLUME,
                bytes@.len() == 1 + 2 * i,
                bytes@[0] == 1u8,
                forall|j: int|
                    0 <= j < i ==> bytes@[1 + 2 * j] == lo_byte(self.view()[j]) && bytes@[2 + 2
                        * j] == hi_byte(#[trigger] self.view()[j]),
            decreases CHUNK_VOLUME - i,
        {
            let id = self.get(i);
            bytes.push((id % 256) as u8);
            bytes.push((id / 256) as u8);
            i = i + 1;
        }
        proof {
            assert(bytes@ =~= spec_encode(self.view()));
        }
        bytes
    }

    /// Decode a wire form; `None` exactly on a malformed length or tag. A
    /// uniform marker comes back as uniform storage, a dense payload as
    /// dense storage.
    pub fn from_bytes(bytes: &Vec<u8>) -> (r: Option<Chunk>)
        ensures
            match r {
                Some(c) => {
                    &&& c.wf()
                    &&& spec_decode(bytes@) == Some(c.view())
                    &&& (c is Uniform <==> bytes@[0] == 0u8)
                },
                None => spec_decode(bytes@) is None,
            },
    {
        if bytes.len() == 3 && bytes[0] == 0u8 {
            let id: u16 = bytes[1] as u16 + 256 * (bytes[2] as u16);
            let c = Chunk::Uniform(id);
            proof {
                assert(spec_decode(bytes@) == Some(c.view())) by {
                    assert(c.view() =~= spec_decode(bytes@).unwrap());
                }
            }
            return Some(c);
        }
        if bytes.len() == 1 + 2 * CHUNK_VOLUME && bytes[0] == 1u8 {
            let mut blocks: Vec<BlockId> = Vec::new();
            let mut i: usize = 0;
            while i < CHUNK_VOLUME
                invariant
                    bytes@.len() == 1 + 2 * CHUNK_VOLUME,
                    i <= CHUNK_VOLUME,
                    blocks@.len() == i,
                    forall|j: int|
                        0 <= j < i ==> blocks@[j] == (bytes@[1 + 2 * j] + 256 * bytes@[2 + 2
                            * j]) as BlockId,
                decreases CHUNK_VOLUME - i,
            {
                let id: u16 = bytes[1 + 2 * i] as u16 + 256 * (bytes[2 + 2 * i] as u16);
                blocks.push(id);
                i = i + 1;
            }
            let c = Chunk::Dense(blocks);
            proof {
                assert(spec_decode(bytes@) == Some(c.view())) by {
                    assert(c.view() =~= spec_decode(bytes@).unwrap());
                }
            }
            return Some(c);
        }
        proof {
            assert(spec_decode(bytes@) is None);
        }
        None
    }
}

/// Decoding an encoded chunk restores every block: the wire form loses
/// nothing. Together with `from_bytes`'s storage clause this settles the
/// canonical round trip: all-agreeing blocks travel as (and return to) the
/// uniform form, others stay dense.
pub proof fn lemma_chunk_round_trip(v: Seq<BlockId>)
    requires
        v.len() == CHUNK_VOLUME,
    ensures
        spec_decode(spec_encode(v)) == Some(v),
        all_same(v) ==> spec_encode(v).len() == 3 && spec_encode(v)[0] == 0u8,
        !all_same(v) ==> spec_encode(v)[0] == 1u8,
{
    let b = spec_encode(v);
    if all_same(v) {
        assert(b.len() == 3 && b[0] == 0u8);
        assert(b[1] + 256 * b[2] == v[0]) by {
            assert(v[0] % 256 + 256 * (v[0] / 256) == v[0]) by (nonlinear_arith);
        }
        assert(spec_decode(b).unwrap() =~= v);
    } else {
        assert(b.len() == 1 + 2 * CHUNK_VOLUME && b[0] == 1u8);
        assert forall|i: int| 0 <= i < CHUNK_VOLUME implies #[trigger] spec_decode(b).unwrap()[i]
            == v[i] by {
            assert(b[1 + 2 * i] == lo_byte(v[(2 * i) / 2])) by {
                assert((2 * i) % 2 == 0) by (nonlinear_arith);
            }
            assert(b[2 + 2 * i] == hi_byte(v[(2 * i + 1) / 2])) by {
                assert((2 * i + 1) % 2 == 1 && (2 * i + 1) / 2 == i) by (nonlinear_arith);
            }
            assert(v[i] % 256 + 256 * (v[i] / 256) == v[i]) by (nonlinear_arith);
        }
        assert(spec_decode(b).unwrap() =~= v);
    }
}

/// The first flat index where a block and the block above it in the same
/// column are both air: where a player can stand without suffocating. The
/// scan walks columns bottom-up, in flat order.
pub fn find_spawn_index(chunk: &Chunk, air: BlockId) -> (r: Option<usize>)
    requires
        chunk.wf(),
    ensures
        match r {
            Some(i) => {
                &&& i + 1 < CHUNK_VOLUME
                &&& i % 16 < 15
                &&& chunk.view()[i as int] == air && chunk.view()[i + 1] == air
            },
            None => forall|i: int|
                0 <= i && i + 1 < CHUNK_VOLUME && i % 16 < 15 ==> !(chunk.view()[i] == air
                    && #[trigger] chunk.view()[i + 1] == air),
        },
{
    let mut i: usize = 0;
    while i + 1 < CHUNK_VOLUME
        invariant
            chunk.wf(),
            i <= CHUNK_VOLUME,
            forall|j: int|
                0 <= j < i && j + 1 < CHUNK_VOLUME && j % 16 < 15 ==> !(chunk.view()[j] == air
                    && #[trigger] chunk.view()[j + 1] == air),
        decreases CHUNK_VOLUME - i,
    {
        if i % 16 < 15 {
            if chunk.get(i) == air && chunk.get(i + 1) == air {
                return Some(i);
            }
        }
        i = i + 1;
    }
    None
}

/// Column `col` offers a surface spot at height `y`: a surface block with
/// air directly above.
pub open spec fn spec_surface_spot(
    chunk: Chunk,
    surface_blocks: Seq<BlockId>,
    air: BlockId,
    col: int,
    y: int,
) -> bool {
    &&& 0 <= y < 15
    &&& surface_blocks.contains(chunk.view()[col * 16 + y])
    &&& chunk.view()[col * 16 + y + 1] == air
}

/// The topmost spot of each column where a surface block has air above it:
/// `(height, block)` per column, indexed `x * 16 + z`. What feature
/// placement and mob spawning stand on. A column reads `None` exactly when
/// it offers no spot at all.
pub fn build_surface(chunk: &Chunk, surface_blocks: &Vec<BlockId>, air: BlockId) -> (surface: Vec<
    Option<(usize, BlockId)>,
>)
    requires
        chunk.wf(),
    ensures
        surface@.len() == 256,
        forall|col: int|
            0 <= col < 256 ==> match #[trigger] surface@[col] {
                Some(entry) => {
                    &&& entry.0 < 15
                    &&& chunk.view()[col * 16 + entry.0] == entry.1
                    &&& spec_surface_spot(*chunk, surface_blocks@, air, col, entry.0 as int)
                    &&& forall|y2: int|
                        entry.0 < y2 < 15 ==> !spec_surface_spot(
                            *chunk,
                            surface_blocks@,
                            air,
                            col,
                            y2,
                        )
                },
                None => forall|y2: int|
                    0 <= y2 < 15 ==> !spec_surface_spot(*chunk, surface_blocks@, air, col, y2),
            },
{
    let mut surface: Vec<Option<(usize, BlockId)>> = Vec::new();
    let mut col: usize = 0;
    while col < 256
        invariant
            chunk.wf(),
            col <= 256,
            surface@.len() == col,
            forall|c: int|
                0 <= c < col ==> match #[trigger] surface@[c] {
                    Some(entry) => {
                        &&& entry.0 < 15
                        &&& chunk.view()[c * 16 + entry.0] == entry.1
                        &&& spec_surface_spot(*chunk, surface_blocks@, air, c, entry.0 as int)
                        &&& forall|y2: int|
                            entry.0 < y2 < 15 ==> !spec_surface_spot(
                                *chunk,
                                surface_blocks@,
                                air,
                                c,
                                y2,
                            )
                    },
                    None => forall|y2: int|
                        0 <= y2 < 15 ==> !spec_surface_spot(*chunk, surface_blocks@, air, c, y2),
                },
        decreases 256 - col,
    {
        let mut found: Option<(usize, BlockId)> = None;
        let mut y: usize = 15;
        while y > 0
            invariant
                chunk.wf(),
                col < 256,
                y <= 15,
                match found {
                    Some(entry) => {
                        &&& entry.0 < 15
                        &&& chunk.view()[col * 16 + entry.0] == entry.1
                        &&& spec_surface_spot(
                            *chunk,
                            surface_blocks@,
                            air,
                            col as int,
                            entry.0 as int,
                        )
                        &&& forall|y2: int|
                            entry.0 < y2 < 15 ==> !spec_surface_spot(
                                *chunk,
                                surface_blocks@,
                                air,
                                col as int,
                                y2,
                            )
                    },
                    None => forall|y2: int|
                        y <= y2 < 15 ==> !spec_surface_spot(
                            *chunk,
                            surface_blocks@,
                            air,
                            col as int,
                            y2,
                        ),
                },
            decreases y,
        {
            y = y - 1;
            if found.is_none() {
                let id = chunk.get(col * 16 + y);
                let above = chunk.get(col * 16 + y + 1);
                if above == air && contains_id(surface_blocks, id) {
                    found = Some((y, id));
                } else {
                    proof {
                        assert(!spec_surface_spot(
                            *chunk,
                            surface_blocks@,
                            air,
                            col as int,
                            y as int,
                        ));
                    }
                }
            }
        }
        surface.push(found);
        col = col + 1;
    }
    surface
}

/// Whether the list holds the id.
pub fn contains_id(ids: &Vec<BlockId>, id: BlockId) -> (r: bool)
    ensures
        r == ids@.contains(id),
{
    let mut i: usize = 0;
    while i < ids.len()
        invariant
            i <= ids@.len(),
            forall|j: int| 0 <= j < i ==> ids@[j] != id,
        decreases ids@.len() - i,
    {
        if ids[i] == id {
            return true;
        }
        i = i + 1;
    }
    proof {
        assert(!ids@.contains(id));
    }
    false
}

} // verus!
