//! Blueprints: composable recipes for decorating chunks with trees, ore
//! veins and scattered features.
//!
//! A blueprint tree is built from a plan (the parsed form of the blueprint
//! files) after a validation pass; construction samples positions and
//! chances from a seeded generator and gathers block placements into a
//! terrain feature, which is then applied to the chunk under its
//! replaceability rule. Nesting is bounded by explicit fuel, so neither
//! validation nor construction can follow a cycle of names forever.

use vstd::prelude::*;
use crate::block::{BlockId, Blocks};
use crate::chunk::{Chunk, CHUNK_VOLUME};
use crate::rng::{rng_chance_ppm, rng_range_i32, rng_range_u32};
use crate::world::{in_world_band, BlockPos, ChunkPos};

verus! {

/// Block placements gathered by one feature, applied to a chunk in one go.
pub struct TerrainFeature {
    /// The blocks the feature wants to set, in placement order.
    pub placements: Vec<(BlockPos, BlockId)>,
    /// The blocks a placement may overwrite; an empty list allows any.
    pub can_replace: Vec<BlockId>,
}

impl TerrainFeature {
    pub fn new() -> (f: TerrainFeature)
        ensures
            f.placements@.len() == 0,
            f.can_replace@.len() == 0,
    {
        TerrainFeature { placements: Vec::new(), can_replace: Vec::new() }
    }

    /// Record one block.
    pub fn insert_block(&mut self, position: BlockPos, block: BlockId)
        ensures
            final(self).placements@ == old(self).placements@.push((position, block)),
            final(self).can_replace@ == old(self).can_replace@,
    {
        self.placements.push((position, block));
    }

    /// Allow placements to overwrite these blocks too.
    pub fn extend_replaceable(&mut self, more: &Vec<BlockId>)
        ensures
            final(self).placements@ == old(self).placements@,
            final(self).can_replace@ == old(self).can_replace@ + more@,
    {
        let mut i: usize = 0;
        while i < more.len()
            invariant
                i <= more@.len(),
                self.placements@ == old(self).placements@,
                self.can_replace@ == old(self).can_replace@ + more@.subrange(0, i as int),
            decreases more@.len() - i,
        {
            proof {
                assert(old(self).can_replace@ + more@.subrange(0, i as int + 1) =~= (old(
                    self,
                ).can_replace@ + more@.subrange(0, i as int)).push(more@[i as int]));
            }
            self.can_replace.push(more[i]);
            i = i + 1;
        }
        proof {
            assert(more@.subrange(0, more@.len() as int) =~= more@);
        }
    }

    /// The in-chunk cell index a placement covers, if it falls inside the
    /// chunk at all.
    pub open spec fn spec_placement_cell(chunk_pos: ChunkPos, p: BlockPos) -> Option<int> {
        let lx = p.x - chunk_pos.x * 16;
        let ly = p.y - chunk_pos.y * 16;
        let lz = p.z - chunk_pos.z * 16;
        if 0 <= lx < 16 && 0 <= ly < 16 && 0 <= lz < 16 {
            Some(lx * 256 + lz * 16 + ly)
        } else {
            None
        }
    }

    /// Whether some placement covers a cell index with a given block.
    pub open spec fn spec_targets(
        placements: Seq<(BlockPos, BlockId)>,
        chunk_pos: ChunkPos,
        cell: int,
        block: BlockId,
    ) -> bool {
        exists|k: int|
            0 <= k < placements.len() && Self::spec_placement_cell(
                chunk_pos,
                (#[trigger] placements[k]).0,
            ) == Some(cell) && placements[k].1 == block
    }

    /// Write the gathered placements into one chunk: a placement lands when
    /// it falls inside the chunk and the block it covers is replaceable
    /// under the feature's rule. Cells no placement covers are untouched,
    /// and a changed cell holds some covering placement's block.
    pub fn apply(&self, chunk_pos: &ChunkPos, chunk: &mut Chunk)
        requires
            old(chunk).wf(),
            -0x100_0000 <= chunk_pos.x <= 0x100_0000,
            -0x100_0000 <= chunk_pos.y <= 0x100_0000,
            -0x100_0000 <= chunk_pos.z <= 0x100_0000,
        ensures
            final(chunk).wf(),
            forall|cell: int|
                0 <= cell < crate::chunk::CHUNK_VOLUME ==> #[trigger] final(chunk).view()[cell]
                    == old(chunk).view()[cell] || Self::spec_targets(
                    self.placements@,
                    *chunk_pos,
                    cell,
                    final(chunk).view()[cell],
                ),
    {
        let base_x: i64 = chunk_pos.x as i64 * 16;
        let base_y: i64 = chunk_pos.y as i64 * 16;
        let base_z: i64 = chunk_pos.z as i64 * 16;
        let mut i: usize = 0;
        while i < self.placements.len()
            invariant
                chunk.wf(),
                i <= self.placements@.len(),
                base_x == chunk_pos.x * 16,
                base_y == chunk_pos.y * 16,
                base_z == chunk_pos.z * 16,
                -0x1000_0000 - 16 <= base_x <= 0x1000_0000,
                -0x1000_0000 - 16 <= base_y <= 0x1000_0000,
                -0x1000_0000 - 16 <= base_z <= 0x1000_0000,
                forall|cell: int|
                    0 <= cell < crate::chunk::CHUNK_VOLUME ==> #[trigger] chunk.view()[cell]
                        == old(chunk).view()[cell] || Self::spec_targets(
                        self.placements@,
                        *chunk_pos,
                        cell,
                        chunk.view()[cell],
                    ),
            decreases self.placements@.len() - i,
        {
            let (position, block) = self.placements[i];
            let ghost k = i as int;
            i = i + 1;
            let lx = position.x as i64 - base_x;
            let ly = position.y as i64 - base_y;
            let lz = position.z as i64 - base_z;
            if 0 <= lx && lx < 16 && 0 <= ly && ly < 16 && 0 <= lz && lz < 16 {
                let index = (lx as usize) * 256 + (lz as usize) * 16 + (ly as usize);
                let current = chunk.get(index);
                let allowed = self.can_replace.len() == 0 || crate::chunk::contains_id(
                    &self.can_replace,
                    current,
                );
                if allowed {
                    chunk.set(index, block);
                    proof {
                        assert(Self::spec_placement_cell(*chunk_pos, position) == Some(
                            index as int,
                        ));
                        assert(Self::spec_targets(
                            self.placements@,
                            *chunk_pos,
                            index as int,
                            block,
                        )) by {
                            assert(self.placements@[k] == (position, block));
                        }
                    }
                }
            }
        }
    }
}

/// Where in a vertical band a feature may appear, and how often.
#[derive(Clone, Copy, PartialEq, Eq, Structural, Debug)]
pub enum HeightDistribution {
    /// The same chance everywhere between the bounds.
    Uniform { min: i32, max: i32, probability_ppm: u32 },
    /// The chance climbs linearly from the edges to a peak in the middle.
    Triangle { min: i32, mid: i32, max: i32, probability_ppm: u32 },
}

impl HeightDistribution {
    pub open spec fn wf(self) -> bool {
        match self {
            HeightDistribution::Uniform { min, max, probability_ppm } => min <= max
                && probability_ppm <= 1_000_000,
            HeightDistribution::Triangle { min, mid, max, probability_ppm } => min < mid && mid
                < max && probability_ppm <= 1_000_000,
        }
    }

    /// A triangular band; the bounds must be ordered and the peak chance a
    /// proper probability.
    pub fn new_triangle(min: i32, mid: i32, max: i32, peak_probability_ppm: u32) -> (r: Option<
        HeightDistribution,
    >)
        ensures
            match r {
                Some(d) => d.wf() && d == (HeightDistribution::Triangle {
                    min,
                    mid,
                    max,
                    probability_ppm: peak_probability_ppm,
                }),
                None => !(min < mid && mid < max && peak_probability_ppm <= 1_000_000),
            },
    {
        if min < mid && mid < max && peak_probability_ppm <= 1_000_000 {
            Some(HeightDistribution::Triangle { min, mid, max, probability_ppm: peak_probability_ppm })
        } else {
            None
        }
    }

    /// Roll whether a feature appears at a height. A height outside the band
    /// never passes; inside, the roll follows the distribution's chance.
    pub fn sample(&self, height: i32, rng: &mut rand::rngs::StdRng) -> (r: bool)
        requires
            self.wf(),
        ensures
            match *self {
                HeightDistribution::Uniform { min, max, .. } => !(min <= height <= max) ==> !r,
                HeightDistribution::Triangle { min, max, .. } => !(min <= height <= max) ==> !r,
            },
    {
        match self {
            HeightDistribution::Uniform { min, max, probability_ppm } => {
                if height < *min || height > *max {
                    return false;
                }
                rng_chance_ppm(rng, *probability_ppm)
            },
            HeightDistribution::Triangle { min, mid, max, probability_ppm } => {
                if height < *min || height > *max {
                    return false;
                }
                // The chance climbs from zero at the edges to the peak at
                // the middle, in millionths.
                let p = *probability_ppm as i128;
                let threshold: i128 = if height < *mid {
                    let num = height as i128 - *min as i128;
                    let den = *mid as i128 - *min as i128;
                    if den <= 0 {
                        0
                    } else {
                        proof {
                            assert(-0x1000_0000_0000_0000_0000 <= p * num <= 0x1000_0000_0000_0000_0000)
                                by (nonlinear_arith)
                                requires
                                    0 <= p <= 0x1_0000_0000,
                                    -0x4_0000_0000 <= num <= 0x4_0000_0000,
                            ;
                        }
                        (p * num) / den
                    }
                } else {
                    let num = *max as i128 - height as i128;
                    let den = *max as i128 - *mid as i128;
                    if den <= 0 {
                        0
                    } else {
                        proof {
                            assert(-0x1000_0000_0000_0000_0000 <= p * num <= 0x1000_0000_0000_0000_0000)
                                by (nonlinear_arith)
                                requires
                                    0 <= p <= 0x1_0000_0000,
                                    -0x4_0000_0000 <= num <= 0x4_0000_0000,
                            ;
                        }
                        (p * num) / den
                    }
                };
                let threshold32: u32 = if threshold <= 0 {
                    0
                } else if threshold >= 1_000_000i128 {
                    1_000_000
                } else {
                    threshold as u32
                };
                rng_chance_ppm(rng, threshold32)
            },
        }
    }
}

/// The new placements extend the old, and every added one carries a block
/// from the allowed pair.
pub open spec fn spec_adds_only(
    before: Seq<(BlockPos, BlockId)>,
    after: Seq<(BlockPos, BlockId)>,
    a: BlockId,
    b: BlockId,
) -> bool {
    &&& after.len() >= before.len()
    &&& forall|k: int| 0 <= k < before.len() ==> #[trigger] after[k] == before[k]
    &&& forall|k: int|
        before.len() <= k < after.len() ==> (#[trigger] after[k]).1 == a || after[k].1 == b
}

/// Extending an extension by an allowed block is still an extension.
proof fn lemma_adds_only_push(
    before: Seq<(BlockPos, BlockId)>,
    mid: Seq<(BlockPos, BlockId)>,
    entry: (BlockPos, BlockId),
    a: BlockId,
    b: BlockId,
)
    requires
        spec_adds_only(before, mid, a, b),
        entry.1 == a || entry.1 == b,
    ensures
        spec_adds_only(before, mid.push(entry), a, b),
{
    let after = mid.push(entry);
    assert forall|k: int| 0 <= k < before.len() implies #[trigger] after[k] == before[k] by {
        assert(after[k] == mid[k]);
    }
    assert forall|k: int|
        before.len() <= k < after.len() implies (#[trigger] after[k]).1 == a || after[k].1
        == b by {
        if k < mid.len() {
            assert(after[k] == mid[k]);
        } else {
            assert(after[k] == entry);
        }
    }
}

/// Chaining two extensions whose blocks come from the pair extends still.
proof fn lemma_adds_only_trans(
    a: Seq<(BlockPos, BlockId)>,
    b: Seq<(BlockPos, BlockId)>,
    c: Seq<(BlockPos, BlockId)>,
    t: BlockId,
    l: BlockId,
)
    requires
        spec_adds_only(a, b, t, l),
        spec_adds_only(b, c, l, l) || spec_adds_only(b, c, t, l),
    ensures
        spec_adds_only(a, c, t, l),
{
    assert forall|k: int| 0 <= k < a.len() implies #[trigger] c[k] == a[k] by {
        assert(c[k] == b[k]);
    }
    assert forall|k: int|
        a.len() <= k < c.len() implies (#[trigger] c[k]).1 == t || c[k].1 == l by {
        if k < b.len() {
            assert(c[k] == b[k]);
        }
    }
}

/// How a tree carries its leaves.
#[derive(Clone, Copy, PartialEq, Eq, Structural, Debug)]
pub enum FoliageStyle {
    /// Two broad layers below the tip and two narrow above, with the corner
    /// leaves of each layer kept or clipped by coin flips.
    Normal { leaf_block: BlockId },
    /// A sphere of leaves around the tip.
    Blob { radius: i32, leaf_block: BlockId },
}

/// The integer square root: the largest `r` with `r * r <= n`.
pub fn isqrt(n: u64) -> (r: u64)
    requires
        n <= 0xFFFF_FFFF,
    ensures
        r * r <= n,
        (r + 1) * (r + 1) > n,
{
    let mut r: u64 = 0;
    let mut sq: u64 = 1;  // (r + 1)^2, maintained incrementally
    while sq <= n
        invariant
            n <= 0xFFFF_FFFF,
            r <= n,
            sq == (r + 1) * (r + 1),
            r * r <= n,
        decreases n - r,
    {
        proof {
            assert((r + 2) * (r + 2) == (r + 1) * (r + 1) + 2 * (r + 1) + 1) by (nonlinear_arith);
            assert(r + 1 <= n) by (nonlinear_arith)
                requires
                    (r + 1) * (r + 1) <= n,
                    r >= 0,
            ;
        }
        r = r + 1;
        sq = sq + 2 * r + 1;
    }
    r
}

impl FoliageStyle {
    /// The block this style builds its leaves from.
    pub open spec fn spec_leaf(self) -> BlockId {
        match self {
            FoliageStyle::Normal { leaf_block } => leaf_block,
            FoliageStyle::Blob { leaf_block, .. } => leaf_block,
        }
    }

    /// Place leaves around a branch tip: the feature only grows, by leaf
    /// blocks.
    pub fn place(&self, tip: BlockPos, feature: &mut TerrainFeature, rng: &mut rand::rngs::StdRng)
        requires
            in_world_band(tip),
        ensures
            final(feature).can_replace@ == old(feature).can_replace@,
            spec_adds_only(
                old(feature).placements@,
                final(feature).placements@,
                self.spec_leaf(),
                self.spec_leaf(),
            ),
    {
        match self {
            FoliageStyle::Normal { leaf_block } => {
                // Two bottom layers, five by five, corners clipped at random.
                let mut y: i32 = -1;
                while y <= 0
                    invariant
                        in_world_band(tip),
                        -1 <= y <= 1,
                        feature.can_replace@ == old(feature).can_replace@,
                        spec_adds_only(
                            old(feature).placements@,
                            feature.placements@,
                            *leaf_block,
                            *leaf_block,
                        ),
                    decreases 1 - y,
                {
                    let mut x: i32 = -2;
                    while x <= 2
                        invariant
                            in_world_band(tip),
                            -2 <= x <= 3,
                            -1 <= y <= 0,
                            feature.can_replace@ == old(feature).can_replace@,
                            spec_adds_only(
                                old(feature).placements@,
                                feature.placements@,
                                *leaf_block,
                                *leaf_block,
                            ),
                        decreases 3 - x,
                    {
                        let mut z: i32 = -2;
                        while z <= 2
                            invariant
                                in_world_band(tip),
                                -2 <= x <= 2,
                                -2 <= z <= 3,
                                -1 <= y <= 0,
                                feature.can_replace@ == old(feature).can_replace@,
                                spec_adds_only(
                                    old(feature).placements@,
                                    feature.placements@,
                                    *leaf_block,
                                    *leaf_block,
                                ),
                            decreases 3 - z,
                        {
                            let corner = (x == 2 || x == -2) && (z == 2 || z == -2);
                            let clip = corner && rng_chance_ppm(rng, 500_000);
                            if !clip {
                                let ghost mid = feature.placements@;
                                feature.insert_block(
                                    BlockPos { x: tip.x + x, y: tip.y + y, z: tip.z + z },
                                    *leaf_block,
                                );
                                proof {
                                    lemma_adds_only_push(
                                        old(feature).placements@,
                                        mid,
                                        (BlockPos { x: (tip.x + x) as i32, y: (tip.y + y) as i32, z: (tip.z + z) as i32 }, *leaf_block),
                                        *leaf_block,
                                        *leaf_block,
                                    );
                                }
                            }
                            z = z + 1;
                        }
                        x = x + 1;
                    }
                    y = y + 1;
                }
                // Two top layers, three by three, corners clipped too.
                let mut y2: i32 = 1;
                while y2 <= 2
                    invariant
                        in_world_band(tip),
                        1 <= y2 <= 3,
                        feature.can_replace@ == old(feature).can_replace@,
                        spec_adds_only(
                            old(feature).placements@,
                            feature.placements@,
                            *leaf_block,
                            *leaf_block,
                        ),
                    decreases 3 - y2,
                {
                    let mut x: i32 = -1;
                    while x <= 1
                        invariant
                            in_world_band(tip),
                            -1 <= x <= 2,
                            1 <= y2 <= 2,
                            feature.can_replace@ == old(feature).can_replace@,
                            spec_adds_only(
                                old(feature).placements@,
                                feature.placements@,
                                *leaf_block,
                                *leaf_block,
                            ),
                        decreases 2 - x,
                    {
                        let mut z: i32 = -1;
                        while z <= 1
                            invariant
                                in_world_band(tip),
                                -1 <= x <= 1,
                                -1 <= z <= 2,
                                1 <= y2 <= 2,
                                feature.can_replace@ == old(feature).can_replace@,
                                spec_adds_only(
                                    old(feature).placements@,
                                    feature.placements@,
                                    *leaf_block,
                                    *leaf_block,
                                ),
                            decreases 2 - z,
                        {
                            let corner = (x == 1 || x == -1) && (z == 1 || z == -1);
                            let clip = corner && rng_chance_ppm(rng, 500_000);
                            if !clip {
                                let ghost mid = feature.placements@;
                                feature.insert_block(
                                    BlockPos { x: tip.x + x, y: tip.y + y2, z: tip.z + z },
                                    *leaf_block,
                                );
                                proof {
                                    lemma_adds_only_push(
                                        old(feature).placements@,
                                        mid,
                                        (BlockPos { x: (tip.x + x) as i32, y: (tip.y + y2) as i32, z: (tip.z + z) as i32 }, *leaf_block),
                                        *leaf_block,
                                        *leaf_block,
                                    );
                                }
                            }
                            z = z + 1;
                        }
                        x = x + 1;
                    }
                    y2 = y2 + 1;
                }
            },
            FoliageStyle::Blob { radius, leaf_block } => {
                let radius = if *radius > 8 {
                    7i32
                } else if *radius < 1 {
                    0i32
                } else {
                    *radius - 1
                };
                let mut height: i32 = -radius;
                while height <= radius
                    invariant
                        in_world_band(tip),
                        0 <= radius <= 7,
                        -radius <= height <= radius + 1,
                        feature.can_replace@ == old(feature).can_replace@,
                        spec_adds_only(
                            old(feature).placements@,
                            feature.placements@,
                            *leaf_block,
                            *leaf_block,
                        ),
                    decreases radius + 1 - height,
                {
                    // The circular cross-section at this height has radius
                    // sqrt(r^2 - h^2); at least one block wide.
                    let h = if height >= 0 {
                        height
                    } else {
                        -height
                    };
                    proof {
                        assert((radius as int) * (radius as int) <= 49 && (h as int) * (h as int)
                            <= 49 && (radius as int) * (radius as int) >= 0 && (h as int) * (
                        h as int) >= 0) by (nonlinear_arith)
                            requires
                                0 <= radius <= 7,
                                0 <= h <= 7,
                        ;
                    }
                    let rr: u64 = (radius as u64) * (radius as u64);
                    let hh: u64 = (h as u64) * (h as u64);
                    let inner64 = if rr >= hh {
                        isqrt(rr - hh)
                    } else {
                        0
                    };
                    let inner: i32 = if inner64 < 1 {
                        1
                    } else if inner64 > 8 {
                        8
                    } else {
                        inner64 as i32
                    };
                    let mut x: i32 = -inner;
                    while x <= inner
                        invariant
                            in_world_band(tip),
                            1 <= inner <= 8,
                            0 <= radius <= 7,
                            -radius <= height <= radius,
                            -inner <= x <= inner + 1,
                            feature.can_replace@ == old(feature).can_replace@,
                            spec_adds_only(
                                old(feature).placements@,
                                feature.placements@,
                                *leaf_block,
                                *leaf_block,
                            ),
                        decreases inner + 1 - x,
                    {
                        let mut z: i32 = -inner;
                        while z <= inner
                            invariant
                                in_world_band(tip),
                                1 <= inner <= 8,
                                0 <= radius <= 7,
                                -radius <= height <= radius,
                                -inner <= x <= inner,
                                -inner <= z <= inner + 1,
                                feature.can_replace@ == old(feature).can_replace@,
                                spec_adds_only(
                                    old(feature).placements@,
                                    feature.placements@,
                                    *leaf_block,
                                    *leaf_block,
                                ),
                            decreases inner + 1 - z,
                        {
                            let ghost mid = feature.placements@;
                            feature.insert_block(
                                BlockPos { x: tip.x + x, y: tip.y + height - 1, z: tip.z + z },
                                *leaf_block,
                            );
                            proof {
                                lemma_adds_only_push(
                                    old(feature).placements@,
                                    mid,
                                    (
                                        BlockPos {
                                            x: (tip.x + x) as i32,
                                            y: (tip.y + height - 1) as i32,
                                            z: (tip.z + z) as i32,
                                        },
                                        *leaf_block,
                                    ),
                                    *leaf_block,
                                    *leaf_block,
                                );
                            }
                            z = z + 1;
                        }
                        x = x + 1;
                    }
                    height = height + 1;
                }
            },
        }
    }
}

/// A tree feature: a trunk, leaves, and perhaps branches.
#[derive(Clone, Debug)]
pub struct Tree {
    pub trunk_block: BlockId,
    pub foliage: FoliageStyle,
    /// Fewest and most branches, inclusive.
    pub branches_min: u32,
    pub branches_max: u32,
    /// The least trunk height.
    pub trunk_height: i32,
    /// Up to this much is added to the trunk height at random.
    pub random_height: i32,
    /// The blocks a tree may grow from.
    pub soil_blocks: Vec<BlockId>,
    /// The blocks a tree may overwrite as it grows.
    pub can_replace: Vec<BlockId>,
}

impl Tree {
    pub open spec fn wf(self) -> bool {
        &&& 1 <= self.trunk_height <= 64
        &&& 0 <= self.random_height <= 64
        &&& self.branches_min <= self.branches_max <= 16
    }

    /// Grow branches from the upper part of the trunk: each picks a height,
    /// a planar direction and a length, lays trunk blocks along the slope,
    /// and puts foliage at its tip.
    fn branches(
        &self,
        trunk_position: BlockPos,
        height: i32,
        feature: &mut TerrainFeature,
        rng: &mut rand::rngs::StdRng,
    )
        requires
            self.wf(),
            in_world_band(trunk_position),
            1 <= height <= 128,
            -0x1000_0000 <= trunk_position.x <= 0x1000_0000,
            -0x1000_0000 <= trunk_position.y <= 0x1000_0000,
            -0x1000_0000 <= trunk_position.z <= 0x1000_0000,
        ensures
            spec_adds_only(
                old(feature).placements@,
                final(feature).placements@,
                self.trunk_block,
                self.foliage.spec_leaf(),
            ),
    {
        // Branches start in the top two fifths of the trunk.
        let branch_base = height * 3 / 5;
        let count = if self.branches_max == 0 {
            0
        } else if self.branches_min < self.branches_max {
            rng_range_u32(rng, self.branches_min, self.branches_max)
        } else {
            self.branches_min
        };
        let max_branch_length = height - branch_base;
        let mut b: u32 = 0;
        while b < count && b < 16
            invariant
                self.wf(),
                in_world_band(trunk_position),
                -0x1000_0000 <= trunk_position.x <= 0x1000_0000,
                -0x1000_0000 <= trunk_position.y <= 0x1000_0000,
                -0x1000_0000 <= trunk_position.z <= 0x1000_0000,
                1 <= height <= 128,
                0 <= branch_base <= height,
                max_branch_length == height - branch_base,
                b <= 16,
                spec_adds_only(
                    old(feature).placements@,
                    feature.placements@,
                    self.trunk_block,
                    self.foliage.spec_leaf(),
                ),
            decreases 16 - b,
        {
            b = b + 1;
            let branch_height = if branch_base < height {
                rng_range_i32(rng, branch_base, height)
            } else {
                branch_base
            };
            let branch_length = if max_branch_length > 3 {
                rng_range_i32(rng, 3, max_branch_length)
            } else {
                max_branch_length
            };
            // A planar unit direction in thousandths: a random east-west
            // part, the rest north-south, the quadrant by coin flips.
            let dx_milli_abs = rng_range_i32(rng, 0, 1001) as i64;
            proof {
                assert(0 <= dx_milli_abs * dx_milli_abs <= 1_000_000) by (nonlinear_arith)
                    requires
                        0 <= dx_milli_abs <= 1000,
                ;
            }
            let dz_sq: u64 = (1_000_000 - dx_milli_abs * dx_milli_abs) as u64;
            let dz64 = isqrt(dz_sq);
            proof {
                assert(dz64 <= 1000) by (nonlinear_arith)
                    requires
                        dz64 * dz64 <= 1_000_000,
                        dz64 >= 0,
                ;
            }
            let dz_milli_abs = dz64 as i64;
            let dx_milli = if rng_chance_ppm(rng, 500_000) {
                dx_milli_abs
            } else {
                -dx_milli_abs
            };
            let dz_milli = if rng_chance_ppm(rng, 500_000) {
                dz_milli_abs
            } else {
                -dz_milli_abs
            };

            let mut i: i32 = 1;
            while i <= branch_length && i <= 128
                invariant
                    self.wf(),
                    in_world_band(trunk_position),
                    -0x1000_0000 <= trunk_position.x <= 0x1000_0000,
                    -0x1000_0000 <= trunk_position.y <= 0x1000_0000,
                    -0x1000_0000 <= trunk_position.z <= 0x1000_0000,
                    0 <= branch_height <= 128,
                    -1001 <= dx_milli <= 1001,
                    -1001 <= dz_milli <= 1001,
                    1 <= i <= 129,
                    spec_adds_only(
                        old(feature).placements@,
                        feature.placements@,
                        self.trunk_block,
                        self.foliage.spec_leaf(),
                    ),
                decreases 129 - i,
            {
                // The branch climbs two blocks for every five outward.
                let step_x = milli_steps(dx_milli, i as i64);
                let step_z = milli_steps(dz_milli, i as i64);
                let pos = BlockPos {
                    x: trunk_position.x + step_x,
                    y: trunk_position.y + branch_height + (i * 2) / 5,
                    z: trunk_position.z + step_z,
                };
                let ghost mid = feature.placements@;
                feature.insert_block(pos, self.trunk_block);
                proof {
                    lemma_adds_only_push(
                        old(feature).placements@,
                        mid,
                        (pos, self.trunk_block),
                        self.trunk_block,
                        self.foliage.spec_leaf(),
                    );
                }
                if i == branch_length || i == 128 {
                    if exec_in_band(&pos) {
                        let ghost mid2 = feature.placements@;
                        self.foliage.place(pos, feature, rng);
                        proof {
                            lemma_adds_only_trans(
                                old(feature).placements@,
                                mid2,
                                feature.placements@,
                                self.trunk_block,
                                self.foliage.spec_leaf(),
                            );
                        }
                    }
                }
                i = i + 1;
            }
        }
    }

    /// Grow one tree at a surface position: nothing happens off its soil;
    /// otherwise the trunk rises by the base height plus a random extra,
    /// foliage crowns it, and branches sprout.
    pub fn construct(
        &self,
        trunk_position: BlockPos,
        surface_block: BlockId,
        feature: &mut TerrainFeature,
        rng: &mut rand::rngs::StdRng,
    ) -> (grown: bool)
        requires
            self.wf(),
            in_world_band(trunk_position),
            -0x1000_0000 <= trunk_position.x <= 0x1000_0000,
            -0x1000_0000 <= trunk_position.y <= 0x1000_0000,
            -0x1000_0000 <= trunk_position.z <= 0x1000_0000,
        ensures
            grown == self.soil_blocks@.contains(surface_block),
            !grown ==> *final(feature) == *old(feature),
            grown ==> spec_adds_only(
                old(feature).placements@,
                final(feature).placements@,
                self.trunk_block,
                self.foliage.spec_leaf(),
            ),
    {
        if !crate::chunk::contains_id(&self.soil_blocks, surface_block) {
            return false;
        }
        feature.extend_replaceable(&self.can_replace);
        let extra = if self.random_height > 0 {
            rng_range_i32(rng, 0, self.random_height)
        } else {
            0
        };
        let trunk_height = self.trunk_height + extra;
        let mut h: i32 = 1;
        while h <= trunk_height && h <= 128
            invariant
                self.wf(),
                in_world_band(trunk_position),
                -0x1000_0000 <= trunk_position.x <= 0x1000_0000,
                -0x1000_0000 <= trunk_position.y <= 0x1000_0000,
                -0x1000_0000 <= trunk_position.z <= 0x1000_0000,
                1 <= h <= 129,
                1 <= trunk_height <= 128,
                spec_adds_only(
                    old(feature).placements@,
                    feature.placements@,
                    self.trunk_block,
                    self.foliage.spec_leaf(),
                ),
            decreases 129 - h,
        {
            let ghost mid = feature.placements@;
            feature.insert_block(
                BlockPos {
                    x: trunk_position.x,
                    y: trunk_position.y + h,
                    z: trunk_position.z,
                },
                self.trunk_block,
            );
            proof {
                lemma_adds_only_push(
                    old(feature).placements@,
                    mid,
                    (
                        BlockPos {
                            x: trunk_position.x,
                            y: (trunk_position.y + h) as i32,
                            z: trunk_position.z,
                        },
                        self.trunk_block,
                    ),
                    self.trunk_block,
                    self.foliage.spec_leaf(),
                );
            }
            h = h + 1;
        }
        let tip = BlockPos {
            x: trunk_position.x,
            y: trunk_position.y + trunk_height,
            z: trunk_position.z,
        };
        if exec_in_band(&tip) {
            let ghost mid = feature.placements@;
            self.foliage.place(tip, feature, rng);
            proof {
                lemma_adds_only_trans(
                    old(feature).placements@,
                    mid,
                    feature.placements@,
                    self.trunk_block,
                    self.foliage.spec_leaf(),
                );
            }
        }
        let ghost mid = feature.placements@;
        self.branches(trunk_position, trunk_height, feature, rng);
        proof {
            lemma_adds_only_trans(
                old(feature).placements@,
                mid,
                feature.placements@,
                self.trunk_block,
                self.foliage.spec_leaf(),
            );
        }
        true
    }
}

/// Surface entries carry in-chunk heights.
pub open spec fn surface_heights_bounded(surface: Seq<Option<(usize, BlockId)>>) -> bool {
    forall|i: int|
        0 <= i < surface.len() ==> match #[trigger] surface[i] {
            Some(e) => e.0 < 16,
            None => true,
        }
}

/// Whether a position is inside the band features may reach.
fn in_feature_band(p: &BlockPos) -> (r: bool)
    ensures
        r == (-0x1000_0000 <= p.x <= 0x1000_0000 && -0x1000_0000 <= p.y <= 0x1000_0000
            && -0x1000_0000 <= p.z <= 0x1000_0000),
{
    -0x1000_0000 <= p.x && p.x <= 0x1000_0000 && -0x1000_0000 <= p.y && p.y <= 0x1000_0000
        && -0x1000_0000 <= p.z && p.z <= 0x1000_0000
}

/// Whole blocks covered after `i` steps of a direction in thousandths.
fn milli_steps(d_milli: i64, i: i64) -> (r: i32)
    requires
        -1001 <= d_milli <= 1001,
        1 <= i <= 129,
    ensures
        -130 <= r <= 130,
{
    proof {
        assert(-130_000 <= d_milli * i <= 130_000) by (nonlinear_arith)
            requires
                -1001 <= d_milli <= 1001,
                1 <= i <= 129,
        ;
    }
    let q = (d_milli * i) / 1000;
    if q > 130 {
        130
    } else if q < -130 {
        -130
    } else {
        q as i32
    }
}

/// The world band test, executable.
fn exec_in_band(p: &BlockPos) -> (r: bool)
    ensures
        r == in_world_band(*p),
{
    -0x4000_0000 <= p.x && p.x <= 0x4000_0000 && -0x4000_0000 <= p.y && p.y <= 0x4000_0000
        && -0x4000_0000 <= p.z && p.z <= 0x4000_0000
}

/// A composable terrain feature recipe.
pub enum Blueprint {
    /// Children constructed together, in order.
    Collection(Vec<Blueprint>),
    /// A child constructed at `count` positions sampled uniformly in the
    /// chunk volume, each gated by the height distribution.
    Distribution { blueprint: Box<Blueprint>, count: u32, distribution: HeightDistribution },
    /// A single block atop a surface column.
    Decoration { decoration_block: BlockId, placed_on: Vec<BlockId>, can_replace: Vec<BlockId> },
    /// A tree.
    Tree(Tree),
    /// A random walk placing ore.
    OreVein { ore_block: BlockId, count: u32, can_replace: Vec<BlockId> },
}

impl Blueprint {
    pub open spec fn wf(self) -> bool
        decreases self,
    {
        match self {
            Blueprint::Collection(children) => forall|i: int|
                0 <= i < children@.len() ==> (#[trigger] children@[i]).wf(),
            Blueprint::Distribution { blueprint, count, distribution } => blueprint.wf()
                && distribution.wf() && count <= 4096,
            Blueprint::Decoration { .. } => true,
            Blueprint::Tree(tree) => tree.wf(),
            Blueprint::OreVein { count, .. } => count <= 4096,
        }
    }

    /// Construct the feature into a chunk. `fuel` bounds the nesting depth;
    /// a starved construction simply stops placing.
    pub fn construct(
        &self,
        origin: BlockPos,
        chunk_pos: &ChunkPos,
        chunk: &mut Chunk,
        surface: &Vec<Option<(usize, BlockId)>>,
        rng: &mut rand::rngs::StdRng,
        fuel: u32,
    )
        requires
            self.wf(),
            old(chunk).wf(),
            surface@.len() == 256,
            surface_heights_bounded(surface@),
            -0x100_0000 <= chunk_pos.x <= 0x100_0000,
            0 <= chunk_pos.y <= 0x100_0000,
            -0x100_0000 <= chunk_pos.z <= 0x100_0000,
            -0x1000_0000 <= origin.x <= 0x1000_0000,
            -0x1000_0000 <= origin.y <= 0x1000_0000,
            -0x1000_0000 <= origin.z <= 0x1000_0000,
        ensures
            final(chunk).wf(),
        decreases fuel,
    {
        if fuel == 0 {
            return ;
        }
        match self {
            Blueprint::Collection(children) => {
                let mut i: usize = 0;
                while i < children.len()
                    invariant
                        chunk.wf(),
                        surface@.len() == 256,
                        surface_heights_bounded(surface@),
                        i <= children@.len(),
                        fuel >= 1,
                        forall|k: int| 0 <= k < children@.len() ==> (#[trigger] children@[k]).wf(),
                        -0x100_0000 <= chunk_pos.x <= 0x100_0000,
                        0 <= chunk_pos.y <= 0x100_0000,
                        -0x100_0000 <= chunk_pos.z <= 0x100_0000,
                        -0x1000_0000 <= origin.x <= 0x1000_0000,
                        -0x1000_0000 <= origin.y <= 0x1000_0000,
                        -0x1000_0000 <= origin.z <= 0x1000_0000,
                    decreases children@.len() - i,
                {
                    children[i].construct(origin, chunk_pos, chunk, surface, rng, fuel - 1);
                    i = i + 1;
                }
            },
            Blueprint::Distribution { blueprint, count, distribution } => {
                let mut k: u32 = 0;
                while k < *count && k < 4096
                    invariant
                        chunk.wf(),
                        surface@.len() == 256,
                        surface_heights_bounded(surface@),
                        blueprint.wf(),
                        distribution.wf(),
                        fuel >= 1,
                        k <= 4096,
                        -0x100_0000 <= chunk_pos.x <= 0x100_0000,
                        0 <= chunk_pos.y <= 0x100_0000,
                        -0x100_0000 <= chunk_pos.z <= 0x100_0000,
                        -0x1000_0000 <= origin.x <= 0x1000_0000,
                        -0x1000_0000 <= origin.y <= 0x1000_0000,
                        -0x1000_0000 <= origin.z <= 0x1000_0000,
                    decreases 4096 - k,
                {
                    k = k + 1;
                    // A uniform position in the chunk volume.
                    let sample = rng_range_u32(rng, 0, CHUNK_VOLUME as u32);
                    let sx = (sample as i32) / 256;
                    let sz = ((sample as i32) / 16) % 16;
                    let sy = (sample as i32) % 16;
                    let position = BlockPos {
                        x: origin.x + sx,
                        y: origin.y + sy,
                        z: origin.z + sz,
                    };
                    if distribution.sample(position.y, rng) && in_feature_band(&position) {
                        blueprint.construct(position, chunk_pos, chunk, surface, rng, fuel - 1);
                    }
                }
            },
            Blueprint::Decoration { decoration_block, placed_on, can_replace } => {
                // The column the origin falls in decides; the block sits on
                // its surface if the surface suits.
                let col_x = floor_mod_16_i32(origin.x);
                let col_z = floor_mod_16_i32(origin.z);
                let column = (col_x as usize) * 16 + (col_z as usize);
                let (surface_y, surface_block) = match surface[column] {
                    Some(entry) => entry,
                    None => {
                        return ;
                    },
                };
                if !crate::chunk::contains_id(placed_on, surface_block) {
                    return ;
                }
                let mut feature = TerrainFeature::new();
                feature.extend_replaceable(can_replace);
                let position = BlockPos {
                    x: origin.x,
                    y: chunk_pos.y * 16 + surface_y as i32 + 1,
                    z: origin.z,
                };
                feature.insert_block(position, *decoration_block);
                feature.apply(chunk_pos, chunk);
            },
            Blueprint::Tree(tree) => {
                let col_x = floor_mod_16_i32(origin.x);
                let col_z = floor_mod_16_i32(origin.z);
                let column = (col_x as usize) * 16 + (col_z as usize);
                let (surface_y, surface_block) = match surface[column] {
                    Some(entry) => entry,
                    None => {
                        return ;
                    },
                };
                let trunk_position = BlockPos {
                    x: origin.x,
                    y: chunk_pos.y * 16 + surface_y as i32,
                    z: origin.z,
                };
                if in_feature_band(&trunk_position) {
                    let mut feature = TerrainFeature::new();
                    tree.construct(trunk_position, surface_block, &mut feature, rng);
                    feature.apply(chunk_pos, chunk);
                }
            },
            Blueprint::OreVein { ore_block, count, can_replace } => {
                let mut feature = TerrainFeature::new();
                let mut position = origin;
                let mut k: u32 = 0;
                while k < *count && k < 4096
                    invariant
                        surface@.len() == 256,
                        k <= 4096,
                        -0x1000_0000 - k <= position.x <= 0x1000_0000 + k,
                        -0x1000_0000 - k <= position.y <= 0x1000_0000 + k,
                        -0x1000_0000 - k <= position.z <= 0x1000_0000 + k,
                    decreases 4096 - k,
                {
                    k = k + 1;
                    // One random step along an axis.
                    let direction = rng_range_u32(rng, 0, 6);
                    position = match direction {
                        0 => BlockPos { x: position.x + 1, ..position },
                        1 => BlockPos { x: position.x - 1, ..position },
                        2 => BlockPos { y: position.y + 1, ..position },
                        3 => BlockPos { y: position.y - 1, ..position },
                        4 => BlockPos { z: position.z + 1, ..position },
                        _ => BlockPos { z: position.z - 1, ..position },
                    };
                    feature.insert_block(position, *ore_block);
                }
                feature.extend_replaceable(can_replace);
                feature.apply(chunk_pos, chunk);
            },
        }
    }
}

/// Floor remainder by sixteen for a banded coordinate.
fn floor_mod_16_i32(a: i32) -> (r: i32)
    requires
        -0x2000_0000 <= a <= 0x2000_0000,
    ensures
        0 <= r < 16,
{
    let rem = a % 16;
    if rem < 0 {
        rem + 16
    } else {
        rem
    }
}

} // verus!

use vstd::prelude::*;

verus! {

/// A blueprint as the files spell it: blocks by name, children inline or by
/// reference to another named plan.
pub enum BlueprintPlan {
    /// A reference to a plan registered under a name.
    Named(String),
    Collection { children: Vec<BlueprintPlan> },
    Distribution { child: Box<BlueprintPlan>, count: u32, distribution: HeightDistribution },
    Decoration { decoration_block: String, placed_on: Vec<String>, can_replace: Vec<String> },
    Tree {
        trunk_block: String,
        leaf_block: String,
        trunk_height: u32,
        blob_radius: Option<i32>,
        branches: Option<(u32, u32)>,
        random_height: u32,
        soil_blocks: Vec<String>,
        can_replace: Vec<String>,
    },
    OreVein { ore_block: String, count: u32, can_replace: Vec<String> },
}

/// Why a plan was rejected.
pub enum PlanIssue {
    /// A reference to a name nobody registered.
    UnknownBlueprint(String),
    /// A block name no block carries.
    UnknownBlock(String),
    /// A distribution whose bounds are unordered or whose chance is not a
    /// probability.
    BadDistribution,
    /// A tree whose shape is out of the buildable range.
    BadTree,
    /// A count past what one chunk can take.
    BadCount,
    /// Plans nest (or chain references) deeper than the builder follows.
    TooDeep,
}

impl BlueprintPlan {
    /// The numeric rules a plan's own node must meet: ordered distributions
    /// with proper probabilities, buildable tree shapes, counts a chunk can
    /// take. (Name resolution is checked against the tables at run time.)
    pub open spec fn spec_shape_sane(self) -> bool {
        match self {
            BlueprintPlan::Named(_) => true,
            BlueprintPlan::Collection { .. } => true,
            BlueprintPlan::Distribution { count, distribution, .. } => count <= 4096
                && distribution.wf(),
            BlueprintPlan::Decoration { .. } => true,
            BlueprintPlan::Tree { trunk_height, blob_radius, branches, random_height, .. } => {
                &&& 1 <= trunk_height <= 64
                &&& random_height <= 64
                &&& match blob_radius {
                    Some(radius) => 1 <= radius <= 8,
                    None => true,
                }
                &&& match branches {
                    Some((low, high)) => low <= high <= 16,
                    None => true,
                }
            },
            BlueprintPlan::OreVein { count, .. } => count <= 4096,
        }
    }
}

/// The plan registered under a name, if any.
fn find_plan<'a>(named: &'a Vec<(String, BlueprintPlan)>, name: &String) -> (r: Option<
    &'a BlueprintPlan,
>)
    ensures
        true,
{
    let mut i: usize = 0;
    while i < named.len()
        invariant
            i <= named@.len(),
        decreases named@.len() - i,
    {
        if named[i].0 == *name {
            return Some(&named[i].1);
        }
        i = i + 1;
    }
    None
}

/// Copy a name list into resolved block ids; the first unknown name is the
/// verdict.
fn resolve_blocks(names: &Vec<String>, blocks: &Blocks) -> (r: Result<Vec<BlockId>, PlanIssue>)
    requires
        blocks.wf(),
    ensures
        true,
{
    let mut out: Vec<BlockId> = Vec::new();
    let mut i: usize = 0;
    while i < names.len()
        invariant
            blocks.wf(),
            i <= names@.len(),
        decreases names@.len() - i,
    {
        match blocks.get_id(&names[i]) {
            Some(id) => {
                out.push(id);
            },
            None => {
                return Err(PlanIssue::UnknownBlock(clone_string(&names[i])));
            },
        }
        i = i + 1;
    }
    Ok(out)
}

/// Copy a string.
fn clone_string(s: &String) -> (r: String)
    ensures
        r@ == s@,
{
    s.clone()
}

impl BlueprintPlan {
    /// Check a plan before the world runs on it: every referenced name must
    /// be registered, every block name known, every distribution ordered
    /// with a proper probability, every tree buildable, and the nesting no
    /// deeper than the builder follows. The first issue found is returned.
    pub fn validate(
        &self,
        named: &Vec<(String, BlueprintPlan)>,
        blocks: &Blocks,
        fuel: u32,
    ) -> (r: Option<PlanIssue>)
        requires
            blocks.wf(),
        ensures
            r is None ==> self.spec_shape_sane(),
        decreases fuel,
    {
        if fuel == 0 {
            return Some(PlanIssue::TooDeep);
        }
        match self {
            BlueprintPlan::Named(name) => {
                match find_plan(named, name) {
                    // Only existence is checked through a reference; the
                    // referenced plan is validated under its own name.
                    Some(_) => None,
                    None => Some(PlanIssue::UnknownBlueprint(clone_string(name))),
                }
            },
            BlueprintPlan::Collection { children } => {
                let mut i: usize = 0;
                while i < children.len()
                    invariant
                        blocks.wf(),
                        i <= children@.len(),
                        fuel >= 1,
                    decreases children@.len() - i,
                {
                    let issue = children[i].validate(named, blocks, fuel - 1);
                    if issue.is_some() {
                        return issue;
                    }
                    i = i + 1;
                }
                None
            },
            BlueprintPlan::Distribution { child, count, distribution } => {
                if *count > 4096 {
                    return Some(PlanIssue::BadCount);
                }
                let sane = match distribution {
                    HeightDistribution::Uniform { min, max, probability_ppm } => *min <= *max
                        && *probability_ppm <= 1_000_000,
                    HeightDistribution::Triangle { min, mid, max, probability_ppm } => *min < *mid
                        && *mid < *max && *probability_ppm <= 1_000_000,
                };
                if !sane {
                    return Some(PlanIssue::BadDistribution);
                }
                child.validate(named, blocks, fuel - 1)
            },
            BlueprintPlan::Decoration { decoration_block, placed_on, can_replace } => {
                if blocks.get_id(decoration_block).is_none() {
                    return Some(PlanIssue::UnknownBlock(clone_string(decoration_block)));
                }
                if let Err(issue) = resolve_blocks(placed_on, blocks) {
                    return Some(issue);
                }
                if let Err(issue) = resolve_blocks(can_replace, blocks) {
                    return Some(issue);
                }
                None
            },
            BlueprintPlan::Tree {
                trunk_block,
                leaf_block,
                trunk_height,
                blob_radius,
                branches,
                random_height,
                soil_blocks,
                can_replace,
            } => {
                if blocks.get_id(trunk_block).is_none() {
                    return Some(PlanIssue::UnknownBlock(clone_string(trunk_block)));
                }
                if blocks.get_id(leaf_block).is_none() {
                    return Some(PlanIssue::UnknownBlock(clone_string(leaf_block)));
                }
                if *trunk_height < 1 || *trunk_height > 64 || *random_height > 64 {
                    return Some(PlanIssue::BadTree);
                }
                if let Some(radius) = blob_radius {
                    if *radius < 1 || *radius > 8 {
                        return Some(PlanIssue::BadTree);
                    }
                }
                if let Some((low, high)) = branches {
                    if *low > *high || *high > 16 {
                        return Some(PlanIssue::BadTree);
                    }
                }
                if let Err(issue) = resolve_blocks(soil_blocks, blocks) {
                    return Some(issue);
                }
                if let Err(issue) = resolve_blocks(can_replace, blocks) {
                    return Some(issue);
                }
                None
            },
            BlueprintPlan::OreVein { ore_block, count, can_replace } => {
                if *count > 4096 {
                    return Some(PlanIssue::BadCount);
                }
                if blocks.get_id(ore_block).is_none() {
                    return Some(PlanIssue::UnknownBlock(clone_string(ore_block)));
                }
                if let Err(issue) = resolve_blocks(can_replace, blocks) {
                    return Some(issue);
                }
                None
            },
        }
    }

    /// Resolve a plan into a runnable blueprint: names become ids,
    /// references are followed, nesting bounded by the same fuel the
    /// validator used. A plan that does not build reports why, the way the
    /// validator would.
    pub fn build(
        &self,
        named: &Vec<(String, BlueprintPlan)>,
        blocks: &Blocks,
        fuel: u32,
    ) -> (r: Result<Blueprint, PlanIssue>)
        requires
            blocks.wf(),
        ensures
            match r {
                Ok(blueprint) => blueprint.wf() && self.spec_shape_sane(),
                Err(_) => true,
            },
        decreases fuel,
    {
        if fuel == 0 {
            return Err(PlanIssue::TooDeep);
        }
        match self {
            BlueprintPlan::Named(name) => {
                match find_plan(named, name) {
                    Some(plan) => plan.build(named, blocks, fuel - 1),
                    None => Err(PlanIssue::UnknownBlueprint(clone_string(name))),
                }
            },
            BlueprintPlan::Collection { children } => {
                let mut built: Vec<Blueprint> = Vec::new();
                let mut i: usize = 0;
                while i < children.len()
                    invariant
                        blocks.wf(),
                        i <= children@.len(),
                        fuel >= 1,
                        forall|k: int| 0 <= k < built@.len() ==> (#[trigger] built@[k]).wf(),
                    decreases children@.len() - i,
                {
                    match children[i].build(named, blocks, fuel - 1) {
                        Ok(child) => {
                            built.push(child);
                        },
                        Err(issue) => {
                            return Err(issue);
                        },
                    }
                    i = i + 1;
                }
                Ok(Blueprint::Collection(built))
            },
            BlueprintPlan::Distribution { child, count, distribution } => {
                if *count > 4096 {
                    return Err(PlanIssue::BadCount);
                }
                let sane = match distribution {
                    HeightDistribution::Uniform { min, max, probability_ppm } => *min <= *max
                        && *probability_ppm <= 1_000_000,
                    HeightDistribution::Triangle { min, mid, max, probability_ppm } => *min < *mid
                        && *mid < *max && *probability_ppm <= 1_000_000,
                };
                if !sane {
                    return Err(PlanIssue::BadDistribution);
                }
                match child.build(named, blocks, fuel - 1) {
                    Ok(built) => Ok(
                        Blueprint::Distribution {
                            blueprint: Box::new(built),
                            count: *count,
                            distribution: *distribution,
                        },
                    ),
                    Err(issue) => Err(issue),
                }
            },
            BlueprintPlan::Decoration { decoration_block, placed_on, can_replace } => {
                let decoration = match blocks.get_id(decoration_block) {
                    Some(id) => id,
                    None => {
                        return Err(PlanIssue::UnknownBlock(clone_string(decoration_block)));
                    },
                };
                let placed_on = match resolve_blocks(placed_on, blocks) {
                    Ok(ids) => ids,
                    Err(issue) => {
                        return Err(issue);
                    },
                };
                let can_replace = match resolve_blocks(can_replace, blocks) {
                    Ok(ids) => ids,
                    Err(issue) => {
                        return Err(issue);
                    },
                };
                Ok(Blueprint::Decoration { decoration_block: decoration, placed_on, can_replace })
            },
            BlueprintPlan::Tree {
                trunk_block,
                leaf_block,
                trunk_height,
                blob_radius,
                branches,
                random_height,
                soil_blocks,
                can_replace,
            } => {
                let trunk = match blocks.get_id(trunk_block) {
                    Some(id) => id,
                    None => {
                        return Err(PlanIssue::UnknownBlock(clone_string(trunk_block)));
                    },
                };
                let leaf = match blocks.get_id(leaf_block) {
                    Some(id) => id,
                    None => {
                        return Err(PlanIssue::UnknownBlock(clone_string(leaf_block)));
                    },
                };
                if *trunk_height < 1 || *trunk_height > 64 || *random_height > 64 {
                    return Err(PlanIssue::BadTree);
                }
                let foliage = match blob_radius {
                    Some(radius) => {
                        if *radius < 1 || *radius > 8 {
                            return Err(PlanIssue::BadTree);
                        }
                        FoliageStyle::Blob { radius: *radius, leaf_block: leaf }
                    },
                    None => FoliageStyle::Normal { leaf_block: leaf },
                };
                let (branches_min, branches_max) = match branches {
                    Some((low, high)) => {
                        if *low > *high || *high > 16 {
                            return Err(PlanIssue::BadTree);
                        }
                        (*low, *high)
                    },
                    None => (0, 0),
                };
                let soil = match resolve_blocks(soil_blocks, blocks) {
                    Ok(ids) => ids,
                    Err(issue) => {
                        return Err(issue);
                    },
                };
                let replace = match resolve_blocks(can_replace, blocks) {
                    Ok(ids) => ids,
                    Err(issue) => {
                        return Err(issue);
                    },
                };
                Ok(
                    Blueprint::Tree(
                        Tree {
                            trunk_block: trunk,
                            foliage,
                            branches_min,
                            branches_max,
                            trunk_height: *trunk_height as i32,
                            random_height: *random_height as i32,
                            soil_blocks: soil,
                            can_replace: replace,
                        },
                    ),
                )
            },
            BlueprintPlan::OreVein { ore_block, count, can_replace } => {
                if *count > 4096 {
                    return Err(PlanIssue::BadCount);
                }
                let ore = match blocks.get_id(ore_block) {
                    Some(id) => id,
                    None => {
                        return Err(PlanIssue::UnknownBlock(clone_string(ore_block)));
                    },
                };
                let replace = match resolve_blocks(can_replace, blocks) {
                    Ok(ids) => ids,
                    Err(issue) => {
                        return Err(issue);
                    },
                };
                Ok(Blueprint::OreVein { ore_block: ore, count: *count, can_replace: replace })
            },
        }
    }
}

} // verus!
