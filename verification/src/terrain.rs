//! Terrain shaping: the density pipeline from coarse noise lattices to a
//! chunk of blocks.
//!
//! Densities arrive as integers in thousandths, sampled by the noise stage
//! on coarse lattices. This module compresses them by height, upsamples them
//! tri-linearly to block resolution, carves caves, and assigns blocks to a
//! column top-down by layer depth.

use vstd::prelude::*;
use crate::block::BlockId;
use crate::chunk::{Chunk, CHUNK_SIZE, CHUNK_VOLUME};

verus! {

/// Blocks per chunk plus the overhang read from above the chunk, so surface
/// layers can see just-above-chunk terrain.
pub const COLUMN_HEIGHT: usize = 24;

/// Coarse lattice points per horizontal axis (every four blocks, plus one).
pub const COARSE_WIDTH: usize = 5;

/// Coarse lattice points per vertical axis (every eight blocks, plus one).
pub const COARSE_HEIGHT: usize = 4;

/// Coarse cave lattice points per vertical axis (every four blocks, plus
/// one).
pub const CAVE_COARSE_HEIGHT: usize = 7;

/// Continent heights are clamped to this many thousandths of a block above
/// sea level.
pub const CONTINENT_MAX_MILLI: i32 = 10_000;

/// ... and this far below.
pub const CONTINENT_MIN_MILLI: i32 = -10_000;

/// The blocks one biome builds terrain from.
#[derive(Clone, Copy, PartialEq, Eq, Structural, Debug)]
pub struct Biome {
    pub air: BlockId,
    pub surface_liquid: BlockId,
    pub sub_surface_liquid: BlockId,
    pub sand: BlockId,
    pub top_layer_block: BlockId,
    pub mid_layer_block: BlockId,
    pub bottom_layer_block: BlockId,
}

/// Bend coarse densities by height: blocks above the continent height lose
/// density (so terrain thins out with altitude), blocks below gain it four
/// times as fast (so the underground is solid). The divisor scales the
/// falloff by the local terrain-height noise.
pub fn apply_compression(
    terrain: &mut Vec<i32>,
    chunk_y_blocks: i32,
    continent_milli: &Vec<i32>,
    terrain_height_milli: &Vec<i32>,
)
    requires
        old(terrain)@.len() == COARSE_WIDTH * COARSE_WIDTH * COARSE_HEIGHT,
        continent_milli@.len() == COARSE_WIDTH * COARSE_WIDTH,
        terrain_height_milli@.len() == COARSE_WIDTH * COARSE_WIDTH,
        -0x10_0000 <= chunk_y_blocks <= 0x10_0000,
        forall|i: int|
            0 <= i < old(terrain)@.len() ==> -0x10_0000 <= #[trigger] old(terrain)@[i]
                <= 0x10_0000,
        forall|i: int|
            0 <= i < continent_milli@.len() ==> CONTINENT_MIN_MILLI <= #[trigger] continent_milli@[
                i
            ] <= CONTINENT_MAX_MILLI,
        forall|i: int|
            0 <= i < terrain_height_milli@.len() ==> 500 <= #[trigger] terrain_height_milli@[i]
                <= 1500,
    ensures
        final(terrain)@.len() == old(terrain)@.len(),
{
    let mut x: usize = 0;
    while x < COARSE_WIDTH
        invariant
            terrain@.len() == COARSE_WIDTH * COARSE_WIDTH * COARSE_HEIGHT,
            continent_milli@.len() == COARSE_WIDTH * COARSE_WIDTH,
            terrain_height_milli@.len() == COARSE_WIDTH * COARSE_WIDTH,
            -0x10_0000 <= chunk_y_blocks <= 0x10_0000,
            forall|i: int|
                0 <= i < terrain@.len() ==> -0x4000_0000 <= #[trigger] terrain@[i] <= 0x4000_0000,
            forall|i: int|
                0 <= i < continent_milli@.len() ==> CONTINENT_MIN_MILLI
                    <= #[trigger] continent_milli@[i] <= CONTINENT_MAX_MILLI,
            forall|i: int|
                0 <= i < terrain_height_milli@.len() ==> 500 <= #[trigger] terrain_height_milli@[i]
                    <= 1500,
            x <= COARSE_WIDTH,
        decreases COARSE_WIDTH - x,
    {
        let mut z: usize = 0;
        while z < COARSE_WIDTH
            invariant
                terrain@.len() == COARSE_WIDTH * COARSE_WIDTH * COARSE_HEIGHT,
                continent_milli@.len() == COARSE_WIDTH * COARSE_WIDTH,
                terrain_height_milli@.len() == COARSE_WIDTH * COARSE_WIDTH,
                -0x10_0000 <= chunk_y_blocks <= 0x10_0000,
                forall|i: int|
                    0 <= i < terrain@.len() ==> -0x4000_0000 <= #[trigger] terrain@[i]
                        <= 0x4000_0000,
                forall|i: int|
                    0 <= i < continent_milli@.len() ==> CONTINENT_MIN_MILLI
                        <= #[trigger] continent_milli@[i] <= CONTINENT_MAX_MILLI,
                forall|i: int|
                    0 <= i < terrain_height_milli@.len() ==> 500
                        <= #[trigger] terrain_height_milli@[i] <= 1500,
                x < COARSE_WIDTH,
                z <= COARSE_WIDTH,
            decreases COARSE_WIDTH - z,
        {
            let flat = x * COARSE_WIDTH + z;
            let continent = continent_milli[flat];
            let th = terrain_height_milli[flat];
            let mut y: usize = 0;
            while y < COARSE_HEIGHT
                invariant
                    terrain@.len() == COARSE_WIDTH * COARSE_WIDTH * COARSE_HEIGHT,
                    -0x10_0000 <= chunk_y_blocks <= 0x10_0000,
                    CONTINENT_MIN_MILLI <= continent <= CONTINENT_MAX_MILLI,
                    500 <= th <= 1500,
                    forall|i: int|
                        0 <= i < terrain@.len() ==> -0x4000_0000 <= #[trigger] terrain@[i]
                            <= 0x4000_0000,
                    x < COARSE_WIDTH,
                    z < COARSE_WIDTH,
                    y <= COARSE_HEIGHT,
                decreases COARSE_HEIGHT - y,
            {
                // The block height this lattice point stands at.
                let block_height: i64 = chunk_y_blocks as i64 + (y as i64) * 8;
                let above_milli: i64 = block_height * 1000 - continent as i64;
                // Fifteen thousandths of density per block above the
                // continent height, scaled down by the terrain-height noise.
                let mut compression: i64 = (above_milli * 15) / (th as i64);
                if compression < 0 {
                    // Below the surface: compress four times as hard.
                    compression = compression * 4;
                }
                proof {
                    assert(x * (COARSE_WIDTH * COARSE_HEIGHT) + z * COARSE_HEIGHT + y
                        < COARSE_WIDTH * COARSE_WIDTH * COARSE_HEIGHT) by (nonlinear_arith)
                        requires
                            x < COARSE_WIDTH,
                            z < COARSE_WIDTH,
                            y < COARSE_HEIGHT,
                            COARSE_WIDTH == 5,
                            COARSE_HEIGHT == 4,
                    ;
                }
                let index = x * (COARSE_WIDTH * COARSE_HEIGHT) + z * COARSE_HEIGHT + y;
                let updated: i64 = terrain[index] as i64 - compression;
                let clamped: i32 = if updated > 0x4000_0000i64 {
                    0x4000_0000
                } else if updated < -0x4000_0000i64 {
                    -0x4000_0000
                } else {
                    updated as i32
                };
                terrain[index] = clamped;
                y = y + 1;
            }
            z = z + 1;
        }
        x = x + 1;
    }
}

/// Tri-linear upsample from a coarse lattice to block resolution: three
/// separable linear passes with constant increments, four blocks per
/// horizontal segment and `factor_y` per vertical one.
pub fn interpolate(noise: &Vec<i32>, coarse_height: usize, factor_y: usize) -> (result: Vec<i32>)
    requires
        2 <= coarse_height <= 16,
        (factor_y == 8 && coarse_height == COARSE_HEIGHT) || (factor_y == 4 && coarse_height
            == CAVE_COARSE_HEIGHT),
        noise@.len() == COARSE_WIDTH * COARSE_WIDTH * coarse_height,
        forall|i: int|
            0 <= i < noise@.len() ==> -0x4000_0000 <= #[trigger] noise@[i] <= 0x4000_0000,
    ensures
        result@.len() == CHUNK_SIZE * CHUNK_SIZE * COLUMN_HEIGHT,
{
    let mut result: Vec<i32> = Vec::new();
    let mut i: usize = 0;
    while i < CHUNK_SIZE * CHUNK_SIZE * COLUMN_HEIGHT
        invariant
            i <= CHUNK_SIZE * CHUNK_SIZE * COLUMN_HEIGHT,
            result@.len() == i,
        decreases CHUNK_SIZE * CHUNK_SIZE * COLUMN_HEIGHT - i,
    {
        result.push(0);
        i = i + 1;
    }

    let cells_y = coarse_height - 1;
    let mut xn: usize = 0;
    while xn < 4
        invariant
            2 <= coarse_height <= 16,
            cells_y == coarse_height - 1,
            factor_y * cells_y <= COLUMN_HEIGHT,
            1 <= factor_y <= 8,
            noise@.len() == COARSE_WIDTH * COARSE_WIDTH * coarse_height,
            forall|i: int|
                0 <= i < noise@.len() ==> -0x4000_0000 <= #[trigger] noise@[i] <= 0x4000_0000,
            result@.len() == CHUNK_SIZE * CHUNK_SIZE * COLUMN_HEIGHT,
            xn <= 4,
        decreases 4 - xn,
    {
        let mut zn: usize = 0;
        while zn < 4
            invariant
                2 <= coarse_height <= 16,
                cells_y == coarse_height - 1,
                factor_y * cells_y <= COLUMN_HEIGHT,
                1 <= factor_y <= 8,
                noise@.len() == COARSE_WIDTH * COARSE_WIDTH * coarse_height,
                forall|i: int|
                    0 <= i < noise@.len() ==> -0x4000_0000 <= #[trigger] noise@[i] <= 0x4000_0000,
                result@.len() == CHUNK_SIZE * CHUNK_SIZE * COLUMN_HEIGHT,
                xn < 4,
                zn <= 4,
            decreases 4 - zn,
        {
            let mut yn: usize = 0;
            while yn < cells_y
                invariant
                    2 <= coarse_height <= 16,
                    cells_y == coarse_height - 1,
                    factor_y * cells_y <= COLUMN_HEIGHT,
                    1 <= factor_y <= 8,
                    noise@.len() == COARSE_WIDTH * COARSE_WIDTH * coarse_height,
                    forall|i: int|
                        0 <= i < noise@.len() ==> -0x4000_0000 <= #[trigger] noise@[i]
                            <= 0x4000_0000,
                    result@.len() == CHUNK_SIZE * CHUNK_SIZE * COLUMN_HEIGHT,
                    xn < 4,
                    zn < 4,
                    yn <= cells_y,
                decreases cells_y - yn,
            {
                // The eight corners of this coarse cell.
                let c000 = corner(noise, coarse_height, xn, zn, yn, 0, 0, 0);
                let c001 = corner(noise, coarse_height, xn, zn, yn, 0, 0, 1);
                let c100 = corner(noise, coarse_height, xn, zn, yn, 1, 0, 0);
                let c101 = corner(noise, coarse_height, xn, zn, yn, 1, 0, 1);
                let c010 = corner(noise, coarse_height, xn, zn, yn, 0, 1, 0);
                let c011 = corner(noise, coarse_height, xn, zn, yn, 0, 1, 1);
                let c110 = corner(noise, coarse_height, xn, zn, yn, 1, 1, 0);
                let c111 = corner(noise, coarse_height, xn, zn, yn, 1, 1, 1);

                let mut yi: usize = 0;
                while yi < factor_y
                    invariant
                        1 <= factor_y <= 8,
                        factor_y * cells_y <= COLUMN_HEIGHT,
                        yn < cells_y,
                        xn < 4,
                        zn < 4,
                        yi <= factor_y,
                        result@.len() == CHUNK_SIZE * CHUNK_SIZE * COLUMN_HEIGHT,
                        -0x1_0000_0000_0000 <= c000 <= 0x1_0000_0000_0000,
                        -0x1_0000_0000_0000 <= c001 <= 0x1_0000_0000_0000,
                        -0x1_0000_0000_0000 <= c100 <= 0x1_0000_0000_0000,
                        -0x1_0000_0000_0000 <= c101 <= 0x1_0000_0000_0000,
                        -0x1_0000_0000_0000 <= c010 <= 0x1_0000_0000_0000,
                        -0x1_0000_0000_0000 <= c011 <= 0x1_0000_0000_0000,
                        -0x1_0000_0000_0000 <= c110 <= 0x1_0000_0000_0000,
                        -0x1_0000_0000_0000 <= c111 <= 0x1_0000_0000_0000,
                    decreases factor_y - yi,
                {
                    let fy = yi as i64;
                    let fden = factor_y as i64;
                    // Linear in y at the four pillars.
                    let b00 = lerp(c000, c001, fy, fden);
                    let b10 = lerp(c100, c101, fy, fden);
                    let b01 = lerp(c010, c011, fy, fden);
                    let b11 = lerp(c110, c111, fy, fden);

                    proof {
                        assert(yn * factor_y + yi < COLUMN_HEIGHT && yn * factor_y
                            <= COLUMN_HEIGHT) by (nonlinear_arith)
                            requires
                                yn < cells_y,
                                yi < factor_y,
                                factor_y * cells_y <= COLUMN_HEIGHT,
                                factor_y >= 1,
                        ;
                    }
                    let y = yn * factor_y + yi;

                    let mut xi: usize = 0;
                    while xi < 4
                        invariant
                            result@.len() == CHUNK_SIZE * CHUNK_SIZE * COLUMN_HEIGHT,
                            xn < 4,
                            zn < 4,
                            y < COLUMN_HEIGHT,
                            xi <= 4,
                            -0x1_0000_0000_0000 <= b00 <= 0x1_0000_0000_0000,
                            -0x1_0000_0000_0000 <= b10 <= 0x1_0000_0000_0000,
                            -0x1_0000_0000_0000 <= b01 <= 0x1_0000_0000_0000,
                            -0x1_0000_0000_0000 <= b11 <= 0x1_0000_0000_0000,
                        decreases 4 - xi,
                    {
                        let fx = xi as i64;
                        // Linear in x along the two faces.
                        let m0 = lerp(b00, b10, fx, 4);
                        let m1 = lerp(b01, b11, fx, 4);
                        let mut zi: usize = 0;
                        while zi < 4
                            invariant
                                result@.len() == CHUNK_SIZE * CHUNK_SIZE * COLUMN_HEIGHT,
                                xn < 4,
                                zn < 4,
                                y < COLUMN_HEIGHT,
                                xi < 4,
                                zi <= 4,
                                -0x1_0000_0000_0000 <= m0 <= 0x1_0000_0000_0000,
                                -0x1_0000_0000_0000 <= m1 <= 0x1_0000_0000_0000,
                            decreases 4 - zi,
                        {
                            let fz = zi as i64;
                            let density = lerp(m0, m1, fz, 4);
                            let x = xn * 4 + xi;
                            let z = zn * 4 + zi;
                            let out = x * (CHUNK_SIZE * COLUMN_HEIGHT) + z * COLUMN_HEIGHT + y;
                            proof {
                                assert(x * (CHUNK_SIZE * COLUMN_HEIGHT) + z * COLUMN_HEIGHT + y
                                    < CHUNK_SIZE * CHUNK_SIZE * COLUMN_HEIGHT)
                                    by (nonlinear_arith)
                                    requires
                                        x < CHUNK_SIZE,
                                        z < CHUNK_SIZE,
                                        y < COLUMN_HEIGHT,
                                        CHUNK_SIZE == 16,
                                        COLUMN_HEIGHT == 24,
                                ;
                            }
                            let clamped: i32 = if density > 0x4000_0000i64 {
                                0x4000_0000
                            } else if density < -0x4000_0000i64 {
                                -0x4000_0000
                            } else {
                                density as i32
                            };
                            result[out] = clamped;
                            zi = zi + 1;
                        }
                        xi = xi + 1;
                    }
                    yi = yi + 1;
                }
                yn = yn + 1;
            }
            zn = zn + 1;
        }
        xn = xn + 1;
    }
    result
}

/// One corner of a coarse interpolation cell, as a wide integer.
fn corner(
    noise: &Vec<i32>,
    coarse_height: usize,
    xn: usize,
    zn: usize,
    yn: usize,
    dx: usize,
    dz: usize,
    dy: usize,
) -> (v: i64)
    requires
        dx <= 1 && dz <= 1 && dy <= 1,
        xn < 4 && zn < 4,
        2 <= coarse_height <= 16,
        yn + dy < coarse_height,
        noise@.len() == COARSE_WIDTH * COARSE_WIDTH * coarse_height,
        forall|i: int|
            0 <= i < noise@.len() ==> -0x4000_0000 <= #[trigger] noise@[i] <= 0x4000_0000,
    ensures
        -0x4000_0000 <= v <= 0x4000_0000,
{
    proof {
        assert((xn + dx) * (COARSE_WIDTH * coarse_height) + (zn + dz) * coarse_height + (yn + dy)
            < COARSE_WIDTH * COARSE_WIDTH * coarse_height && (xn + dx) * (COARSE_WIDTH
            * coarse_height) <= 400 && (zn + dz) * coarse_height <= 80 && COARSE_WIDTH
            * coarse_height <= 80) by (nonlinear_arith)
            requires
                xn + dx < COARSE_WIDTH,
                zn + dz < COARSE_WIDTH,
                yn + dy < coarse_height,
                COARSE_WIDTH == 5,
                2 <= coarse_height <= 16,
        ;
    }
    let idx = (xn + dx) * (COARSE_WIDTH * coarse_height) + (zn + dz) * coarse_height + (yn + dy);
    noise[idx] as i64
}

/// One linear interpolation step, `a + (b - a) * num / den`, kept inside the
/// working range by clamping (values near the rim are far outside any real
/// density anyway).
fn lerp(a: i64, b: i64, num: i64, den: i64) -> (r: i64)
    requires
        -0x1_0000_0000_0000 <= a <= 0x1_0000_0000_0000,
        -0x1_0000_0000_0000 <= b <= 0x1_0000_0000_0000,
        0 <= num <= 8,
        1 <= den <= 8,
    ensures
        -0x1_0000_0000_0000 <= r <= 0x1_0000_0000_0000,
{
    let diff = b - a;
    proof {
        assert(-0x10_0000_0000_0000 <= diff * num <= 0x10_0000_0000_0000) by (nonlinear_arith)
            requires
                -0x2_0000_0000_0000 <= diff <= 0x2_0000_0000_0000,
                0 <= num <= 8,
        ;
    }
    let q = (diff * num) / den;
    let q = if q > 0x1_0000_0000_0000i64 {
        0x1_0000_0000_0000i64
    } else if q < -0x1_0000_0000_0000i64 {
        -0x1_0000_0000_0000i64
    } else {
        q
    };
    let summed = a + q;
    if summed > 0x1_0000_0000_0000i64 {
        0x1_0000_0000_0000i64
    } else if summed < -0x1_0000_0000_0000i64 {
        -0x1_0000_0000_0000i64
    } else {
        summed
    }
}

/// Carve worm caves: where the upsampled cave density falls below the
/// threshold (biased upward above sea level so caves stay underground) and
/// the column is not ocean, the terrain density is forced negative.
pub fn carve_caves(
    terrain: &mut Vec<i32>,
    caves: &Vec<i32>,
    continent_milli: &Vec<i32>,
    chunk_y_blocks: i32,
)
    requires
        old(terrain)@.len() == CHUNK_SIZE * CHUNK_SIZE * COLUMN_HEIGHT,
        caves@.len() == CHUNK_SIZE * CHUNK_SIZE * COLUMN_HEIGHT,
        continent_milli@.len() == CHUNK_SIZE * CHUNK_SIZE,
        -0x10_0000 <= chunk_y_blocks <= 0x10_0000,
    ensures
        final(terrain)@.len() == old(terrain)@.len(),
{
    let mut x: usize = 0;
    while x < CHUNK_SIZE
        invariant
            terrain@.len() == CHUNK_SIZE * CHUNK_SIZE * COLUMN_HEIGHT,
            caves@.len() == CHUNK_SIZE * CHUNK_SIZE * COLUMN_HEIGHT,
            continent_milli@.len() == CHUNK_SIZE * CHUNK_SIZE,
            -0x10_0000 <= chunk_y_blocks <= 0x10_0000,
            x <= CHUNK_SIZE,
        decreases CHUNK_SIZE - x,
    {
        let mut z: usize = 0;
        while z < CHUNK_SIZE
            invariant
                terrain@.len() == CHUNK_SIZE * CHUNK_SIZE * COLUMN_HEIGHT,
                caves@.len() == CHUNK_SIZE * CHUNK_SIZE * COLUMN_HEIGHT,
                continent_milli@.len() == CHUNK_SIZE * CHUNK_SIZE,
                -0x10_0000 <= chunk_y_blocks <= 0x10_0000,
                x < CHUNK_SIZE,
                z <= CHUNK_SIZE,
            decreases CHUNK_SIZE - z,
        {
            let continent = continent_milli[x * CHUNK_SIZE + z];
            let mut y: usize = 0;
            while y < COLUMN_HEIGHT
                invariant
                    terrain@.len() == CHUNK_SIZE * CHUNK_SIZE * COLUMN_HEIGHT,
                    caves@.len() == CHUNK_SIZE * CHUNK_SIZE * COLUMN_HEIGHT,
                    -0x10_0000 <= chunk_y_blocks <= 0x10_0000,
                    x < CHUNK_SIZE,
                    z < CHUNK_SIZE,
                    y <= COLUMN_HEIGHT,
                decreases COLUMN_HEIGHT - y,
            {
                let index = x * (CHUNK_SIZE * COLUMN_HEIGHT) + z * COLUMN_HEIGHT + y;
                proof {
                    assert(x * (CHUNK_SIZE * COLUMN_HEIGHT) + z * COLUMN_HEIGHT + y < CHUNK_SIZE
                        * CHUNK_SIZE * COLUMN_HEIGHT) by (nonlinear_arith)
                        requires
                            x < CHUNK_SIZE,
                            z < CHUNK_SIZE,
                            y < COLUMN_HEIGHT,
                            CHUNK_SIZE == 16,
                            COLUMN_HEIGHT == 24,
                    ;
                }
                let height: i64 = chunk_y_blocks as i64 + y as i64;
                // The threshold is one thousandth; the bias grows by a
                // twentieth of it per block above the decay point (zero).
                let offset: i64 = if height > 0 {
                    height / 20
                } else {
                    0
                };
                let cave_density: i64 = caves[index] as i64 + offset;
                if cave_density < 1 && (continent == CONTINENT_MAX_MILLI || height
                    < (CONTINENT_MIN_MILLI / 1000 - 10) as i64) {
                    terrain[index] = -1000;
                }
                y = y + 1;
            }
            z = z + 1;
        }
        x = x + 1;
    }
}

/// Assign blocks to every column, top down. Non-positive density is open:
/// sea water at height zero on non-continental columns, sub-surface liquid
/// below a liquid column, else air. Positive density is ground: sand on
/// coastal strips, the biome's top block at the surface, its middle block
/// for two more layers, its bottom block further down.
pub fn assign_blocks(
    terrain: &Vec<i32>,
    continent_milli: &Vec<i32>,
    chunk_y_blocks: i32,
    biome: &Biome,
) -> (chunk: Chunk)
    requires
        terrain@.len() == CHUNK_SIZE * CHUNK_SIZE * COLUMN_HEIGHT,
        continent_milli@.len() == CHUNK_SIZE * CHUNK_SIZE,
        -0x10_0000 <= chunk_y_blocks <= 0x10_0000,
    ensures
        chunk.wf(),
        chunk is Dense,
{
    let mut blocks: Vec<BlockId> = Vec::new();
    let mut i: usize = 0;
    while i < CHUNK_VOLUME
        invariant
            i <= CHUNK_VOLUME,
            blocks@.len() == i,
        decreases CHUNK_VOLUME - i,
    {
        blocks.push(0);
        i = i + 1;
    }

    let mut x: usize = 0;
    while x < CHUNK_SIZE
        invariant
            terrain@.len() == CHUNK_SIZE * CHUNK_SIZE * COLUMN_HEIGHT,
            continent_milli@.len() == CHUNK_SIZE * CHUNK_SIZE,
            -0x10_0000 <= chunk_y_blocks <= 0x10_0000,
            blocks@.len() == CHUNK_VOLUME,
            x <= CHUNK_SIZE,
        decreases CHUNK_SIZE - x,
    {
        let mut z: usize = 0;
        while z < CHUNK_SIZE
            invariant
                terrain@.len() == CHUNK_SIZE * CHUNK_SIZE * COLUMN_HEIGHT,
                continent_milli@.len() == CHUNK_SIZE * CHUNK_SIZE,
                -0x10_0000 <= chunk_y_blocks <= 0x10_0000,
                blocks@.len() == CHUNK_VOLUME,
                x < CHUNK_SIZE,
                z <= CHUNK_SIZE,
            decreases CHUNK_SIZE - z,
        {
            let continent = continent_milli[x * CHUNK_SIZE + z];
            let mut layer: u32 = 0;
            let mut liquid = false;

            // Walk the overhang above the chunk first, to learn how deep the
            // top of the chunk already lies.
            let mut y: usize = COLUMN_HEIGHT;
            while y > CHUNK_SIZE
                invariant
                    terrain@.len() == CHUNK_SIZE * CHUNK_SIZE * COLUMN_HEIGHT,
                    -0x10_0000 <= chunk_y_blocks <= 0x10_0000,
                    x < CHUNK_SIZE,
                    z < CHUNK_SIZE,
                    CHUNK_SIZE <= y <= COLUMN_HEIGHT,
                    layer <= COLUMN_HEIGHT,
                decreases y,
            {
                y = y - 1;
                let index = x * (CHUNK_SIZE * COLUMN_HEIGHT) + z * COLUMN_HEIGHT + y;
                proof {
                    assert(x * (CHUNK_SIZE * COLUMN_HEIGHT) + z * COLUMN_HEIGHT + y < CHUNK_SIZE
                        * CHUNK_SIZE * COLUMN_HEIGHT) by (nonlinear_arith)
                        requires
                            x < CHUNK_SIZE,
                            z < CHUNK_SIZE,
                            y < COLUMN_HEIGHT,
                            CHUNK_SIZE == 16,
                            COLUMN_HEIGHT == 24,
                    ;
                }
                let density = terrain[index];
                let block_height: i64 = chunk_y_blocks as i64 + y as i64;
                if density <= 0 {
                    if block_height == 0 && continent < CONTINENT_MAX_MILLI {
                        liquid = true;
                    }
                    layer = 0;
                } else {
                    liquid = false;
                    if layer < COLUMN_HEIGHT as u32 {
                        layer = layer + 1;
                    }
                }
            }

            // Now fill the chunk itself, continuing the same layer count.
            let mut yy: usize = CHUNK_SIZE;
            while yy > 0
                invariant
                    terrain@.len() == CHUNK_SIZE * CHUNK_SIZE * COLUMN_HEIGHT,
                    blocks@.len() == CHUNK_VOLUME,
                    -0x10_0000 <= chunk_y_blocks <= 0x10_0000,
                    x < CHUNK_SIZE,
                    z < CHUNK_SIZE,
                    yy <= CHUNK_SIZE,
                    layer <= 0xFFFF,
                decreases yy,
            {
                yy = yy - 1;
                let index = x * (CHUNK_SIZE * COLUMN_HEIGHT) + z * COLUMN_HEIGHT + yy;
                proof {
                    assert(x * (CHUNK_SIZE * COLUMN_HEIGHT) + z * COLUMN_HEIGHT + yy < CHUNK_SIZE
                        * CHUNK_SIZE * COLUMN_HEIGHT && x * (CHUNK_SIZE * CHUNK_SIZE) + z
                        * CHUNK_SIZE + yy < CHUNK_VOLUME) by (nonlinear_arith)
                        requires
                            x < CHUNK_SIZE,
                            z < CHUNK_SIZE,
                            yy < CHUNK_SIZE,
                            CHUNK_SIZE == 16,
                            COLUMN_HEIGHT == 24,
                            CHUNK_VOLUME == 4096,
                    ;
                }
                let density = terrain[index];
                let block_height: i64 = chunk_y_blocks as i64 + yy as i64;

                let block: BlockId = if density <= 0 {
                    if block_height == 0 && continent < CONTINENT_MAX_MILLI {
                        layer = 1;
                        liquid = true;
                        biome.surface_liquid
                    } else if block_height < 0 && liquid {
                        biome.sub_surface_liquid
                    } else {
                        layer = 0;
                        biome.air
                    }
                } else if layer > 3 {
                    if layer < 0xFFFF {
                        layer = layer + 1;
                    }
                    biome.bottom_layer_block
                } else if block_height < 2 && block_height > -13 && continent <= 2000 {
                    layer = layer + 1;
                    biome.sand
                } else {
                    let chosen = if layer < 1 && block_height >= 0 {
                        biome.top_layer_block
                    } else if layer < 3 && block_height > -1 {
                        biome.mid_layer_block
                    } else {
                        biome.bottom_layer_block
                    };
                    layer = layer + 1;
                    chosen
                };

                blocks[x * (CHUNK_SIZE * CHUNK_SIZE) + z * CHUNK_SIZE + yy] = block;
            }
            z = z + 1;
        }
        x = x + 1;
    }
    Chunk::Dense(blocks)
}

/// The world height above which every chunk is air.
pub const SKY_CHUNK_Y: i32 = 120;

/// Whether a chunk position needs no generation at all.
pub fn is_sky_chunk(chunk_pos_y: i32) -> (r: bool)
    ensures
        r == (chunk_pos_y > SKY_CHUNK_Y),
{
    chunk_pos_y > SKY_CHUNK_Y
}

} // verus!
