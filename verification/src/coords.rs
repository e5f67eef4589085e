//! Integer coordinate types and the fixed-point position type.
//!
//! Chunk and block coordinates are plain `i32` triples. Continuous positions
//! (the camera, face centers) are carried in fixed point with `FX_SCALE`
//! sub-units per block, so all geometry in the library is exact integer
//! arithmetic.

use vstd::prelude::*;

verus! {

/// Side length of a chunk, in blocks.
pub const CHUNK_SIZE: i32 = 16;

/// Fixed-point sub-units per block.
pub const FX_SCALE: i64 = 256;

/// Fixed-point size of a chunk (`CHUNK_SIZE * FX_SCALE`).
pub const CHUNK_FX_SIZE: i64 = 4096;

/// Largest magnitude a chunk or world-absolute block coordinate may have:
/// the world model's bound. Keeping every coordinate within it lets all
/// derived quantities (fixed-point chunk offsets, squared distances, plane
/// evaluations) stay exact in machine integers, which is what the no-panic
/// and no-overflow proofs rest on. Public entry points that take
/// coordinates require `in_chunk_bounds` for this reason.
pub const CHUNK_COORD_BOUND: i32 = 0x1000000;

/// Largest magnitude a fixed-point camera position component may have
/// (`CHUNK_COORD_BOUND * FX_SCALE`).
pub const FX_CAM_BOUND: i64 = 0x100000000;

/// A 3D integer vector; used for chunk coordinates and block coordinates.
#[derive(Clone, Copy, PartialEq, Eq, Structural, Debug)]
pub struct Vec3i {
    pub x: i32,
    pub y: i32,
    pub z: i32,
}

/// Chunk coordinates: the position of a chunk in the world grid.
pub type ChunkCoords = Vec3i;

/// Block coordinates: either world-absolute or local to one chunk.
pub type BlockCoords = Vec3i;

/// A 3D fixed-point vector (`FX_SCALE` units per block).
#[derive(Clone, Copy, PartialEq, Eq, Structural, Debug)]
pub struct Fx3 {
    pub x: i64,
    pub y: i64,
    pub z: i64,
}

impl Vec3i {
    pub open spec fn spec_new(x: i32, y: i32, z: i32) -> Vec3i {
        Vec3i { x, y, z }
    }

    #[verifier::when_used_as_spec(spec_new)]
    pub fn new(x: i32, y: i32, z: i32) -> (r: Vec3i)
        ensures
            r == Vec3i::spec_new(x, y, z),
    {
        Vec3i { x, y, z }
    }

    /// Whether this value is small enough to be used as a chunk coordinate.
    pub open spec fn in_chunk_bounds(self) -> bool {
        -CHUNK_COORD_BOUND <= self.x <= CHUNK_COORD_BOUND
            && -CHUNK_COORD_BOUND <= self.y <= CHUNK_COORD_BOUND
            && -CHUNK_COORD_BOUND <= self.z <= CHUNK_COORD_BOUND
    }

    /// Whether this value names a cell inside one chunk.
    pub open spec fn in_local_bounds(self) -> bool {
        0 <= self.x < CHUNK_SIZE && 0 <= self.y < CHUNK_SIZE && 0 <= self.z < CHUNK_SIZE
    }

    pub fn eq_coords(self, other: Vec3i) -> (r: bool)
        ensures
            r == (self == other),
    {
        self.x == other.x && self.y == other.y && self.z == other.z
    }
}

/// Mathematical squared distance between two integer vectors.
pub open spec fn dist2_vec3i(a: Vec3i, b: Vec3i) -> int {
    (a.x - b.x) * (a.x - b.x) + (a.y - b.y) * (a.y - b.y) + (a.z - b.z) * (a.z - b.z)
}

/// Mathematical squared distance between two fixed-point vectors.
pub open spec fn dist2_fx(a: Fx3, b: Fx3) -> int {
    (a.x - b.x) * (a.x - b.x) + (a.y - b.y) * (a.y - b.y) + (a.z - b.z) * (a.z - b.z)
}

/// Squared distance between two in-bounds chunk coordinates.
pub fn distance2(a: Vec3i, b: Vec3i) -> (r: i128)
    requires
        a.in_chunk_bounds(),
        b.in_chunk_bounds(),
    ensures
        r == dist2_vec3i(a, b),
{
    let dx: i64 = a.x as i64 - b.x as i64;
    let dy: i64 = a.y as i64 - b.y as i64;
    let dz: i64 = a.z as i64 - b.z as i64;
    proof {
        assert(dx * dx <= 0x40000000000000000 && dx * dx >= 0) by (nonlinear_arith)
            requires
                -0x100000000 <= dx <= 0x100000000,
        ;
        assert(dy * dy <= 0x40000000000000000 && dy * dy >= 0) by (nonlinear_arith)
            requires
                -0x100000000 <= dy <= 0x100000000,
        ;
        assert(dz * dz <= 0x40000000000000000 && dz * dz >= 0) by (nonlinear_arith)
            requires
                -0x100000000 <= dz <= 0x100000000,
        ;
    }
    dx as i128 * dx as i128 + dy as i128 * dy as i128 + dz as i128 * dz as i128
}

/// Largest magnitude a camera position relative to a chunk origin may have.
pub const FX_REL_BOUND: i64 = 0x4000000000;

impl Fx3 {
    /// Whether this value is small enough to be a camera position.
    pub open spec fn in_cam_bounds(self) -> bool {
        -FX_CAM_BOUND <= self.x <= FX_CAM_BOUND
            && -FX_CAM_BOUND <= self.y <= FX_CAM_BOUND
            && -FX_CAM_BOUND <= self.z <= FX_CAM_BOUND
    }

    /// Whether this value may stand for a chunk-relative camera position.
    pub open spec fn in_rel_bounds(self) -> bool {
        -FX_REL_BOUND <= self.x <= FX_REL_BOUND
            && -FX_REL_BOUND <= self.y <= FX_REL_BOUND
            && -FX_REL_BOUND <= self.z <= FX_REL_BOUND
    }
}

/// Squared distance between two bounded fixed-point positions.
pub fn distance2_fx(a: Fx3, b: Fx3) -> (r: i128)
    requires
        a.in_rel_bounds(),
        b.in_rel_bounds(),
    ensures
        r == dist2_fx(a, b),
{
    let dx: i64 = a.x - b.x;
    let dy: i64 = a.y - b.y;
    let dz: i64 = a.z - b.z;
    proof {
        assert(dx * dx <= 0x40000000000000000000 && dx * dx >= 0) by (nonlinear_arith)
            requires
                -0x8000000000 <= dx <= 0x8000000000,
        ;
        assert(dy * dy <= 0x40000000000000000000 && dy * dy >= 0) by (nonlinear_arith)
            requires
                -0x8000000000 <= dy <= 0x8000000000,
        ;
        assert(dz * dz <= 0x40000000000000000000 && dz * dz >= 0) by (nonlinear_arith)
            requires
                -0x8000000000 <= dz <= 0x8000000000,
        ;
    }
    dx as i128 * dx as i128 + dy as i128 * dy as i128 + dz as i128 * dz as i128
}

/// Split one axis value into a floor quotient and remainder for divisor 16.
fn split16(v: i32) -> (r: (i32, i32))
    requires
        -CHUNK_COORD_BOUND <= v <= CHUNK_COORD_BOUND,
    ensures
        r.0 * 16 + r.1 == v,
        0 <= r.1 < 16,
        -CHUNK_COORD_BOUND <= r.0 <= CHUNK_COORD_BOUND,
{
    let s: i32 = v + CHUNK_COORD_BOUND * 16;
    let q: i32 = s / 16;
    let rem: i32 = s % 16;
    proof {
        assert(s == 16 * (s / 16) + (s % 16) && 0 <= s % 16 < 16 && 0 <= s / 16)
            by (nonlinear_arith)
            requires
                0 <= s,
        ;
    }
    (q - CHUNK_COORD_BOUND, rem)
}

/// Split one fixed-point axis value into a floor quotient (a block
/// coordinate) and remainder for divisor `FX_SCALE`.
fn split_fx(v: i64) -> (r: (i32, i64))
    requires
        -FX_CAM_BOUND <= v <= FX_CAM_BOUND,
    ensures
        r.0 * FX_SCALE + r.1 == v,
        0 <= r.1 < FX_SCALE,
        -CHUNK_COORD_BOUND <= r.0 <= CHUNK_COORD_BOUND,
{
    let s: i64 = v + FX_CAM_BOUND * FX_SCALE;
    let q: i64 = s / FX_SCALE;
    let rem: i64 = s % FX_SCALE;
    proof {
        assert(s == 256 * (s / 256) + (s % 256) && 0 <= s % 256 < 256 && 0 <= s / 256)
            by (nonlinear_arith)
            requires
                0 <= s,
        ;
    }
    ((q - FX_CAM_BOUND) as i32, rem)
}

/// Convert world-absolute block coordinates to the owning chunk's
/// coordinates and the block's chunk-local coordinates.
pub fn to_local_chunk_coords(c: BlockCoords) -> (r: (ChunkCoords, BlockCoords))
    requires
        c.in_chunk_bounds(),
    ensures
        r.0.in_chunk_bounds(),
        r.1.in_local_bounds(),
        r.0.x * CHUNK_SIZE + r.1.x == c.x,
        r.0.y * CHUNK_SIZE + r.1.y == c.y,
        r.0.z * CHUNK_SIZE + r.1.z == c.z,
{
    let (qx, rx) = split16(c.x);
    let (qy, ry) = split16(c.y);
    let (qz, rz) = split16(c.z);
    (Vec3i::new(qx, qy, qz), Vec3i::new(rx, ry, rz))
}

/// Convert a fixed-point position to a world-absolute block coordinate
/// (floor of the position in blocks).
pub fn to_block_coords(p: Fx3) -> (r: BlockCoords)
    requires
        p.in_cam_bounds(),
    ensures
        r.in_chunk_bounds(),
        r.x * FX_SCALE <= p.x < r.x * FX_SCALE + FX_SCALE,
        r.y * FX_SCALE <= p.y < r.y * FX_SCALE + FX_SCALE,
        r.z * FX_SCALE <= p.z < r.z * FX_SCALE + FX_SCALE,
{
    let (bx, _) = split_fx(p.x);
    let (by, _) = split_fx(p.y);
    let (bz, _) = split_fx(p.z);
    Vec3i::new(bx, by, bz)
}

/// Both granularities of a camera position at once: the chunk that holds it
/// and the block that holds it.
pub fn get_chunk_and_block_coords(p: Fx3) -> (r: (ChunkCoords, BlockCoords))
    requires
        p.in_cam_bounds(),
    ensures
        r.1 == spec_block_coords_of(p),
        r.0 == spec_chunk_coords_of(p),
        r.0.in_chunk_bounds(),
        r.1.in_chunk_bounds(),
{
    let block = to_block_coords(p);
    let (chunk, _) = to_local_chunk_coords(block);
    proof {
        lemma_floor_unique(p.x as int, block.x as int);
        lemma_floor_unique(p.y as int, block.y as int);
        lemma_floor_unique(p.z as int, block.z as int);
        lemma_floor16_unique(block.x as int, chunk.x as int);
        lemma_floor16_unique(block.y as int, chunk.y as int);
        lemma_floor16_unique(block.z as int, chunk.z as int);
    }
    (chunk, block)
}

/// The block coordinate holding a fixed-point position, as a mathematical
/// floor per axis.
pub open spec fn spec_floor_div(v: int, d: int) -> int {
    v / d
}

pub open spec fn spec_block_coords_of(p: Fx3) -> BlockCoords {
    Vec3i {
        x: spec_floor_div(p.x as int, FX_SCALE as int) as i32,
        y: spec_floor_div(p.y as int, FX_SCALE as int) as i32,
        z: spec_floor_div(p.z as int, FX_SCALE as int) as i32,
    }
}

pub open spec fn spec_chunk_coords_of(p: Fx3) -> ChunkCoords {
    Vec3i {
        x: spec_floor_div(spec_block_coords_of(p).x as int, CHUNK_SIZE as int) as i32,
        y: spec_floor_div(spec_block_coords_of(p).y as int, CHUNK_SIZE as int) as i32,
        z: spec_floor_div(spec_block_coords_of(p).z as int, CHUNK_SIZE as int) as i32,
    }
}

/// A quotient that brackets `v` in a window of `FX_SCALE` is the floor
/// quotient.
pub proof fn lemma_floor_unique(v: int, q: int)
    requires
        q * 256 <= v < q * 256 + 256,
    ensures
        v / 256 == q,
{
    assert(v / 256 == q) by (nonlinear_arith)
        requires
            q * 256 <= v < q * 256 + 256,
    ;
}

/// A quotient that brackets `v` in a window of `CHUNK_SIZE` is the floor
/// quotient.
pub proof fn lemma_floor16_unique(v: int, q: int)
    requires
        q * 16 <= v < q * 16 + 16,
    ensures
        v / 16 == q,
{
    assert(v / 16 == q) by (nonlinear_arith)
        requires
            q * 16 <= v < q * 16 + 16,
    ;
}

/// The fixed-point world offset of a chunk's low corner.
pub fn to_chunk_offset(coords: ChunkCoords) -> (r: Fx3)
    requires
        coords.in_chunk_bounds(),
    ensures
        r.x == coords.x * CHUNK_FX_SIZE,
        r.y == coords.y * CHUNK_FX_SIZE,
        r.z == coords.z * CHUNK_FX_SIZE,
{
    proof {
        assert(forall|c: int|
            -0x1000000 <= c <= 0x1000000 ==> -0x1000000000 <= #[trigger] (c * 4096)
                <= 0x1000000000) by (nonlinear_arith);
    }
    Fx3 {
        x: coords.x as i64 * CHUNK_FX_SIZE,
        y: coords.y as i64 * CHUNK_FX_SIZE,
        z: coords.z as i64 * CHUNK_FX_SIZE,
    }
}

} // verus!
