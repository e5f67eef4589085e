//! Deterministic terrain generation: every cell of a chunk is a pure
//! function of the generator seed and the chunk's coordinates.

use crate::blocks::{BlockId, Cell};
use crate::chunk::{cell_index, Chunk, CHUNK_VOLUME};
use crate::coords::{ChunkCoords, Vec3i, CHUNK_SIZE};
use vstd::prelude::*;

verus! {

/// World height below which empty columns fill with water.
pub const SEA_LEVEL: i32 = 4;

/// The terrain generator; its seed fixes the whole world.
#[derive(Clone, Copy, PartialEq, Eq, Structural, Debug)]
pub struct Generator {
    pub seed: u64,
}

/// Terrain surface height of a world column, between 1 and 7.
pub open spec fn spec_height(seed: u64, wx: int, wz: int) -> int {
    1 + (wx + 2 * wz + (seed as int) % 1024 + 0x40000000) % 7
}

/// The block generated at a world-absolute position.
pub open spec fn generated_block(seed: u64, wx: int, wy: int, wz: int) -> BlockId {
    if wy < spec_height(seed, wx, wz) {
        BlockId::Stone
    } else if wy < SEA_LEVEL {
        BlockId::Water
    } else {
        BlockId::Air
    }
}

/// The cell generated at a world-absolute position: the generated block,
/// with both light channels left for the lighting pass.
pub open spec fn generated_cell(seed: u64, wx: int, wy: int, wz: int) -> Cell {
    Cell { block_id: generated_block(seed, wx, wy, wz), sun_light: 0, block_light: 0 }
}

/// A chunk whose every cell is the generated cell for its position.
pub open spec fn chunk_generated(data: Seq<Cell>, seed: u64, coords: ChunkCoords) -> bool {
    forall|c: Vec3i|
        c.in_local_bounds() ==> data[cell_index(c)] == generated_cell(
            seed,
            coords.x * CHUNK_SIZE + c.x,
            coords.y * CHUNK_SIZE + c.y,
            coords.z * CHUNK_SIZE + c.z,
        )
}

impl Generator {
    pub fn new(seed: u64) -> (r: Generator)
        ensures
            r.seed == seed,
    {
        Generator { seed }
    }

    /// The generated block at a world-absolute position, as a runtime value.
    pub fn block_at(&self, wx: i32, wy: i32, wz: i32) -> (r: BlockId)
        requires
            -0x10000010 <= wx <= 0x10000010,
            -0x10000010 <= wz <= 0x10000010,
        ensures
            r == generated_block(self.seed, wx as int, wy as int, wz as int),
    {
        let t: i64 = wx as i64 + 2 * wz as i64 + (self.seed % 1024) as i64 + 0x40000000;
        proof {
            assert(t == 7 * (t / 7) + (t % 7) && 0 <= t % 7 < 7) by (nonlinear_arith)
                requires
                    0 <= t,
            ;
        }
        let h: i64 = 1 + t % 7;
        if (wy as i64) < h {
            BlockId::Stone
        } else if wy < SEA_LEVEL {
            BlockId::Water
        } else {
            BlockId::Air
        }
    }

    /// Fill every cell of the chunk from the seed and the chunk position.
    /// The status tag and graphics handle are untouched.
    pub fn generate_chunk(&self, chunk: &mut Chunk, coords: ChunkCoords)
        requires
            old(chunk).data@.len() == CHUNK_VOLUME,
            coords.in_chunk_bounds(),
        ensures
            final(chunk).data@.len() == CHUNK_VOLUME,
            chunk_generated(final(chunk).data@, self.seed, coords),
            final(chunk).status == old(chunk).status,
            final(chunk).graphics == old(chunk).graphics,
    {
        let mut x: i32 = 0;
        while x < CHUNK_SIZE
            invariant
                0 <= x <= CHUNK_SIZE,
                coords.in_chunk_bounds(),
                chunk.data@.len() == CHUNK_VOLUME,
                chunk.status == old(chunk).status,
                chunk.graphics == old(chunk).graphics,
                forall|c: Vec3i|
                    c.in_local_bounds() && c.x < x ==> chunk.data@[cell_index(c)]
                        == generated_cell(
                        self.seed,
                        coords.x * CHUNK_SIZE + c.x,
                        coords.y * CHUNK_SIZE + c.y,
                        coords.z * CHUNK_SIZE + c.z,
                    ),
            decreases CHUNK_SIZE - x,
        {
            let mut y: i32 = 0;
            while y < CHUNK_SIZE
                invariant
                    0 <= x < CHUNK_SIZE,
                    0 <= y <= CHUNK_SIZE,
                    coords.in_chunk_bounds(),
                    chunk.data@.len() == CHUNK_VOLUME,
                    chunk.status == old(chunk).status,
                    chunk.graphics == old(chunk).graphics,
                    forall|c: Vec3i|
                        c.in_local_bounds() && c.x < x ==> chunk.data@[cell_index(c)]
                            == generated_cell(
                            self.seed,
                            coords.x * CHUNK_SIZE + c.x,
                            coords.y * CHUNK_SIZE + c.y,
                            coords.z * CHUNK_SIZE + c.z,
                        ),
                    forall|c: Vec3i|
                        c.in_local_bounds() && c.x == x && c.y < y ==> chunk.data@[cell_index(c)]
                            == generated_cell(
                            self.seed,
                            coords.x * CHUNK_SIZE + c.x,
                            coords.y * CHUNK_SIZE + c.y,
                            coords.z * CHUNK_SIZE + c.z,
                        ),
                decreases CHUNK_SIZE - y,
            {
                let mut z: i32 = 0;
                while z < CHUNK_SIZE
                    invariant
                        0 <= x < CHUNK_SIZE,
                        0 <= y < CHUNK_SIZE,
                        0 <= z <= CHUNK_SIZE,
                        coords.in_chunk_bounds(),
                        chunk.data@.len() == CHUNK_VOLUME,
                        chunk.status == old(chunk).status,
                        chunk.graphics == old(chunk).graphics,
                        forall|c: Vec3i|
                            c.in_local_bounds() && c.x < x ==> chunk.data@[cell_index(c)]
                                == generated_cell(
                                self.seed,
                                coords.x * CHUNK_SIZE + c.x,
                                coords.y * CHUNK_SIZE + c.y,
                                coords.z * CHUNK_SIZE + c.z,
                            ),
                        forall|c: Vec3i|
                            c.in_local_bounds() && c.x == x && c.y < y ==> chunk.data@[cell_index(
                                c,
                            )] == generated_cell(
                                self.seed,
                                coords.x * CHUNK_SIZE + c.x,
                                coords.y * CHUNK_SIZE + c.y,
                                coords.z * CHUNK_SIZE + c.z,
                            ),
                        forall|c: Vec3i|
                            c.in_local_bounds() && c.x == x && c.y == y && c.z < z
                                ==> chunk.data@[cell_index(c)] == generated_cell(
                                self.seed,
                                coords.x * CHUNK_SIZE + c.x,
                                coords.y * CHUNK_SIZE + c.y,
                                coords.z * CHUNK_SIZE + c.z,
                            ),
                    decreases CHUNK_SIZE - z,
                {
                    let wx: i32 = coords.x * CHUNK_SIZE + x;
                    let wy: i32 = coords.y * CHUNK_SIZE + y;
                    let wz: i32 = coords.z * CHUNK_SIZE + z;
                    let id = self.block_at(wx, wy, wz);
                    let local = Vec3i::new(x, y, z);
                    chunk.set_cell(local, Cell { block_id: id, sun_light: 0, block_light: 0 });
                    z = z + 1;
                }
                y = y + 1;
            }
            x = x + 1;
        }
    }
}

} // verus!
