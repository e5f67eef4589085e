//! The lighting pass: sun light falls straight down within a chunk, so a
//! cell is lit exactly when nothing solid stands in its column above it.
//! Cross-chunk contribution is skipped, as for any unloaded neighbor.

use crate::blocks::{Block, Cell, MAX_LIGHT_LEVEL};
use crate::chunk::{cell_index, Chunk, CHUNK_VOLUME};
use crate::coords::{Vec3i, CHUNK_SIZE};
use vstd::prelude::*;

verus! {

/// Nothing solid at or above local height `y` in the column `(x, z)`.
pub open spec fn column_open(data: Seq<Cell>, x: int, y: int, z: int) -> bool {
    forall|y2: int|
        y <= y2 < CHUNK_SIZE ==> !Block::spec_by_id(
            (#[trigger] data[cell_index(Vec3i { x: x as i32, y: y2 as i32, z: z as i32 })]).block_id,
        ).solid
}

/// The sun-light value a cell receives.
pub open spec fn spec_sun_light(data: Seq<Cell>, c: Vec3i) -> u8 {
    if column_open(data, c.x as int, c.y as int, c.z as int) {
        MAX_LIGHT_LEVEL
    } else {
        0
    }
}

/// A chunk's light channels agree with the lighting rule for its blocks.
pub open spec fn chunk_lit(data: Seq<Cell>) -> bool {
    forall|c: Vec3i|
        c.in_local_bounds() ==> {
            &&& (#[trigger] data[cell_index(c)]).sun_light == spec_sun_light(data, c)
            &&& data[cell_index(c)].block_light == 0
        }
}

/// Whether a column is open depends only on the block ids.
proof fn lemma_column_open_same(a: Seq<Cell>, b: Seq<Cell>, x: int, y: int, z: int)
    requires
        a.len() == CHUNK_VOLUME,
        b.len() == CHUNK_VOLUME,
        0 <= x < CHUNK_SIZE,
        0 <= y,
        0 <= z < CHUNK_SIZE,
        forall|c: Vec3i|
            c.in_local_bounds() ==> (#[trigger] a[cell_index(c)]).block_id == b[cell_index(
                c,
            )].block_id,
    ensures
        column_open(a, x, y, z) == column_open(b, x, y, z),
{
    if column_open(a, x, y, z) {
        assert forall|y2: int| y <= y2 < CHUNK_SIZE implies !Block::spec_by_id(
            (#[trigger] b[cell_index(Vec3i { x: x as i32, y: y2 as i32, z: z as i32 })]).block_id,
        ).solid by {
            let c = Vec3i { x: x as i32, y: y2 as i32, z: z as i32 };
            assert(c.in_local_bounds());
            assert(a[cell_index(c)].block_id == b[cell_index(c)].block_id);
        }
    }
    if column_open(b, x, y, z) {
        assert forall|y2: int| y <= y2 < CHUNK_SIZE implies !Block::spec_by_id(
            (#[trigger] a[cell_index(Vec3i { x: x as i32, y: y2 as i32, z: z as i32 })]).block_id,
        ).solid by {
            let c = Vec3i { x: x as i32, y: y2 as i32, z: z as i32 };
            assert(c.in_local_bounds());
            assert(a[cell_index(c)].block_id == b[cell_index(c)].block_id);
        }
    }
}

/// Every flat index below the chunk volume is the cell index of exactly
/// one local coordinate.
pub proof fn lemma_cell_index_covers(i: int)
    requires
        0 <= i < CHUNK_VOLUME,
    ensures
        (Vec3i {
            x: (i / 256) as i32,
            y: ((i / 16) % 16) as i32,
            z: (i % 16) as i32,
        }).in_local_bounds(),
        cell_index(
            Vec3i { x: (i / 256) as i32, y: ((i / 16) % 16) as i32, z: (i % 16) as i32 },
        ) == i,
{
    assert(0 <= i / 256 < 16 && 0 <= (i / 16) % 16 < 16 && 0 <= i % 16 < 16 && (i / 256) * 256 + ((
    i / 16) % 16) * 16 + (i % 16) == i) by (nonlinear_arith)
        requires
            0 <= i < 4096,
    ;
}

/// Recompute both light channels of every cell from the block data alone;
/// the block data, status tag and graphics handle are untouched.
pub fn recalculate_light(chunk: &mut Chunk)
    requires
        old(chunk).data@.len() == CHUNK_VOLUME,
    ensures
        final(chunk).data@.len() == CHUNK_VOLUME,
        forall|c: Vec3i|
            c.in_local_bounds() ==> (#[trigger] final(chunk).data@[cell_index(c)]).block_id == old(chunk).data@[cell_index(c)].block_id,
        chunk_lit(final(chunk).data@),
        forall|i: int| 0 <= i < CHUNK_VOLUME ==> (#[trigger] final(chunk).data@[i]).wf(),
        final(chunk).status == old(chunk).status,
        final(chunk).graphics == old(chunk).graphics,
{
    let ghost orig = old(chunk).data@;
    let mut x: i32 = 0;
    while x < CHUNK_SIZE
        invariant
            0 <= x <= CHUNK_SIZE,
            chunk.data@.len() == CHUNK_VOLUME,
            chunk.status == old(chunk).status,
            chunk.graphics == old(chunk).graphics,
            forall|c: Vec3i|
                c.in_local_bounds() ==> (#[trigger] chunk.data@[cell_index(c)]).block_id
                    == orig[cell_index(c)].block_id,
            forall|c: Vec3i|
                c.in_local_bounds() && c.x < x ==> {
                    &&& (#[trigger] chunk.data@[cell_index(c)]).sun_light == spec_sun_light(
                        orig,
                        c,
                    )
                    &&& chunk.data@[cell_index(c)].block_light == 0
                    &&& chunk.data@[cell_index(c)].wf()
                },
        decreases CHUNK_SIZE - x,
    {
        let mut z: i32 = 0;
        while z < CHUNK_SIZE
            invariant
                0 <= x < CHUNK_SIZE,
                0 <= z <= CHUNK_SIZE,
                chunk.data@.len() == CHUNK_VOLUME,
                chunk.status == old(chunk).status,
                chunk.graphics == old(chunk).graphics,
                forall|c: Vec3i|
                    c.in_local_bounds() ==> (#[trigger] chunk.data@[cell_index(c)]).block_id
                        == orig[cell_index(c)].block_id,
                forall|c: Vec3i|
                    c.in_local_bounds() && (c.x < x || (c.x == x && c.z < z)) ==> {
                        &&& (#[trigger] chunk.data@[cell_index(c)]).sun_light == spec_sun_light(
                            orig,
                            c,
                        )
                        &&& chunk.data@[cell_index(c)].block_light == 0
                        &&& chunk.data@[cell_index(c)].wf()
                    },
            decreases CHUNK_SIZE - z,
        {
            let mut y: i32 = CHUNK_SIZE - 1;
            let mut open: bool = true;
            while y >= 0
                invariant
                    0 <= x < CHUNK_SIZE,
                    0 <= z < CHUNK_SIZE,
                    -1 <= y < CHUNK_SIZE,
                    chunk.data@.len() == CHUNK_VOLUME,
                    chunk.status == old(chunk).status,
                    chunk.graphics == old(chunk).graphics,
                    open == column_open(orig, x as int, y + 1, z as int),
                    forall|c: Vec3i|
                        c.in_local_bounds() ==> (#[trigger] chunk.data@[cell_index(c)]).block_id
                            == orig[cell_index(c)].block_id,
                    forall|c: Vec3i|
                        c.in_local_bounds() && (c.x < x || (c.x == x && c.z < z) || (c.x == x
                            && c.z == z && c.y > y)) ==> {
                            &&& (#[trigger] chunk.data@[cell_index(c)]).sun_light
                                == spec_sun_light(orig, c)
                            &&& chunk.data@[cell_index(c)].block_light == 0
                            &&& chunk.data@[cell_index(c)].wf()
                        },
                decreases y + 1,
            {
                let c = Vec3i::new(x, y, z);
                let cell = chunk.get_cell(c);
                let solid = cell.get_block().solid;
                let new_open = open && !solid;
                proof {
                    assert(cell.block_id == orig[cell_index(c)].block_id);
                    let gx = x as int;
                    let gy = y as int;
                    let gz = z as int;
                    if new_open {
                        assert forall|y2: int| gy <= y2 < CHUNK_SIZE implies !Block::spec_by_id(
                            (#[trigger] orig[cell_index(
                                Vec3i { x: gx as i32, y: y2 as i32, z: gz as i32 },
                            )]).block_id,
                        ).solid by {
                            if y2 == gy {
                                assert(Vec3i { x: gx as i32, y: y2 as i32, z: gz as i32 } == c);
                            } else {
                                assert(column_open(orig, gx, gy + 1, gz));
                            }
                        }
                        assert(column_open(orig, gx, gy, gz));
                    } else if solid {
                        assert(Block::spec_by_id(
                            orig[cell_index(Vec3i { x: gx as i32, y: gy as i32, z: gz as i32 })].block_id,
                        ).solid);
                        assert(!column_open(orig, gx, gy, gz));
                    } else {
                        assert(!column_open(orig, gx, gy + 1, gz));
                        let y2 = choose|y2: int|
                            gy + 1 <= y2 < CHUNK_SIZE && Block::spec_by_id(
                                (#[trigger] orig[cell_index(
                                    Vec3i { x: gx as i32, y: y2 as i32, z: gz as i32 },
                                )]).block_id,
                            ).solid;
                        assert(gy <= y2 < CHUNK_SIZE && Block::spec_by_id(
                            orig[cell_index(
                                Vec3i { x: gx as i32, y: y2 as i32, z: gz as i32 },
                            )].block_id,
                        ).solid);
                        assert(!column_open(orig, gx, gy, gz));
                    }
                    assert(new_open == column_open(orig, gx, gy, gz));
                }
                let light: u8 = if new_open {
                    MAX_LIGHT_LEVEL
                } else {
                    0
                };
                chunk.set_cell(
                    c,
                    Cell { block_id: cell.block_id, sun_light: light, block_light: 0 },
                );
                open = new_open;
                y = y - 1;
            }
            z = z + 1;
        }
        x = x + 1;
    }
    proof {
        assert forall|c: Vec3i| c.in_local_bounds() implies {
            &&& (#[trigger] chunk.data@[cell_index(c)]).sun_light == spec_sun_light(
                chunk.data@,
                c,
            )
            &&& chunk.data@[cell_index(c)].block_light == 0
        } by {
            lemma_column_open_same(orig, chunk.data@, c.x as int, c.y as int, c.z as int);
        }
        assert forall|i: int| 0 <= i < CHUNK_VOLUME implies (#[trigger] chunk.data@[i]).wf() by {
            lemma_cell_index_covers(i);
            let c = Vec3i { x: (i / 256) as i32, y: ((i / 16) % 16) as i32, z: (i % 16) as i32 };
            assert(chunk.data@[cell_index(c)].wf());
        }
    }
}

} // verus!
