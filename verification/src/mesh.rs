//! Mesh generation: turn a chunk's cells into opaque geometry, transparent
//! geometry and the transparent-face list, culling faces hidden by a
//! neighboring cell. A face against the chunk boundary counts as exposed,
//! matching the policy for unloaded neighbors.

use crate::blocks::{Block, Cell};
use crate::chunk::{cell_index, Chunk, CHUNK_VOLUME};
use crate::coords::{Fx3, Vec3i, CHUNK_SIZE, FX_SCALE};
use crate::rendering::{wf_water_faces, Face, Tex2, Vertex};
use vstd::prelude::*;

verus! {

/// The outward unit offset of face `d` of a cell, for `d` in `0..6`.
pub open spec fn dir_offset(d: int) -> Vec3i {
    if d == 0 {
        Vec3i { x: 1, y: 0, z: 0 }
    } else if d == 1 {
        Vec3i { x: -1i32, y: 0, z: 0 }
    } else if d == 2 {
        Vec3i { x: 0, y: 1, z: 0 }
    } else if d == 3 {
        Vec3i { x: 0, y: -1i32, z: 0 }
    } else if d == 4 {
        Vec3i { x: 0, y: 0, z: 1 }
    } else {
        Vec3i { x: 0, y: 0, z: -1i32 }
    }
}

/// The cell adjacent to face `d` of the cell at `c`.
pub open spec fn neighbor(c: Vec3i, d: int) -> Vec3i {
    Vec3i {
        x: (c.x + dir_offset(d).x) as i32,
        y: (c.y + dir_offset(d).y) as i32,
        z: (c.z + dir_offset(d).z) as i32,
    }
}

/// The block definition at a local coordinate.
pub open spec fn block_at(data: Seq<Cell>, c: Vec3i) -> Block {
    Block::spec_by_id(data[cell_index(c)].block_id)
}

/// A solid face shows when its neighbor is outside the chunk or not solid.
pub open spec fn solid_face_visible(data: Seq<Cell>, c: Vec3i, d: int) -> bool {
    block_at(data, c).solid && (!neighbor(c, d).in_local_bounds() || !block_at(
        data,
        neighbor(c, d),
    ).solid)
}

/// A water face shows when its neighbor is outside the chunk or neither
/// solid nor fluid.
pub open spec fn water_face_visible(data: Seq<Cell>, c: Vec3i, d: int) -> bool {
    block_at(data, c).fluid && (!neighbor(c, d).in_local_bounds() || (!block_at(
        data,
        neighbor(c, d),
    ).solid && !block_at(data, neighbor(c, d)).fluid))
}

/// Either face kind of a cell is visible.
pub open spec fn face_visible(data: Seq<Cell>, c: Vec3i, d: int) -> bool {
    solid_face_visible(data, c, d) || water_face_visible(data, c, d)
}

/// Some face of some cell of the chunk is visible.
pub open spec fn has_visible_geometry(data: Seq<Cell>) -> bool {
    exists|c: Vec3i, d: int|
        c.in_local_bounds() && 0 <= d < 6 && #[trigger] face_visible(data, c, d)
}

/// The geometry of one chunk: opaque vertices, transparent vertices, and
/// the transparent-face descriptors.
pub struct ChunkMeshes {
    pub solid_vertices: Vec<Vertex>,
    pub water_vertices: Vec<Vertex>,
    pub water_faces: Vec<Face>,
}

/// The outward offset of face `d`, as a runtime value.
fn dir_offset_exec(d: usize) -> (r: Vec3i)
    requires
        d < 6,
    ensures
        r == dir_offset(d as int),
{
    if d == 0 {
        Vec3i::new(1, 0, 0)
    } else if d == 1 {
        Vec3i::new(-1, 0, 0)
    } else if d == 2 {
        Vec3i::new(0, 1, 0)
    } else if d == 3 {
        Vec3i::new(0, -1, 0)
    } else if d == 4 {
        Vec3i::new(0, 0, 1)
    } else {
        Vec3i::new(0, 0, -1)
    }
}

/// Visibility of the solid and water face `d` of the cell at `c`.
fn face_visibility(chunk: &Chunk, c: Vec3i, d: usize) -> (r: (bool, bool))
    requires
        chunk.data@.len() == CHUNK_VOLUME,
        c.in_local_bounds(),
        d < 6,
    ensures
        r.0 == solid_face_visible(chunk.data@, c, d as int),
        r.1 == water_face_visible(chunk.data@, c, d as int),
{
    let b = chunk.get_cell(c).get_block();
    let off = dir_offset_exec(d);
    let n = Vec3i::new(c.x + off.x, c.y + off.y, c.z + off.z);
    let inb = 0 <= n.x && n.x < CHUNK_SIZE && 0 <= n.y && n.y < CHUNK_SIZE && 0 <= n.z && n.z
        < CHUNK_SIZE;
    proof {
        assert(n == neighbor(c, d as int));
        assert(inb == neighbor(c, d as int).in_local_bounds());
    }
    if inb {
        let nb = chunk.get_cell(n).get_block();
        (b.solid && !nb.solid, b.fluid && !nb.solid && !nb.fluid)
    } else {
        (b.solid, b.fluid)
    }
}

/// Append the four vertices of face `d` of the cell at `c`.
fn push_quad(verts: &mut Vec<Vertex>, c: Vec3i, d: usize)
    requires
        c.in_local_bounds(),
        d < 6,
    ensures
        final(verts)@.len() == old(verts)@.len() + 4,
{
    let off = dir_offset_exec(d);
    let bx: i32 = c.x + if off.x > 0 {
        1
    } else {
        0
    };
    let by: i32 = c.y + if off.y > 0 {
        1
    } else {
        0
    };
    let bz: i32 = c.z + if off.z > 0 {
        1
    } else {
        0
    };
    let base = Vec3i::new(bx, by, bz);
    let (ua, va) = if off.x != 0 {
        (Vec3i::new(0, 1, 0), Vec3i::new(0, 0, 1))
    } else if off.y != 0 {
        (Vec3i::new(1, 0, 0), Vec3i::new(0, 0, 1))
    } else {
        (Vec3i::new(1, 0, 0), Vec3i::new(0, 1, 0))
    };
    verts.push(Vertex { pos: base, tex: Tex2 { u: 0, v: 0 }, normal: off });
    verts.push(
        Vertex {
            pos: Vec3i::new(base.x + ua.x, base.y + ua.y, base.z + ua.z),
            tex: Tex2 { u: 1, v: 0 },
            normal: off,
        },
    );
    verts.push(
        Vertex {
            pos: Vec3i::new(base.x + va.x, base.y + va.y, base.z + va.z),
            tex: Tex2 { u: 0, v: 1 },
            normal: off,
        },
    );
    verts.push(
        Vertex {
            pos: Vec3i::new(base.x + ua.x + va.x, base.y + ua.y + va.y, base.z + ua.z + va.z),
            tex: Tex2 { u: 1, v: 1 },
            normal: off,
        },
    );
}

impl ChunkMeshes {
    /// Generate the chunk's geometry from its cells alone. The result is
    /// empty exactly when no face of the chunk is visible.
    pub fn generate(chunk: &Chunk) -> (r: ChunkMeshes)
        requires
            chunk.data@.len() == CHUNK_VOLUME,
        ensures
            r.solid_vertices@.len() % 4 == 0,
            r.water_vertices@.len() == 4 * r.water_faces@.len(),
            wf_water_faces(r.water_faces@),
            forall|i: int|
                0 <= i < r.water_faces@.len() ==> (#[trigger] r.water_faces@[i]).base_index == 4
                    * i && r.water_faces@[i].distance == 0,
            r.solid_vertices@.len() <= 0x60000,
            (r.solid_vertices@.len() == 0 && r.water_vertices@.len() == 0)
                <==> !has_visible_geometry(chunk.data@),
    {
        let mut sv: Vec<Vertex> = Vec::new();
        let mut wv: Vec<Vertex> = Vec::new();
        let mut wf: Vec<Face> = Vec::new();
        let mut x: i32 = 0;
        while x < CHUNK_SIZE
            invariant
                0 <= x <= CHUNK_SIZE,
                chunk.data@.len() == CHUNK_VOLUME,
                sv@.len() % 4 == 0,
                wv@.len() == 4 * wf@.len(),
                wf@.len() <= 0x10000,
                forall|i: int|
                    0 <= i < wf@.len() ==> (#[trigger] wf@[i]).base_index == 4 * i && wf@[i].distance
                        == 0 && 0 <= wf@[i].center.x <= 4096 && 0 <= wf@[i].center.y <= 4096 && 0
                        <= wf@[i].center.z <= 4096,
                (sv@.len() == 0 && wv@.len() == 0) ==> (forall|c: Vec3i, d: int|
                    c.in_local_bounds() && 0 <= d < 6 && c.x < x ==> !(#[trigger] face_visible(
                        chunk.data@,
                        c,
                        d,
                    ))),
                wf@.len() <= 6 * (x * 256),
                sv@.len() <= 24 * (x * 256),
                (sv@.len() > 0 || wv@.len() > 0) ==> has_visible_geometry(chunk.data@),
            decreases CHUNK_SIZE - x,
        {
            let mut y: i32 = 0;
            while y < CHUNK_SIZE
                invariant
                    0 <= x < CHUNK_SIZE,
                    0 <= y <= CHUNK_SIZE,
                    chunk.data@.len() == CHUNK_VOLUME,
                    sv@.len() % 4 == 0,
                    wv@.len() == 4 * wf@.len(),
                    wf@.len() <= 0x10000,
                    forall|i: int|
                        0 <= i < wf@.len() ==> (#[trigger] wf@[i]).base_index == 4 * i
                            && wf@[i].distance == 0 && 0 <= wf@[i].center.x <= 4096 && 0
                            <= wf@[i].center.y <= 4096 && 0 <= wf@[i].center.z <= 4096,
                    (sv@.len() == 0 && wv@.len() == 0) ==> (forall|c: Vec3i, d: int|
                        c.in_local_bounds() && 0 <= d < 6 && (c.x < x || (c.x == x && c.y < y))
                            ==> !(#[trigger] face_visible(chunk.data@, c, d))),
                    wf@.len() <= 6 * (x * 256 + y * 16),
                    sv@.len() <= 24 * (x * 256 + y * 16),
                    (sv@.len() > 0 || wv@.len() > 0) ==> has_visible_geometry(chunk.data@),
                decreases CHUNK_SIZE - y,
            {
                let mut z: i32 = 0;
                while z < CHUNK_SIZE
                    invariant
                        0 <= x < CHUNK_SIZE,
                        0 <= y < CHUNK_SIZE,
                        0 <= z <= CHUNK_SIZE,
                        chunk.data@.len() == CHUNK_VOLUME,
                        sv@.len() % 4 == 0,
                        wv@.len() == 4 * wf@.len(),
                        wf@.len() <= 0x10000,
                        forall|i: int|
                            0 <= i < wf@.len() ==> (#[trigger] wf@[i]).base_index == 4 * i
                                && wf@[i].distance == 0 && 0 <= wf@[i].center.x <= 4096 && 0
                                <= wf@[i].center.y <= 4096 && 0 <= wf@[i].center.z <= 4096,
                        (sv@.len() == 0 && wv@.len() == 0) ==> (forall|c: Vec3i, d: int|
                            c.in_local_bounds() && 0 <= d < 6 && (c.x < x || (c.x == x && c.y < y)
                                || (c.x == x && c.y == y && c.z < z)) ==> !(
                            #[trigger] face_visible(chunk.data@, c, d))),
                        wf@.len() <= 6 * (x * 256 + y * 16 + z),
                        sv@.len() <= 24 * (x * 256 + y * 16 + z),
                        (sv@.len() > 0 || wv@.len() > 0) ==> has_visible_geometry(chunk.data@),
                    decreases CHUNK_SIZE - z,
                {
                    let c = Vec3i::new(x, y, z);
                    let mut d: usize = 0;
                    while d < 6
                        invariant
                            0 <= x < CHUNK_SIZE,
                            0 <= y < CHUNK_SIZE,
                            0 <= z < CHUNK_SIZE,
                            c == (Vec3i { x, y, z }),
                            d <= 6,
                            chunk.data@.len() == CHUNK_VOLUME,
                            sv@.len() % 4 == 0,
                            wv@.len() == 4 * wf@.len(),
                            wf@.len() <= 0x10000,
                            forall|i: int|
                                0 <= i < wf@.len() ==> (#[trigger] wf@[i]).base_index == 4 * i
                                    && wf@[i].distance == 0 && 0 <= wf@[i].center.x <= 4096 && 0
                                    <= wf@[i].center.y <= 4096 && 0 <= wf@[i].center.z <= 4096,
                            (sv@.len() == 0 && wv@.len() == 0) ==> (forall|c2: Vec3i, d2: int|
                                c2.in_local_bounds() && 0 <= d2 < 6 && (c2.x < x || (c2.x == x
                                    && c2.y < y) || (c2.x == x && c2.y == y && c2.z < z)) ==> !(
                                #[trigger] face_visible(chunk.data@, c2, d2))),
                            (sv@.len() == 0 && wv@.len() == 0) ==> (forall|d2: int|
                                0 <= d2 < d ==> !(#[trigger] face_visible(chunk.data@, c, d2))),
                            wf@.len() <= 6 * (x * 256 + y * 16 + z) + d,
                            sv@.len() <= 24 * (x * 256 + y * 16 + z) + 4 * d,
                            (sv@.len() > 0 || wv@.len() > 0) ==> has_visible_geometry(
                                chunk.data@,
                            ),
                        decreases 6 - d,
                    {
                        let (svis, wvis) = face_visibility(chunk, c, d);
                        if svis {
                            push_quad(&mut sv, c, d);
                            proof {
                                assert(face_visible(chunk.data@, c, d as int));
                                assert(has_visible_geometry(chunk.data@));
                            }
                        }
                        if wvis {
                            proof {
                                assert(wf@.len() < 0x10000);
                            }
                            let base: u32 = (wf.len() as u32) * 4;
                            push_quad(&mut wv, c, d);
                            let center = Fx3 {
                                x: c.x as i64 * FX_SCALE + 128 + dir_offset_exec(d).x as i64 * 128,
                                y: c.y as i64 * FX_SCALE + 128 + dir_offset_exec(d).y as i64 * 128,
                                z: c.z as i64 * FX_SCALE + 128 + dir_offset_exec(d).z as i64 * 128,
                            };
                            wf.push(Face { base_index: base, center, distance: 0 });
                            proof {
                                assert(face_visible(chunk.data@, c, d as int));
                                assert(has_visible_geometry(chunk.data@));
                            }
                        }
                        d = d + 1;
                    }
                    z = z + 1;
                }
                y = y + 1;
            }
            x = x + 1;
        }
        proof {
            if sv@.len() == 0 && wv@.len() == 0 {
                assert forall|c: Vec3i, d: int|
                    c.in_local_bounds() && 0 <= d < 6 implies !(#[trigger] face_visible(
                    chunk.data@,
                    c,
                    d,
                )) by {
                    assert(c.x < CHUNK_SIZE);
                }
                assert(!has_visible_geometry(chunk.data@));
            }
            assert(wf_water_faces(wf@));
        }
        ChunkMeshes { solid_vertices: sv, water_vertices: wv, water_faces: wf }
    }
}

} // verus!
