//! Mesh data, transparent-face bookkeeping and the camera-relative
//! depth sort that keeps water geometry ordered back to front.

use crate::coords::{dist2_fx, distance2_fx, Fx3, Vec3i, CHUNK_FX_SIZE};
use crate::sorting::{lemma_contains_of_multiset_eq, lemma_multiset_transfer};
use vstd::multiset::Multiset;
use vstd::prelude::*;

verus! {

/// A texture coordinate pair on a block face corner.
#[derive(Clone, Copy, PartialEq, Eq, Structural, Debug)]
pub struct Tex2 {
    pub u: u8,
    pub v: u8,
}

/// One mesh vertex: a block-corner position, a texture corner and a
/// face normal.
#[derive(Clone, Copy, PartialEq, Eq, Structural, Debug)]
pub struct Vertex {
    pub pos: Vec3i,
    pub tex: Tex2,
    pub normal: Vec3i,
}

/// A transparent quad: where its vertices start in the vertex buffer, its
/// chunk-local center, and its camera-relative squared distance (recomputed
/// on every re-sort).
#[derive(Clone, Copy, PartialEq, Eq, Structural, Debug)]
pub struct Face {
    pub base_index: u32,
    pub center: Fx3,
    pub distance: i128,
}

/// The index pattern of one quad, relative to its first vertex.
pub open spec fn corner_index(j: int) -> u32 {
    if j == 0 {
        0u32
    } else if j == 1 {
        1u32
    } else if j == 2 {
        2u32
    } else if j == 3 {
        2u32
    } else if j == 4 {
        1u32
    } else {
        3u32
    }
}

proof fn lemma_div6(f: int, j: int)
    requires
        0 <= j < 6,
        0 <= f,
    ensures
        (6 * f + j) / 6 == f,
        (6 * f + j) % 6 == j,
{
    assert((6 * f + j) / 6 == f && (6 * f + j) % 6 == j) by (nonlinear_arith)
        requires
            0 <= j < 6,
            0 <= f,
    ;
}

impl Face {
    /// Quad indices for `face_count` quads laid out consecutively: quad `f`
    /// uses vertices `4f .. 4f+4`.
    pub fn generate_default_indices(face_count: usize) -> (r: Vec<u32>)
        requires
            face_count <= 0x0FFFFFFF,
        ensures
            r@.len() == face_count * 6,
            forall|k: int|
                0 <= k < r@.len() ==> r@[k] == corner_index(k % 6) + 4 * (k / 6),
    {
        let mut r: Vec<u32> = Vec::new();
        let mut f: usize = 0;
        while f < face_count
            invariant
                f <= face_count,
                face_count <= 0x0FFFFFFF,
                r@.len() == f * 6,
                forall|k: int|
                    0 <= k < r@.len() ==> r@[k] == corner_index(k % 6) + 4 * (k / 6),
            decreases face_count - f,
        {
            let base: u32 = (f as u32) * 4;
            r.push(base);
            r.push(base + 1);
            r.push(base + 2);
            r.push(base + 2);
            r.push(base + 1);
            r.push(base + 3);
            proof {
                lemma_div6(f as int, 0);
                lemma_div6(f as int, 1);
                lemma_div6(f as int, 2);
                lemma_div6(f as int, 3);
                lemma_div6(f as int, 4);
                lemma_div6(f as int, 5);
            }
            f = f + 1;
        }
        r
    }

    /// Quad indices for an explicitly ordered face list: quad `i` uses the
    /// pattern offset by its own `base_index`.
    pub fn generate_indices(faces: &Vec<Face>) -> (r: Vec<u32>)
        requires
            faces@.len() <= 0x0FFFFFFF,
            forall|i: int|
                0 <= i < faces@.len() ==> (#[trigger] faces@[i]).base_index <= 0x3FFFFFFC,
        ensures
            r@.len() == faces@.len() * 6,
            forall|k: int|
                0 <= k < r@.len() ==> r@[k] == corner_index(k % 6) + faces@[k / 6].base_index,
    {
        let mut r: Vec<u32> = Vec::new();
        let mut f: usize = 0;
        while f < faces.len()
            invariant
                f <= faces@.len(),
                faces@.len() <= 0x0FFFFFFF,
                forall|i: int|
                    0 <= i < faces@.len() ==> (#[trigger] faces@[i]).base_index <= 0x3FFFFFFC,
                r@.len() == f * 6,
                forall|k: int|
                    0 <= k < r@.len() ==> r@[k] == corner_index(k % 6) + faces@[k / 6].base_index,
            decreases faces@.len() - f,
        {
            let base: u32 = faces[f].base_index;
            r.push(base);
            r.push(base + 1);
            r.push(base + 2);
            r.push(base + 2);
            r.push(base + 1);
            r.push(base + 3);
            proof {
                lemma_div6(f as int, 0);
                lemma_div6(f as int, 1);
                lemma_div6(f as int, 2);
                lemma_div6(f as int, 3);
                lemma_div6(f as int, 4);
                lemma_div6(f as int, 5);
            }
            f = f + 1;
        }
        r
    }
}

/// Faces ordered by non-increasing squared distance (farthest first).
pub open spec fn faces_sorted_desc(s: Seq<Face>) -> bool {
    forall|i: int, j: int| 0 <= i < j < s.len() ==> s[i].distance >= s[j].distance
}

/// A face center lies within one chunk's fixed-point extent.
pub open spec fn face_center_in_chunk(c: Fx3) -> bool {
    0 <= c.x <= CHUNK_FX_SIZE && 0 <= c.y <= CHUNK_FX_SIZE && 0 <= c.z <= CHUNK_FX_SIZE
}

/// Well-formed transparent-face list: small enough to index with `u32`,
/// every base index within the vertex buffer, every center within the chunk.
pub open spec fn wf_water_faces(s: Seq<Face>) -> bool {
    &&& s.len() <= 0x0FFFFFFF
    &&& forall|i: int|
        0 <= i < s.len() ==> (#[trigger] s[i]).base_index + 4 <= 4 * s.len()
    &&& forall|i: int| 0 <= i < s.len() ==> face_center_in_chunk((#[trigger] s[i]).center)
}

/// The squared distance of a chunk-relative camera position to an in-chunk
/// face center fits comfortably in `i128`.
proof fn lemma_dist2_in_range(a: Fx3, b: Fx3)
    requires
        a.in_rel_bounds(),
        face_center_in_chunk(b),
    ensures
        0 <= dist2_fx(a, b) < 0x1000000000000000000000,
{
    assert((a.x - b.x) * (a.x - b.x) <= 0x40000000000000000000 && (a.x - b.x) * (a.x - b.x)
        >= 0) by (nonlinear_arith)
        requires
            -0x8000000000 <= a.x - b.x <= 0x8000000000,
    ;
    assert((a.y - b.y) * (a.y - b.y) <= 0x40000000000000000000 && (a.y - b.y) * (a.y - b.y)
        >= 0) by (nonlinear_arith)
        requires
            -0x8000000000 <= a.y - b.y <= 0x8000000000,
    ;
    assert((a.z - b.z) * (a.z - b.z) <= 0x40000000000000000000 && (a.z - b.z) * (a.z - b.z)
        >= 0) by (nonlinear_arith)
        requires
            -0x8000000000 <= a.z - b.z <= 0x8000000000,
    ;
}

/// Index of a face of maximal distance.
fn find_max_face(v: &Vec<Face>) -> (m: usize)
    requires
        v@.len() > 0,
    ensures
        m < v@.len(),
        forall|k: int| 0 <= k < v@.len() ==> v@[m as int].distance >= v@[k].distance,
{
    let mut m: usize = 0;
    let mut i: usize = 1;
    while i < v.len()
        invariant
            m < i <= v@.len(),
            forall|k: int| 0 <= k < i ==> v@[m as int].distance >= v@[k].distance,
        decreases v@.len() - i,
    {
        if v[i].distance > v[m].distance {
            m = i;
        }
        i = i + 1;
    }
    m
}

/// Sort faces by non-increasing distance; the contents are unchanged.
fn sort_faces_desc(v: &mut Vec<Face>)
    ensures
        final(v)@.len() == old(v)@.len(),
        final(v)@.to_multiset() == old(v)@.to_multiset(),
        faces_sorted_desc(final(v)@),
{
    broadcast use vstd::seq_lib::group_to_multiset_ensures;
    broadcast use vstd::multiset::group_multiset_axioms;

    let ghost orig = v@;
    let mut dst: Vec<Face> = Vec::new();
    proof {
        assert(dst@.to_multiset().add(v@.to_multiset()) =~= orig.to_multiset());
    }
    while v.len() > 0
        invariant
            dst@.to_multiset().add(v@.to_multiset()) == orig.to_multiset(),
            dst@.len() + v@.len() == orig.len(),
            faces_sorted_desc(dst@),
            forall|i: int, j: int|
                0 <= i < dst@.len() && 0 <= j < v@.len() ==> dst@[i].distance >= v@[j].distance,
        decreases v@.len(),
    {
        let ghost prev = v@;
        let ghost prev_dst = dst@;
        let m = find_max_face(v);
        let x = v.remove(m);
        proof {
            broadcast use vstd::seq_lib::group_to_multiset_ensures;
            broadcast use vstd::multiset::group_multiset_axioms;

            assert(prev.contains(x));
            assert(prev.to_multiset().count(x) > 0);
            lemma_multiset_transfer(prev_dst.to_multiset(), prev.to_multiset(), x);
            assert(prev.remove(m as int).to_multiset() =~= prev.to_multiset().remove(x));
            assert(v@.to_multiset() == prev.to_multiset().remove(x));
        }
        dst.push(x);
        proof {
            broadcast use vstd::seq_lib::group_to_multiset_ensures;
            broadcast use vstd::multiset::group_multiset_axioms;

            assert(prev_dst.push(x).to_multiset() =~= prev_dst.to_multiset().insert(x));
            assert(dst@.to_multiset() == prev_dst.to_multiset().insert(x));
            assert(dst@.to_multiset().add(v@.to_multiset()) == orig.to_multiset());
            assert(forall|j: int|
                0 <= j < v@.len() ==> #[trigger] v@[j].distance <= x.distance);
            assert forall|i: int, j: int|
                0 <= i < dst@.len() && 0 <= j < v@.len() implies dst@[i].distance
                >= v@[j].distance by {
                if i < prev_dst.len() {
                    assert(dst@[i] == prev_dst[i]);
                } else {
                    assert(dst@[i] == x);
                }
            }
        }
    }
    proof {
        assert(v@.to_multiset() =~= Multiset::<Face>::empty());
        assert(dst@.to_multiset() =~= orig.to_multiset());
    }
    *v = dst;
}

/// A mesh: its vertices and its index buffer.
pub struct ChunkMesh {
    pub vertices: Vec<Vertex>,
    pub indices: Vec<u32>,
}

impl ChunkMesh {
    pub fn new(vertices: Vec<Vertex>, indices: Vec<u32>) -> (r: ChunkMesh)
        ensures
            r.vertices == vertices,
            r.indices == indices,
    {
        ChunkMesh { vertices, indices }
    }

    pub fn index_count(&self) -> (r: usize)
        ensures
            r == self.indices@.len(),
    {
        self.indices.len()
    }
}

/// The mutable portion of a chunk's graphics: its transparent faces and
/// the flag that marks them as needing a re-sort.
pub struct ChunkGraphicsData {
    pub water_faces: Vec<Face>,
    pub water_faces_unsorted: bool,
}

/// Renderable data of one chunk: the opaque mesh, the transparent mesh,
/// the chunk's fixed-point world offset, and the transparent-face state.
pub struct ChunkGraphics {
    pub solid_mesh: ChunkMesh,
    pub water_mesh: ChunkMesh,
    pub offset: Fx3,
    pub graphics_data: ChunkGraphicsData,
}

/// The same face with its distance recomputed against `p`.
pub open spec fn with_distance(f: Face, p: Fx3) -> Face {
    Face { base_index: f.base_index, center: f.center, distance: dist2_fx(p, f.center) as i128 }
}

impl ChunkGraphics {
    /// Whether this chunk's graphics are well formed.
    pub open spec fn wf(self) -> bool {
        &&& wf_water_faces(self.graphics_data.water_faces@)
        &&& self.water_mesh.vertices@.len() == 4 * self.graphics_data.water_faces@.len()
    }

    /// This chunk's transparent faces.
    pub open spec fn faces(self) -> Seq<Face> {
        self.graphics_data.water_faces@
    }

    /// Whether the transparent faces must be re-sorted before drawing.
    pub fn needs_water_faces_sorting(&self) -> (r: bool)
        ensures
            r == self.graphics_data.water_faces_unsorted,
    {
        self.graphics_data.water_faces_unsorted
    }

    /// Recompute every transparent face's squared distance to the
    /// chunk-relative camera position, order the faces farthest first, and
    /// rebuild the transparent index buffer in that order.
    pub fn sort_water_geometry(&mut self, relative_cam_pos: Fx3)
        requires
            relative_cam_pos.in_rel_bounds(),
            old(self).wf(),
        ensures
            final(self).wf(),
            final(self).faces().len() == old(self).faces().len(),
            final(self).faces().to_multiset() == old(self).faces().map_values(
                |f: Face| with_distance(f, relative_cam_pos),
            ).to_multiset(),
            forall|i: int|
                0 <= i < final(self).faces().len() ==> (#[trigger] final(self).faces()[i]).distance
                    == dist2_fx(relative_cam_pos, final(self).faces()[i].center),
            faces_sorted_desc(final(self).faces()),
            final(self).graphics_data.water_faces_unsorted == false,
            final(self).water_mesh.indices@.len() == 6 * final(self).faces().len(),
            forall|k: int|
                0 <= k < final(self).water_mesh.indices@.len() ==> final(self).water_mesh.indices@[k]
                    == corner_index(k % 6) + final(self).faces()[k / 6].base_index,
            final(self).solid_mesh == old(self).solid_mesh,
            final(self).water_mesh.vertices == old(self).water_mesh.vertices,
            final(self).offset == old(self).offset,
    {
        let ghost orig = self.graphics_data.water_faces@;
        let ghost mapped = orig.map_values(|f: Face| with_distance(f, relative_cam_pos));
        let n = self.graphics_data.water_faces.len();
        let mut i: usize = 0;
        while i < n
            invariant
                n == self.graphics_data.water_faces@.len(),
                n == orig.len(),
                i <= n,
                relative_cam_pos.in_rel_bounds(),
                wf_water_faces(orig),
                forall|j: int|
                    0 <= j < i ==> self.graphics_data.water_faces@[j] == with_distance(
                        orig[j],
                        relative_cam_pos,
                    ),
                forall|j: int| i <= j < n ==> self.graphics_data.water_faces@[j] == orig[j],
                self.solid_mesh == old(self).solid_mesh,
                self.water_mesh == old(self).water_mesh,
                self.offset == old(self).offset,
                self.graphics_data.water_faces_unsorted == old(self).graphics_data.water_faces_unsorted,
            decreases n - i,
        {
            let center = self.graphics_data.water_faces[i].center;
            proof {
                assert(face_center_in_chunk(orig[i as int].center));
            }
            let d = distance2_fx(relative_cam_pos, center);
            proof {
                lemma_dist2_in_range(relative_cam_pos, center);
            }
            self.graphics_data.water_faces[i].distance = d;
            i = i + 1;
        }
        proof {
            assert(self.graphics_data.water_faces@ =~= mapped);
        }
        sort_faces_desc(&mut self.graphics_data.water_faces);
        proof {
            lemma_contains_of_multiset_eq(self.graphics_data.water_faces@, mapped);
            assert forall|j: int|
                0 <= j < self.graphics_data.water_faces@.len() implies {
                &&& (#[trigger] self.graphics_data.water_faces@[j]).distance == dist2_fx(
                    relative_cam_pos,
                    self.graphics_data.water_faces@[j].center,
                )
                &&& self.graphics_data.water_faces@[j].base_index + 4 <= 4
                    * self.graphics_data.water_faces@.len()
                &&& face_center_in_chunk(self.graphics_data.water_faces@[j].center)
            } by {
                let x = self.graphics_data.water_faces@[j];
                assert(self.graphics_data.water_faces@.contains(x));
                assert(mapped.contains(x));
                let k = choose|k: int| 0 <= k < mapped.len() && mapped[k] == x;
                assert(x == with_distance(orig[k], relative_cam_pos));
                assert(face_center_in_chunk(orig[k].center));
                lemma_dist2_in_range(relative_cam_pos, orig[k].center);
            }
        }
        let indices = Face::generate_indices(&self.graphics_data.water_faces);
        self.water_mesh.indices = indices;
        self.graphics_data.water_faces_unsorted = false;
    }
}

} // verus!
