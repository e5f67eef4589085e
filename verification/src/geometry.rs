//! Axis-aligned boxes, view-frustum planes, and the exact integer
//! box-against-frustum visibility test used to clip the chunk queue.

use crate::coords::{to_chunk_offset, ChunkCoords, Fx3, CHUNK_FX_SIZE};
use vstd::prelude::*;

verus! {

/// Largest magnitude a plane normal coefficient may have.
pub const PLANE_COEF_BOUND: i64 = 0x40000000;

/// Largest magnitude a plane offset may have.
pub const PLANE_D_BOUND: i64 = 0x1000000000000000;

/// Largest magnitude an axis-aligned box corner may have.
pub const AABB_BOUND: i64 = 0x2000000000;

/// A half-space: the set of positions `p` with
/// `a*p.x + b*p.y + c*p.z + d >= 0`.
#[derive(Clone, Copy, PartialEq, Eq, Structural, Debug)]
pub struct Plane {
    pub a: i64,
    pub b: i64,
    pub c: i64,
    pub d: i64,
}

impl Plane {
    pub open spec fn wf(self) -> bool {
        &&& -PLANE_COEF_BOUND <= self.a <= PLANE_COEF_BOUND
        &&& -PLANE_COEF_BOUND <= self.b <= PLANE_COEF_BOUND
        &&& -PLANE_COEF_BOUND <= self.c <= PLANE_COEF_BOUND
        &&& -PLANE_D_BOUND <= self.d <= PLANE_D_BOUND
    }

    /// Signed evaluation of the plane at a position.
    pub open spec fn eval(self, p: Fx3) -> int {
        self.a * p.x + self.b * p.y + self.c * p.z + self.d
    }
}

/// An axis-aligned box given by its low corner and its (non-negative)
/// extent.
#[derive(Clone, Copy, PartialEq, Eq, Structural, Debug)]
pub struct Aabb {
    pub start: Fx3,
    pub size: Fx3,
}

impl Aabb {
    pub open spec fn wf(self) -> bool {
        &&& -AABB_BOUND <= self.start.x <= AABB_BOUND
        &&& -AABB_BOUND <= self.start.y <= AABB_BOUND
        &&& -AABB_BOUND <= self.start.z <= AABB_BOUND
        &&& 0 <= self.size.x <= CHUNK_FX_SIZE
        &&& 0 <= self.size.y <= CHUNK_FX_SIZE
        &&& 0 <= self.size.z <= CHUNK_FX_SIZE
    }

    /// Corner `k` of the box, for `k` in `0..8`, low corner first.
    pub open spec fn corner(self, k: int) -> Fx3 {
        Fx3 {
            x: if k % 2 == 1 {
                (self.start.x + self.size.x) as i64
            } else {
                self.start.x
            },
            y: if (k / 2) % 2 == 1 {
                (self.start.y + self.size.y) as i64
            } else {
                self.start.y
            },
            z: if (k / 4) % 2 == 1 {
                (self.start.z + self.size.z) as i64
            } else {
                self.start.z
            },
        }
    }
}

/// The axis-aligned box covered by the chunk at the given coordinates.
pub fn chunk_aabb(coords: ChunkCoords) -> (r: Aabb)
    requires
        coords.in_chunk_bounds(),
    ensures
        r == spec_chunk_aabb(coords),
        r.wf(),
{
    let start = to_chunk_offset(coords);
    Aabb { start, size: Fx3 { x: CHUNK_FX_SIZE, y: CHUNK_FX_SIZE, z: CHUNK_FX_SIZE } }
}

pub open spec fn spec_chunk_aabb(coords: ChunkCoords) -> Aabb {
    Aabb {
        start: Fx3 {
            x: (coords.x * CHUNK_FX_SIZE) as i64,
            y: (coords.y * CHUNK_FX_SIZE) as i64,
            z: (coords.z * CHUNK_FX_SIZE) as i64,
        },
        size: Fx3 { x: CHUNK_FX_SIZE, y: CHUNK_FX_SIZE, z: CHUNK_FX_SIZE },
    }
}

/// A view frustum as six inward-facing half-space planes.
#[derive(Debug)]
pub struct Frustrum {
    pub planes: Vec<Plane>,
}

/// A box is rejected by a plane when every corner lies strictly outside
/// its half-space.
pub open spec fn aabb_outside_plane(plane: Plane, aabb: Aabb) -> bool {
    forall|k: int| 0 <= k < 8 ==> plane.eval(aabb.corner(k)) < 0
}

/// Conservative box-against-frustum test: the box intersects unless some
/// plane rejects it whole.
pub open spec fn spec_intersects(planes: Seq<Plane>, aabb: Aabb) -> bool {
    forall|p: int| 0 <= p < planes.len() ==> !aabb_outside_plane(planes[p], aabb)
}

impl Frustrum {
    pub open spec fn wf(self) -> bool {
        &&& self.planes@.len() == 6
        &&& forall|p: int| 0 <= p < self.planes@.len() ==> (#[trigger] self.planes@[p]).wf()
    }

    pub fn new(planes: Vec<Plane>) -> (r: Frustrum)
        ensures
            r.planes == planes,
    {
        Frustrum { planes }
    }

    /// Whether the box may be visible through this frustum.
    pub fn intersects_with_aabb(&self, aabb: &Aabb) -> (r: bool)
        requires
            self.wf(),
            aabb.wf(),
        ensures
            r == spec_intersects(self.planes@, *aabb),
    {
        let mut p: usize = 0;
        while p < self.planes.len()
            invariant
                self.wf(),
                aabb.wf(),
                p <= self.planes@.len(),
                forall|q: int| 0 <= q < p ==> !aabb_outside_plane(self.planes@[q], *aabb),
            decreases self.planes@.len() - p,
        {
            let plane = self.planes[p];
            let mut all_out = true;
            let mut k: usize = 0;
            while k < 8
                invariant
                    plane.wf(),
                    aabb.wf(),
                    k <= 8,
                    all_out == forall|j: int|
                        0 <= j < k ==> plane.eval(aabb.corner(j)) < 0,
                decreases 8 - k,
            {
                let cx: i64 = if k % 2 == 1 {
                    aabb.start.x + aabb.size.x
                } else {
                    aabb.start.x
                };
                let cy: i64 = if (k / 2) % 2 == 1 {
                    aabb.start.y + aabb.size.y
                } else {
                    aabb.start.y
                };
                let cz: i64 = if (k / 4) % 2 == 1 {
                    aabb.start.z + aabb.size.z
                } else {
                    aabb.start.z
                };
                proof {
                    lemma_eval_bounded(plane, cx as int, cy as int, cz as int);
                    assert(Fx3 { x: cx, y: cy, z: cz } == aabb.corner(k as int));
                }
                let v: i128 = plane.a as i128 * cx as i128 + plane.b as i128 * cy as i128
                    + plane.c as i128 * cz as i128 + plane.d as i128;
                if v >= 0 {
                    all_out = false;
                    proof {
                        assert(plane.eval(aabb.corner(k as int)) >= 0);
                    }
                }
                k = k + 1;
            }
            if all_out {
                proof {
                    assert(aabb_outside_plane(plane, *aabb));
                }
                return false;
            }
            p = p + 1;
        }
        true
    }
}

/// Plane evaluation over bounded inputs stays far inside `i128`.
proof fn lemma_eval_bounded(plane: Plane, x: int, y: int, z: int)
    requires
        plane.wf(),
        -0x4000000000 <= x <= 0x4000000000,
        -0x4000000000 <= y <= 0x4000000000,
        -0x4000000000 <= z <= 0x4000000000,
    ensures
        -0x10000000000000000000 <= plane.a * x <= 0x10000000000000000000,
        -0x10000000000000000000 <= plane.b * y <= 0x10000000000000000000,
        -0x10000000000000000000 <= plane.c * z <= 0x10000000000000000000,
{
    assert(-0x10000000000000000000 <= plane.a * x <= 0x10000000000000000000)
        by (nonlinear_arith)
        requires
            -0x40000000 <= plane.a <= 0x40000000,
            -0x4000000000 <= x <= 0x4000000000,
    ;
    assert(-0x10000000000000000000 <= plane.b * y <= 0x10000000000000000000)
        by (nonlinear_arith)
        requires
            -0x40000000 <= plane.b <= 0x40000000,
            -0x4000000000 <= y <= 0x4000000000,
    ;
    assert(-0x10000000000000000000 <= plane.c * z <= 0x10000000000000000000)
        by (nonlinear_arith)
        requires
            -0x40000000 <= plane.c <= 0x40000000,
            -0x4000000000 <= z <= 0x4000000000,
    ;
}

} // verus!
