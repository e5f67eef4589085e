//! The ordered collection of loaded chunk coordinates: distance-priority
//! sorting around the camera, frustum clipping, and the two traversal
//! orders (nearest-first for processing, farthest-first for rendering).

use crate::coords::{dist2_vec3i, distance2, ChunkCoords, Vec3i};
use crate::geometry::{chunk_aabb, spec_chunk_aabb, spec_intersects, Frustrum, Plane};
use crate::sorting::{lemma_contains_of_multiset_eq, lemma_multiset_transfer};
use vstd::multiset::Multiset;
use vstd::prelude::*;

verus! {

/// One queue entry: a loaded chunk's coordinates, its cached sort key
/// (squared distance to the point of view) and its cached visibility.
#[derive(Clone, Copy, PartialEq, Eq, Structural, Debug)]
pub struct QueueItem {
    pub coords: ChunkCoords,
    pub key: i128,
    pub in_frustrum: bool,
}

/// The coordinates of a queue item sequence, in order.
pub open spec fn items_coords(s: Seq<QueueItem>) -> Seq<ChunkCoords> {
    s.map_values(|it: QueueItem| it.coords)
}

/// Items ordered by non-decreasing cached key.
pub open spec fn items_sorted(s: Seq<QueueItem>) -> bool {
    forall|i: int, j: int| 0 <= i < j < s.len() ==> s[i].key <= s[j].key
}

/// Whether some item carries the given coordinates.
pub open spec fn has_coords(s: Seq<QueueItem>, c: ChunkCoords) -> bool {
    items_coords(s).contains(c)
}

/// The same item with its key recomputed as the squared distance to `pov`.
pub open spec fn with_key(it: QueueItem, pov: ChunkCoords) -> QueueItem {
    QueueItem {
        coords: it.coords,
        key: dist2_vec3i(pov, it.coords) as i128,
        in_frustrum: it.in_frustrum,
    }
}

/// The same items with every visibility flag recomputed against the given
/// frustum planes.
pub open spec fn spec_clipped(s: Seq<QueueItem>, planes: Seq<Plane>) -> Seq<QueueItem> {
    s.map_values(
        |it: QueueItem|
            QueueItem {
                coords: it.coords,
                key: it.key,
                in_frustrum: spec_intersects(planes, spec_chunk_aabb(it.coords)),
            },
    )
}

/// The in-frustum coordinates of a queue, in queue order.
pub open spec fn visible_coords(s: Seq<QueueItem>) -> Seq<ChunkCoords>
    decreases s.len(),
{
    if s.len() == 0 {
        Seq::empty()
    } else {
        let rest = visible_coords(s.drop_last());
        if s.last().in_frustrum {
            rest.push(s.last().coords)
        } else {
            rest
        }
    }
}

/// Every in-frustum coordinate of a queue whose items sit in world bounds
/// is itself in world bounds.
pub proof fn lemma_visible_coords_bounds(s: Seq<QueueItem>)
    requires
        forall|i: int| 0 <= i < s.len() ==> (#[trigger] s[i]).coords.in_chunk_bounds(),
    ensures
        forall|i: int| 0 <= i < visible_coords(s).len() ==> (#[trigger] visible_coords(
            s,
        )[i]).in_chunk_bounds(),
    decreases s.len(),
{
    if s.len() > 0 {
        assert(forall|i: int|
            0 <= i < s.drop_last().len() ==> (#[trigger] s.drop_last()[i]).coords.in_chunk_bounds());
        lemma_visible_coords_bounds(s.drop_last());
        let rest = visible_coords(s.drop_last());
        if s.last().in_frustrum {
            assert(visible_coords(s) == rest.push(s.last().coords));
            assert forall|i: int| 0 <= i < visible_coords(s).len() implies (
            #[trigger] visible_coords(s)[i]).in_chunk_bounds() by {
                if i < rest.len() {
                    assert(visible_coords(s)[i] == rest[i]);
                } else {
                    assert(visible_coords(s)[i] == s.last().coords);
                    assert(s[s.len() - 1].coords.in_chunk_bounds());
                }
            }
        } else {
            assert(visible_coords(s) == rest);
        }
    }
}

/// The in-frustum traversal of a queue without repeated coordinates
/// repeats no coordinate either, and only yields queued coordinates.
pub proof fn lemma_visible_coords_no_dup(s: Seq<QueueItem>)
    requires
        items_coords(s).no_duplicates(),
    ensures
        visible_coords(s).no_duplicates(),
        forall|x: ChunkCoords| visible_coords(s).contains(x) ==> items_coords(s).contains(x),
    decreases s.len(),
{
    if s.len() > 0 {
        let t = s.drop_last();
        assert(items_coords(t).no_duplicates()) by {
            assert(forall|i: int|
                0 <= i < t.len() ==> items_coords(t)[i] == items_coords(s)[i]);
        }
        lemma_visible_coords_no_dup(t);
        let rest = visible_coords(t);
        assert forall|x: ChunkCoords| rest.contains(x) implies items_coords(s).contains(x) by {
            assert(items_coords(t).contains(x));
            let q = choose|q: int| 0 <= q < t.len() && items_coords(t)[q] == x;
            assert(items_coords(s)[q] == x);
        }
        if s.last().in_frustrum {
            assert(visible_coords(s) == rest.push(s.last().coords));
            assert(!rest.contains(s.last().coords)) by {
                if rest.contains(s.last().coords) {
                    assert(items_coords(t).contains(s.last().coords));
                    let q = choose|q: int|
                        0 <= q < t.len() && items_coords(t)[q] == s.last().coords;
                    assert(items_coords(s)[q] == s.last().coords);
                    assert(items_coords(s)[s.len() - 1] == s.last().coords);
                }
            }
            assert forall|i: int, j: int|
                0 <= i < visible_coords(s).len() && 0 <= j < visible_coords(s).len() && i != j
                implies visible_coords(s)[i] != visible_coords(s)[j] by {
                if i < rest.len() && j < rest.len() {
                } else if i == rest.len() {
                    assert(visible_coords(s)[j] == rest[j]);
                    assert(rest.contains(rest[j]));
                } else if j == rest.len() {
                    assert(visible_coords(s)[i] == rest[i]);
                    assert(rest.contains(rest[i]));
                }
            }
            assert forall|x: ChunkCoords| visible_coords(s).contains(x) implies items_coords(
                s,
            ).contains(x) by {
                let q = choose|q: int|
                    0 <= q < visible_coords(s).len() && visible_coords(s)[q] == x;
                if q < rest.len() {
                    assert(rest.contains(x)) by {
                        assert(rest[q] == x);
                    }
                } else {
                    assert(x == s.last().coords);
                    assert(items_coords(s)[s.len() - 1] == x);
                }
            }
        } else {
            assert(visible_coords(s) == rest);
        }
    }
}

/// The squared distance between two in-bounds chunk coordinates is small.
proof fn lemma_dist2_vec3i_in_range(a: Vec3i, b: Vec3i)
    requires
        a.in_chunk_bounds(),
        b.in_chunk_bounds(),
    ensures
        0 <= dist2_vec3i(a, b) < 0x100000000000000000,
{
    assert((a.x - b.x) * (a.x - b.x) <= 0x40000000000000000 && (a.x - b.x) * (a.x - b.x)
        >= 0) by (nonlinear_arith)
        requires
            -0x100000000 <= a.x - b.x <= 0x100000000,
    ;
    assert((a.y - b.y) * (a.y - b.y) <= 0x40000000000000000 && (a.y - b.y) * (a.y - b.y)
        >= 0) by (nonlinear_arith)
        requires
            -0x100000000 <= a.y - b.y <= 0x100000000,
    ;
    assert((a.z - b.z) * (a.z - b.z) <= 0x40000000000000000 && (a.z - b.z) * (a.z - b.z)
        >= 0) by (nonlinear_arith)
        requires
            -0x100000000 <= a.z - b.z <= 0x100000000,
    ;
}

/// Index of an item of minimal key.
fn find_min_item(v: &Vec<QueueItem>) -> (m: usize)
    requires
        v@.len() > 0,
    ensures
        m < v@.len(),
        forall|k: int| 0 <= k < v@.len() ==> v@[m as int].key <= v@[k].key,
{
    let mut m: usize = 0;
    let mut i: usize = 1;
    while i < v.len()
        invariant
            m < i <= v@.len(),
            forall|k: int| 0 <= k < i ==> v@[m as int].key <= v@[k].key,
        decreases v@.len() - i,
    {
        if v[i].key < v[m].key {
            m = i;
        }
        i = i + 1;
    }
    m
}

/// Sort items by non-decreasing key; both the item contents and the
/// coordinate contents are unchanged.
fn sort_items_asc(v: &mut Vec<QueueItem>)
    ensures
        final(v)@.len() == old(v)@.len(),
        final(v)@.to_multiset() == old(v)@.to_multiset(),
        items_coords(final(v)@).to_multiset() == items_coords(old(v)@).to_multiset(),
        items_sorted(final(v)@),
{
    broadcast use vstd::seq_lib::group_to_multiset_ensures;
    broadcast use vstd::multiset::group_multiset_axioms;

    let ghost orig = v@;
    let mut dst: Vec<QueueItem> = Vec::new();
    proof {
        assert(dst@.to_multiset().add(v@.to_multiset()) =~= orig.to_multiset());
        assert(items_coords(dst@).to_multiset().add(items_coords(v@).to_multiset())
            =~= items_coords(orig).to_multiset());
    }
    while v.len() > 0
        invariant
            dst@.to_multiset().add(v@.to_multiset()) == orig.to_multiset(),
            items_coords(dst@).to_multiset().add(items_coords(v@).to_multiset())
                == items_coords(orig).to_multiset(),
            dst@.len() + v@.len() == orig.len(),
            items_sorted(dst@),
            forall|i: int, j: int|
                0 <= i < dst@.len() && 0 <= j < v@.len() ==> dst@[i].key <= v@[j].key,
        decreases v@.len(),
    {
        let ghost prev = v@;
        let ghost prev_dst = dst@;
        let m = find_min_item(v);
        let x = v.remove(m);
        proof {
            broadcast use vstd::seq_lib::group_to_multiset_ensures;
            broadcast use vstd::multiset::group_multiset_axioms;

            assert(prev.contains(x));
            assert(prev.to_multiset().count(x) > 0);
            lemma_multiset_transfer(prev_dst.to_multiset(), prev.to_multiset(), x);
            assert(prev.remove(m as int).to_multiset() =~= prev.to_multiset().remove(x));
            assert(items_coords(v@) =~= items_coords(prev).remove(m as int));
            assert(items_coords(prev)[m as int] == x.coords);
            assert(items_coords(prev).contains(x.coords));
            assert(items_coords(prev).to_multiset().count(x.coords) > 0);
            lemma_multiset_transfer(
                items_coords(prev_dst).to_multiset(),
                items_coords(prev).to_multiset(),
                x.coords,
            );
            assert(items_coords(prev).remove(m as int).to_multiset() =~= items_coords(
                prev,
            ).to_multiset().remove(x.coords));
        }
        dst.push(x);
        proof {
            broadcast use vstd::seq_lib::group_to_multiset_ensures;
            broadcast use vstd::multiset::group_multiset_axioms;

            assert(prev_dst.push(x).to_multiset() =~= prev_dst.to_multiset().insert(x));
            assert(items_coords(dst@) =~= items_coords(prev_dst).push(x.coords));
            assert(items_coords(prev_dst).push(x.coords).to_multiset() =~= items_coords(
                prev_dst,
            ).to_multiset().insert(x.coords));
            assert(forall|j: int| 0 <= j < v@.len() ==> x.key <= #[trigger] v@[j].key);
            assert forall|i: int, j: int|
                0 <= i < dst@.len() && 0 <= j < v@.len() implies dst@[i].key <= v@[j].key by {
                if i < prev_dst.len() {
                    assert(dst@[i] == prev_dst[i]);
                } else {
                    assert(dst@[i] == x);
                }
            }
        }
    }
    proof {
        assert(v@.to_multiset() =~= Multiset::<QueueItem>::empty());
        assert(items_coords(v@) =~= Seq::<ChunkCoords>::empty());
        assert(items_coords(v@).to_multiset() =~= Multiset::<ChunkCoords>::empty());
        assert(dst@.to_multiset() =~= orig.to_multiset());
        assert(items_coords(dst@).to_multiset() =~= items_coords(orig).to_multiset());
    }
    *v = dst;
}

/// The processing queue: one entry per loaded chunk, ordered by distance
/// to the camera's chunk, each entry carrying a cached visibility flag.
pub struct ChunkQueue {
    pub queue: Vec<QueueItem>,
    pub needs_sort: bool,
    pub point_of_view: ChunkCoords,
}

impl ChunkQueue {
    /// Well-formed queue: one entry per coordinate, every coordinate in
    /// world bounds.
    pub open spec fn wf(self) -> bool {
        &&& items_coords(self.queue@).no_duplicates()
        &&& forall|i: int|
            0 <= i < self.queue@.len() ==> (#[trigger] self.queue@[i]).coords.in_chunk_bounds()
    }

    pub fn new() -> (r: ChunkQueue)
        ensures
            r.wf(),
            r.queue@.len() == 0,
            r.needs_sort == false,
            r.point_of_view == (Vec3i { x: 0, y: 0, z: 0 }),
    {
        ChunkQueue { queue: Vec::new(), needs_sort: false, point_of_view: Vec3i::new(0, 0, 0) }
    }

    /// Idempotent upsert: a coordinate already present leaves the queue
    /// unchanged; a new one is appended and marks the queue dirty.
    pub fn insert(&mut self, coords: ChunkCoords)
        requires
            old(self).wf(),
            coords.in_chunk_bounds(),
        ensures
            final(self).wf(),
            has_coords(old(self).queue@, coords) ==> *final(self) == *old(self),
            !has_coords(old(self).queue@, coords) ==> {
                &&& final(self).queue@ == old(self).queue@.push(
                    QueueItem { coords, key: 0, in_frustrum: false },
                )
                &&& final(self).needs_sort == true
                &&& final(self).point_of_view == old(self).point_of_view
            },
            has_coords(final(self).queue@, coords),
    {
        let n = self.queue.len();
        let mut i: usize = 0;
        while i < n
            invariant
                n == self.queue@.len(),
                i <= n,
                *self == *old(self),
                self.wf(),
                forall|j: int| 0 <= j < i ==> (#[trigger] self.queue@[j]).coords != coords,
            decreases n - i,
        {
            if self.queue[i].coords.eq_coords(coords) {
                proof {
                    assert(items_coords(self.queue@)[i as int] == coords);
                    assert(has_coords(self.queue@, coords));
                }
                return ;
            }
            i = i + 1;
        }
        proof {
            assert(forall|j: int|
                0 <= j < self.queue@.len() ==> items_coords(self.queue@)[j] != coords);
            assert(!has_coords(self.queue@, coords));
        }
        let ghost prev = self.queue@;
        self.queue.push(QueueItem { coords, key: 0, in_frustrum: false });
        self.needs_sort = true;
        proof {
            assert(items_coords(self.queue@)[self.queue@.len() - 1] == coords);
            assert(has_coords(self.queue@, coords));
            assert(items_coords(self.queue@) =~= items_coords(prev).push(coords));
            assert forall|i2: int, j2: int|
                0 <= i2 < items_coords(self.queue@).len() && 0 <= j2 < items_coords(
                    self.queue@,
                ).len() && i2 != j2 implies items_coords(self.queue@)[i2] != items_coords(
                self.queue@,
            )[j2] by {
                if i2 < prev.len() && j2 < prev.len() {
                } else if i2 == prev.len() {
                    assert(!has_coords(prev, coords));
                    assert(items_coords(self.queue@)[j2] == prev[j2].coords);
                } else if j2 == prev.len() {
                    assert(items_coords(self.queue@)[i2] == prev[i2].coords);
                }
            }
        }
    }

    /// External signal that the ordering is stale.
    pub fn mark_unsorted(&mut self)
        ensures
            final(self).queue == old(self).queue,
            final(self).point_of_view == old(self).point_of_view,
            final(self).needs_sort == true,
    {
        self.needs_sort = true;
    }

    pub fn needs_to_be_sorted(&self) -> (r: bool)
        ensures
            r == self.needs_sort,
    {
        self.needs_sort
    }

    /// Re-key every entry by its squared distance to the camera chunk and
    /// order the queue nearest first. The set of queued coordinates is
    /// unchanged.
    pub fn sort(&mut self, cam_chunk_coords: ChunkCoords)
        requires
            old(self).wf(),
            cam_chunk_coords.in_chunk_bounds(),
        ensures
            final(self).wf(),
            final(self).point_of_view == cam_chunk_coords,
            final(self).needs_sort == false,
            final(self).queue@.len() == old(self).queue@.len(),
            items_coords(final(self).queue@).to_multiset() == items_coords(
                old(self).queue@,
            ).to_multiset(),
            final(self).queue@.to_multiset() == old(self).queue@.map_values(
                |it: QueueItem| with_key(it, cam_chunk_coords),
            ).to_multiset(),
            forall|i: int|
                0 <= i < final(self).queue@.len() ==> (#[trigger] final(self).queue@[i]).key
                    == dist2_vec3i(cam_chunk_coords, final(self).queue@[i].coords),
            forall|i: int, j: int|
                0 <= i < j < final(self).queue@.len() ==> dist2_vec3i(
                    cam_chunk_coords,
                    final(self).queue@[i].coords,
                ) <= dist2_vec3i(cam_chunk_coords, final(self).queue@[j].coords),
    {
        let ghost orig = self.queue@;
        let ghost mapped = orig.map_values(|it: QueueItem| with_key(it, cam_chunk_coords));
        let n = self.queue.len();
        let mut i: usize = 0;
        while i < n
            invariant
                n == self.queue@.len(),
                n == orig.len(),
                i <= n,
                cam_chunk_coords.in_chunk_bounds(),
                forall|j: int|
                    0 <= j < orig.len() ==> (#[trigger] orig[j]).coords.in_chunk_bounds(),
                forall|j: int|
                    0 <= j < i ==> self.queue@[j] == with_key(orig[j], cam_chunk_coords),
                forall|j: int| i <= j < n ==> self.queue@[j] == orig[j],
                self.needs_sort == old(self).needs_sort,
                self.point_of_view == old(self).point_of_view,
            decreases n - i,
        {
            let c = self.queue[i].coords;
            proof {
                assert(self.queue@[i as int] == orig[i as int]);
                lemma_dist2_vec3i_in_range(cam_chunk_coords, c);
            }
            let k = distance2(cam_chunk_coords, c);
            self.queue[i].key = k;
            i = i + 1;
        }
        proof {
            assert(self.queue@ =~= mapped);
            assert(items_coords(mapped) =~= items_coords(orig));
        }
        sort_items_asc(&mut self.queue);
        self.point_of_view = cam_chunk_coords;
        self.needs_sort = false;
        proof {
            lemma_contains_of_multiset_eq(self.queue@, mapped);
            assert forall|j: int|
                0 <= j < self.queue@.len() implies {
                &&& (#[trigger] self.queue@[j]).key == dist2_vec3i(
                    cam_chunk_coords,
                    self.queue@[j].coords,
                )
                &&& self.queue@[j].coords.in_chunk_bounds()
            } by {
                let x = self.queue@[j];
                assert(self.queue@.contains(x));
                assert(mapped.contains(x));
                let k = choose|k: int| 0 <= k < mapped.len() && mapped[k] == x;
                assert(x == with_key(orig[k], cam_chunk_coords));
                lemma_dist2_vec3i_in_range(cam_chunk_coords, orig[k].coords);
            }
            if items_coords(orig).no_duplicates() {
                items_coords(orig).lemma_multiset_has_no_duplicates();
                items_coords(self.queue@).lemma_multiset_has_no_duplicates_conv();
            }
        }
    }

    /// Recompute every entry's visibility against the given frustum.
    pub fn clip_to_frustrum(&mut self, frustrum: &Frustrum)
        requires
            old(self).wf(),
            frustrum.wf(),
        ensures
            final(self).wf(),
            final(self).queue@ == spec_clipped(old(self).queue@, frustrum.planes@),
            final(self).needs_sort == old(self).needs_sort,
            final(self).point_of_view == old(self).point_of_view,
            forall|i: int|
                0 <= i < final(self).queue@.len() ==> (#[trigger] final(self).queue@[i]).coords
                    == old(self).queue@[i].coords && final(self).queue@[i].key == old(self).queue@[i].key,
    {
        let ghost orig = self.queue@;
        let n = self.queue.len();
        let mut i: usize = 0;
        while i < n
            invariant
                n == self.queue@.len(),
                n == orig.len(),
                i <= n,
                frustrum.wf(),
                forall|j: int|
                    0 <= j < orig.len() ==> (#[trigger] orig[j]).coords.in_chunk_bounds(),
                items_coords(orig).no_duplicates(),
                forall|j: int|
                    0 <= j < i ==> self.queue@[j] == (QueueItem {
                        coords: orig[j].coords,
                        key: orig[j].key,
                        in_frustrum: spec_intersects(
                            frustrum.planes@,
                            spec_chunk_aabb(orig[j].coords),
                        ),
                    }),
                forall|j: int| i <= j < n ==> self.queue@[j] == orig[j],
                self.needs_sort == old(self).needs_sort,
                self.point_of_view == old(self).point_of_view,
            decreases n - i,
        {
            let c = self.queue[i].coords;
            proof {
                assert(self.queue@[i as int] == orig[i as int]);
            }
            let aabb = chunk_aabb(c);
            let vis = frustrum.intersects_with_aabb(&aabb);
            self.queue[i].in_frustrum = vis;
            i = i + 1;
        }
        proof {
            assert(self.queue@ =~= spec_clipped(orig, frustrum.planes@));
            assert(items_coords(self.queue@) =~= items_coords(orig));
        }
    }

    /// The in-frustum coordinates, nearest first: the order in which the
    /// update loop visits chunks.
    pub fn iter(&self) -> (r: Vec<ChunkCoords>)
        ensures
            r@ == visible_coords(self.queue@),
    {
        let n = self.queue.len();
        let mut r: Vec<ChunkCoords> = Vec::new();
        let mut i: usize = 0;
        while i < n
            invariant
                n == self.queue@.len(),
                i <= n,
                r@ == visible_coords(self.queue@.subrange(0, i as int)),
            decreases n - i,
        {
            let ghost before = self.queue@.subrange(0, i as int);
            let ghost after = self.queue@.subrange(0, i as int + 1);
            if self.queue[i].in_frustrum {
                r.push(self.queue[i].coords);
            }
            proof {
                assert(after.drop_last() =~= before);
                assert(after.last() == self.queue@[i as int]);
            }
            i = i + 1;
        }
        proof {
            assert(self.queue@.subrange(0, n as int) =~= self.queue@);
        }
        r
    }

    /// The in-frustum coordinates, farthest first: the exact reverse of
    /// `iter`, used to build the back-to-front render queue.
    pub fn iter_graphics(&self) -> (r: Vec<ChunkCoords>)
        ensures
            r@ == visible_coords(self.queue@).reverse(),
    {
        let fwd = self.iter();
        let n = fwd.len();
        let mut r: Vec<ChunkCoords> = Vec::new();
        let mut i: usize = 0;
        while i < n
            invariant
                n == fwd@.len(),
                i <= n,
                fwd@ == visible_coords(self.queue@),
                r@.len() == i,
                forall|j: int| 0 <= j < i ==> r@[j] == fwd@[n - 1 - j],
            decreases n - i,
        {
            r.push(fwd[n - 1 - i]);
            i = i + 1;
        }
        proof {
            assert(r@ =~= visible_coords(self.queue@).reverse());
        }
        r
    }
}

} // verus!
