//! A standalone render-order queue: an upsert set of chunk coordinates
//! kept sorted farthest-first around the camera chunk, re-sorted lazily.

use crate::coords::{dist2_vec3i, distance2, ChunkCoords, Vec3i};
use crate::sorting::{lemma_contains_of_multiset_eq, lemma_multiset_transfer};
use vstd::multiset::Multiset;
use vstd::prelude::*;

verus! {

/// One entry: a drawable chunk's coordinates and its cached squared
/// distance to the camera chunk.
#[derive(Clone, Copy, PartialEq, Eq, Structural, Debug)]
pub struct RenderEntry {
    pub coords: ChunkCoords,
    pub key: i128,
}

/// The coordinates of the entries, in order.
pub open spec fn entries_coords(s: Seq<RenderEntry>) -> Seq<ChunkCoords> {
    s.map_values(|e: RenderEntry| e.coords)
}

/// Entries ordered by non-increasing cached key.
pub open spec fn entries_sorted_desc(s: Seq<RenderEntry>) -> bool {
    forall|i: int, j: int| 0 <= i < j < s.len() ==> s[i].key >= s[j].key
}

/// Whether some entry carries the given coordinates.
pub open spec fn has_entry(s: Seq<RenderEntry>, c: ChunkCoords) -> bool {
    entries_coords(s).contains(c)
}

/// The same entry with its key recomputed against `pov`.
pub open spec fn entry_with_key(e: RenderEntry, pov: ChunkCoords) -> RenderEntry {
    RenderEntry { coords: e.coords, key: dist2_vec3i(pov, e.coords) as i128 }
}

/// The squared chunk distance stays far inside `i128`.
proof fn lemma_entry_dist_in_range(a: Vec3i, b: Vec3i)
    requires
        a.in_chunk_bounds(),
        b.in_chunk_bounds(),
    ensures
        0 <= dist2_vec3i(a, b) < 0x100000000000000000,
{
    assert((a.x - b.x) * (a.x - b.x) <= 0x40000000000000000 && (a.x - b.x) * (a.x - b.x)
        >= 0) by (nonlinear_arith)
        requires
            -0x100000000 <= a.x - b.x <= 0x100000000,
    ;
    assert((a.y - b.y) * (a.y - b.y) <= 0x40000000000000000 && (a.y - b.y) * (a.y - b.y)
        >= 0) by (nonlinear_arith)
        requires
            -0x100000000 <= a.y - b.y <= 0x100000000,
    ;
    assert((a.z - b.z) * (a.z - b.z) <= 0x40000000000000000 && (a.z - b.z) * (a.z - b.z)
        >= 0) by (nonlinear_arith)
        requires
            -0x100000000 <= a.z - b.z <= 0x100000000,
    ;
}

/// Index of an entry of maximal key.
fn find_max_entry(v: &Vec<RenderEntry>) -> (m: usize)
    requires
        v@.len() > 0,
    ensures
        m < v@.len(),
        forall|k: int| 0 <= k < v@.len() ==> v@[m as int].key >= v@[k].key,
{
    let mut m: usize = 0;
    let mut i: usize = 1;
    while i < v.len()
        invariant
            m < i <= v@.len(),
            forall|k: int| 0 <= k < i ==> v@[m as int].key >= v@[k].key,
        decreases v@.len() - i,
    {
        if v[i].key > v[m].key {
            m = i;
        }
        i = i + 1;
    }
    m
}

/// Sort entries by non-increasing key; the contents are unchanged.
fn sort_entries_desc(v: &mut Vec<RenderEntry>)
    ensures
        final(v)@.len() == old(v)@.len(),
        final(v)@.to_multiset() == old(v)@.to_multiset(),
        entries_coords(final(v)@).to_multiset() == entries_coords(old(v)@).to_multiset(),
        entries_sorted_desc(final(v)@),
{
    broadcast use vstd::seq_lib::group_to_multiset_ensures;
    broadcast use vstd::multiset::group_multiset_axioms;

    let ghost orig = v@;
    let mut dst: Vec<RenderEntry> = Vec::new();
    proof {
        assert(dst@.to_multiset().add(v@.to_multiset()) =~= orig.to_multiset());
        assert(entries_coords(dst@).to_multiset().add(entries_coords(v@).to_multiset())
            =~= entries_coords(orig).to_multiset());
    }
    while v.len() > 0
        invariant
            dst@.to_multiset().add(v@.to_multiset()) == orig.to_multiset(),
            entries_coords(dst@).to_multiset().add(entries_coords(v@).to_multiset())
                == entries_coords(orig).to_multiset(),
            dst@.len() + v@.len() == orig.len(),
            entries_sorted_desc(dst@),
            forall|i: int, j: int|
                0 <= i < dst@.len() && 0 <= j < v@.len() ==> dst@[i].key >= v@[j].key,
        decreases v@.len(),
    {
        let ghost prev = v@;
        let ghost prev_dst = dst@;
        let m = find_max_entry(v);
        let x = v.remove(m);
        proof {
            broadcast use vstd::seq_lib::group_to_multiset_ensures;
            broadcast use vstd::multiset::group_multiset_axioms;

            assert(prev.contains(x));
            assert(prev.to_multiset().count(x) > 0);
            lemma_multiset_transfer(prev_dst.to_multiset(), prev.to_multiset(), x);
            assert(prev.remove(m as int).to_multiset() =~= prev.to_multiset().remove(x));
            assert(entries_coords(v@) =~= entries_coords(prev).remove(m as int));
            assert(entries_coords(prev)[m as int] == x.coords);
            assert(entries_coords(prev).contains(x.coords));
            assert(entries_coords(prev).to_multiset().count(x.coords) > 0);
            lemma_multiset_transfer(
                entries_coords(prev_dst).to_multiset(),
                entries_coords(prev).to_multiset(),
                x.coords,
            );
            assert(entries_coords(prev).remove(m as int).to_multiset() =~= entries_coords(
                prev,
            ).to_multiset().remove(x.coords));
        }
        dst.push(x);
        proof {
            broadcast use vstd::seq_lib::group_to_multiset_ensures;
            broadcast use vstd::multiset::group_multiset_axioms;

            assert(prev_dst.push(x).to_multiset() =~= prev_dst.to_multiset().insert(x));
            assert(entries_coords(dst@) =~= entries_coords(prev_dst).push(x.coords));
            assert(entries_coords(prev_dst).push(x.coords).to_multiset() =~= entries_coords(
                prev_dst,
            ).to_multiset().insert(x.coords));
            assert(forall|j: int| 0 <= j < v@.len() ==> x.key >= #[trigger] v@[j].key);
            assert forall|i: int, j: int|
                0 <= i < dst@.len() && 0 <= j < v@.len() implies dst@[i].key >= v@[j].key by {
                if i < prev_dst.len() {
                    assert(dst@[i] == prev_dst[i]);
                } else {
                    assert(dst@[i] == x);
                }
            }
        }
    }
    proof {
        assert(v@.to_multiset() =~= Multiset::<RenderEntry>::empty());
        assert(entries_coords(v@) =~= Seq::<ChunkCoords>::empty());
        assert(entries_coords(v@).to_multiset() =~= Multiset::<ChunkCoords>::empty());
        assert(dst@.to_multiset() =~= orig.to_multiset());
        assert(entries_coords(dst@).to_multiset() =~= entries_coords(orig).to_multiset());
    }
    *v = dst;
}

/// The render-order queue.
pub struct RenderQueue {
    pub queue: Vec<RenderEntry>,
    pub needs_sort: bool,
}

impl RenderQueue {
    /// Well-formed queue: one entry per coordinate, all in world bounds.
    pub open spec fn wf(self) -> bool {
        &&& entries_coords(self.queue@).no_duplicates()
        &&& forall|i: int|
            0 <= i < self.queue@.len() ==> (#[trigger] self.queue@[i]).coords.in_chunk_bounds()
    }

    pub fn new() -> (r: RenderQueue)
        ensures
            r.wf(),
            r.queue@.len() == 0,
            r.needs_sort == false,
    {
        RenderQueue { queue: Vec::new(), needs_sort: false }
    }

    /// Idempotent upsert: a known coordinate leaves the queue unchanged, a
    /// new one is appended and marks the order stale.
    pub fn insert(&mut self, coords: ChunkCoords)
        requires
            old(self).wf(),
            coords.in_chunk_bounds(),
        ensures
            final(self).wf(),
            has_entry(old(self).queue@, coords) ==> *final(self) == *old(self),
            !has_entry(old(self).queue@, coords) ==> {
                &&& final(self).queue@ == old(self).queue@.push(RenderEntry { coords, key: 0 })
                &&& final(self).needs_sort == true
            },
            has_entry(final(self).queue@, coords),
    {
        let n = self.queue.len();
        let mut i: usize = 0;
        while i < n
            invariant
                n == self.queue@.len(),
                i <= n,
                *self == *old(self),
                self.wf(),
                forall|j: int| 0 <= j < i ==> (#[trigger] self.queue@[j]).coords != coords,
            decreases n - i,
        {
            if self.queue[i].coords.eq_coords(coords) {
                proof {
                    assert(entries_coords(self.queue@)[i as int] == coords);
                    assert(has_entry(self.queue@, coords));
                }
                return ;
            }
            i = i + 1;
        }
        proof {
            assert(forall|j: int|
                0 <= j < self.queue@.len() ==> entries_coords(self.queue@)[j] != coords);
            assert(!has_entry(self.queue@, coords));
        }
        let ghost prev = self.queue@;
        self.queue.push(RenderEntry { coords, key: 0 });
        self.needs_sort = true;
        proof {
            assert(entries_coords(self.queue@)[self.queue@.len() - 1] == coords);
            assert(has_entry(self.queue@, coords));
            assert(entries_coords(self.queue@) =~= entries_coords(prev).push(coords));
            assert forall|i2: int, j2: int|
                0 <= i2 < entries_coords(self.queue@).len() && 0 <= j2 < entries_coords(
                    self.queue@,
                ).len() && i2 != j2 implies entries_coords(self.queue@)[i2] != entries_coords(
                self.queue@,
            )[j2] by {
                if i2 < prev.len() && j2 < prev.len() {
                } else if i2 == prev.len() {
                    assert(entries_coords(self.queue@)[j2] == prev[j2].coords);
                } else if j2 == prev.len() {
                    assert(entries_coords(self.queue@)[i2] == prev[i2].coords);
                }
            }
        }
    }

    /// External signal that the order is stale.
    pub fn mark_unsorted(&mut self)
        ensures
            final(self).queue == old(self).queue,
            final(self).needs_sort == true,
    {
        self.needs_sort = true;
    }

    /// Re-key and re-sort farthest-first, but only when the order is
    /// stale; the set of queued coordinates is unchanged either way.
    pub fn sort_if_needed(&mut self, cam_chunk_coords: ChunkCoords)
        requires
            old(self).wf(),
            cam_chunk_coords.in_chunk_bounds(),
        ensures
            final(self).wf(),
            final(self).needs_sort == false,
            !old(self).needs_sort ==> *final(self) == *old(self),
            old(self).needs_sort ==> {
                &&& final(self).queue@.len() == old(self).queue@.len()
                &&& entries_coords(final(self).queue@).to_multiset() == entries_coords(
                    old(self).queue@,
                ).to_multiset()
                &&& forall|i: int|
                    0 <= i < final(self).queue@.len() ==> (#[trigger] final(self).queue@[i]).key == dist2_vec3i(
                        cam_chunk_coords,
                        final(self).queue@[i].coords,
                    )
                &&& forall|i: int, j: int|
                    0 <= i < j < final(self).queue@.len() ==> dist2_vec3i(
                        cam_chunk_coords,
                        final(self).queue@[i].coords,
                    ) >= dist2_vec3i(cam_chunk_coords, final(self).queue@[j].coords)
            },
    {
        if !self.needs_sort {
            return ;
        }
        let ghost orig = self.queue@;
        let ghost mapped = orig.map_values(|e: RenderEntry| entry_with_key(e, cam_chunk_coords));
        let n = self.queue.len();
        let mut i: usize = 0;
        while i < n
            invariant
                n == self.queue@.len(),
                n == orig.len(),
                i <= n,
                cam_chunk_coords.in_chunk_bounds(),
                forall|j: int|
                    0 <= j < orig.len() ==> (#[trigger] orig[j]).coords.in_chunk_bounds(),
                forall|j: int|
                    0 <= j < i ==> self.queue@[j] == entry_with_key(orig[j], cam_chunk_coords),
                forall|j: int| i <= j < n ==> self.queue@[j] == orig[j],
                self.needs_sort == old(self).needs_sort,
            decreases n - i,
        {
            let c = self.queue[i].coords;
            proof {
                assert(self.queue@[i as int] == orig[i as int]);
                lemma_entry_dist_in_range(cam_chunk_coords, c);
            }
            let k = distance2(cam_chunk_coords, c);
            self.queue[i].key = k;
            i = i + 1;
        }
        proof {
            assert(self.queue@ =~= mapped);
            assert(entries_coords(mapped) =~= entries_coords(orig));
        }
        sort_entries_desc(&mut self.queue);
        self.needs_sort = false;
        proof {
            lemma_contains_of_multiset_eq(self.queue@, mapped);
            assert forall|j: int|
                0 <= j < self.queue@.len() implies {
                &&& (#[trigger] self.queue@[j]).key == dist2_vec3i(
                    cam_chunk_coords,
                    self.queue@[j].coords,
                )
                &&& self.queue@[j].coords.in_chunk_bounds()
            } by {
                let x = self.queue@[j];
                assert(self.queue@.contains(x));
                assert(mapped.contains(x));
                let k = choose|k: int| 0 <= k < mapped.len() && mapped[k] == x;
                assert(x == entry_with_key(orig[k], cam_chunk_coords));
                lemma_entry_dist_in_range(cam_chunk_coords, orig[k].coords);
            }
            if entries_coords(orig).no_duplicates() {
                entries_coords(orig).lemma_multiset_has_no_duplicates();
                entries_coords(self.queue@).lemma_multiset_has_no_duplicates_conv();
            }
        }
    }

    /// The queued coordinates, in the current order.
    pub fn iter(&self) -> (r: Vec<ChunkCoords>)
        ensures
            r@ == entries_coords(self.queue@),
    {
        let n = self.queue.len();
        let mut r: Vec<ChunkCoords> = Vec::new();
        let mut i: usize = 0;
        while i < n
            invariant
                n == self.queue@.len(),
                i <= n,
                r@.len() == i,
                forall|j: int| 0 <= j < i ==> r@[j] == entries_coords(self.queue@)[j],
            decreases n - i,
        {
            r.push(self.queue[i].coords);
            i = i + 1;
        }
        proof {
            assert(r@ =~= entries_coords(self.queue@));
        }
        r
    }

    /// The queued entries with their coordinates and cached keys, in the
    /// current order.
    pub fn iter_with_coords(&self) -> (r: Vec<RenderEntry>)
        ensures
            r@ == self.queue@,
    {
        let n = self.queue.len();
        let mut r: Vec<RenderEntry> = Vec::new();
        let mut i: usize = 0;
        while i < n
            invariant
                n == self.queue@.len(),
                i <= n,
                r@ == self.queue@.subrange(0, i as int),
            decreases n - i,
        {
            r.push(self.queue[i]);
            proof {
                assert(r@ =~= self.queue@.subrange(0, i + 1));
            }
            i = i + 1;
        }
        proof {
            assert(self.queue@.subrange(0, n as int) =~= self.queue@);
        }
        r
    }
}

} // verus!
