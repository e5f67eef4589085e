//! Properties of the queue and the status machine that span more than one
//! function, stated and proved once for all inputs.

use crate::chunk::ChunkStatus;
use crate::chunk_queue::{items_coords, items_sorted, spec_clipped, visible_coords, QueueItem};
use crate::coords::{dist2_vec3i, ChunkCoords};
use crate::geometry::Plane;
use vstd::prelude::*;

verus! {

/// Invalidation never advances a chunk: the resulting status is at most
/// the previous one, and at most the requested one.
pub proof fn lemma_invalidate_regresses(s: ChunkStatus, n: ChunkStatus)
    ensures
        ChunkStatus::spec_min(s, n).ord() <= s.ord(),
        ChunkStatus::spec_min(s, n).ord() <= n.ord(),
{
}

/// One processing visit advances a status by exactly one stage, except
/// that `Ready` stays put; it never regresses.
pub proof fn lemma_advance_one_stage(s: ChunkStatus)
    ensures
        s != ChunkStatus::Ready ==> s.advanced().ord() == s.ord() + 1,
        s == ChunkStatus::Ready ==> s.advanced() == s,
        s.advanced().ord() >= s.ord(),
{
}

/// Clipping a queue against the same frustum twice gives the same flags as
/// clipping it once.
pub proof fn lemma_clip_idempotent(s: Seq<QueueItem>, planes: Seq<Plane>)
    ensures
        spec_clipped(spec_clipped(s, planes), planes) == spec_clipped(s, planes),
{
    assert(spec_clipped(spec_clipped(s, planes), planes) =~= spec_clipped(s, planes));
}

/// Clipping changes no coordinate and no key, only the visibility flags.
pub proof fn lemma_clip_preserves_items(s: Seq<QueueItem>, planes: Seq<Plane>)
    ensures
        spec_clipped(s, planes).len() == s.len(),
        items_coords(spec_clipped(s, planes)) == items_coords(s),
        forall|i: int| 0 <= i < s.len() ==> (#[trigger] spec_clipped(s, planes)[i]).key == s[i].key,
{
    assert(items_coords(spec_clipped(s, planes)) =~= items_coords(s));
}

/// In a queue sorted by its distance keys, the in-frustum traversal yields
/// coordinates of non-decreasing squared distance from the point of view.
pub proof fn lemma_visible_coords_sorted(s: Seq<QueueItem>, pov: ChunkCoords)
    requires
        items_sorted(s),
        forall|i: int|
            0 <= i < s.len() ==> (#[trigger] s[i]).key == dist2_vec3i(pov, s[i].coords),
    ensures
        forall|i: int, j: int|
            0 <= i < j < visible_coords(s).len() ==> dist2_vec3i(pov, visible_coords(s)[i])
                <= dist2_vec3i(pov, visible_coords(s)[j]),
        s.len() > 0 ==> forall|i: int|
            0 <= i < visible_coords(s).len() ==> dist2_vec3i(pov, (#[trigger] visible_coords(
                s,
            )[i])) <= s.last().key,
    decreases s.len(),
{
    if s.len() > 0 {
        let t = s.drop_last();
        assert(items_sorted(t));
        assert(forall|i: int|
            0 <= i < t.len() ==> (#[trigger] t[i]).key == dist2_vec3i(pov, t[i].coords));
        lemma_visible_coords_sorted(t, pov);
        let rest = visible_coords(t);
        if t.len() > 0 {
            assert(t.last().key <= s.last().key);
        }
        if s.last().in_frustrum {
            assert(visible_coords(s) == rest.push(s.last().coords));
            assert(dist2_vec3i(pov, s.last().coords) == s.last().key);
            assert forall|i: int|
                0 <= i < visible_coords(s).len() implies dist2_vec3i(
                pov,
                (#[trigger] visible_coords(s)[i]),
            ) <= s.last().key by {
                if i < rest.len() {
                    assert(visible_coords(s)[i] == rest[i]);
                    assert(dist2_vec3i(pov, rest[i]) <= t.last().key);
                } else {
                    assert(visible_coords(s)[i] == s.last().coords);
                }
            }
            assert forall|i: int, j: int|
                0 <= i < j < visible_coords(s).len() implies dist2_vec3i(
                pov,
                visible_coords(s)[i],
            ) <= dist2_vec3i(pov, visible_coords(s)[j]) by {
                if j < rest.len() {
                    assert(visible_coords(s)[i] == rest[i]);
                    assert(visible_coords(s)[j] == rest[j]);
                } else {
                    assert(visible_coords(s)[j] == s.last().coords);
                    assert(visible_coords(s)[i] == rest[i]);
                    assert(dist2_vec3i(pov, rest[i]) <= t.last().key);
                }
            }
        } else {
            assert(visible_coords(s) == rest);
            if t.len() == 0 {
                assert(visible_coords(s).len() == 0);
            } else {
                assert forall|i: int|
                    0 <= i < visible_coords(s).len() implies dist2_vec3i(
                    pov,
                    (#[trigger] visible_coords(s)[i]),
                ) <= s.last().key by {
                    assert(dist2_vec3i(pov, rest[i]) <= t.last().key);
                }
            }
        }
    }
}

} // verus!
