//! The world: the authoritative chunk map, the processing queue, the
//! per-frame render queue, and the time-boxed incremental update loop that
//! drives every chunk through the status pipeline.

use crate::blocks::{Block, BlockId, Cell};
use crate::chunk::{cell_index, Chunk, ChunkStatus, CHUNK_VOLUME};
use crate::chunk_queue::{has_coords, visible_coords, ChunkQueue};
use crate::clock::{elapsed_nanos, instant_now};
use crate::coords::{
    dist2_vec3i, get_chunk_and_block_coords, spec_block_coords_of, spec_chunk_coords_of,
    to_chunk_offset, to_local_chunk_coords, BlockCoords, ChunkCoords, Fx3, Vec3i,
};
use crate::generation::Generator;
use crate::geometry::{spec_chunk_aabb, spec_intersects, Frustrum};
use crate::light::recalculate_light;
use crate::mesh::{has_visible_geometry, ChunkMeshes};
use crate::rendering::{ChunkGraphics, ChunkGraphicsData, ChunkMesh, Face};
use vstd::prelude::*;

verus! {

/// The per-frame time budget of `World::update`, in nanoseconds.
pub const MAX_UPDATE_TIME_NANOS: u64 = 5000000;

/// One entry of the chunk map.
pub struct ChunkEntry {
    pub coords: ChunkCoords,
    pub chunk: Chunk,
}

/// The camera state the world reads each frame: a fixed-point position and
/// the view frustum.
pub struct Camera {
    pub position: Fx3,
    pub frustrum: Frustrum,
}

impl Camera {
    pub open spec fn wf(self) -> bool {
        self.position.in_cam_bounds() && self.frustrum.wf()
    }

    pub fn get_frustrum(&self) -> (r: &Frustrum)
        ensures
            r == &self.frustrum,
    {
        &self.frustrum
    }
}

/// The coordinates of the chunk-map entries, in map order.
pub open spec fn entry_coords(s: Seq<ChunkEntry>) -> Seq<ChunkCoords> {
    s.map_values(|e: ChunkEntry| e.coords)
}

/// Whether some entry holds the given coordinates.
pub open spec fn spec_loaded(s: Seq<ChunkEntry>, c: ChunkCoords) -> bool {
    entry_coords(s).contains(c)
}

/// The index of the entry with the given coordinates.
pub open spec fn spec_index_of(s: Seq<ChunkEntry>, c: ChunkCoords) -> int {
    choose|i: int| 0 <= i < s.len() && s[i].coords == c
}

/// The chunk stored under the given coordinates.
pub open spec fn spec_chunk_at(s: Seq<ChunkEntry>, c: ChunkCoords) -> Chunk {
    s[spec_index_of(s, c)].chunk
}

/// Two chunk coordinates that touch (face, edge or corner) but differ:
/// one of the 26 geometric neighbors.
pub open spec fn is_neighbor(a: ChunkCoords, b: ChunkCoords) -> bool {
    &&& a != b
    &&& -1 <= a.x - b.x <= 1
    &&& -1 <= a.y - b.y <= 1
    &&& -1 <= a.z - b.z <= 1
}

/// The same graphics except that the transparent faces may have been
/// flagged for re-sorting.
pub open spec fn graphics_flagged(a: ChunkGraphics, b: ChunkGraphics) -> bool {
    &&& b.solid_mesh == a.solid_mesh
    &&& b.water_mesh == a.water_mesh
    &&& b.offset == a.offset
    &&& b.graphics_data.water_faces == a.graphics_data.water_faces
}

/// The same chunk except that its transparent faces may have been flagged
/// for re-sorting.
pub open spec fn chunk_same_but_flag(a: Chunk, b: Chunk) -> bool {
    &&& b.data == a.data
    &&& b.status == a.status
    &&& match (a.graphics, b.graphics) {
        (Option::None, Option::None) => true,
        (Option::Some(ga), Option::Some(gb)) => graphics_flagged(ga, gb),
        _ => false,
    }
}

/// The flag relation of the camera-movement dirtying pass: the new
/// re-sort flag is the old one, or-ed with `dirty`.
pub open spec fn flag_dirtied(a: Chunk, b: Chunk, dirty: bool) -> bool {
    match (a.graphics, b.graphics) {
        (Option::None, Option::None) => true,
        (Option::Some(ga), Option::Some(gb)) => gb.graphics_data.water_faces_unsorted == (
        ga.graphics_data.water_faces_unsorted || dirty),
        _ => false,
    }
}

/// Whether a coordinate names a chunk that is ready to draw.
pub open spec fn renderable(s: Seq<ChunkEntry>, c: ChunkCoords) -> bool {
    spec_loaded(s, c) && spec_chunk_at(s, c).status == ChunkStatus::Ready && spec_chunk_at(
        s,
        c,
    ).graphics is Some
}

/// The renderable coordinates of `order`, kept in order.
pub open spec fn render_filter(s: Seq<ChunkEntry>, order: Seq<ChunkCoords>) -> Seq<ChunkCoords>
    decreases order.len(),
{
    if order.len() == 0 {
        Seq::empty()
    } else {
        let rest = render_filter(s, order.drop_last());
        if renderable(s, order.last()) {
            rest.push(order.last())
        } else {
            rest
        }
    }
}

/// Two entry sequences with the same coordinates index them identically.
proof fn lemma_same_coords_index(a: Seq<ChunkEntry>, b: Seq<ChunkEntry>, c: ChunkCoords)
    requires
        a.len() == b.len(),
        forall|i: int| 0 <= i < a.len() ==> (#[trigger] a[i]).coords == b[i].coords,
        entry_coords(a).no_duplicates(),
        spec_loaded(a, c),
    ensures
        spec_index_of(a, c) == spec_index_of(b, c),
        0 <= spec_index_of(a, c) < a.len(),
        a[spec_index_of(a, c)].coords == c,
{
    let w = choose|i: int| 0 <= i < entry_coords(a).len() && entry_coords(a)[i] == c;
    assert(a[w].coords == c);
    let k1 = spec_index_of(a, c);
    assert(a[k1].coords == c);
    assert(b[w].coords == c);
    let k2 = spec_index_of(b, c);
    assert(b[k2].coords == c);
    assert(a[k2].coords == c);
    assert(entry_coords(a)[k1] == c);
    assert(entry_coords(a)[k2] == c);
}

/// The whole voxel world.
pub struct World {
    pub chunks: Vec<ChunkEntry>,
    pub chunk_queue: ChunkQueue,
    pub generator: Generator,
    pub render_queue: Vec<ChunkCoords>,
    pub prev_cam_chunk_coords: ChunkCoords,
    pub prev_cam_block_coords: BlockCoords,
}

impl World {
    /// Well-formed world: one entry per coordinate, all coordinates in
    /// bounds, all chunks well formed, and the queue tracking exactly the
    /// loaded coordinates.
    pub open spec fn wf(self) -> bool {
        &&& entry_coords(self.chunks@).no_duplicates()
        &&& forall|i: int|
            0 <= i < self.chunks@.len() ==> (#[trigger] self.chunks@[i]).coords.in_chunk_bounds()
                && self.chunks@[i].chunk.wf() && crate::chunk::graphics_coherent(
                self.chunks@[i].chunk,
            )
        &&& self.chunk_queue.wf()
        &&& forall|c: ChunkCoords|
            #[trigger] has_coords(self.chunk_queue.queue@, c) == spec_loaded(self.chunks@, c)
        &&& forall|k: int|
            0 <= k < self.render_queue@.len() ==> (
            #[trigger] self.render_queue@[k]).in_chunk_bounds()
        &&& self.prev_cam_chunk_coords.in_chunk_bounds()
        &&& self.prev_cam_block_coords.in_chunk_bounds()
        &&& (!self.chunk_queue.needs_sort ==> {
            &&& self.chunk_queue.point_of_view == self.prev_cam_chunk_coords
            &&& forall|i: int, j: int|
                0 <= i < j < self.chunk_queue.queue@.len() ==> dist2_vec3i(
                    self.chunk_queue.point_of_view,
                    self.chunk_queue.queue@[i].coords,
                ) <= dist2_vec3i(
                    self.chunk_queue.point_of_view,
                    self.chunk_queue.queue@[j].coords,
                )
        })
    }

    /// Whether the chunk at `c` is loaded.
    pub open spec fn loaded(self, c: ChunkCoords) -> bool {
        spec_loaded(self.chunks@, c)
    }

    /// The chunk at `c`.
    pub open spec fn chunk_at(self, c: ChunkCoords) -> Chunk {
        spec_chunk_at(self.chunks@, c)
    }

    /// The block a world-absolute block coordinate resolves to: absent
    /// when its chunk is not loaded.
    pub open spec fn spec_get_block(self, coords: BlockCoords) -> Option<Block> {
        let cc = Vec3i {
            x: ((coords.x as int) / 16) as i32,
            y: ((coords.y as int) / 16) as i32,
            z: ((coords.z as int) / 16) as i32,
        };
        let lc = Vec3i {
            x: (coords.x - cc.x * 16) as i32,
            y: (coords.y - cc.y * 16) as i32,
            z: (coords.z - cc.z * 16) as i32,
        };
        if self.loaded(cc) {
            Some(Block::spec_by_id(self.chunk_at(cc).cell_at(lc).block_id))
        } else {
            None
        }
    }

    pub fn new() -> (r: World)
        ensures
            r.wf(),
            r.chunks@.len() == 0,
            r.chunk_queue.queue@.len() == 0,
            r.chunk_queue.needs_sort == false,
            r.render_queue@.len() == 0,
            r.generator.seed == 0,
            r.prev_cam_chunk_coords == (Vec3i { x: 0, y: 0, z: 0 }),
            r.prev_cam_block_coords == (Vec3i { x: 0, y: 0, z: 0 }),
    {
        World {
            chunks: Vec::new(),
            chunk_queue: ChunkQueue::new(),
            generator: Generator::new(0),
            render_queue: Vec::new(),
            prev_cam_chunk_coords: Vec3i::new(0, 0, 0),
            prev_cam_block_coords: Vec3i::new(0, 0, 0),
        }
    }

    /// The index of the entry holding `coords`, if loaded.
    fn find_chunk(&self, coords: ChunkCoords) -> (r: Option<usize>)
        requires
            self.wf(),
        ensures
            match r {
                Some(i) => i < self.chunks@.len() && self.chunks@[i as int].coords == coords
                    && spec_index_of(self.chunks@, coords) == i && self.loaded(coords),
                None => !self.loaded(coords),
            },
    {
        let n = self.chunks.len();
        let mut i: usize = 0;
        while i < n
            invariant
                self.wf(),
                n == self.chunks@.len(),
                i <= n,
                forall|j: int| 0 <= j < i ==> (#[trigger] self.chunks@[j]).coords != coords,
            decreases n - i,
        {
            if self.chunks[i].coords.eq_coords(coords) {
                proof {
                    assert(self.chunks@[i as int].coords == coords);
                    let k = spec_index_of(self.chunks@, coords);
                    assert(entry_coords(self.chunks@)[k] == coords);
                    assert(entry_coords(self.chunks@)[i as int] == coords);
                }
                return Some(i);
            }
            i = i + 1;
        }
        None
    }

    /// Lazily create the chunk at `coords`: a no-op when already loaded,
    /// else a fresh `NotGenerated` chunk entered into the map and queue.
    pub fn load_chunk(&mut self, coords: ChunkCoords)
        requires
            old(self).wf(),
            coords.in_chunk_bounds(),
        ensures
            final(self).wf(),
            final(self).loaded(coords),
            old(self).loaded(coords) ==> *final(self) == *old(self),
            !old(self).loaded(coords) ==> {
                &&& final(self).chunks@.len() == old(self).chunks@.len() + 1
                &&& forall|i: int|
                    0 <= i < old(self).chunks@.len() ==> final(self).chunks@[i] == old(self).chunks@[i]
                &&& final(self).chunks@.last().coords == coords
                &&& final(self).chunks@.last().chunk.status == ChunkStatus::NotGenerated
                &&& final(self).chunks@.last().chunk.graphics is None
                &&& forall|ci: int|
                    0 <= ci < CHUNK_VOLUME ==> (#[trigger] final(self).chunks@.last().chunk.data@[ci]) == (Cell {
                        block_id: BlockId::Air,
                        sun_light: 0,
                        block_light: 0,
                    })
                &&& final(self).chunk_queue.queue@ == old(self).chunk_queue.queue@.push(
                    crate::chunk_queue::QueueItem { coords, key: 0, in_frustrum: false },
                )
                &&& final(self).chunk_queue.needs_sort == true
            },
            old(self).loaded(coords) ==> final(self).chunk_queue == old(self).chunk_queue,
            final(self).render_queue == old(self).render_queue,
            final(self).generator == old(self).generator,
            final(self).prev_cam_chunk_coords == old(self).prev_cam_chunk_coords,
            final(self).prev_cam_block_coords == old(self).prev_cam_block_coords,
    {
        match self.find_chunk(coords) {
            Some(_) => {},
            None => {
                let ghost prev = self.chunks@;
                let chunk = Chunk::new();
                self.chunks.push(ChunkEntry { coords, chunk });
                self.chunk_queue.insert(coords);
                proof {
                    assert(entry_coords(self.chunks@)[self.chunks@.len() - 1] == coords);
                    assert(self.loaded(coords));
                    assert(entry_coords(self.chunks@) =~= entry_coords(prev).push(coords));
                    assert forall|i2: int, j2: int|
                        0 <= i2 < entry_coords(self.chunks@).len() && 0 <= j2 < entry_coords(
                            self.chunks@,
                        ).len() && i2 != j2 implies entry_coords(self.chunks@)[i2] != entry_coords(
                        self.chunks@,
                    )[j2] by {
                        if i2 < prev.len() && j2 < prev.len() {
                        } else if i2 == prev.len() {
                            assert(!spec_loaded(prev, coords));
                            assert(entry_coords(self.chunks@)[j2] == prev[j2].coords);
                        } else if j2 == prev.len() {
                            assert(entry_coords(self.chunks@)[i2] == prev[i2].coords);
                        }
                    }
                    assert(crate::chunk_queue::items_coords(self.chunk_queue.queue@)
                        =~= crate::chunk_queue::items_coords(old(self).chunk_queue.queue@).push(
                        coords,
                    ));
                    assert forall|c: ChunkCoords| #[trigger]
                        has_coords(self.chunk_queue.queue@, c) == spec_loaded(
                        self.chunks@,
                        c,
                    ) by {
                        crate::sorting::lemma_contains_push(
                            crate::chunk_queue::items_coords(old(self).chunk_queue.queue@),
                            coords,
                            c,
                        );
                        crate::sorting::lemma_contains_push(entry_coords(prev), coords, c);
                        assert(has_coords(old(self).chunk_queue.queue@, c) == spec_loaded(
                            prev,
                            c,
                        ));
                    }
                }
            },
        }
    }

    /// A read-only view of the chunk at `coords`.
    pub fn borrow_chunk(&self, coords: ChunkCoords) -> (r: Option<&Chunk>)
        requires
            self.wf(),
        ensures
            match r {
                Some(c) => self.loaded(coords) && *c == self.chunk_at(coords),
                None => !self.loaded(coords),
            },
    {
        match self.find_chunk(coords) {
            Some(i) => Some(&self.chunks[i].chunk),
            None => None,
        }
    }

    /// A mutable view of the chunk at `coords`. The world's invariant is
    /// the caller's to keep while the borrow lives.
    pub fn borrow_mut_chunk(&mut self, coords: ChunkCoords) -> (r: Option<&mut Chunk>)
        requires
            old(self).wf(),
        ensures
            r is None ==> !old(self).loaded(coords) && *final(self) == *old(self),
            match r {
                Some(m) => {
                    &&& old(self).loaded(coords)
                    &&& *m == old(self).chunk_at(coords)
                    &&& final(self).chunks@ == old(self).chunks@.update(
                        spec_index_of(old(self).chunks@, coords),
                        ChunkEntry { coords, chunk: *final(m) },
                    )
                    &&& final(self).chunk_queue == old(self).chunk_queue
                    &&& final(self).render_queue == old(self).render_queue
                    &&& final(self).generator == old(self).generator
                    &&& final(self).prev_cam_chunk_coords == old(self).prev_cam_chunk_coords
                    &&& final(self).prev_cam_block_coords == old(self).prev_cam_block_coords
                },
                None => true,
            },
    {
        match self.find_chunk(coords) {
            Some(i) => {
                proof {
                    assert(self.chunks@[i as int].chunk == self.chunk_at(coords));
                }
                Some(&mut self.chunks[i].chunk)
            },
            None => None,
        }
    }

    /// The block at a world-absolute block coordinate, absent when its
    /// chunk is not loaded. Coordinates must lie within the world model's
    /// bound (`in_chunk_bounds`); see `CHUNK_COORD_BOUND`.
    pub fn get_block(&self, coords: BlockCoords) -> (r: Option<Block>)
        requires
            self.wf(),
            coords.in_chunk_bounds(),
        ensures
            r == self.spec_get_block(coords),
    {
        let (cc, lc) = to_local_chunk_coords(coords);
        proof {
            crate::coords::lemma_floor16_unique(coords.x as int, cc.x as int);
            crate::coords::lemma_floor16_unique(coords.y as int, cc.y as int);
            crate::coords::lemma_floor16_unique(coords.z as int, cc.z as int);
        }
        match self.borrow_chunk(cc) {
            Some(chunk) => Some(chunk.get_cell(lc).get_block()),
            None => None,
        }
    }

    /// Regress the status of every loaded geometric neighbor of
    /// `chunk_coords`; nothing else changes.
    fn invalidate_neighbors(&mut self, chunk_coords: ChunkCoords, new_status: ChunkStatus)
        requires
            old(self).wf(),
            chunk_coords.in_chunk_bounds(),
        ensures
            final(self).wf(),
            final(self).chunks@.len() == old(self).chunks@.len(),
            forall|j: int|
                0 <= j < old(self).chunks@.len() ==> {
                    &&& (#[trigger] final(self).chunks@[j]).coords == old(self).chunks@[j].coords
                    &&& final(self).chunks@[j].chunk.data == old(self).chunks@[j].chunk.data
                    &&& (is_neighbor(old(self).chunks@[j].coords, chunk_coords) ==> final(self).chunks@[j].chunk.status == ChunkStatus::spec_min(
                        old(self).chunks@[j].chunk.status,
                        new_status,
                    ) && final(self).chunks@[j].chunk.graphics == (if final(self).chunks@[j].chunk.status == ChunkStatus::Ready {
                        old(self).chunks@[j].chunk.graphics
                    } else {
                        None::<ChunkGraphics>
                    }))
                    &&& (!is_neighbor(old(self).chunks@[j].coords, chunk_coords) ==> final(self).chunks@[j] == old(self).chunks@[j])
                },
            final(self).chunk_queue == old(self).chunk_queue,
            final(self).render_queue == old(self).render_queue,
            final(self).generator == old(self).generator,
            final(self).prev_cam_chunk_coords == old(self).prev_cam_chunk_coords,
            final(self).prev_cam_block_coords == old(self).prev_cam_block_coords,
    {
        let mut j: usize = 0;
        let n = self.chunks.len();
        while j < n
            invariant
                n == self.chunks@.len(),
                n == old(self).chunks@.len(),
                j <= n,
                chunk_coords.in_chunk_bounds(),
                self.wf(),
                self.chunk_queue == old(self).chunk_queue,
                self.render_queue == old(self).render_queue,
                self.generator == old(self).generator,
                self.prev_cam_chunk_coords == old(self).prev_cam_chunk_coords,
                self.prev_cam_block_coords == old(self).prev_cam_block_coords,
                forall|i: int|
                    0 <= i < n ==> {
                        &&& (#[trigger] self.chunks@[i]).coords == old(self).chunks@[i].coords
                        &&& self.chunks@[i].chunk.data == old(self).chunks@[i].chunk.data
                    },
                forall|i: int|
                    0 <= i < j ==> {
                        &&& (is_neighbor(old(self).chunks@[i].coords, chunk_coords) ==> (
                        #[trigger] self.chunks@[i]).chunk.status == ChunkStatus::spec_min(
                            old(self).chunks@[i].chunk.status,
                            new_status,
                        ) && self.chunks@[i].chunk.graphics == (
                        if self.chunks@[i].chunk.status == ChunkStatus::Ready {
                            old(self).chunks@[i].chunk.graphics
                        } else {
                            None::<ChunkGraphics>
                        }))
                        &&& (!is_neighbor(old(self).chunks@[i].coords, chunk_coords)
                            ==> self.chunks@[i] == old(self).chunks@[i])
                    },
                forall|i: int|
                    j <= i < n ==> (#[trigger] self.chunks@[i]) == old(self).chunks@[i],
            decreases n - j,
        {
            let c = self.chunks[j].coords;
            let dx = c.x - chunk_coords.x;
            let dy = c.y - chunk_coords.y;
            let dz = c.z - chunk_coords.z;
            let near = -1 <= dx && dx <= 1 && -1 <= dy && dy <= 1 && -1 <= dz && dz <= 1;
            let same = dx == 0 && dy == 0 && dz == 0;
            if near && !same {
                let ghost prev = self.chunks@;
                let mut entry = self.chunks.remove(j);
                entry.chunk.invalidate(new_status);
                self.chunks.insert(j, entry);
                proof {
                    assert(self.chunks@ =~= prev.update(
                        j as int,
                        ChunkEntry { coords: prev[j as int].coords, chunk: entry.chunk },
                    ));
                    assert(entry_coords(self.chunks@) =~= entry_coords(prev));
                    assert(is_neighbor(old(self).chunks@[j as int].coords, chunk_coords));
                }
            } else {
                proof {
                    assert(!is_neighbor(old(self).chunks@[j as int].coords, chunk_coords));
                }
            }
            j = j + 1;
        }
    }

    /// Write a block id at a world-absolute coordinate. When the chunk is
    /// loaded, the cell's block changes, the owning chunk regresses to
    /// `LightmapOutdated`, and so do its 26 loaded neighbors; when it is
    /// not loaded, nothing changes.
    pub fn set_block(&mut self, coords: BlockCoords, block_id: BlockId)
        requires
            old(self).wf(),
            coords.in_chunk_bounds(),
        ensures
            final(self).wf(),
            final(self).spec_get_block(coords) == if old(self).spec_get_block(
                coords,
            ) is Some {
                Some(Block::spec_by_id(block_id))
            } else {
                None::<Block>
            },
            final(self).chunks@.len() == old(self).chunks@.len(),
            forall|j: int|
                0 <= j < old(self).chunks@.len() ==> (#[trigger] final(self).chunks@[j]).coords
                    == old(self).chunks@[j].coords,
            old(self).spec_get_block(coords) is None ==> *final(self) == *old(self),
            old(self).spec_get_block(coords) is Some ==> {
                let cc = Vec3i {
                    x: ((coords.x as int) / 16) as i32,
                    y: ((coords.y as int) / 16) as i32,
                    z: ((coords.z as int) / 16) as i32,
                };
                let lc = Vec3i {
                    x: (coords.x - cc.x * 16) as i32,
                    y: (coords.y - cc.y * 16) as i32,
                    z: (coords.z - cc.z * 16) as i32,
                };
                &&& final(self).chunk_at(cc).status == ChunkStatus::spec_min(
                    old(self).chunk_at(cc).status,
                    ChunkStatus::LightmapOutdated,
                )
                &&& final(self).chunk_at(cc).data@ == old(self).chunk_at(cc).data@.update(
                    cell_index(lc),
                    Cell {
                        block_id,
                        sun_light: old(self).chunk_at(cc).cell_at(lc).sun_light,
                        block_light: old(self).chunk_at(cc).cell_at(lc).block_light,
                    },
                )
                &&& final(self).chunk_at(cc).graphics is None
                &&& forall|j: int|
                    0 <= j < old(self).chunks@.len() && is_neighbor(
                        old(self).chunks@[j].coords,
                        cc,
                    ) ==> (#[trigger] final(self).chunks@[j]).chunk.status
                        == ChunkStatus::spec_min(
                        old(self).chunks@[j].chunk.status,
                        ChunkStatus::LightmapOutdated,
                    ) && final(self).chunks@[j].chunk.graphics is None
                        && final(self).chunks@[j].chunk.data == old(self).chunks@[j].chunk.data
                &&& forall|j: int|
                    0 <= j < old(self).chunks@.len() && old(self).chunks@[j].coords != cc
                        && !is_neighbor(old(self).chunks@[j].coords, cc) ==> (#[trigger] final(self).chunks@[j]) == old(self).chunks@[j]
            },
            final(self).chunk_queue == old(self).chunk_queue,
            final(self).render_queue == old(self).render_queue,
            final(self).generator == old(self).generator,
    {
        let (cc, lc) = to_local_chunk_coords(coords);
        proof {
            crate::coords::lemma_floor16_unique(coords.x as int, cc.x as int);
            crate::coords::lemma_floor16_unique(coords.y as int, cc.y as int);
            crate::coords::lemma_floor16_unique(coords.z as int, cc.z as int);
        }
        match self.find_chunk(cc) {
            None => {},
            Some(i) => {
                let ghost prev = self.chunks@;
                let ghost k = spec_index_of(old(self).chunks@, cc);
                let mut entry = self.chunks.remove(i);
                let old_cell = entry.chunk.get_cell(lc);
                entry.chunk.set_cell(
                    lc,
                    Cell {
                        block_id,
                        sun_light: old_cell.sun_light,
                        block_light: old_cell.block_light,
                    },
                );
                entry.chunk.invalidate(ChunkStatus::LightmapOutdated);
                self.chunks.insert(i, entry);
                proof {
                    assert(self.chunks@ =~= prev.update(
                        i as int,
                        ChunkEntry { coords: cc, chunk: self.chunks@[i as int].chunk },
                    ));
                    assert(entry_coords(self.chunks@) =~= entry_coords(prev));
                    assert(spec_index_of(self.chunks@, cc) == k) by {
                        assert(self.chunks@[k].coords == cc);
                        let k2 = spec_index_of(self.chunks@, cc);
                        assert(entry_coords(self.chunks@)[k2] == cc);
                        assert(entry_coords(self.chunks@)[k] == cc);
                    }
                }
                let ghost mid = self.chunks@;
                self.invalidate_neighbors(cc, ChunkStatus::LightmapOutdated);
                proof {
                    assert(spec_index_of(self.chunks@, cc) == k) by {
                        assert(self.chunks@[k].coords == mid[k].coords);
                        assert(self.chunks@[k].coords == cc);
                        let k2 = spec_index_of(self.chunks@, cc);
                        assert(entry_coords(self.chunks@)[k2] == cc);
                        assert(entry_coords(self.chunks@)[k] == cc);
                    }
                    assert(!is_neighbor(cc, cc));
                    assert(self.chunks@[k].chunk.data == mid[k].chunk.data);
                    assert(self.chunks@[k].chunk.status == mid[k].chunk.status);
                    assert(self.chunk_at(cc) == self.chunks@[k].chunk);
                    assert(mid[k].chunk.data@ == old(self).chunks@[k].chunk.data@.update(
                        cell_index(lc),
                        Cell {
                            block_id,
                            sun_light: old_cell.sun_light,
                            block_light: old_cell.block_light,
                        },
                    ));
                    assert(self.chunk_at(cc).cell_at(lc).block_id == block_id);
                    assert(old(self).spec_get_block(coords) is Some);
                    assert(entry_coords(self.chunks@) =~= entry_coords(mid));
                    assert(entry_coords(self.chunks@)[k] == cc);
                    assert(self.loaded(cc));
                    let ccs = Vec3i {
                        x: ((coords.x as int) / 16) as i32,
                        y: ((coords.y as int) / 16) as i32,
                        z: ((coords.z as int) / 16) as i32,
                    };
                    assert(ccs == cc);
                    let lcs = Vec3i {
                        x: (coords.x - ccs.x * 16) as i32,
                        y: (coords.y - ccs.y * 16) as i32,
                        z: (coords.z - ccs.z * 16) as i32,
                    };
                    assert(lcs == lc);
                    assert(self.spec_get_block(coords) == Some(Block::spec_by_id(block_id)));
                }
            },
        }
    }

    pub fn num_chunks_loaded(&self) -> (r: usize)
        ensures
            r == self.chunks@.len(),
    {
        self.chunks.len()
    }

    pub fn num_chunks_rendered(&self) -> (r: usize)
        ensures
            r == self.render_queue@.len(),
    {
        self.render_queue.len()
    }

    /// Build the renderable data for a chunk from its cells: absent
    /// exactly when the chunk has no visible geometry.
    pub fn create_chunk_graphics(coords: ChunkCoords, chunk: &Chunk) -> (r: Option<ChunkGraphics>)
        requires
            chunk.data@.len() == CHUNK_VOLUME,
            coords.in_chunk_bounds(),
        ensures
            r is Some <==> has_visible_geometry(chunk.data@),
            match r {
                Some(g) => {
                    &&& g.wf()
                    &&& g.graphics_data.water_faces_unsorted
                    &&& forall|i: int|
                        0 <= i < g.graphics_data.water_faces@.len() ==> (
                        #[trigger] g.graphics_data.water_faces@[i]).base_index == 4 * i
                            && g.graphics_data.water_faces@[i].distance == 0
                    &&& g.solid_mesh.vertices@.len() % 4 == 0
                    &&& g.solid_mesh.indices@.len() == 6 * (g.solid_mesh.vertices@.len() / 4)
                    &&& forall|k: int|
                        0 <= k < g.solid_mesh.indices@.len() ==> (
                        #[trigger] g.solid_mesh.indices@[k]) == crate::rendering::corner_index(
                            k % 6,
                        ) + 4 * (k / 6)
                    &&& g.water_mesh.indices@.len() == 6 * g.graphics_data.water_faces@.len()
                    &&& forall|k: int|
                        0 <= k < g.water_mesh.indices@.len() ==> (
                        #[trigger] g.water_mesh.indices@[k]) == crate::rendering::corner_index(
                            k % 6,
                        ) + g.graphics_data.water_faces@[k / 6].base_index
                    &&& g.offset.x == coords.x * crate::coords::CHUNK_FX_SIZE
                    &&& g.offset.y == coords.y * crate::coords::CHUNK_FX_SIZE
                    &&& g.offset.z == coords.z * crate::coords::CHUNK_FX_SIZE
                },
                None => true,
            },
    {
        let meshes = ChunkMeshes::generate(chunk);
        if meshes.water_vertices.len() == 0 && meshes.solid_vertices.len() == 0 {
            return None;
        }
        let solid_count = meshes.solid_vertices.len() / 4;
        let solid_indices = Face::generate_default_indices(solid_count);
        let water_indices = Face::generate_indices(&meshes.water_faces);
        let offset = to_chunk_offset(coords);
        Some(
            ChunkGraphics {
                solid_mesh: ChunkMesh::new(meshes.solid_vertices, solid_indices),
                water_mesh: ChunkMesh::new(meshes.water_vertices, water_indices),
                offset,
                graphics_data: ChunkGraphicsData {
                    water_faces: meshes.water_faces,
                    water_faces_unsorted: true,
                },
            },
        )
    }

    /// Advance the chunk at `coords` by exactly one pipeline stage; when it
    /// was not yet generated, its 26 loaded neighbors regress to
    /// `LightmapOutdated`. A flagged transparent-face list is re-sorted
    /// against the camera.
    fn process_chunk(&mut self, coords: ChunkCoords, camera: &Camera)
        requires
            old(self).wf(),
            camera.wf(),
            coords.in_chunk_bounds(),
        ensures
            final(self).wf(),
            final(self).chunks@.len() == old(self).chunks@.len(),
            forall|j: int|
                0 <= j < old(self).chunks@.len() ==> (#[trigger] final(self).chunks@[j]).coords
                    == old(self).chunks@[j].coords,
            final(self).chunk_queue == old(self).chunk_queue,
            final(self).render_queue == old(self).render_queue,
            final(self).generator == old(self).generator,
            final(self).prev_cam_chunk_coords == old(self).prev_cam_chunk_coords,
            final(self).prev_cam_block_coords == old(self).prev_cam_block_coords,
            !old(self).loaded(coords) ==> final(self).chunks@ == old(self).chunks@,
            old(self).loaded(coords) ==> {
                let k = spec_index_of(old(self).chunks@, coords);
                let st = old(self).chunks@[k].chunk.status;
                &&& final(self).chunks@[k].chunk.status == st.advanced()
                &&& (st != ChunkStatus::NotGenerated ==> forall|ci: int|
                    0 <= ci < CHUNK_VOLUME ==> (#[trigger] final(self).chunks@[k].chunk.data@[ci]).block_id
                        == old(self).chunks@[k].chunk.data@[ci].block_id)
                &&& (st == ChunkStatus::GraphicsOutdated ==> (final(self).chunks@[k].chunk.graphics is Some <==> has_visible_geometry(
                    final(self).chunks@[k].chunk.data@,
                )))
                &&& (st != ChunkStatus::NotGenerated ==> forall|j: int|
                    0 <= j < old(self).chunks@.len() && j != k ==> (#[trigger] final(self).chunks@[j]) == old(self).chunks@[j])
                &&& (st == ChunkStatus::NotGenerated ==> forall|j: int|
                    0 <= j < old(self).chunks@.len() && j != k ==> {
                        &&& (#[trigger] final(self).chunks@[j]).chunk.data == old(self).chunks@[j].chunk.data
                        &&& (is_neighbor(old(self).chunks@[j].coords, coords) ==> final(self).chunks@[j].chunk.status == ChunkStatus::spec_min(
                            old(self).chunks@[j].chunk.status,
                            ChunkStatus::LightmapOutdated,
                        ) && final(self).chunks@[j].chunk.graphics is None)
                        &&& (!is_neighbor(old(self).chunks@[j].coords, coords) ==> final(self).chunks@[j] == old(self).chunks@[j])
                    })
            },
            (forall|j: int|
                0 <= j < old(self).chunks@.len() ==> (
                #[trigger] old(self).chunks@[j]).chunk.status != ChunkStatus::NotGenerated)
                ==> forall|j: int|
                0 <= j < old(self).chunks@.len() ==> (
                #[trigger] final(self).chunks@[j]).chunk.status.ord() >= old(self).chunks@[j].chunk.status.ord(),
    {
        let i = match self.find_chunk(coords) {
            None => {
                return ;
            },
            Some(i) => i,
        };
        let ghost k = i as int;
        let st = self.chunks[i].chunk.status;
        match st {
            ChunkStatus::NotGenerated => {
                let ghost prev = self.chunks@;
                let gen = self.generator;
                let mut entry = self.chunks.remove(i);
                gen.generate_chunk(&mut entry.chunk, coords);
                recalculate_light(&mut entry.chunk);
                entry.chunk.status = ChunkStatus::LightmapOutdated;
                self.chunks.insert(i, entry);
                proof {
                    assert(self.chunks@ =~= prev.update(
                        i as int,
                        ChunkEntry { coords, chunk: self.chunks@[k].chunk },
                    ));
                    assert(entry_coords(self.chunks@) =~= entry_coords(prev));
                    assert(self.chunks@[k].chunk.wf());
                }
                self.invalidate_neighbors(coords, ChunkStatus::LightmapOutdated);
                proof {
                    assert(!is_neighbor(coords, coords));
                }
            },
            ChunkStatus::LightmapOutdated => {
                let ghost prev = self.chunks@;
                let mut entry = self.chunks.remove(i);
                recalculate_light(&mut entry.chunk);
                entry.chunk.status = ChunkStatus::GraphicsOutdated;
                self.chunks.insert(i, entry);
                proof {
                    assert(self.chunks@ =~= prev.update(
                        i as int,
                        ChunkEntry { coords, chunk: self.chunks@[k].chunk },
                    ));
                    assert(entry_coords(self.chunks@) =~= entry_coords(prev));
                    assert(self.chunks@[k].chunk.wf());
                }
            },
            ChunkStatus::GraphicsOutdated => {
                let ghost prev = self.chunks@;
                let mut entry = self.chunks.remove(i);
                let graphics = World::create_chunk_graphics(coords, &entry.chunk);
                entry.chunk.graphics = graphics;
                entry.chunk.status = ChunkStatus::Ready;
                self.chunks.insert(i, entry);
                proof {
                    assert(self.chunks@ =~= prev.update(
                        i as int,
                        ChunkEntry { coords, chunk: self.chunks@[k].chunk },
                    ));
                    assert(entry_coords(self.chunks@) =~= entry_coords(prev));
                    assert(self.chunks@[k].chunk.wf());
                }
            },
            ChunkStatus::Ready => {},
        }
        let ghost before_sort = self.chunks@;
        let mut entry = self.chunks.remove(i);
        let needs = match &entry.chunk.graphics {
            Some(g) => g.needs_water_faces_sorting(),
            None => false,
        };
        if needs {
            let offset = to_chunk_offset(coords);
            let rel = Fx3 {
                x: camera.position.x - offset.x,
                y: camera.position.y - offset.y,
                z: camera.position.z - offset.z,
            };
            match &mut entry.chunk.graphics {
                Some(g) => {
                    g.sort_water_geometry(rel);
                },
                None => {},
            }
        }
        self.chunks.insert(i, entry);
        proof {
            assert(self.chunks@ =~= before_sort.update(
                i as int,
                ChunkEntry { coords, chunk: self.chunks@[k].chunk },
            ));
            assert(entry_coords(self.chunks@) =~= entry_coords(before_sort));
            assert(self.chunks@[k].chunk.wf());
            let st0 = old(self).chunks@[k].chunk.status;
            assert(spec_index_of(old(self).chunks@, coords) == k);
            assert(st0 == st);
            assert(self.chunks@[k].chunk.status == st0.advanced());
            if st0 != ChunkStatus::NotGenerated {
                assert forall|ci: int|
                    0 <= ci < CHUNK_VOLUME implies (#[trigger] self.chunks@[k].chunk.data@[ci]).block_id
                        == old(self).chunks@[k].chunk.data@[ci].block_id by {
                    crate::light::lemma_cell_index_covers(ci);
                    let c = Vec3i {
                        x: (ci / 256) as i32,
                        y: ((ci / 16) % 16) as i32,
                        z: (ci % 16) as i32,
                    };
                    assert(self.chunks@[k].chunk.data@[cell_index(c)].block_id == old(self).chunks@[k].chunk.data@[cell_index(c)].block_id);
                }
                assert(forall|j: int|
                    0 <= j < old(self).chunks@.len() && j != k ==> (#[trigger] self.chunks@[j])
                        == old(self).chunks@[j]);
            }
            if st0 == ChunkStatus::GraphicsOutdated {
                assert(self.chunks@[k].chunk.graphics is Some <==> has_visible_geometry(
                    self.chunks@[k].chunk.data@,
                ));
            }
        }
    }

    /// Detect camera movement at both granularities: crossing a chunk
    /// boundary marks the queue for re-sorting; crossing a block boundary
    /// marks every rendered chunk's transparent faces for re-sorting.
    fn check_what_is_to_sort(&mut self, camera_position: Fx3)
        requires
            old(self).wf(),
            camera_position.in_cam_bounds(),
        ensures
            final(self).wf(),
            final(self).prev_cam_chunk_coords == spec_chunk_coords_of(camera_position),
            final(self).prev_cam_block_coords == spec_block_coords_of(camera_position),
            final(self).chunks@.len() == old(self).chunks@.len(),
            forall|j: int|
                0 <= j < old(self).chunks@.len() ==> (#[trigger] final(self).chunks@[j]).coords
                    == old(self).chunks@[j].coords && chunk_same_but_flag(
                    old(self).chunks@[j].chunk,
                    final(self).chunks@[j].chunk,
                ),
            final(self).chunk_queue.queue == old(self).chunk_queue.queue,
            final(self).chunk_queue.point_of_view == old(self).chunk_queue.point_of_view,
            final(self).chunk_queue.needs_sort == (old(self).chunk_queue.needs_sort
                || spec_chunk_coords_of(camera_position) != old(self).prev_cam_chunk_coords),
            spec_block_coords_of(camera_position) == old(self).prev_cam_block_coords
                ==> forall|j: int|
                0 <= j < old(self).chunks@.len() ==> (#[trigger] final(self).chunks@[j])
                    == old(self).chunks@[j],
            spec_block_coords_of(camera_position) != old(self).prev_cam_block_coords
                ==> forall|j: int|
                0 <= j < old(self).chunks@.len() ==> flag_dirtied(
                    (#[trigger] old(self).chunks@[j]).chunk,
                    final(self).chunks@[j].chunk,
                    old(self).render_queue@.contains(old(self).chunks@[j].coords),
                ),
            final(self).render_queue == old(self).render_queue,
            final(self).generator == old(self).generator,
    {
        let (cam_chunk_coords, cam_block_coords) = get_chunk_and_block_coords(camera_position);
        if !cam_chunk_coords.eq_coords(self.prev_cam_chunk_coords) {
            self.chunk_queue.mark_unsorted();
        }
        self.prev_cam_chunk_coords = cam_chunk_coords;
        if !cam_block_coords.eq_coords(self.prev_cam_block_coords) {
            let n = self.render_queue.len();
            let mut t: usize = 0;
            while t < n
                invariant
                    n == self.render_queue@.len(),
                    t <= n,
                    self.wf(),
                    self.chunks@.len() == old(self).chunks@.len(),
                    forall|j: int|
                        0 <= j < old(self).chunks@.len() ==> (
                        #[trigger] self.chunks@[j]).coords == old(self).chunks@[j].coords
                            && chunk_same_but_flag(
                            old(self).chunks@[j].chunk,
                            self.chunks@[j].chunk,
                        ),
                    self.chunk_queue.queue == old(self).chunk_queue.queue,
                    self.chunk_queue.point_of_view == old(self).chunk_queue.point_of_view,
                    self.chunk_queue.needs_sort == (old(self).chunk_queue.needs_sort
                        || cam_chunk_coords != old(self).prev_cam_chunk_coords),
                    self.render_queue == old(self).render_queue,
                    self.generator == old(self).generator,
                    self.prev_cam_chunk_coords == cam_chunk_coords,
                    self.prev_cam_block_coords == old(self).prev_cam_block_coords,
                    forall|j: int|
                        0 <= j < old(self).chunks@.len() ==> flag_dirtied(
                            (#[trigger] old(self).chunks@[j]).chunk,
                            self.chunks@[j].chunk,
                            self.render_queue@.subrange(0, t as int).contains(
                                self.chunks@[j].coords,
                            ),
                        ),
                decreases n - t,
            {
                let rc = self.render_queue[t];
                let ghost prev = self.chunks@;
                let ghost sub0 = self.render_queue@.subrange(0, t as int);
                let ghost sub1 = self.render_queue@.subrange(0, t as int + 1);
                proof {
                    assert(sub1 =~= sub0.push(rc));
                    assert(sub1[t as int] == rc);
                    assert(sub1.contains(rc));
                }
                match self.find_chunk(rc) {
                    Some(i) => {
                        let mut entry = self.chunks.remove(i);
                        match &mut entry.chunk.graphics {
                            Some(g) => {
                                g.graphics_data.water_faces_unsorted = true;
                            },
                            None => {},
                        }
                        self.chunks.insert(i, entry);
                        proof {
                            assert(self.chunks@ =~= prev.update(
                                i as int,
                                ChunkEntry { coords: rc, chunk: self.chunks@[i as int].chunk },
                            ));
                            assert(entry_coords(self.chunks@) =~= entry_coords(prev));
                            assert(self.chunks@[i as int].chunk.wf());
                            assert forall|j: int|
                                0 <= j < old(self).chunks@.len() implies flag_dirtied(
                                (#[trigger] old(self).chunks@[j]).chunk,
                                self.chunks@[j].chunk,
                                sub1.contains(self.chunks@[j].coords),
                            ) by {
                                crate::sorting::lemma_contains_push(
                                    sub0,
                                    rc,
                                    self.chunks@[j].coords,
                                );
                                if j == i {
                                    assert(self.chunks@[j].coords == rc);
                                    assert(flag_dirtied(
                                        old(self).chunks@[j].chunk,
                                        prev[j].chunk,
                                        sub0.contains(prev[j].coords),
                                    ));
                                } else {
                                    assert(entry_coords(prev)[j] != entry_coords(prev)[i as int]);
                                    assert(self.chunks@[j].coords != rc);
                                    assert(self.chunks@[j] == prev[j]);
                                    assert(flag_dirtied(
                                        old(self).chunks@[j].chunk,
                                        prev[j].chunk,
                                        sub0.contains(prev[j].coords),
                                    ));
                                }
                            }
                        }
                    },
                    None => {
                        proof {
                            assert forall|j: int|
                                0 <= j < old(self).chunks@.len() implies flag_dirtied(
                                (#[trigger] old(self).chunks@[j]).chunk,
                                self.chunks@[j].chunk,
                                sub1.contains(self.chunks@[j].coords),
                            ) by {
                                crate::sorting::lemma_contains_push(
                                    sub0,
                                    rc,
                                    self.chunks@[j].coords,
                                );
                                assert(entry_coords(self.chunks@)[j] == self.chunks@[j].coords);
                                assert(self.chunks@[j].coords != rc);
                                assert(flag_dirtied(
                                    old(self).chunks@[j].chunk,
                                    self.chunks@[j].chunk,
                                    sub0.contains(self.chunks@[j].coords),
                                ));
                            }
                        }
                    },
                }
                t = t + 1;
            }
            proof {
                assert(self.render_queue@.subrange(0, n as int) =~= self.render_queue@);
            }
        }
        self.prev_cam_block_coords = cam_block_coords;
    }

    /// One frame of world work under an explicit time budget: re-sort and
    /// re-clip the queue for the current camera, advance visible chunks one
    /// stage each until the budget runs out, then rebuild the render queue
    /// farthest-first from the visible, ready chunks.
    #[verifier::rlimit(100)]
    pub fn update_with_budget(&mut self, camera: &Camera, budget_nanos: u64)
        requires
            old(self).wf(),
            camera.wf(),
        ensures
            final(self).wf(),
            final(self).chunks@.len() == old(self).chunks@.len(),
            forall|j: int|
                0 <= j < old(self).chunks@.len() ==> (#[trigger] final(self).chunks@[j]).coords
                    == old(self).chunks@[j].coords,
            final(self).prev_cam_chunk_coords == spec_chunk_coords_of(camera.position),
            final(self).prev_cam_block_coords == spec_block_coords_of(camera.position),
            final(self).generator == old(self).generator,
            forall|j: int|
                0 <= j < old(self).chunks@.len() && old(self).chunks@[j].chunk.status
                    != ChunkStatus::NotGenerated ==> (
                #[trigger] final(self).chunks@[j]).chunk.status != ChunkStatus::NotGenerated
                    && (forall|ci: int|
                    0 <= ci < CHUNK_VOLUME ==> (#[trigger] final(self).chunks@[j].chunk.data@[ci]).block_id
                        == old(self).chunks@[j].chunk.data@[ci].block_id),
            forall|j: int|
                0 <= j < old(self).chunks@.len() ==> (
                #[trigger] final(self).chunks@[j]).chunk.status.ord() <= old(self).chunks@[j].chunk.status.ord() + 1,
            (forall|j: int|
                0 <= j < old(self).chunks@.len() ==> (
                #[trigger] old(self).chunks@[j]).chunk.status != ChunkStatus::NotGenerated)
                ==> forall|j: int|
                0 <= j < old(self).chunks@.len() ==> (
                #[trigger] final(self).chunks@[j]).chunk.status.ord() >= old(self).chunks@[j].chunk.status.ord(),
            final(self).chunk_queue.needs_sort == false,
            forall|i: int|
                0 <= i < final(self).chunk_queue.queue@.len() ==> (#[trigger] final(self).chunk_queue.queue@[i]).in_frustrum == spec_intersects(
                    camera.frustrum.planes@,
                    spec_chunk_aabb(final(self).chunk_queue.queue@[i].coords),
                ),
            forall|i: int, j: int|
                0 <= i < j < final(self).chunk_queue.queue@.len() ==> dist2_vec3i(
                    spec_chunk_coords_of(camera.position),
                    final(self).chunk_queue.queue@[i].coords,
                ) <= dist2_vec3i(
                    spec_chunk_coords_of(camera.position),
                    final(self).chunk_queue.queue@[j].coords,
                ),
            visible_coords(final(self).chunk_queue.queue@).len() > 0 && old(self).loaded(
                visible_coords(final(self).chunk_queue.queue@)[0],
            ) ==> {
                let j0 = spec_index_of(
                    old(self).chunks@,
                    visible_coords(final(self).chunk_queue.queue@)[0],
                );
                ||| final(self).chunks@[j0].chunk.status == old(self).chunks@[j0].chunk.status.advanced()
                ||| final(self).chunks@[j0].chunk.status == ChunkStatus::LightmapOutdated
            },
            forall|j: int|
                0 <= j < old(self).chunks@.len() ==> (#[trigger] final(self).chunks@[j]).chunk.status.ord() >= ChunkStatus::spec_min(
                    old(self).chunks@[j].chunk.status,
                    ChunkStatus::LightmapOutdated,
                ).ord(),
            forall|j: int|
                0 <= j < old(self).chunks@.len() && !visible_coords(
                    final(self).chunk_queue.queue@,
                ).contains(old(self).chunks@[j].coords) ==> {
                    &&& (#[trigger] final(self).chunks@[j]).chunk.data == old(self).chunks@[j].chunk.data
                    &&& final(self).chunks@[j].chunk.status.ord() <= old(self).chunks@[j].chunk.status.ord()
                    &&& (final(self).chunks@[j].chunk.status == old(self).chunks@[j].chunk.status
                        ==> chunk_same_but_flag(
                        old(self).chunks@[j].chunk,
                        final(self).chunks@[j].chunk,
                    ))
                },
            final(self).render_queue@ == render_filter(
                final(self).chunks@,
                visible_coords(final(self).chunk_queue.queue@).reverse(),
            ),
    {
        self.check_what_is_to_sort(camera.position);
        if self.chunk_queue.needs_to_be_sorted() {
            let pov = self.prev_cam_chunk_coords;
            let ghost queue_before = self.chunk_queue.queue@;
            self.chunk_queue.sort(pov);
            proof {
                crate::sorting::lemma_contains_eq_of_multiset_eq(
                    crate::chunk_queue::items_coords(self.chunk_queue.queue@),
                    crate::chunk_queue::items_coords(queue_before),
                );
                assert forall|c: ChunkCoords| #[trigger]
                    has_coords(self.chunk_queue.queue@, c) == spec_loaded(
                    self.chunks@,
                    c,
                ) by {
                    assert(has_coords(queue_before, c) == spec_loaded(self.chunks@, c));
                    assert(crate::chunk_queue::items_coords(self.chunk_queue.queue@).contains(c)
                        == crate::chunk_queue::items_coords(queue_before).contains(c));
                }
            }
        }
        let ghost queue_preclip = self.chunk_queue.queue@;
        proof {
            assert(!self.chunk_queue.needs_sort);
            assert(self.chunk_queue.point_of_view == self.prev_cam_chunk_coords);
            assert(self.prev_cam_chunk_coords == spec_chunk_coords_of(camera.position));
        }
        self.chunk_queue.clip_to_frustrum(&camera.frustrum);
        proof {
            assert(crate::chunk_queue::items_coords(self.chunk_queue.queue@)
                =~= crate::chunk_queue::items_coords(queue_preclip));
            assert forall|c: ChunkCoords| #[trigger]
                has_coords(self.chunk_queue.queue@, c) == spec_loaded(self.chunks@, c) by {
                assert(has_coords(queue_preclip, c) == spec_loaded(self.chunks@, c));
            }
            assert(forall|i: int|
                0 <= i < self.chunk_queue.queue@.len() ==> (
                #[trigger] self.chunk_queue.queue@[i]).in_frustrum == spec_intersects(
                    camera.frustrum.planes@,
                    spec_chunk_aabb(self.chunk_queue.queue@[i].coords),
                ));
            assert forall|i: int, j: int|
                0 <= i < j < self.chunk_queue.queue@.len() implies dist2_vec3i(
                spec_chunk_coords_of(camera.position),
                self.chunk_queue.queue@[i].coords,
            ) <= dist2_vec3i(
                spec_chunk_coords_of(camera.position),
                self.chunk_queue.queue@[j].coords,
            ) by {
                assert(self.chunk_queue.queue@[i].coords == queue_preclip[i].coords);
                assert(self.chunk_queue.queue@[j].coords == queue_preclip[j].coords);
            }
            assert(self.wf());
        }
        let order = self.chunk_queue.iter();
        proof {
            crate::chunk_queue::lemma_visible_coords_bounds(self.chunk_queue.queue@);
            crate::chunk_queue::lemma_visible_coords_no_dup(self.chunk_queue.queue@);
        }
        let ghost mid = *self;
        proof {
            assert(order@.no_duplicates());
            assert(mid.wf());
            assert(forall|j: int|
                0 <= j < old(self).chunks@.len() ==> (#[trigger] mid.chunks@[j]).chunk.status
                    == old(self).chunks@[j].chunk.status && mid.chunks@[j].chunk.data == old(self).chunks@[j].chunk.data && chunk_same_but_flag(
                    old(self).chunks@[j].chunk,
                    mid.chunks@[j].chunk,
                ));
        }
        let start = instant_now();
        let n = order.len();
        let mut qi: usize = 0;
        while qi < n
            invariant
                n == order@.len(),
                qi <= n,
                camera.wf(),
                self.wf(),
                forall|i: int| 0 <= i < order@.len() ==> (#[trigger] order@[i]).in_chunk_bounds(),
                self.chunks@.len() == mid.chunks@.len(),
                forall|j: int|
                    0 <= j < mid.chunks@.len() ==> (#[trigger] self.chunks@[j]).coords
                        == mid.chunks@[j].coords,
                self.chunk_queue == mid.chunk_queue,
                self.render_queue == mid.render_queue,
                self.generator == mid.generator,
                self.prev_cam_chunk_coords == mid.prev_cam_chunk_coords,
                self.prev_cam_block_coords == mid.prev_cam_block_coords,
                forall|j: int|
                    0 <= j < mid.chunks@.len() && mid.chunks@[j].chunk.status
                        != ChunkStatus::NotGenerated ==> (
                    #[trigger] self.chunks@[j]).chunk.status != ChunkStatus::NotGenerated && (
                    forall|ci: int|
                        0 <= ci < CHUNK_VOLUME ==> (
                        #[trigger] self.chunks@[j].chunk.data@[ci]).block_id
                            == mid.chunks@[j].chunk.data@[ci].block_id),
                (forall|j: int|
                    0 <= j < mid.chunks@.len() ==> (#[trigger] mid.chunks@[j]).chunk.status
                        != ChunkStatus::NotGenerated) ==> forall|j: int|
                    0 <= j < mid.chunks@.len() ==> (
                    #[trigger] self.chunks@[j]).chunk.status.ord()
                        >= mid.chunks@[j].chunk.status.ord(),
                order@.no_duplicates(),
                mid.wf(),
                qi == 0 ==> self.chunks@ == mid.chunks@,
                forall|j: int|
                    0 <= j < mid.chunks@.len() ==> (
                    #[trigger] self.chunks@[j]).chunk.status.ord()
                        <= mid.chunks@[j].chunk.status.ord() + 1,
                forall|j: int|
                    0 <= j < mid.chunks@.len() && !order@.subrange(0, qi as int).contains(
                        (#[trigger] self.chunks@[j]).coords,
                    ) ==> self.chunks@[j].chunk.status.ord()
                        <= mid.chunks@[j].chunk.status.ord(),
                forall|j: int|
                    0 <= j < mid.chunks@.len() ==> (
                    #[trigger] self.chunks@[j]).chunk.status.ord() >= ChunkStatus::spec_min(
                        mid.chunks@[j].chunk.status,
                        ChunkStatus::LightmapOutdated,
                    ).ord(),
                qi > 0 && spec_loaded(mid.chunks@, order@[0]) ==> {
                    let j0 = spec_index_of(mid.chunks@, order@[0]);
                    ||| self.chunks@[j0].chunk.status == mid.chunks@[j0].chunk.status.advanced()
                    ||| self.chunks@[j0].chunk.status == ChunkStatus::LightmapOutdated
                },
                forall|j: int|
                    0 <= j < mid.chunks@.len() && !order@.contains(
                        (#[trigger] self.chunks@[j]).coords,
                    ) ==> {
                        &&& self.chunks@[j].chunk.data == mid.chunks@[j].chunk.data
                        &&& (self.chunks@[j].chunk.status == mid.chunks@[j].chunk.status
                            ==> self.chunks@[j].chunk.graphics == mid.chunks@[j].chunk.graphics)
                    },
            ensures
                n > 0 ==> qi > 0,
            decreases n - qi,
        {
            let coords = order[qi];
            proof {
                assert(!order@.subrange(0, qi as int).contains(coords)) by {
                    if order@.subrange(0, qi as int).contains(coords) {
                        let q = choose|q: int|
                            0 <= q < qi && order@.subrange(0, qi as int)[q] == coords;
                        assert(order@[q] == coords);
                        assert(order@[qi as int] == coords);
                    }
                }
            }
            let ghost pre = self.chunks@;
            self.process_chunk(coords, camera);
            proof {
                let sub1 = order@.subrange(0, qi as int + 1);
                assert(sub1[qi as int] == coords);
                assert(sub1.contains(coords));
                assert forall|j: int| 0 <= j < mid.chunks@.len() implies {
                    &&& (#[trigger] self.chunks@[j]).chunk.status.ord()
                        <= mid.chunks@[j].chunk.status.ord() + 1
                    &&& (!sub1.contains(self.chunks@[j].coords)
                        ==> self.chunks@[j].chunk.status.ord()
                        <= mid.chunks@[j].chunk.status.ord())
                } by {
                    assert(self.chunks@[j].coords == pre[j].coords);
                    if !sub1.contains(pre[j].coords) {
                        assert(!order@.subrange(0, qi as int).contains(pre[j].coords)) by {
                            if order@.subrange(0, qi as int).contains(pre[j].coords) {
                                let q = choose|q: int|
                                    0 <= q < qi && order@.subrange(0, qi as int)[q]
                                        == pre[j].coords;
                                assert(sub1[q] == pre[j].coords);
                            }
                        }
                    }
                    if spec_loaded(pre, coords) {
                        let k = spec_index_of(pre, coords);
                        assert(pre[k].coords == coords);
                        if j == k {
                            assert(!order@.subrange(0, qi as int).contains(pre[j].coords));
                            assert(pre[j].chunk.status.ord()
                                <= mid.chunks@[j].chunk.status.ord());
                            assert(self.chunks@[j].chunk.status
                                == pre[j].chunk.status.advanced());
                            assert(sub1.contains(self.chunks@[j].coords));
                        } else {
                            assert(self.chunks@[j].chunk.status.ord()
                                <= pre[j].chunk.status.ord());
                        }
                    } else {
                        assert(self.chunks@ == pre);
                    }
                }
                assert forall|j: int| 0 <= j < mid.chunks@.len() implies (
                #[trigger] self.chunks@[j]).chunk.status.ord() >= ChunkStatus::spec_min(
                    mid.chunks@[j].chunk.status,
                    ChunkStatus::LightmapOutdated,
                ).ord() by {
                    if spec_loaded(pre, coords) {
                        let k = spec_index_of(pre, coords);
                        if j == k {
                            assert(self.chunks@[j].chunk.status
                                == pre[j].chunk.status.advanced());
                        }
                    }
                }
                if spec_loaded(mid.chunks@, order@[0]) {
                    let j0 = spec_index_of(mid.chunks@, order@[0]);
                    assert(mid.chunks@[j0].coords == order@[0]) by {
                        let w = choose|i: int|
                            0 <= i < entry_coords(mid.chunks@).len() && entry_coords(
                                mid.chunks@,
                            )[i] == order@[0];
                        assert(mid.chunks@[w].coords == order@[0]);
                        assert(mid.chunks@[j0].coords == order@[0]);
                    }
                    if qi == 0 {
                        assert(pre == mid.chunks@);
                        assert(spec_loaded(pre, coords)) by {
                            assert(entry_coords(pre)[j0] == coords);
                        }
                        let k = spec_index_of(pre, coords);
                        assert(pre[k].coords == coords);
                        assert(entry_coords(pre)[k] == coords);
                        assert(entry_coords(pre)[j0] == coords);
                        assert(k == j0);
                        assert(self.chunks@[j0].chunk.status
                            == pre[j0].chunk.status.advanced());
                        assert(self.chunks@[j0].chunk.status
                            == mid.chunks@[j0].chunk.status.advanced());
                    } else {
                        assert(order@[qi as int] != order@[0]);
                        if spec_loaded(pre, coords) {
                            let k = spec_index_of(pre, coords);
                            assert(pre[k].coords == coords);
                            if j0 == k {
                                assert(mid.chunks@[j0].coords == coords);
                            }
                            assert(j0 != k);
                        }
                    }
                }
                assert forall|j: int|
                    0 <= j < mid.chunks@.len() && !order@.contains(
                        (#[trigger] self.chunks@[j]).coords,
                    ) implies {
                    &&& self.chunks@[j].chunk.data == mid.chunks@[j].chunk.data
                    &&& (self.chunks@[j].chunk.status == mid.chunks@[j].chunk.status
                        ==> self.chunks@[j].chunk.graphics == mid.chunks@[j].chunk.graphics)
                } by {
                    assert(self.chunks@[j].coords == pre[j].coords);
                    if spec_loaded(pre, coords) {
                        let k = spec_index_of(pre, coords);
                        assert(pre[k].coords == coords);
                        assert(order@.contains(coords)) by {
                            assert(order@[qi as int] == coords);
                        }
                        assert(j != k);
                        if self.chunks@[j] == pre[j] {
                        } else {
                            assert(self.chunks@[j].chunk.data == pre[j].chunk.data);
                            assert(pre[j].chunk.status.ord() >= ChunkStatus::spec_min(
                                mid.chunks@[j].chunk.status,
                                ChunkStatus::LightmapOutdated,
                            ).ord());
                            if self.chunks@[j].chunk.status == mid.chunks@[j].chunk.status {
                                if self.chunks@[j].chunk.status == ChunkStatus::Ready {
                                    assert(self.chunks@[j].chunk.graphics
                                        == pre[j].chunk.graphics);
                                } else {
                                    assert(crate::chunk::graphics_coherent(
                                        mid.chunks@[j].chunk,
                                    ));
                                    assert(mid.chunks@[j].chunk.graphics is None);
                                    assert(self.chunks@[j].chunk.graphics is None);
                                }
                            }
                        }
                    }
                }
            }
            qi = qi + 1;
            if elapsed_nanos(&start) > budget_nanos {
                break ;
            }
        }
        self.render_queue = Vec::new();
        let rev = self.chunk_queue.iter_graphics();
        proof {
            assert(forall|i: int|
                0 <= i < rev@.len() ==> (#[trigger] rev@[i]) == visible_coords(
                    self.chunk_queue.queue@,
                ).reverse()[i]);
        }
        let m = rev.len();
        let ghost chunks_now = self.chunks@;
        let mut t: usize = 0;
        while t < m
            invariant
                m == rev@.len(),
                t <= m,
                self.wf(),
                self.chunks@ == chunks_now,
                self.chunk_queue == mid.chunk_queue,
                self.generator == mid.generator,
                self.prev_cam_chunk_coords == mid.prev_cam_chunk_coords,
                self.prev_cam_block_coords == mid.prev_cam_block_coords,
                rev@ == visible_coords(self.chunk_queue.queue@).reverse(),
                forall|i: int| 0 <= i < rev@.len() ==> (#[trigger] rev@[i]).in_chunk_bounds(),
                self.render_queue@ == render_filter(self.chunks@, rev@.subrange(0, t as int)),
            decreases m - t,
        {
            let ghost before = rev@.subrange(0, t as int);
            let ghost after = rev@.subrange(0, t as int + 1);
            let c = rev[t];
            let mut push: bool = false;
            match self.find_chunk(c) {
                Some(i) => {
                    let is_ready = match self.chunks[i].chunk.status {
                        ChunkStatus::Ready => true,
                        _ => false,
                    };
                    if is_ready && self.chunks[i].chunk.graphics.is_some() {
                        push = true;
                    }
                    proof {
                        assert(self.chunk_at(c) == self.chunks@[i as int].chunk);
                        assert(push == renderable(self.chunks@, c));
                    }
                },
                None => {
                    proof {
                        assert(!renderable(self.chunks@, c));
                    }
                },
            }
            if push {
                self.render_queue.push(c);
            }
            proof {
                assert(after.drop_last() =~= before);
                assert(after.last() == rev@[t as int]);
            }
            t = t + 1;
        }
        proof {
            assert(rev@.subrange(0, m as int) =~= rev@);
            if visible_coords(self.chunk_queue.queue@).len() > 0 {
                let c0 = visible_coords(self.chunk_queue.queue@)[0];
                if old(self).loaded(c0) {
                    assert(entry_coords(mid.chunks@) =~= entry_coords(old(self).chunks@));
                    assert(spec_loaded(mid.chunks@, c0));
                    lemma_same_coords_index(old(self).chunks@, mid.chunks@, c0);
                    assert(order@[0] == c0);
                }
            }
        }
    }

    /// One frame of world work under the standard time budget.
    pub fn update(&mut self, camera: &Camera)
        requires
            old(self).wf(),
            camera.wf(),
        ensures
            final(self).wf(),
            final(self).chunks@.len() == old(self).chunks@.len(),
            forall|j: int|
                0 <= j < old(self).chunks@.len() ==> (#[trigger] final(self).chunks@[j]).coords
                    == old(self).chunks@[j].coords,
            final(self).prev_cam_chunk_coords == spec_chunk_coords_of(camera.position),
            final(self).prev_cam_block_coords == spec_block_coords_of(camera.position),
            final(self).generator == old(self).generator,
            forall|j: int|
                0 <= j < old(self).chunks@.len() && old(self).chunks@[j].chunk.status
                    != ChunkStatus::NotGenerated ==> (
                #[trigger] final(self).chunks@[j]).chunk.status != ChunkStatus::NotGenerated
                    && (forall|ci: int|
                    0 <= ci < CHUNK_VOLUME ==> (#[trigger] final(self).chunks@[j].chunk.data@[ci]).block_id
                        == old(self).chunks@[j].chunk.data@[ci].block_id),
            forall|j: int|
                0 <= j < old(self).chunks@.len() ==> (
                #[trigger] final(self).chunks@[j]).chunk.status.ord() <= old(self).chunks@[j].chunk.status.ord() + 1,
            (forall|j: int|
                0 <= j < old(self).chunks@.len() ==> (
                #[trigger] old(self).chunks@[j]).chunk.status != ChunkStatus::NotGenerated)
                ==> forall|j: int|
                0 <= j < old(self).chunks@.len() ==> (
                #[trigger] final(self).chunks@[j]).chunk.status.ord() >= old(self).chunks@[j].chunk.status.ord(),
            final(self).chunk_queue.needs_sort == false,
            forall|i: int|
                0 <= i < final(self).chunk_queue.queue@.len() ==> (#[trigger] final(self).chunk_queue.queue@[i]).in_frustrum == spec_intersects(
                    camera.frustrum.planes@,
                    spec_chunk_aabb(final(self).chunk_queue.queue@[i].coords),
                ),
            forall|i: int, j: int|
                0 <= i < j < final(self).chunk_queue.queue@.len() ==> dist2_vec3i(
                    spec_chunk_coords_of(camera.position),
                    final(self).chunk_queue.queue@[i].coords,
                ) <= dist2_vec3i(
                    spec_chunk_coords_of(camera.position),
                    final(self).chunk_queue.queue@[j].coords,
                ),
            visible_coords(final(self).chunk_queue.queue@).len() > 0 && old(self).loaded(
                visible_coords(final(self).chunk_queue.queue@)[0],
            ) ==> {
                let j0 = spec_index_of(
                    old(self).chunks@,
                    visible_coords(final(self).chunk_queue.queue@)[0],
                );
                ||| final(self).chunks@[j0].chunk.status == old(self).chunks@[j0].chunk.status.advanced()
                ||| final(self).chunks@[j0].chunk.status == ChunkStatus::LightmapOutdated
            },
            forall|j: int|
                0 <= j < old(self).chunks@.len() ==> (#[trigger] final(self).chunks@[j]).chunk.status.ord() >= ChunkStatus::spec_min(
                    old(self).chunks@[j].chunk.status,
                    ChunkStatus::LightmapOutdated,
                ).ord(),
            forall|j: int|
                0 <= j < old(self).chunks@.len() && !visible_coords(
                    final(self).chunk_queue.queue@,
                ).contains(old(self).chunks@[j].coords) ==> {
                    &&& (#[trigger] final(self).chunks@[j]).chunk.data == old(self).chunks@[j].chunk.data
                    &&& final(self).chunks@[j].chunk.status.ord() <= old(self).chunks@[j].chunk.status.ord()
                    &&& (final(self).chunks@[j].chunk.status == old(self).chunks@[j].chunk.status
                        ==> chunk_same_but_flag(
                        old(self).chunks@[j].chunk,
                        final(self).chunks@[j].chunk,
                    ))
                },
            final(self).render_queue@ == render_filter(
                final(self).chunks@,
                visible_coords(final(self).chunk_queue.queue@).reverse(),
            ),
    {
        self.update_with_budget(camera, MAX_UPDATE_TIME_NANOS)
    }

    /// The current render queue: the coordinates of every visible, ready
    /// chunk, farthest first, rebuilt by the latest `update`.
    pub fn render_queue_iter(&self) -> (r: Vec<ChunkCoords>)
        ensures
            r@ == self.render_queue@,
    {
        let n = self.render_queue.len();
        let mut r: Vec<ChunkCoords> = Vec::new();
        let mut i: usize = 0;
        while i < n
            invariant
                n == self.render_queue@.len(),
                i <= n,
                r@ == self.render_queue@.subrange(0, i as int),
            decreases n - i,
        {
            r.push(self.render_queue[i]);
            proof {
                assert(r@ =~= self.render_queue@.subrange(0, i + 1));
            }
            i = i + 1;
        }
        proof {
            assert(self.render_queue@.subrange(0, n as int) =~= self.render_queue@);
        }
        r
    }
}

} // verus!
