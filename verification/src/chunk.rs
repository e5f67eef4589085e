//! One chunk: a fixed-size cube of cells, an optional graphics handle, and
//! the staged status tag that drives the update pipeline.

use crate::blocks::{BlockId, Cell};
use crate::coords::{BlockCoords, CHUNK_SIZE};
use crate::rendering::ChunkGraphics;
use vstd::prelude::*;

verus! {

/// Number of cells in one chunk (`CHUNK_SIZE` cubed).
pub const CHUNK_VOLUME: usize = 4096;

/// The staged readiness of one chunk. Lower means more work remaining;
/// `update` advances a chunk one stage per visit, `invalidate` only ever
/// moves it backward.
#[derive(Clone, Copy, PartialEq, Eq, Structural, Debug)]
pub enum ChunkStatus {
    NotGenerated,
    LightmapOutdated,
    GraphicsOutdated,
    Ready,
}

impl ChunkStatus {
    /// The position of this status in the pipeline order.
    pub open spec fn ord(self) -> int {
        match self {
            ChunkStatus::NotGenerated => 0,
            ChunkStatus::LightmapOutdated => 1,
            ChunkStatus::GraphicsOutdated => 2,
            ChunkStatus::Ready => 3,
        }
    }

    /// The status one processing visit leaves behind: one stage further,
    /// with `Ready` looping in place.
    pub open spec fn advanced(self) -> ChunkStatus {
        match self {
            ChunkStatus::NotGenerated => ChunkStatus::LightmapOutdated,
            ChunkStatus::LightmapOutdated => ChunkStatus::GraphicsOutdated,
            ChunkStatus::GraphicsOutdated => ChunkStatus::Ready,
            ChunkStatus::Ready => ChunkStatus::Ready,
        }
    }

    /// The earlier (more-work-remaining) of two statuses.
    pub open spec fn spec_min(a: ChunkStatus, b: ChunkStatus) -> ChunkStatus {
        if a.ord() <= b.ord() {
            a
        } else {
            b
        }
    }

    /// The pipeline position, as a runtime value.
    pub fn ord_exec(self) -> (r: u8)
        ensures
            r == self.ord(),
    {
        match self {
            ChunkStatus::NotGenerated => 0,
            ChunkStatus::LightmapOutdated => 1,
            ChunkStatus::GraphicsOutdated => 2,
            ChunkStatus::Ready => 3,
        }
    }

    /// The earlier of two statuses, as a runtime value.
    #[verifier::when_used_as_spec(spec_min)]
    pub fn min(a: ChunkStatus, b: ChunkStatus) -> (r: ChunkStatus)
        ensures
            r == ChunkStatus::spec_min(a, b),
    {
        if a.ord_exec() <= b.ord_exec() {
            a
        } else {
            b
        }
    }
}

/// The data-model invariant of a chunk's graphics handle: present exactly
/// on a `Ready` chunk with visible geometry.
pub open spec fn graphics_coherent(c: Chunk) -> bool {
    c.graphics is Some <==> (c.status == ChunkStatus::Ready
        && crate::mesh::has_visible_geometry(c.data@))
}

/// Index of a chunk-local coordinate in the flat cell array.
pub open spec fn cell_index(c: BlockCoords) -> int {
    (c.x * CHUNK_SIZE + c.y) * CHUNK_SIZE + c.z
}

/// One chunk of the world.
pub struct Chunk {
    /// The cells, in `cell_index` order.
    pub data: Vec<Cell>,
    /// Renderable data, present once the chunk has reached `Ready` with
    /// visible geometry (and kept, stale, while it regresses).
    pub graphics: Option<ChunkGraphics>,
    /// How far through the pipeline this chunk is.
    pub status: ChunkStatus,
}

impl Chunk {
    /// Well-formed chunk: full cell array, light channels in range, and
    /// well-formed graphics where present.
    pub open spec fn wf(self) -> bool {
        &&& self.data@.len() == CHUNK_VOLUME
        &&& forall|i: int| 0 <= i < self.data@.len() ==> (#[trigger] self.data@[i]).wf()
        &&& match self.graphics {
            Some(g) => g.wf(),
            None => true,
        }
    }

    /// The cell at a chunk-local coordinate.
    pub open spec fn cell_at(self, c: BlockCoords) -> Cell {
        self.data@[cell_index(c)]
    }

    /// A fresh chunk: all air, no light, nothing generated yet.
    pub fn new() -> (r: Chunk)
        ensures
            r.wf(),
            r.status == ChunkStatus::NotGenerated,
            r.graphics is None,
            forall|i: int|
                0 <= i < r.data@.len() ==> (#[trigger] r.data@[i]) == (Cell {
                    block_id: BlockId::Air,
                    sun_light: 0,
                    block_light: 0,
                }),
    {
        let mut data: Vec<Cell> = Vec::new();
        let mut i: usize = 0;
        while i < CHUNK_VOLUME
            invariant
                i <= CHUNK_VOLUME,
                data@.len() == i,
                forall|j: int|
                    0 <= j < data@.len() ==> (#[trigger] data@[j]) == (Cell {
                        block_id: BlockId::Air,
                        sun_light: 0,
                        block_light: 0,
                    }),
            decreases CHUNK_VOLUME - i,
        {
            data.push(Cell { block_id: BlockId::Air, sun_light: 0, block_light: 0 });
            i = i + 1;
        }
        Chunk { data, graphics: None, status: ChunkStatus::NotGenerated }
    }

    /// Regress the status to `new_status` if the current one is later;
    /// invalidation only ever adds work, never skips it. A chunk that
    /// leaves `Ready` releases its graphics handle.
    pub fn invalidate(&mut self, new_status: ChunkStatus)
        ensures
            final(self).status == ChunkStatus::spec_min(old(self).status, new_status),
            final(self).status.ord() <= old(self).status.ord(),
            final(self).data == old(self).data,
            final(self).graphics == (if final(self).status == ChunkStatus::Ready {
                old(self).graphics
            } else {
                None::<ChunkGraphics>
            }),
    {
        self.status = ChunkStatus::min(self.status, new_status);
        let keep = match self.status {
            ChunkStatus::Ready => true,
            _ => false,
        };
        if !keep {
            self.graphics = None;
        }
    }

    /// Read the cell at a chunk-local coordinate.
    pub fn get_cell(&self, c: BlockCoords) -> (r: Cell)
        requires
            c.in_local_bounds(),
            self.data@.len() == CHUNK_VOLUME,
        ensures
            r == self.cell_at(c),
    {
        let idx: usize = (c.x as usize * 16 + c.y as usize) * 16 + c.z as usize;
        self.data[idx]
    }

    /// Replace the cell at a chunk-local coordinate.
    pub fn set_cell(&mut self, c: BlockCoords, cell: Cell)
        requires
            c.in_local_bounds(),
            old(self).data@.len() == CHUNK_VOLUME,
        ensures
            final(self).data@ == old(self).data@.update(cell_index(c), cell),
            final(self).graphics == old(self).graphics,
            final(self).status == old(self).status,
    {
        let idx: usize = (c.x as usize * 16 + c.y as usize) * 16 + c.z as usize;
        self.data[idx] = cell;
    }
}

} // verus!
