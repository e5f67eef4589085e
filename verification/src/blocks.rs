//! Block identities, the static block-definition table, and the per-voxel
//! cell data (block id plus two light channels).

use vstd::prelude::*;

verus! {

/// A light channel value; never exceeds `MAX_LIGHT_LEVEL`.
pub type LightLevel = u8;

/// Largest value a light channel may hold.
pub const MAX_LIGHT_LEVEL: u8 = 15;

/// Identity of a block kind.
#[derive(Clone, Copy, PartialEq, Eq, Structural, Debug)]
pub enum BlockId {
    Air,
    Stone,
    Dirt,
    Water,
}

/// Static properties of one block kind.
#[derive(Clone, Copy, PartialEq, Eq, Structural, Debug)]
pub struct Block {
    /// Whether the block fills its cell with opaque geometry.
    pub solid: bool,
    /// Whether the block is rendered as transparent fluid geometry.
    pub fluid: bool,
}

impl Block {
    /// The definition table: what each block id resolves to.
    pub open spec fn spec_by_id(id: BlockId) -> Block {
        match id {
            BlockId::Air => Block { solid: false, fluid: false },
            BlockId::Stone => Block { solid: true, fluid: false },
            BlockId::Dirt => Block { solid: true, fluid: false },
            BlockId::Water => Block { solid: false, fluid: true },
        }
    }

    /// Look a block definition up by its id.
    #[verifier::when_used_as_spec(spec_by_id)]
    pub fn by_id(id: BlockId) -> (r: Block)
        ensures
            r == Block::spec_by_id(id),
    {
        match id {
            BlockId::Air => Block { solid: false, fluid: false },
            BlockId::Stone => Block { solid: true, fluid: false },
            BlockId::Dirt => Block { solid: true, fluid: false },
            BlockId::Water => Block { solid: false, fluid: true },
        }
    }
}

/// One voxel: a block id and the two light channels.
#[derive(Clone, Copy, PartialEq, Eq, Structural, Debug)]
pub struct Cell {
    pub block_id: BlockId,
    pub sun_light: LightLevel,
    pub block_light: LightLevel,
}

impl Cell {
    /// Both light channels within the engine's maximum.
    pub open spec fn wf(self) -> bool {
        self.sun_light <= MAX_LIGHT_LEVEL && self.block_light <= MAX_LIGHT_LEVEL
    }

    /// The definition of this cell's block.
    pub fn get_block(&self) -> (r: Block)
        ensures
            r == Block::spec_by_id(self.block_id),
    {
        Block::by_id(self.block_id)
    }
}

} // verus!
