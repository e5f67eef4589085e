use mycraft::blocks::{Block, BlockId, Cell, MAX_LIGHT_LEVEL};
use mycraft::chunk::{Chunk, ChunkStatus, CHUNK_VOLUME};
use mycraft::coords::{
    distance2, get_chunk_and_block_coords, to_chunk_offset, to_local_chunk_coords, Fx3, Vec3i,
};
use mycraft::generation::Generator;
use mycraft::light::recalculate_light;
use mycraft::mesh::ChunkMeshes;

#[test]
fn block_table_resolves_ids() {
    assert!(!Block::by_id(BlockId::Air).solid);
    assert!(!Block::by_id(BlockId::Air).fluid);
    assert!(Block::by_id(BlockId::Stone).solid);
    assert!(Block::by_id(BlockId::Dirt).solid);
    assert!(!Block::by_id(BlockId::Water).solid);
    assert!(Block::by_id(BlockId::Water).fluid);
    let cell = Cell { block_id: BlockId::Water, sun_light: 3, block_light: 0 };
    assert!(cell.get_block().fluid);
}

#[test]
fn local_coords_of_negative_world_coords() {
    let (cc, lc) = to_local_chunk_coords(Vec3i::new(-1, -1, -1));
    assert_eq!(cc, Vec3i::new(-1, -1, -1));
    assert_eq!(lc, Vec3i::new(15, 15, 15));
    let (cc2, lc2) = to_local_chunk_coords(Vec3i::new(17, 2, -17));
    assert_eq!(cc2, Vec3i::new(1, 0, -2));
    assert_eq!(lc2, Vec3i::new(1, 2, 15));
}

#[test]
fn camera_coords_at_both_granularities() {
    let p = Fx3 { x: -1, y: 0, z: 300 };
    let (cc, bc) = get_chunk_and_block_coords(p);
    assert_eq!(bc, Vec3i::new(-1, 0, 1));
    assert_eq!(cc, Vec3i::new(-1, 0, 0));
}

#[test]
fn chunk_offset_is_fixed_point_product() {
    let off = to_chunk_offset(Vec3i::new(2, -1, 0));
    assert_eq!(off, Fx3 { x: 8192, y: -4096, z: 0 });
}

#[test]
fn squared_distance_exact() {
    assert_eq!(distance2(Vec3i::new(1, 2, 3), Vec3i::new(4, 6, 3)), 25);
    assert_eq!(distance2(Vec3i::new(0, 0, 0), Vec3i::new(0, 0, 0)), 0);
}

#[test]
fn invalidate_only_regresses() {
    let mut chunk = Chunk::new();
    assert_eq!(chunk.status, ChunkStatus::NotGenerated);
    chunk.status = ChunkStatus::Ready;
    chunk.invalidate(ChunkStatus::LightmapOutdated);
    assert_eq!(chunk.status, ChunkStatus::LightmapOutdated);
    chunk.invalidate(ChunkStatus::Ready);
    assert_eq!(chunk.status, ChunkStatus::LightmapOutdated);
    chunk.invalidate(ChunkStatus::NotGenerated);
    assert_eq!(chunk.status, ChunkStatus::NotGenerated);
}

#[test]
fn generation_is_deterministic_from_seed_and_coords() {
    let gen = Generator::new(7);
    let mut a = Chunk::new();
    let mut b = Chunk::new();
    gen.generate_chunk(&mut a, Vec3i::new(1, 0, -2));
    gen.generate_chunk(&mut b, Vec3i::new(1, 0, -2));
    for x in 0..16 {
        for y in 0..16 {
            for z in 0..16 {
                let c = Vec3i::new(x, y, z);
                assert_eq!(a.get_cell(c).block_id, b.get_cell(c).block_id);
            }
        }
    }
}

#[test]
fn generated_column_matches_height_rule() {
    // With seed 0, the column at the origin has height 1 + (2^30 % 7) = 2:
    // stone below 2, water up to the sea level of 4, air above.
    let gen = Generator::new(0);
    assert_eq!(gen.block_at(0, 0, 0), BlockId::Stone);
    assert_eq!(gen.block_at(0, 1, 0), BlockId::Stone);
    assert_eq!(gen.block_at(0, 2, 0), BlockId::Water);
    assert_eq!(gen.block_at(0, 3, 0), BlockId::Water);
    assert_eq!(gen.block_at(0, 4, 0), BlockId::Air);
    assert_eq!(gen.block_at(0, -5, 0), BlockId::Stone);
}

#[test]
fn sunlight_stops_below_solid_blocks() {
    let mut chunk = Chunk::new();
    chunk.set_cell(
        Vec3i::new(0, 15, 0),
        Cell { block_id: BlockId::Stone, sun_light: 0, block_light: 0 },
    );
    recalculate_light(&mut chunk);
    assert_eq!(chunk.get_cell(Vec3i::new(0, 15, 0)).sun_light, 0);
    assert_eq!(chunk.get_cell(Vec3i::new(0, 14, 0)).sun_light, 0);
    assert_eq!(chunk.get_cell(Vec3i::new(0, 0, 0)).sun_light, 0);
    assert_eq!(chunk.get_cell(Vec3i::new(1, 14, 0)).sun_light, MAX_LIGHT_LEVEL);
    assert_eq!(chunk.get_cell(Vec3i::new(1, 14, 0)).block_light, 0);
}

#[test]
fn empty_chunk_produces_no_geometry() {
    let chunk = Chunk::new();
    let meshes = ChunkMeshes::generate(&chunk);
    assert_eq!(meshes.solid_vertices.len(), 0);
    assert_eq!(meshes.water_vertices.len(), 0);
    assert_eq!(meshes.water_faces.len(), 0);
}

#[test]
fn lone_water_cell_has_six_faces() {
    let mut chunk = Chunk::new();
    chunk.set_cell(
        Vec3i::new(5, 5, 5),
        Cell { block_id: BlockId::Water, sun_light: 0, block_light: 0 },
    );
    let meshes = ChunkMeshes::generate(&chunk);
    assert_eq!(meshes.solid_vertices.len(), 0);
    assert_eq!(meshes.water_faces.len(), 6);
    assert_eq!(meshes.water_vertices.len(), 24);
    for (i, f) in meshes.water_faces.iter().enumerate() {
        assert_eq!(f.base_index as usize, 4 * i);
        assert_eq!(f.distance, 0);
    }
}

#[test]
fn solid_chunk_produces_only_solid_geometry() {
    let mut chunk = Chunk::new();
    for x in 0..16 {
        for y in 0..16 {
            for z in 0..16 {
                chunk.set_cell(
                    Vec3i::new(x, y, z),
                    Cell { block_id: BlockId::Stone, sun_light: 0, block_light: 0 },
                );
            }
        }
    }
    let meshes = ChunkMeshes::generate(&chunk);
    // Only the outer shell is exposed: 6 sides of 256 faces each.
    assert_eq!(meshes.solid_vertices.len(), 6 * 256 * 4);
    assert_eq!(meshes.water_vertices.len(), 0);
}

#[test]
fn chunk_volume_matches_cell_array() {
    let chunk = Chunk::new();
    assert_eq!(chunk.data.len(), CHUNK_VOLUME);
}
