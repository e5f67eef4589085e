use mycraft::blocks::{BlockId, Cell};
use mycraft::chunk::ChunkStatus;
use mycraft::coords::{Fx3, Vec3i};
use mycraft::geometry::{Frustrum, Plane};
use mycraft::world::{Camera, World};

const BIG_BUDGET: u64 = 1_000_000_000_000;

fn trivial_plane() -> Plane {
    Plane { a: 0, b: 0, c: 0, d: 1 }
}

fn all_pass_camera() -> Camera {
    Camera { position: Fx3 { x: 0, y: 0, z: 0 }, frustrum: Frustrum::new(vec![trivial_plane(); 6]) }
}

fn half_space_camera(a: i64, b: i64, c: i64, d: i64) -> Camera {
    let mut planes = vec![trivial_plane(); 5];
    planes.push(Plane { a, b, c, d });
    Camera { position: Fx3 { x: 0, y: 0, z: 0 }, frustrum: Frustrum::new(planes) }
}

fn status_of(w: &World, c: Vec3i) -> ChunkStatus {
    w.borrow_chunk(c).unwrap().status
}

#[test]
fn load_chunk_is_lazy_and_idempotent() {
    let mut w = World::new();
    assert_eq!(w.num_chunks_loaded(), 0);
    w.load_chunk(Vec3i::new(0, 0, 0));
    w.load_chunk(Vec3i::new(0, 0, 0));
    assert_eq!(w.num_chunks_loaded(), 1);
    assert_eq!(status_of(&w, Vec3i::new(0, 0, 0)), ChunkStatus::NotGenerated);
}

#[test]
fn get_block_of_unloaded_chunk_is_absent() {
    let w = World::new();
    assert!(w.get_block(Vec3i::new(3, 3, 3)).is_none());
}

#[test]
fn set_block_then_get_block_returns_it() {
    let mut w = World::new();
    w.load_chunk(Vec3i::new(0, 0, 0));
    w.load_chunk(Vec3i::new(-1, -1, -1));
    let cam = all_pass_camera();
    for _ in 0..3 {
        w.update_with_budget(&cam, BIG_BUDGET);
    }
    assert_eq!(status_of(&w, Vec3i::new(0, 0, 0)), ChunkStatus::Ready);
    w.set_block(Vec3i::new(1, 2, 3), BlockId::Dirt);
    assert!(w.get_block(Vec3i::new(1, 2, 3)).unwrap().solid);
    w.set_block(Vec3i::new(-1, -1, -1), BlockId::Water);
    assert!(w.get_block(Vec3i::new(-1, -1, -1)).unwrap().fluid);
    // After further updates the write is still in place.
    for _ in 0..3 {
        w.update_with_budget(&cam, BIG_BUDGET);
    }
    assert!(w.get_block(Vec3i::new(1, 2, 3)).unwrap().solid);
    assert!(w.get_block(Vec3i::new(-1, -1, -1)).unwrap().fluid);
}

#[test]
fn set_block_on_unloaded_chunk_is_a_no_op() {
    let mut w = World::new();
    w.set_block(Vec3i::new(100, 0, 0), BlockId::Stone);
    assert_eq!(w.num_chunks_loaded(), 0);
    assert!(w.get_block(Vec3i::new(100, 0, 0)).is_none());
}

#[test]
fn set_block_invalidates_chunk_and_neighbors() {
    let mut w = World::new();
    w.load_chunk(Vec3i::new(0, 0, 0));
    w.load_chunk(Vec3i::new(1, 0, 0));
    w.load_chunk(Vec3i::new(1, 1, 1));
    w.load_chunk(Vec3i::new(3, 0, 0));
    let cam = all_pass_camera();
    for _ in 0..3 {
        w.update_with_budget(&cam, BIG_BUDGET);
    }
    assert_eq!(status_of(&w, Vec3i::new(0, 0, 0)), ChunkStatus::Ready);
    assert_eq!(status_of(&w, Vec3i::new(3, 0, 0)), ChunkStatus::Ready);
    w.set_block(Vec3i::new(2, 3, 4), BlockId::Stone);
    assert_eq!(status_of(&w, Vec3i::new(0, 0, 0)), ChunkStatus::LightmapOutdated);
    assert_eq!(status_of(&w, Vec3i::new(1, 0, 0)), ChunkStatus::LightmapOutdated);
    assert_eq!(status_of(&w, Vec3i::new(1, 1, 1)), ChunkStatus::LightmapOutdated);
    // Two chunks away: untouched.
    assert_eq!(status_of(&w, Vec3i::new(3, 0, 0)), ChunkStatus::Ready);
}

#[test]
fn world_renders_all_loaded_chunks_and_newly_visible_ones() {
    let mut w = World::new();
    for x in -1..1 {
        for y in -1..1 {
            for z in -1..1 {
                w.load_chunk(Vec3i::new(x, y, z));
            }
        }
    }
    assert_eq!(w.num_chunks_loaded(), 8);
    // Only the x >= 0 half is visible at first.
    let cam_half = half_space_camera(1, 0, 0, -1);
    let mut rounds = 0;
    while w.num_chunks_rendered() < 4 && rounds < 20 {
        w.update_with_budget(&cam_half, BIG_BUDGET);
        rounds += 1;
    }
    assert_eq!(w.num_chunks_rendered(), 4);
    for c in w.render_queue_iter() {
        assert_eq!(c.x, 0);
    }
    // Turning the camera brings the other half into the render queue
    // without loading anything again.
    let cam_all = all_pass_camera();
    rounds = 0;
    while w.num_chunks_rendered() < w.num_chunks_loaded() && rounds < 20 {
        w.update_with_budget(&cam_all, BIG_BUDGET);
        rounds += 1;
    }
    assert_eq!(w.num_chunks_rendered(), 8);
}

#[test]
fn render_queue_is_back_to_front() {
    let mut w = World::new();
    for x in 0..4 {
        w.load_chunk(Vec3i::new(x, 0, 0));
    }
    let cam = all_pass_camera();
    for _ in 0..3 {
        w.update_with_budget(&cam, BIG_BUDGET);
    }
    assert_eq!(w.num_chunks_rendered(), 4);
    let order: Vec<i32> = w.render_queue_iter().iter().map(|c| c.x).collect();
    assert_eq!(order, vec![3, 2, 1, 0]);
}

#[test]
fn tiny_budget_processes_strictly_fewer_than_all() {
    let mut w = World::new();
    for x in 0..8 {
        w.load_chunk(Vec3i::new(x, 0, 0));
    }
    let cam = all_pass_camera();
    w.update_with_budget(&cam, 0);
    let advanced = (0..8)
        .filter(|&x| status_of(&w, Vec3i::new(x, 0, 0)) != ChunkStatus::NotGenerated)
        .count();
    assert!(advanced >= 1);
    assert!(advanced < 8);
}

#[test]
fn progress_is_monotonic_without_invalidation() {
    let mut w = World::new();
    for x in 0..4 {
        w.load_chunk(Vec3i::new(x, 0, 0));
    }
    let cam = all_pass_camera();
    for _ in 0..3 {
        w.update_with_budget(&cam, BIG_BUDGET);
    }
    for x in 0..4 {
        assert_eq!(status_of(&w, Vec3i::new(x, 0, 0)), ChunkStatus::Ready);
    }
    // Once nothing is left to generate, further updates never regress a
    // chunk, whatever the budget.
    for _ in 0..3 {
        w.update_with_budget(&cam, 0);
        for x in 0..4 {
            assert_eq!(status_of(&w, Vec3i::new(x, 0, 0)), ChunkStatus::Ready);
        }
    }
}

#[test]
fn update_with_standard_budget_completes_world() {
    let mut w = World::new();
    w.load_chunk(Vec3i::new(0, 0, 0));
    let cam = all_pass_camera();
    let mut rounds = 0;
    while w.num_chunks_rendered() < 1 && rounds < 50 {
        w.update(&cam);
        rounds += 1;
    }
    assert_eq!(w.num_chunks_rendered(), 1);
}

#[test]
fn borrow_mut_chunk_gives_direct_access() {
    let mut w = World::new();
    assert!(w.borrow_mut_chunk(Vec3i::new(0, 0, 0)).is_none());
    w.load_chunk(Vec3i::new(0, 0, 0));
    {
        let c = w.borrow_mut_chunk(Vec3i::new(0, 0, 0)).unwrap();
        c.set_cell(
            Vec3i::new(1, 1, 1),
            Cell { block_id: BlockId::Stone, sun_light: 0, block_light: 0 },
        );
    }
    assert!(w.get_block(Vec3i::new(1, 1, 1)).unwrap().solid);
}
