use mycraft::chunk_queue::ChunkQueue;
use mycraft::coords::{Fx3, Vec3i};
use mycraft::geometry::{chunk_aabb, Aabb, Frustrum, Plane};
use mycraft::rendering::{ChunkGraphics, ChunkGraphicsData, ChunkMesh, Face, Tex2, Vertex};

fn trivial_plane() -> Plane {
    Plane { a: 0, b: 0, c: 0, d: 1 }
}

fn all_pass_frustrum() -> Frustrum {
    Frustrum::new(vec![trivial_plane(); 6])
}

fn half_space_frustrum(a: i64, b: i64, c: i64, d: i64) -> Frustrum {
    let mut planes = vec![trivial_plane(); 5];
    planes.push(Plane { a, b, c, d });
    Frustrum::new(planes)
}

#[test]
fn insert_is_idempotent_upsert() {
    let mut q = ChunkQueue::new();
    assert!(!q.needs_to_be_sorted());
    q.insert(Vec3i::new(0, 0, 0));
    q.insert(Vec3i::new(2, 0, 0));
    q.insert(Vec3i::new(1, 0, 0));
    assert_eq!(q.queue.len(), 3);
    assert!(q.needs_to_be_sorted());
    q.insert(Vec3i::new(2, 0, 0));
    assert_eq!(q.queue.len(), 3);
}

#[test]
fn sort_orders_by_ascending_distance() {
    let mut q = ChunkQueue::new();
    q.insert(Vec3i::new(5, 0, 0));
    q.insert(Vec3i::new(1, 0, 0));
    q.insert(Vec3i::new(3, 0, 0));
    q.sort(Vec3i::new(0, 0, 0));
    assert!(!q.needs_to_be_sorted());
    let xs: Vec<i32> = q.queue.iter().map(|it| it.coords.x).collect();
    assert_eq!(xs, vec![1, 3, 5]);
    let keys: Vec<i128> = q.queue.iter().map(|it| it.key).collect();
    assert_eq!(keys, vec![1, 9, 25]);
}

#[test]
fn clip_is_idempotent_and_exact() {
    let mut q = ChunkQueue::new();
    q.insert(Vec3i::new(0, 0, 0));
    q.insert(Vec3i::new(-1, 0, 0));
    // Half space x >= 1: the chunk at x = 0 spans fixed-point 0..4096 and
    // intersects it; the chunk at x = -1 spans -4096..0 and does not.
    let f = half_space_frustrum(1, 0, 0, -1);
    q.clip_to_frustrum(&f);
    let flags1: Vec<bool> = q.queue.iter().map(|it| it.in_frustrum).collect();
    assert_eq!(flags1, vec![true, false]);
    q.clip_to_frustrum(&f);
    let flags2: Vec<bool> = q.queue.iter().map(|it| it.in_frustrum).collect();
    assert_eq!(flags1, flags2);
}

#[test]
fn iter_graphics_reverses_iter() {
    let mut q = ChunkQueue::new();
    q.insert(Vec3i::new(2, 0, 0));
    q.insert(Vec3i::new(0, 0, 0));
    q.insert(Vec3i::new(1, 0, 0));
    q.sort(Vec3i::new(0, 0, 0));
    q.clip_to_frustrum(&all_pass_frustrum());
    let fwd = q.iter();
    let rev = q.iter_graphics();
    assert_eq!(fwd.len(), 3);
    let mut expect = fwd.clone();
    expect.reverse();
    assert_eq!(rev, expect);
}

#[test]
fn frustum_test_against_chunk_box() {
    let f = all_pass_frustrum();
    let aabb = chunk_aabb(Vec3i::new(0, 0, 0));
    assert!(f.intersects_with_aabb(&aabb));
    let far = half_space_frustrum(1, 0, 0, -5000);
    assert!(!far.intersects_with_aabb(&aabb));
    let near = Aabb { start: Fx3 { x: 5000, y: 0, z: 0 }, size: Fx3 { x: 256, y: 256, z: 256 } };
    assert!(far.intersects_with_aabb(&near));
}

#[test]
fn default_indices_follow_quad_pattern() {
    let idx = Face::generate_default_indices(2);
    assert_eq!(idx, vec![0, 1, 2, 2, 1, 3, 4, 5, 6, 6, 5, 7]);
}

#[test]
fn indices_follow_face_bases() {
    let faces = vec![
        Face { base_index: 4, center: Fx3 { x: 0, y: 0, z: 0 }, distance: 0 },
        Face { base_index: 0, center: Fx3 { x: 0, y: 0, z: 0 }, distance: 0 },
    ];
    let idx = Face::generate_indices(&faces);
    assert_eq!(idx, vec![4, 5, 6, 6, 5, 7, 0, 1, 2, 2, 1, 3]);
}

fn vertex() -> Vertex {
    Vertex { pos: Vec3i::new(0, 0, 0), tex: Tex2 { u: 0, v: 0 }, normal: Vec3i::new(0, 1, 0) }
}

#[test]
fn water_sort_orders_faces_far_to_near() {
    let faces = vec![
        Face { base_index: 0, center: Fx3 { x: 256, y: 0, z: 0 }, distance: 0 },
        Face { base_index: 4, center: Fx3 { x: 4096, y: 0, z: 0 }, distance: 0 },
    ];
    let mut g = ChunkGraphics {
        solid_mesh: ChunkMesh::new(vec![], vec![]),
        water_mesh: ChunkMesh::new(vec![vertex(); 8], vec![]),
        offset: Fx3 { x: 0, y: 0, z: 0 },
        graphics_data: ChunkGraphicsData { water_faces: faces, water_faces_unsorted: true },
    };
    assert!(g.needs_water_faces_sorting());
    g.sort_water_geometry(Fx3 { x: 0, y: 0, z: 0 });
    assert!(!g.needs_water_faces_sorting());
    let fs = &g.graphics_data.water_faces;
    assert_eq!(fs[0].base_index, 4);
    assert_eq!(fs[0].distance, 4096 * 4096);
    assert_eq!(fs[1].base_index, 0);
    assert_eq!(fs[1].distance, 256 * 256);
    assert!(fs[0].distance >= fs[1].distance);
    assert_eq!(g.water_mesh.indices, vec![4, 5, 6, 6, 5, 7, 0, 1, 2, 2, 1, 3]);
}

use mycraft::render_queue::RenderQueue;

#[test]
fn render_queue_upsert_and_lazy_sort() {
    let mut rq = RenderQueue::new();
    rq.insert(Vec3i::new(1, 0, 0));
    rq.insert(Vec3i::new(4, 0, 0));
    rq.insert(Vec3i::new(2, 0, 0));
    rq.insert(Vec3i::new(4, 0, 0));
    assert_eq!(rq.queue.len(), 3);
    rq.sort_if_needed(Vec3i::new(0, 0, 0));
    let xs: Vec<i32> = rq.iter().iter().map(|c| c.x).collect();
    assert_eq!(xs, vec![4, 2, 1]);
    // Already sorted: another camera point changes nothing without a new
    // mark.
    rq.sort_if_needed(Vec3i::new(100, 0, 0));
    let xs2: Vec<i32> = rq.iter().iter().map(|c| c.x).collect();
    assert_eq!(xs2, vec![4, 2, 1]);
    rq.mark_unsorted();
    rq.sort_if_needed(Vec3i::new(100, 0, 0));
    let xs3: Vec<i32> = rq.iter().iter().map(|c| c.x).collect();
    assert_eq!(xs3, vec![1, 2, 4]);
}
