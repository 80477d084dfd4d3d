use glengine::chunk::Chunk;
use glengine::math::uvec3;
use glengine::mesh::{VertData, VertPos, VoxelMesh};
use glengine::mesher::data_mesher;
use glengine::volume::{DrawStyle, PackedChunkCoords, Volume};

fn mesh_of(c: &Chunk) -> VoxelMesh {
    let mut m = VoxelMesh::new();
    data_mesher(c, &mut m);
    m
}

fn p(x: u32, y: u32, z: u32) -> VertPos {
    VertPos { x, y, z }
}

#[test]
fn meshing_is_deterministic() {
    let mut c = Chunk::new();
    c.set(uvec3(1, 1, 1), 3);
    c.set(uvec3(1, 2, 1), 4);
    c.set(uvec3(31, 0, 17), 5);
    let a = mesh_of(&c);
    let b = mesh_of(&c);
    assert_eq!(a.positions(), b.positions());
    assert_eq!(a.voxels(), b.voxels());
    assert_eq!(a.len(), b.len());
}

#[test]
fn single_voxel_gives_six_quads() {
    let mut c = Chunk::new();
    c.set(uvec3(5, 7, 9), 42);
    let m = mesh_of(&c);
    assert_eq!(m.len(), 36);
    assert!(m.voxels().iter().all(|v| *v == VertData { data: 42 }));
    for q in m.positions() {
        assert!(q.x == 11 || q.x == 13);
        assert!(q.y == 15 || q.y == 17);
        assert!(q.z == 19 || q.z == 21);
    }
}

#[test]
fn single_voxel_on_the_chunk_boundary_keeps_all_faces() {
    let mut c = Chunk::new();
    c.set(uvec3(31, 0, 31), 1);
    let m = mesh_of(&c);
    assert_eq!(m.len(), 36);
}

#[test]
fn solid_chunk_draws_only_boundary_faces() {
    let c = Chunk::with_background(3);
    let m = mesh_of(&c);
    assert_eq!(m.len(), 6 * 32 * 32 * 6);
    assert!(m.voxels().iter().all(|v| v.data == 3));
}

#[test]
fn adjacent_voxels_hide_their_shared_faces() {
    let mut c = Chunk::new();
    c.set(uvec3(3, 3, 3), 2);
    c.set(uvec3(4, 3, 3), 9);
    let m = mesh_of(&c);
    assert_eq!(m.len(), 60);
    assert_eq!(m.voxels().iter().filter(|v| v.data == 2).count(), 30);
    assert_eq!(m.voxels().iter().filter(|v| v.data == 9).count(), 30);
    // x is the innermost loop, so voxel (3, 3, 3) comes first; its +X face is hidden,
    // so its first quad is the -X face: corners 7, 3, 4, 4, 3, 0.
    assert_eq!(m.positions()[0], p(7, 7, 7));
    assert_eq!(m.positions()[1], p(7, 9, 7));
    assert_eq!(m.positions()[2], p(7, 7, 9));
    assert_eq!(m.positions()[5], p(7, 9, 9));
}

#[test]
fn air_chunk_gives_no_vertices_and_keeps_clean_flag() {
    let c = Chunk::new();
    let mut m = VoxelMesh::new();
    m.mark_uploaded();
    data_mesher(&c, &mut m);
    assert_eq!(m.len(), 0);
    assert!(!m.is_dirty());
}

#[test]
fn mesher_appends_to_existing_content() {
    let mut c = Chunk::new();
    c.set(uvec3(0, 0, 0), 1);
    let mut m = VoxelMesh::new();
    m.push((p(0, 0, 0), VertData { data: 77 }));
    m.mark_uploaded();
    data_mesher(&c, &mut m);
    assert_eq!(m.len(), 37);
    assert_eq!(m.voxels()[0].data, 77);
    assert_eq!(m.voxels()[1].data, 1);
    assert!(m.is_dirty());
}

#[test]
fn volume_scenario_unit_cube() {
    let mut vol = Volume::new(DrawStyle::ChunkByChunk);
    let key = PackedChunkCoords::pack(0, 0, 0).unwrap();
    vol.add_chunk(key);
    vol.chunk_mut(key).unwrap().set(uvec3(0, 0, 0), 1);
    let m = mesh_of(vol.chunk(key).unwrap());
    assert_eq!(m.len(), 36);
    assert!(m.voxels().iter().all(|v| v.data == 1));
    // In units of 1/64: the center is at 2 (that is 1/32) and the half-width is 1.
    let mut corners: Vec<(u32, u32, u32)> = m.positions().iter().map(|q| (q.x, q.y, q.z)).collect();
    corners.sort();
    corners.dedup();
    assert_eq!(corners.len(), 8);
    for q in &corners {
        assert!(q.0 == 1 || q.0 == 3);
        assert!(q.1 == 1 || q.1 == 3);
        assert!(q.2 == 1 || q.2 == 3);
    }
    // First quad is +X: corners 5, 1, 2, 5, 2, 6.
    assert_eq!(m.positions()[0], p(3, 1, 3));
    assert_eq!(m.positions()[1], p(3, 3, 3));
    assert_eq!(m.positions()[2], p(3, 3, 1));
    assert_eq!(m.positions()[3], p(3, 1, 3));
    assert_eq!(m.positions()[4], p(3, 3, 1));
    assert_eq!(m.positions()[5], p(3, 1, 1));
    // Last quad is -Z: corners 6, 2, 3, 7, 6, 3.
    assert_eq!(m.positions()[30], p(3, 1, 1));
    assert_eq!(m.positions()[35], p(1, 3, 1));
}
