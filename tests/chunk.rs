use glengine::chunk::{chunk_coords_in_range, Chunk, AIR_VOXEL, CHUNK_SIZE, CHUNK_VOLUME};
use glengine::math::uvec3;

#[test]
fn new_chunk_is_air_and_clean() {
    let c = Chunk::new();
    assert_eq!(c.num_used(), 0);
    assert!(!c.is_dirty());
    assert_eq!(c.get(uvec3(0, 0, 0)), AIR_VOXEL);
    assert_eq!(c.get(uvec3(31, 31, 31)), AIR_VOXEL);
    assert_eq!(c.mesh().len(), 0);
    assert_eq!(CHUNK_SIZE * CHUNK_SIZE * CHUNK_SIZE, CHUNK_VOLUME);
}

#[test]
fn background_fills_every_voxel() {
    let c = Chunk::with_background(7);
    assert_eq!(c.get(uvec3(0, 0, 0)), 7);
    assert_eq!(c.get(uvec3(13, 2, 31)), 7);
    assert_eq!(c.num_used(), CHUNK_VOLUME);
    assert!(c.is_dirty());
    let air = Chunk::with_background(AIR_VOXEL);
    assert_eq!(air.num_used(), 0);
    assert!(!air.is_dirty());
}

#[test]
fn set_then_get_and_count() {
    let mut c = Chunk::new();
    c.set(uvec3(1, 2, 3), 5);
    assert_eq!(c.get(uvec3(1, 2, 3)), 5);
    assert_eq!(c.get(uvec3(3, 2, 1)), AIR_VOXEL);
    assert_eq!(c.num_used(), 1);
    c.set(uvec3(1, 2, 3), 6);
    assert_eq!(c.num_used(), 1);
    c.set(uvec3(4, 4, 4), 6);
    assert_eq!(c.num_used(), 2);
    c.set(uvec3(1, 2, 3), AIR_VOXEL);
    assert_eq!(c.num_used(), 1);
    assert_eq!(c.get_unchecked(uvec3(4, 4, 4)), 6);
    c.set_unchecked(uvec3(4, 4, 4), AIR_VOXEL);
    assert_eq!(c.num_used(), 0);
}

#[test]
fn out_of_range_coordinates_are_clamped() {
    let mut c = Chunk::new();
    c.set(uvec3(40, 0, 99), 9);
    assert_eq!(c.get(uvec3(31, 0, 31)), 9);
    assert_eq!(c.get(uvec3(1000, 0, 32)), 9);
    assert!(!chunk_coords_in_range(uvec3(32, 0, 0)));
    assert!(chunk_coords_in_range(uvec3(31, 31, 31)));
}

#[test]
fn dirty_only_on_change_and_cleared_by_remesh() {
    let mut c = Chunk::new();
    c.set(uvec3(0, 0, 0), AIR_VOXEL);
    assert!(!c.is_dirty());
    c.set(uvec3(0, 0, 0), 4);
    assert!(c.is_dirty());
    c.remesh();
    assert!(!c.is_dirty());
    assert_eq!(c.mesh().len(), 36);
    assert!(c.mesh().is_dirty());
    c.set(uvec3(0, 0, 0), 4);
    assert!(!c.is_dirty());
    c.set(uvec3(0, 0, 0), 8);
    assert!(c.is_dirty());
}

#[test]
fn trim_storage_keeps_the_mesh() {
    let mut c = Chunk::new();
    c.set(uvec3(3, 3, 3), 2);
    c.set(uvec3(4, 3, 3), 2);
    c.remesh();
    let before = c.mesh().positions().clone();
    c.trim_storage();
    assert_eq!(c.mesh().positions(), &before);
    assert_eq!(c.mesh().len(), 60);
    assert!(!c.is_dirty());
}

#[test]
fn remesh_replaces_the_previous_mesh() {
    let mut c = Chunk::new();
    c.set(uvec3(3, 3, 3), 2);
    c.remesh();
    c.remesh();
    assert_eq!(c.mesh().len(), 36);
    c.set(uvec3(3, 3, 3), AIR_VOXEL);
    c.remesh();
    assert_eq!(c.mesh().len(), 0);
}
