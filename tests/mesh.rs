use glengine::mesh::{VertData, VertPos, VoxelMesh};

#[test]
fn new_mesh_is_empty_and_dirty() {
    let m = VoxelMesh::new();
    assert_eq!(m.len(), 0);
    assert!(m.is_dirty());
}

#[test]
fn push_appends_to_both_streams() {
    let mut m = VoxelMesh::new();
    m.mark_uploaded();
    assert!(!m.is_dirty());
    m.push((VertPos { x: 1, y: 2, z: 3 }, VertData::from(8)));
    assert!(m.is_dirty());
    assert_eq!(m.len(), 1);
    assert_eq!(m.positions()[0], VertPos { x: 1, y: 2, z: 3 });
    assert_eq!(m.voxels()[0], VertData { data: 8 });
}

#[test]
fn reserve_and_shrink_keep_content() {
    let mut m = VoxelMesh::new();
    m.push((VertPos { x: 1, y: 1, z: 1 }, VertData { data: 1 }));
    m.push((VertPos { x: 3, y: 1, z: 1 }, VertData { data: 2 }));
    m.mark_uploaded();
    m.reserve(100);
    assert_eq!(m.len(), 2);
    m.shrink_to_fit();
    assert_eq!(m.len(), 2);
    assert_eq!(m.positions()[1], VertPos { x: 3, y: 1, z: 1 });
    assert_eq!(m.voxels()[1], VertData { data: 2 });
    assert!(!m.is_dirty());
    m.mark_dirty();
    assert!(m.is_dirty());
}

#[test]
fn clear_empties_and_marks_dirty() {
    let mut m = VoxelMesh::new();
    m.push((VertPos { x: 1, y: 1, z: 1 }, VertData { data: 1 }));
    m.mark_uploaded();
    m.clear();
    assert_eq!(m.len(), 0);
    assert!(m.is_dirty());
}
