use glengine::chunk::{Chunk, AIR_VOXEL};
use glengine::math::uvec3;
use glengine::volume::{CoordsError, DrawStyle, PackedChunkCoords, Volume};

fn key(x: u8, y: u8, z: u8) -> PackedChunkCoords {
    PackedChunkCoords::pack(x, y, z).unwrap()
}

#[test]
fn pack_unpack_round_trip() {
    for x in 0..32u8 {
        for y in 0..32u8 {
            for z in 0..32u8 {
                assert_eq!(key(x, y, z).unpack(), (x, y, z));
            }
        }
    }
}

#[test]
fn pack_layout() {
    assert_eq!(key(0, 0, 0).key(), 0);
    assert_eq!(key(0, 0, 1).key(), 1);
    assert_eq!(key(0, 1, 0).key(), 32);
    assert_eq!(key(1, 0, 0).key(), 1024);
    assert_eq!(key(31, 31, 31).key(), 32767);
    assert_eq!(key(3, 5, 7).key(), 3 * 1024 + 5 * 32 + 7);
}

#[test]
fn pack_rejects_out_of_range() {
    assert_eq!(PackedChunkCoords::pack(32, 0, 0), Err(CoordsError::OutOfRange));
    assert_eq!(PackedChunkCoords::pack(0, 200, 0), Err(CoordsError::OutOfRange));
    assert_eq!(PackedChunkCoords::pack(0, 0, 32), Err(CoordsError::OutOfRange));
    assert!(PackedChunkCoords::pack(31, 31, 31).is_ok());
}

#[test]
fn chunks_come_in_key_order() {
    let mut vol = Volume::new(DrawStyle::AllAtOnce);
    let order = [(2u8, 0u8, 0u8), (0, 5, 1), (0, 5, 0), (1, 0, 31), (0, 0, 0)];
    for (i, c) in order.iter().enumerate() {
        let k = key(c.0, c.1, c.2);
        vol.add_chunk(k);
        vol.chunk_mut(k).unwrap().set(uvec3(0, 0, 0), i as u32 + 1);
    }
    let coords: Vec<(u8, u8, u8)> = vol.chunk_coords().iter().map(|k| k.unpack()).collect();
    assert_eq!(coords, vec![(0, 0, 0), (0, 5, 0), (0, 5, 1), (1, 0, 31), (2, 0, 0)]);
    let firsts: Vec<u32> = vol.chunks().iter().map(|c| c.get(uvec3(0, 0, 0))).collect();
    assert_eq!(firsts, vec![5, 3, 2, 4, 1]);
    let keys: Vec<u16> = vol.chunk_coords().iter().map(|k| k.key()).collect();
    assert!(keys.windows(2).all(|w| w[0] < w[1]));
    assert_eq!(vol.style(), DrawStyle::AllAtOnce);
}

#[test]
fn missing_chunk_reads_air() {
    let mut vol = Volume::new(DrawStyle::ChunkByChunk);
    assert_eq!(vol.get_vox(key(1, 2, 3), uvec3(0, 0, 0)), AIR_VOXEL);
    vol.add_chunk(key(1, 2, 4));
    vol.chunk_mut(key(1, 2, 4)).unwrap().set(uvec3(0, 0, 0), 6);
    assert_eq!(vol.get_vox(key(1, 2, 3), uvec3(0, 0, 0)), AIR_VOXEL);
    assert_eq!(vol.get_vox(key(1, 2, 4), uvec3(0, 0, 0)), 6);
    assert!(vol.chunk(key(1, 2, 3)).is_none());
    assert!(vol.chunk_mut(key(9, 9, 9)).is_none());
}

#[test]
fn add_chunk_twice_keeps_content() {
    let mut vol = Volume::new(DrawStyle::ChunkByChunk);
    let k = key(4, 4, 4);
    vol.add_chunk(k);
    vol.chunk_mut(k).unwrap().set(uvec3(10, 11, 12), 99);
    vol.add_chunk(k);
    assert_eq!(vol.get_vox(k, uvec3(10, 11, 12)), 99);
    assert_eq!(vol.chunk(k).unwrap().num_used(), 1);
    assert_eq!(vol.chunks().len(), 1);
}

#[test]
fn empty_volume_has_no_chunks() {
    let vol = Volume::new(DrawStyle::ChunkByChunk);
    assert!(vol.chunks().is_empty());
    assert!(vol.chunk_coords().is_empty());
    let c: &Chunk = &Chunk::new();
    assert_eq!(c.num_used(), 0);
}
