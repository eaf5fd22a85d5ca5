use std::io::Write;

use orange::decode::{apply_chunk_update, buffer_len, decode_chunk_update, MapChunkUpdate};
use orange::pos::{chunk_of, chunk_origin, BlockPos, ChunkCoordinate};
use orange::section::ChunkSection;
use orange::storage::ChunkStorage;
use orange::world::TestWorld;

fn zlib(bytes: &[u8]) -> Vec<u8> {
    let mut e = flate2::write::ZlibEncoder::new(Vec::new(), flate2::Compression::default());
    e.write_all(bytes).unwrap();
    e.finish().unwrap()
}

fn coord(x: i32, y: i32, z: i32) -> ChunkCoordinate {
    ChunkCoordinate::new(x, y, z)
}

#[test]
fn set_pos_then_get_pos_returns_value() {
    let mut s = ChunkSection::create_empty();
    s.set_pos(3, 7, 11, 42);
    assert_eq!(s.get_pos(3, 7, 11), 42);
    assert_eq!(s.get_pos(11, 7, 3), 0);
    assert_eq!(s.get_pos(3, 11, 7), 0);
    s.set_pos(15, 15, 15, 9);
    assert_eq!(s.get_pos(3, 7, 11), 42);
    assert_eq!(s.get_pos(15, 15, 15), 9);
    s.set_pos(3, 7, 11, 5);
    assert_eq!(s.get_pos(3, 7, 11), 5);
}

#[test]
fn section_dirty_flag() {
    let mut s = ChunkSection::create_empty();
    assert!(!s.is_dirty());
    s.set_dirty(true);
    assert!(s.is_dirty());
    s.set_dirty(false);
    assert!(!s.is_dirty());
}

#[test]
fn chunk_coordinate_derivation() {
    for x in [-33, -17, -16, -1, 0, 1, 15, 16, 31, 1000, i32::MIN, i32::MAX] {
        let c = chunk_of(x);
        assert_eq!(c, x >> 4);
        let origin = chunk_origin(c);
        assert_eq!(origin, c << 4);
        assert!(origin as i64 <= x as i64 && (x as i64) < origin as i64 + 16);
    }
    assert_eq!(chunk_of(-1), -1);
    assert_eq!(chunk_origin(-1), -16);
    assert_eq!(chunk_of(17), 1);
}

#[test]
fn block_pos_new() {
    let p = BlockPos::new(1, -2, 3);
    assert_eq!((p.x, p.y, p.z), (1, -2, 3));
}

#[test]
fn storage_height_bounds() {
    let mut s = ChunkStorage::new(8);
    assert_eq!(s.get_height(), 8);
    assert!(s.get_or_create_chunk(coord(0, 8, 0)).is_none());
    assert!(s.get_or_create_chunk(coord(0, -1, 0)).is_none());
    assert!(s.get_chunk(coord(0, 8, 0)).is_none());
    let i = s.get_or_create_chunk(coord(2, 7, -3)).unwrap();
    assert_eq!(s.get_or_create_chunk(coord(2, 7, -3)), Some(i));
    assert_eq!(s.find(coord(2, 7, -3)), Some(i));
    assert!(s.get_chunk(coord(2, 6, -3)).is_none());
    let sec = s.get_chunk(coord(2, 7, -3)).unwrap();
    assert_eq!(sec.get_pos(0, 0, 0), 0);
    assert!(!sec.is_dirty());
}

#[test]
fn storage_mark_dirty_if_present() {
    let mut s = ChunkStorage::new(4);
    s.get_or_create_chunk(coord(1, 0, 0)).unwrap();
    s.mark_dirty_if_present(coord(1, 0, 0));
    s.mark_dirty_if_present(coord(5, 0, 0));
    assert!(s.get_chunk(coord(1, 0, 0)).unwrap().is_dirty());
    assert!(s.get_chunk(coord(5, 0, 0)).is_none());
}

#[test]
fn buffer_len_is_volume_and_a_half_rounded_up() {
    let u = |x: u8, y: u8, z: u8| MapChunkUpdate {
        block_x: 0,
        block_y: 0,
        block_z: 0,
        size_x: x,
        size_y: y,
        size_z: z,
    };
    assert_eq!(buffer_len(u(15, 15, 15)), 4096 + 2048);
    assert_eq!(buffer_len(u(0, 0, 0)), 2);
    assert_eq!(buffer_len(u(2, 0, 0)), 5);
    assert_eq!(buffer_len(u(255, 255, 255)), 16777216 + 8388608);
}

fn full_region_bytes() -> Vec<u8> {
    (0..4096u32).map(|i| (i % 251 + 1) as u8).collect()
}

#[test]
fn full_section_update_fills_section_and_marks_neighbors() {
    let mut world = TestWorld::new(8);
    for c in [coord(1, 0, 0), coord(-1, 0, 0), coord(0, 0, 1), coord(0, 0, -1), coord(1, 1, 0)] {
        world.chunk_storage.get_or_create_chunk(c).unwrap();
    }
    let bytes = full_region_bytes();
    world.handle_map_chunk(0, 0, 0, 15, 15, 15, zlib(&bytes));
    let sec = world.chunk_storage.get_chunk(coord(0, 0, 0)).unwrap();
    assert!(sec.is_dirty());
    for x in 0..16u32 {
        for y in 0..16u32 {
            for z in 0..16u32 {
                let index = (y + z * 16 + x * 256) as usize;
                assert_eq!(sec.get_pos(x, y, z), bytes[index] as u64);
            }
        }
    }
    for c in [coord(1, 0, 0), coord(-1, 0, 0), coord(0, 0, 1), coord(0, 0, -1)] {
        assert!(world.chunk_storage.get_chunk(c).unwrap().is_dirty());
    }
    assert!(!world.chunk_storage.get_chunk(coord(1, 1, 0)).unwrap().is_dirty());
    assert!(world.chunk_storage.get_chunk(coord(0, 1, 0)).is_none());
}

#[test]
fn update_across_section_boundary_writes_two_sections() {
    let mut world = TestWorld::new(8);
    // one column of 16 blocks, starting 8 blocks into section 0
    let bytes: Vec<u8> = (1..=16u8).collect();
    world.handle_map_chunk(5, 8, 6, 0, 15, 0, zlib(&bytes));
    let low = world.chunk_storage.get_chunk(coord(0, 0, 0)).unwrap();
    let high = world.chunk_storage.get_chunk(coord(0, 1, 0)).unwrap();
    assert!(low.is_dirty());
    assert!(high.is_dirty());
    for y in 0..8u32 {
        assert_eq!(low.get_pos(5, 8 + y, 6), (y + 1) as u64);
        assert_eq!(high.get_pos(5, y, 6), (y + 9) as u64);
    }
    assert_eq!(low.get_pos(5, 7, 6), 0);
    assert_eq!(high.get_pos(5, 8, 6), 0);
}

#[test]
fn update_in_negative_chunk_uses_floor_division() {
    let mut storage = ChunkStorage::new(4);
    let u = MapChunkUpdate { block_x: -1, block_y: 0, block_z: -17, size_x: 0, size_y: 0, size_z: 0 };
    apply_chunk_update(&mut storage, u, &vec![7, 0]);
    let sec = storage.get_chunk(coord(-1, 0, -2)).unwrap();
    assert_eq!(sec.get_pos(15, 0, 15), 7);
}

#[test]
fn cells_beyond_the_column_are_skipped() {
    let mut storage = ChunkStorage::new(4);
    // 16 wide in x starting at local x 8: only the first 8 land in this column
    let raw: Vec<u8> = (1..=16u8).collect();
    let u = MapChunkUpdate { block_x: 8, block_y: 0, block_z: 0, size_x: 15, size_y: 0, size_z: 0 };
    apply_chunk_update(&mut storage, u, &raw);
    let sec = storage.get_chunk(coord(0, 0, 0)).unwrap();
    for x in 0..8u32 {
        assert_eq!(sec.get_pos(8 + x, 0, 0), (x + 1) as u64);
        assert_eq!(sec.get_pos(x, 0, 0), 0);
    }
    assert!(storage.get_chunk(coord(1, 0, 0)).is_none());
}

#[test]
fn rows_outside_height_are_skipped() {
    let mut storage = ChunkStorage::new(1);
    let raw: Vec<u8> = (1..=32u8).collect();
    let u = MapChunkUpdate { block_x: 0, block_y: 0, block_z: 0, size_x: 0, size_y: 31, size_z: 0 };
    apply_chunk_update(&mut storage, u, &raw);
    let sec = storage.get_chunk(coord(0, 0, 0)).unwrap();
    assert_eq!(sec.get_pos(0, 15, 0), 16);
    assert!(storage.get_chunk(coord(0, 1, 0)).is_none());
}

#[test]
fn short_buffer_reads_as_zero() {
    let mut storage = ChunkStorage::new(2);
    let u = MapChunkUpdate { block_x: 0, block_y: 0, block_z: 0, size_x: 0, size_y: 3, size_z: 0 };
    apply_chunk_update(&mut storage, u, &vec![9, 8]);
    let sec = storage.get_chunk(coord(0, 0, 0)).unwrap();
    assert_eq!(sec.get_pos(0, 0, 0), 9);
    assert_eq!(sec.get_pos(0, 1, 0), 8);
    assert_eq!(sec.get_pos(0, 2, 0), 0);
    assert_eq!(sec.get_pos(0, 3, 0), 0);
    assert!(sec.is_dirty());
}

#[test]
fn corrupt_payload_leaves_zeroes() {
    let mut storage = ChunkStorage::new(2);
    let u = MapChunkUpdate { block_x: 0, block_y: 0, block_z: 0, size_x: 1, size_y: 1, size_z: 1 };
    decode_chunk_update(&mut storage, u, &vec![1, 2, 3, 4, 5]);
    let sec = storage.get_chunk(coord(0, 0, 0)).unwrap();
    assert_eq!(sec.get_pos(0, 0, 0), 0);
    assert_eq!(sec.get_pos(1, 1, 1), 0);
    assert!(sec.is_dirty());
}

#[test]
fn decoded_payload_reaches_the_cells() {
    let mut storage = ChunkStorage::new(2);
    // size 2 x 2 x 2: index = y + z*2 + x*4
    let bytes = [10u8, 11, 12, 13, 14, 15, 16, 17];
    let u = MapChunkUpdate { block_x: 0, block_y: 0, block_z: 0, size_x: 1, size_y: 1, size_z: 1 };
    decode_chunk_update(&mut storage, u, &zlib(&bytes));
    let sec = storage.get_chunk(coord(0, 0, 0)).unwrap();
    assert_eq!(sec.get_pos(0, 0, 0), 10);
    assert_eq!(sec.get_pos(0, 1, 0), 11);
    assert_eq!(sec.get_pos(0, 0, 1), 12);
    assert_eq!(sec.get_pos(1, 0, 0), 14);
    assert_eq!(sec.get_pos(1, 1, 1), 17);
}

#[test]
fn neighbor_band_excludes_partial_top_section() {
    let mut storage = ChunkStorage::new(4);
    storage.get_or_create_chunk(coord(1, 0, 0)).unwrap();
    let u = MapChunkUpdate { block_x: 0, block_y: 0, block_z: 0, size_x: 0, size_y: 7, size_z: 0 };
    apply_chunk_update(&mut storage, u, &vec![1; 12]);
    // the band is [0 / 16, 8 / 16) = [0, 0): no neighbour is marked
    assert!(!storage.get_chunk(coord(1, 0, 0)).unwrap().is_dirty());
    assert!(storage.get_chunk(coord(0, 0, 0)).unwrap().is_dirty());
}

#[test]
fn test_world_metadata() {
    let mut w = TestWorld::new(8);
    assert_eq!(w.get_height(), 8);
    assert_eq!(w.get_time(), 0);
    assert_eq!(w.get_spawn_point(), BlockPos::new(0, 0, 0));
    w.set_time(1234);
    w.set_spawn_point(BlockPos::new(1, 64, -3));
    w.set_dimension_id(-1);
    w.set_seed(-99);
    w.set_weather(true);
    assert_eq!(w.get_time(), 1234);
    assert_eq!(w.get_spawn_point(), BlockPos::new(1, 64, -3));
    assert_eq!(w.get_dimension_id(), -1);
    assert_eq!(w.get_seed(), -99);
    assert!(w.get_weather());
    w.tick();
    assert_eq!(w.get_time(), 1234);
    assert_eq!(w.get_height(), 8);
    assert_eq!(w.chunk_storage.get_height(), 8);
}
