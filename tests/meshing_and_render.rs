use std::collections::VecDeque;
use orange::atlas::UniformAtlasTextureType;
use orange::decode::{apply_chunk_update, MapChunkUpdate};
use orange::pos::{ChunkCoordinate, ColumnPos};
use orange::render::view_extent;
use orange::registry::{load_b173, BlockFactory, BlockRegister, GameVersion, Registry};
use orange::storage::ChunkStorage;
use orange::tessellate::{tessellate_section, Direction, Face};
use orange::world::ClientWorld;

fn coord(x: i32, y: i32, z: i32) -> ChunkCoordinate {
    ChunkCoordinate::new(x, y, z)
}

fn b173() -> Registry {
    let mut r = Registry::new();
    GameVersion::B173.load_registry(&mut r);
    r
}

fn fill(storage: &mut ChunkStorage, c: ChunkCoordinate, block: u8) {
    let i = storage.get_or_create_chunk(c).unwrap();
    for x in 0..16u32 {
        for y in 0..16u32 {
            for z in 0..16u32 {
                storage.set_pos_at(i, x, y, z, block as u64);
            }
        }
    }
}

#[test]
fn b173_registry_contents() {
    let r = b173();
    let blocks = &r.blocks.blocks;
    assert_eq!(blocks.len(), 97);
    assert_eq!(blocks[0].name, "air");
    assert!(blocks[0].transparent);
    assert_eq!(blocks[1].name, "stone");
    assert_eq!(blocks[1].hardness_milli, 1500);
    assert_eq!(blocks[1].resistance_milli, 10000);
    assert_eq!(blocks[1].texture_index, 1);
    assert!(!blocks[1].transparent);
    assert_eq!(blocks[7].name, "bedrock");
    assert_eq!(blocks[7].hardness_milli, -1000);
    assert_eq!(blocks[96].name, "trapdoor");
    assert!(r.blocks.is_opaque(1));
    assert!(!r.blocks.is_opaque(0));
    assert!(!r.blocks.is_opaque(20) || !blocks[20].transparent);
    assert!(!r.blocks.is_opaque(500));
}

#[test]
fn orange_version_loads_nothing() {
    let mut r = Registry::new();
    GameVersion::Orange.load_registry(&mut r);
    assert_eq!(r.blocks.blocks.len(), 0);
}

#[test]
fn load_b173_appends_after_existing_blocks() {
    let mut r = Registry::new();
    let id = r.blocks.insert(BlockFactory::new("custom").texture_index(9).transparent(true).build());
    assert_eq!(id, 0);
    load_b173(&mut r);
    assert_eq!(r.blocks.blocks.len(), 98);
    assert_eq!(r.blocks.blocks[0].name, "custom");
    assert_eq!(r.blocks.blocks[1].name, "air");
}

#[test]
fn block_factory_defaults_and_setters() {
    let b = BlockFactory::new("x").build();
    assert_eq!((b.hardness_milli, b.resistance_milli, b.texture_index, b.transparent), (0, 0, 0, false));
    let b = BlockFactory::new("y").hardness_milli(5).resistance_milli(6).texture_index(7).transparent(true).build();
    assert_eq!((b.hardness_milli, b.resistance_milli, b.texture_index, b.transparent), (5, 6, 7, true));
}

#[test]
fn isolated_opaque_section_shows_only_boundary_faces() {
    let reg = b173();
    let mut storage = ChunkStorage::new(4);
    fill(&mut storage, coord(0, 0, 0), 1);
    let mesh = tessellate_section(&storage, &reg.blocks, coord(0, 0, 0));
    assert_eq!(mesh.coord, coord(0, 0, 0));
    assert_eq!(mesh.faces.len(), 6 * 256);
    for f in &mesh.faces {
        assert_eq!(f.block, 1);
        let on_boundary = match f.direction {
            Direction::North => f.z == 0,
            Direction::South => f.z == 15,
            Direction::East => f.x == 15,
            Direction::West => f.x == 0,
            Direction::Up => f.y == 15,
            Direction::Down => f.y == 0,
        };
        assert!(on_boundary);
    }
    assert!(mesh.faces.contains(&Face { x: 0, y: 15, z: 0, direction: Direction::Up, block: 1 }));
}

#[test]
fn opaque_neighbor_hides_boundary_faces() {
    let reg = b173();
    let mut storage = ChunkStorage::new(4);
    fill(&mut storage, coord(0, 0, 0), 1);
    fill(&mut storage, coord(0, 1, 0), 1);
    let mesh = tessellate_section(&storage, &reg.blocks, coord(0, 0, 0));
    assert_eq!(mesh.faces.len(), 5 * 256);
    assert!(mesh.faces.iter().all(|f| f.direction != Direction::Up));
    // a transparent neighbour (glass) hides nothing
    fill(&mut storage, coord(1, 0, 0), 20);
    let glass = reg.blocks.blocks[20].transparent;
    let mesh = tessellate_section(&storage, &reg.blocks, coord(0, 0, 0));
    assert_eq!(mesh.faces.len(), if glass { 5 * 256 } else { 4 * 256 });
}

#[test]
fn empty_and_missing_sections_have_no_faces() {
    let reg = b173();
    let mut storage = ChunkStorage::new(4);
    storage.get_or_create_chunk(coord(0, 0, 0)).unwrap();
    assert!(tessellate_section(&storage, &reg.blocks, coord(0, 0, 0)).faces.is_empty());
    assert!(tessellate_section(&storage, &reg.blocks, coord(3, 0, 3)).faces.is_empty());
}

#[test]
fn single_block_shows_six_faces() {
    let reg = b173();
    let mut storage = ChunkStorage::new(4);
    let i = storage.get_or_create_chunk(coord(0, 0, 0)).unwrap();
    storage.set_pos_at(i, 4, 5, 6, 3);
    let mesh = tessellate_section(&storage, &reg.blocks, coord(0, 0, 0));
    assert_eq!(mesh.faces.len(), 6);
    assert_eq!(mesh.faces[0], Face { x: 4, y: 5, z: 6, direction: Direction::North, block: 3 });
    // an unregistered id does not hide the dirt's top face, while the dirt hides its
    // bottom face
    storage.set_pos_at(i, 4, 6, 6, 999);
    let mesh = tessellate_section(&storage, &reg.blocks, coord(0, 0, 0));
    assert_eq!(mesh.faces.len(), 11);
    assert!(mesh.faces.contains(&Face { x: 4, y: 5, z: 6, direction: Direction::Up, block: 3 }));
    assert!(!mesh.faces.contains(&Face { x: 4, y: 6, z: 6, direction: Direction::Down, block: 999 }));
}

#[test]
fn retessellation_gives_identical_meshes() {
    let reg = b173();
    let mut storage = ChunkStorage::new(4);
    let u = MapChunkUpdate { block_x: 0, block_y: 0, block_z: 0, size_x: 3, size_y: 3, size_z: 3 };
    apply_chunk_update(&mut storage, u, &vec![1; 96]);
    let mut world = ClientWorld::new(4);
    world.add_dimension(storage);
    world.tesselate_chunk(ColumnPos::new(0, 0), &reg.blocks);
    let first: Vec<Vec<Face>> = world
        .world_renderer()
        .get_chunk(ColumnPos::new(0, 0))
        .unwrap()
        .meshes
        .iter()
        .map(|m| m.faces.clone())
        .collect();
    assert!(!world.get_player_dimension().unwrap().column_state(0, 0).1);
    world.tesselate_chunk(ColumnPos::new(0, 0), &reg.blocks);
    let second: Vec<Vec<Face>> = world
        .world_renderer()
        .get_chunk(ColumnPos::new(0, 0))
        .unwrap()
        .meshes
        .iter()
        .map(|m| m.faces.clone())
        .collect();
    assert_eq!(first.len(), 4);
    assert_eq!(first[0].len(), 6 * 16);
    assert_eq!(first, second);
}

fn world_with_columns(columns: &[(i32, i32)]) -> ClientWorld {
    let mut storage = ChunkStorage::new(2);
    for &(x, z) in columns {
        let i = storage.get_or_create_chunk(coord(x, 0, z)).unwrap();
        storage.set_pos_at(i, 0, 0, 0, 1);
        storage.set_dirty_at(i, true);
    }
    let mut world = ClientWorld::new(2);
    world.add_dimension(storage);
    world
}

#[test]
fn draw_queues_columns_needing_meshes() {
    let reg = b173();
    let mut world = world_with_columns(&[(0, 0), (1, 0), (5, 5)]);
    let mut queue = VecDeque::new();
    world.draw_chunks(ColumnPos::new(-1, -1), ColumnPos::new(1, 1), &mut queue);
    assert_eq!(queue, VecDeque::from(vec![ColumnPos::new(0, 0), ColumnPos::new(1, 0)]));
    world.tesselate_chunks(&mut queue, &reg.blocks);
    assert!(queue.is_empty());
    assert!(world.world_renderer().get_chunk(ColumnPos::new(0, 0)).is_some());
    assert!(world.world_renderer().get_chunk(ColumnPos::new(1, 0)).is_some());
    assert!(world.world_renderer().get_chunk(ColumnPos::new(5, 5)).is_none());
    let mut queue = VecDeque::new();
    world.draw_chunks(ColumnPos::new(-1, -1), ColumnPos::new(1, 1), &mut queue);
    assert!(queue.is_empty());
}

#[test]
fn columns_out_of_range_are_swept() {
    let reg = b173();
    let mut world = world_with_columns(&[(0, 0), (3, 0)]);
    world.tesselate_chunk(ColumnPos::new(0, 0), &reg.blocks);
    world.tesselate_chunk(ColumnPos::new(3, 0), &reg.blocks);
    assert_eq!(world.world_renderer().len(), 2);
    let mut queue = VecDeque::new();
    world.draw_chunks(ColumnPos::new(-1, -1), ColumnPos::new(1, 1), &mut queue);
    assert!(world.world_renderer().get_chunk(ColumnPos::new(3, 0)).unwrap().marked);
    assert!(!world.world_renderer().get_chunk(ColumnPos::new(0, 0)).unwrap().marked);
    world.process_chunks();
    assert!(world.world_renderer().get_chunk(ColumnPos::new(3, 0)).is_none());
    assert!(world.world_renderer().get_chunk(ColumnPos::new(0, 0)).is_some());
    assert_eq!(world.world_renderer().len(), 1);
}

#[test]
fn column_back_in_range_before_sweep_is_kept() {
    let reg = b173();
    let mut world = world_with_columns(&[(3, 0)]);
    world.tesselate_chunk(ColumnPos::new(3, 0), &reg.blocks);
    let mut queue = VecDeque::new();
    world.draw_chunks(ColumnPos::new(-1, -1), ColumnPos::new(1, 1), &mut queue);
    assert!(world.world_renderer().get_chunk(ColumnPos::new(3, 0)).unwrap().marked);
    world.draw_chunks(ColumnPos::new(2, -1), ColumnPos::new(4, 1), &mut queue);
    assert!(!world.world_renderer().get_chunk(ColumnPos::new(3, 0)).unwrap().marked);
    world.process_chunks();
    assert!(world.world_renderer().get_chunk(ColumnPos::new(3, 0)).is_some());
}

#[test]
fn tessellating_without_data_changes_nothing() {
    let reg = b173();
    let mut world = ClientWorld::new(2);
    world.tesselate_chunk(ColumnPos::new(0, 0), &reg.blocks);
    assert_eq!(world.world_renderer().len(), 0);
    assert!(world.get_player_dimension().is_none());
    world.add_dimension(ChunkStorage::new(2));
    world.tesselate_chunk(ColumnPos::new(0, 0), &reg.blocks);
    assert_eq!(world.world_renderer().len(), 0);
    assert_eq!(world.get_player_level_id(), 0);
    assert!(world.get_dimension(1).is_none());
}

#[test]
fn uniform_atlas_entry() {
    let t = UniformAtlasTextureType { cell: 3, identifier: "minecraft:stone".to_string() };
    let t = t.clone();
    assert_eq!(t.cell, 3);
    assert_eq!(t.identifier, "minecraft:stone");
}

#[test]
fn block_register_ids_follow_insertion() {
    let mut r = BlockRegister::new();
    assert_eq!(r.insert(BlockFactory::new("a").build()), 0);
    assert_eq!(r.insert(BlockFactory::new("b").transparent(true).build()), 1);
    assert!(r.is_opaque(0));
    assert!(!r.is_opaque(1));
}

#[test]
fn view_extent_around_viewer() {
    assert_eq!(view_extent(0, 0, 2), (ColumnPos::new(-2, -2), ColumnPos::new(2, 2)));
    assert_eq!(view_extent(-1, 40, 1), (ColumnPos::new(-2, 1), ColumnPos::new(0, 3)));
    assert_eq!(view_extent(17, -17, 0), (ColumnPos::new(1, -2), ColumnPos::new(1, -2)));
}

fn cache_faces(world: &ClientWorld, p: ColumnPos) -> Vec<Vec<Face>> {
    world
        .world_renderer()
        .get_chunk(p)
        .unwrap()
        .meshes
        .iter()
        .map(|m| m.faces.clone())
        .collect()
}

#[test]
fn tesselate_chunks_with_empty_queue_changes_nothing() {
    let reg = b173();
    let mut world = world_with_columns(&[(0, 0)]);
    let mut queue: VecDeque<ColumnPos> = VecDeque::new();
    world.tesselate_chunks(&mut queue, &reg.blocks);
    assert_eq!(world.world_renderer().len(), 0);
    assert!(world.get_player_dimension().unwrap().column_state(0, 0).1);
}

#[test]
fn duplicate_queue_entries_rebuild_the_same_meshes() {
    let reg = b173();
    let mut once = world_with_columns(&[(0, 0), (2, 2)]);
    let mut twice = world_with_columns(&[(0, 0), (2, 2)]);
    let mut q1 = VecDeque::from(vec![ColumnPos::new(0, 0)]);
    let mut q2 = VecDeque::from(vec![ColumnPos::new(0, 0), ColumnPos::new(0, 0), ColumnPos::new(9, 9)]);
    once.tesselate_chunks(&mut q1, &reg.blocks);
    twice.tesselate_chunks(&mut q2, &reg.blocks);
    assert!(q1.is_empty() && q2.is_empty());
    assert_eq!(once.world_renderer().len(), 1);
    assert_eq!(twice.world_renderer().len(), 1);
    assert_eq!(cache_faces(&once, ColumnPos::new(0, 0)), cache_faces(&twice, ColumnPos::new(0, 0)));
    assert_eq!(cache_faces(&once, ColumnPos::new(0, 0))[0].len(), 6);
    let dim = twice.get_player_dimension().unwrap();
    assert!(!dim.column_state(0, 0).1);
    assert!(dim.column_state(2, 2).1);
}
