use fortune::chunk::{chunk_at_tile, generate_chunk_from_map, ChunkCoord};
use fortune::grid::TileGrid;
use fortune::tile::TileType;

#[test]
fn decompose_scenario_single_water_tile() {
    let mut tiles = vec![TileType::Grass; 16];
    tiles[2 * 4 + 2] = TileType::Water;
    let grid = TileGrid::new(4, 4, tiles);
    let chunk = generate_chunk_from_map(&grid, ChunkCoord::new(0, 0), 4);
    assert_eq!(chunk.position(), ChunkCoord::new(0, 0));
    assert_eq!(chunk.size(), 4);
    for ly in 0..4 {
        for lx in 0..4 {
            let want = if lx == 2 && ly == 2 { TileType::Water } else { TileType::Grass };
            assert_eq!(chunk.tile(lx, ly), want);
        }
    }
}

#[test]
fn decompose_is_deterministic() {
    let codes: Vec<TileType> = (0..64u16).map(|i| TileType::from_u16(i % 6)).collect();
    let grid = TileGrid::new(8, 8, codes);
    let a = generate_chunk_from_map(&grid, ChunkCoord::new(1, 0), 4);
    let b = generate_chunk_from_map(&grid, ChunkCoord::new(1, 0), 4);
    assert_eq!(a.tiles(), b.tiles());
    assert_eq!(a.position(), b.position());
}

#[test]
fn decompose_offsets_into_the_grid() {
    let codes: Vec<TileType> = (0..64u16).map(|i| TileType::from_u16(i % 5)).collect();
    let grid = TileGrid::new(8, 8, codes);
    let chunk = generate_chunk_from_map(&grid, ChunkCoord::new(1, 1), 4);
    for ly in 0..4u32 {
        for lx in 0..4u32 {
            let wx = 4 + lx as i32;
            let wy = 4 + ly as i32;
            assert_eq!(chunk.tile(lx, ly), grid.get(wx, wy));
        }
    }
}

#[test]
fn edge_chunks_fill_with_unknown() {
    let grid = TileGrid::filled(4, 4, TileType::Stone);
    let outside = generate_chunk_from_map(&grid, ChunkCoord::new(-1, 0), 4);
    assert!(outside.tiles().iter().all(|t| *t == TileType::Unknown));
    let partial = generate_chunk_from_map(&grid, ChunkCoord::new(0, 0), 8);
    assert_eq!(partial.tile(3, 3), TileType::Stone);
    assert_eq!(partial.tile(4, 3), TileType::Unknown);
    assert_eq!(partial.tile(3, 4), TileType::Unknown);
}

#[test]
fn chunk_of_tile_floors() {
    assert_eq!(chunk_at_tile(0, 0, 16), ChunkCoord::new(0, 0));
    assert_eq!(chunk_at_tile(15, 16, 16), ChunkCoord::new(0, 1));
    assert_eq!(chunk_at_tile(-1, -16, 16), ChunkCoord::new(-1, -1));
    assert_eq!(chunk_at_tile(-17, 33, 16), ChunkCoord::new(-2, 2));
    assert_eq!(chunk_at_tile(i32::MIN, i32::MAX, 1), ChunkCoord::new(i32::MIN, i32::MAX));
}
