use std::collections::hash_map::DefaultHasher;
use std::hash::Hasher;

use fortune::chunk::{generate_chunk_from_map, ChunkCoord};
use fortune::decoration::{chunk_decorations, tile_hash, DecorationKind};
use fortune::grid::TileGrid;
use fortune::tile::TileType;

#[test]
fn hash_matches_hasher_fed_both_coordinates() {
    for (x, z) in [(0, 0), (1, 2), (-5, 7), (i32::MAX, i32::MIN), (123456, -98765)] {
        let mut h = DefaultHasher::new();
        h.write_i32(x);
        h.write_i32(z);
        assert_eq!(tile_hash(x, z), h.finish());
    }
    assert_ne!(tile_hash(1, 2), tile_hash(2, 1));
}

#[test]
fn decorations_are_deterministic() {
    let codes: Vec<TileType> = (0..64 * 64u32).map(|i| TileType::from_u16((i % 3) as u16)).collect();
    let grid = TileGrid::new(64, 64, codes);
    for (cx, cy) in [(0, 0), (1, 3), (3, 2)] {
        let a = chunk_decorations(&generate_chunk_from_map(&grid, ChunkCoord::new(cx, cy), 16));
        let b = chunk_decorations(&generate_chunk_from_map(&grid, ChunkCoord::new(cx, cy), 16));
        assert_eq!(a, b);
    }
}

#[test]
fn water_gets_no_decorations() {
    let grid = TileGrid::filled(128, 128, TileType::Water);
    for (cx, cy) in [(0, 0), (3, 5), (7, 7)] {
        let chunk = generate_chunk_from_map(&grid, ChunkCoord::new(cx, cy), 16);
        assert!(chunk_decorations(&chunk).is_empty());
    }
}

#[test]
fn decorations_follow_the_bands() {
    let codes: Vec<TileType> = (0..256 * 256u32)
        .map(|i| [TileType::Grass, TileType::Desert, TileType::Stone][(i % 3) as usize])
        .collect();
    let grid = TileGrid::new(256, 256, codes);
    let mut expected_total = 0;
    let mut seen = [0usize; 3];
    for cy in 0..4 {
        for cx in 0..4 {
            let chunk = generate_chunk_from_map(&grid, ChunkCoord::new(cx, cy), 64);
            let decos = chunk_decorations(&chunk);
            let mut want = Vec::new();
            for i in 0..64u32 {
                for j in 0..64u32 {
                    let wx = cx * 64 + i as i32;
                    let wz = cy * 64 + j as i32;
                    let t = grid.get(wx, wz);
                    let h = tile_hash(wx, wz);
                    if t != TileType::Water && h % 200 == 0 {
                        want.push((DecorationKind::Enemy, i, j, wx, wz));
                    }
                    if t == TileType::Desert && h % 50 == 0 {
                        want.push((DecorationKind::Cactus, i, j, wx, wz));
                    } else if t == TileType::Grass && h % 100 == 0 {
                        want.push((DecorationKind::Tree, i, j, wx, wz));
                    }
                }
            }
            let got: Vec<_> =
                decos.iter().map(|d| (d.kind, d.local_x, d.local_z, d.world_x, d.world_z)).collect();
            assert_eq!(got, want);
            expected_total += want.len();
            for d in &decos {
                let k = match d.kind {
                    DecorationKind::Enemy => 0,
                    DecorationKind::Cactus => 1,
                    DecorationKind::Tree => 2,
                };
                seen[k] += 1;
            }
        }
    }
    assert!(expected_total > 0);
    assert!(seen.iter().all(|n| *n > 0));
}
