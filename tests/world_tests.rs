use fortune::chunk::ChunkCoord;
use fortune::grid::TileGrid;
use fortune::tile::TileType;
use fortune::world::{
    get_tile_at_position, manage_world_chunks, toggle_chunk_borders, update_explored_chunks,
    ChunkBorderVisible, WorldData,
};

/// A world of 20 by 20 chunks of 4 tiles.
fn world(radius: u32) -> WorldData {
    WorldData::new(TileGrid::filled(80, 80, TileType::Grass), 4, radius)
}

fn sorted(mut v: Vec<ChunkCoord>) -> Vec<(i32, i32)> {
    v.sort_by_key(|c| (c.x, c.y));
    v.into_iter().map(|c| (c.x, c.y)).collect()
}

fn square(xs: std::ops::RangeInclusive<i32>, ys: std::ops::RangeInclusive<i32>) -> Vec<(i32, i32)> {
    let mut out = Vec::new();
    for x in xs {
        for y in ys.clone() {
            out.push((x, y));
        }
    }
    out
}

#[test]
fn window_around_interior_viewer() {
    let mut w = world(1);
    let update = manage_world_chunks(&mut w, ChunkCoord::new(5, 5));
    assert_eq!(sorted(w.resident_chunks()), square(4..=6, 4..=6));
    assert_eq!(sorted(update.added), square(4..=6, 4..=6));
    assert!(update.removed.is_empty());
}

#[test]
fn window_clipped_at_corner() {
    let mut w = world(2);
    manage_world_chunks(&mut w, ChunkCoord::new(0, 0));
    let resident = sorted(w.resident_chunks());
    assert!(resident.len() < 25);
    assert!(resident.iter().all(|(x, y)| *x >= 0 && *y >= 0));
    assert_eq!(resident, square(0..=2, 0..=2));
}

#[test]
fn window_clipped_at_far_edge() {
    let mut w = world(2);
    manage_world_chunks(&mut w, ChunkCoord::new(19, 18));
    assert_eq!(sorted(w.resident_chunks()), square(17..=19, 16..=19));
}

#[test]
fn moving_one_chunk_swaps_one_column() {
    let mut w = world(1);
    manage_world_chunks(&mut w, ChunkCoord::new(5, 5));
    let update = manage_world_chunks(&mut w, ChunkCoord::new(6, 5));
    assert_eq!(sorted(update.removed), vec![(4, 4), (4, 5), (4, 6)]);
    assert_eq!(sorted(update.added), vec![(7, 4), (7, 5), (7, 6)]);
    assert_eq!(sorted(w.resident_chunks()), square(5..=7, 4..=6));
}

#[test]
fn standing_still_changes_nothing() {
    let mut w = world(1);
    manage_world_chunks(&mut w, ChunkCoord::new(3, 3));
    let update = manage_world_chunks(&mut w, ChunkCoord::new(3, 3));
    assert!(update.added.is_empty());
    assert!(update.removed.is_empty());
    assert_eq!(w.resident_chunks().len(), 9);
}

#[test]
fn moving_away_and_back_reloads_without_duplicates() {
    let mut w = world(1);
    manage_world_chunks(&mut w, ChunkCoord::new(5, 5));
    manage_world_chunks(&mut w, ChunkCoord::new(15, 15));
    assert_eq!(sorted(w.resident_chunks()), square(14..=16, 14..=16));
    let back = manage_world_chunks(&mut w, ChunkCoord::new(5, 5));
    assert_eq!(sorted(back.added), square(4..=6, 4..=6));
    assert_eq!(sorted(back.removed), square(14..=16, 14..=16));
    let resident = w.resident_chunks();
    let mut unique = sorted(resident.clone());
    unique.dedup();
    assert_eq!(unique.len(), resident.len());
}

#[test]
fn viewer_off_the_map_keeps_nothing() {
    let mut w = world(1);
    manage_world_chunks(&mut w, ChunkCoord::new(5, 5));
    let update = manage_world_chunks(&mut w, ChunkCoord::new(-10, 40));
    assert!(w.resident_chunks().is_empty());
    assert_eq!(update.removed.len(), 9);
    assert!(update.added.is_empty());
}

#[test]
fn resident_window_matches_definition_everywhere() {
    for radius in 0..3u32 {
        let mut w = world(radius);
        for (vx, vy) in [(0, 0), (7, 3), (19, 19), (-1, 5), (21, 10), (10, 10)] {
            manage_world_chunks(&mut w, ChunkCoord::new(vx, vy));
            let r = radius as i32;
            let mut want = Vec::new();
            for x in (vx - r)..=(vx + r) {
                for y in (vy - r)..=(vy + r) {
                    if (0..20).contains(&x) && (0..20).contains(&y) {
                        want.push((x, y));
                    }
                }
            }
            assert_eq!(sorted(w.resident_chunks()), want);
        }
    }
}

#[test]
fn resident_chunk_holds_its_tiles() {
    let codes: Vec<TileType> = (0..6400u32).map(|i| TileType::from_u16((i % 7) as u16)).collect();
    let mut w = WorldData::new(TileGrid::new(80, 80, codes), 4, 1);
    manage_world_chunks(&mut w, ChunkCoord::new(2, 3));
    let chunk = w.chunk(ChunkCoord::new(3, 4)).unwrap();
    for ly in 0..4u32 {
        for lx in 0..4u32 {
            let t = get_tile_at_position(&w, 12 + lx as i32, 16 + ly as i32);
            assert_eq!(chunk.tile(lx, ly), t);
        }
    }
    assert!(w.chunk(ChunkCoord::new(5, 5)).is_none());
    assert!(w.is_resident(ChunkCoord::new(1, 2)));
    assert!(!w.is_resident(ChunkCoord::new(0, 2)));
}

#[test]
fn explored_chunks_only_grow() {
    let mut w = world(1);
    assert!(!w.is_explored(ChunkCoord::new(1, 1)));
    update_explored_chunks(&mut w, ChunkCoord::new(1, 1));
    update_explored_chunks(&mut w, ChunkCoord::new(1, 1));
    update_explored_chunks(&mut w, ChunkCoord::new(2, 1));
    assert!(w.is_explored(ChunkCoord::new(1, 1)));
    assert!(w.is_explored(ChunkCoord::new(2, 1)));
    assert!(!w.is_explored(ChunkCoord::new(1, 2)));
    assert_eq!(w.explored_count(), 2);
    manage_world_chunks(&mut w, ChunkCoord::new(10, 10));
    assert_eq!(w.explored_count(), 2);
}

#[test]
fn tile_lookup_outside_map_is_unknown() {
    let w = world(1);
    assert_eq!(get_tile_at_position(&w, -1, 0), TileType::Unknown);
    assert_eq!(get_tile_at_position(&w, 80, 0), TileType::Unknown);
    assert_eq!(get_tile_at_position(&w, 79, 79), TileType::Grass);
}

#[test]
fn border_toggle_flips_on_press() {
    let mut visible = ChunkBorderVisible(false);
    toggle_chunk_borders(&mut visible, false);
    assert!(!visible.0);
    toggle_chunk_borders(&mut visible, true);
    assert!(visible.0);
    toggle_chunk_borders(&mut visible, true);
    assert!(!visible.0);
}
