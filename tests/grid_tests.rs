use fortune::grid::{decode_tiles, TileGrid};
use fortune::tile::TileType;

fn encode(codes: &[u16]) -> Vec<u8> {
    let mut out = Vec::new();
    for c in codes {
        out.extend_from_slice(&c.to_le_bytes());
    }
    out
}

#[test]
fn decodes_little_endian_codes() {
    let bytes = encode(&[0, 1, 2, 3, 4, 7, 0x0100]);
    let tiles = decode_tiles(&bytes);
    assert_eq!(
        tiles,
        vec![
            TileType::Grass,
            TileType::Water,
            TileType::Desert,
            TileType::Stone,
            TileType::Wood,
            TileType::Unknown,
            TileType::Unknown,
        ]
    );
}

#[test]
fn trailing_odd_byte_is_ignored() {
    let mut bytes = encode(&[2, 1]);
    bytes.push(3);
    assert_eq!(decode_tiles(&bytes), vec![TileType::Desert, TileType::Water]);
    assert!(decode_tiles(&[]).is_empty());
}

#[test]
fn get_reads_row_major() {
    // 3 wide, 2 high: row 0 = Grass Water Desert, row 1 = Stone Wood Grass
    let grid = TileGrid::from_bytes(3, 2, &encode(&[0, 1, 2, 3, 4, 0]));
    assert_eq!(grid.get(0, 0), TileType::Grass);
    assert_eq!(grid.get(1, 0), TileType::Water);
    assert_eq!(grid.get(2, 0), TileType::Desert);
    assert_eq!(grid.get(0, 1), TileType::Stone);
    assert_eq!(grid.get(1, 1), TileType::Wood);
    assert_eq!(grid.get(2, 1), TileType::Grass);
    assert!(grid.is_complete());
}

#[test]
fn out_of_bounds_is_unknown() {
    let grid = TileGrid::filled(4, 3, TileType::Grass);
    assert_eq!(grid.get(-1, 0), TileType::Unknown);
    assert_eq!(grid.get(0, -1), TileType::Unknown);
    assert_eq!(grid.get(4, 0), TileType::Unknown);
    assert_eq!(grid.get(0, 3), TileType::Unknown);
    assert_eq!(grid.get(i32::MIN, i32::MAX), TileType::Unknown);
    assert_eq!(grid.get(3, 2), TileType::Grass);
}

#[test]
fn truncated_data_reads_unknown() {
    let grid = TileGrid::from_bytes(2, 2, &encode(&[1, 1, 1]));
    assert!(!grid.is_complete());
    assert_eq!(grid.tile_count(), 3);
    assert_eq!(grid.get(0, 1), TileType::Water);
    assert_eq!(grid.get(1, 1), TileType::Unknown);
}

#[test]
fn filled_grid_is_complete() {
    let grid = TileGrid::filled(5, 7, TileType::Desert);
    assert!(grid.is_complete());
    assert_eq!(grid.tile_count(), 35);
    assert_eq!(grid.width(), 5);
    assert_eq!(grid.height(), 7);
    assert_eq!(grid.get(4, 6), TileType::Desert);
}
