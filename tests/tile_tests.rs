use fortune::constants::COLORS;
use fortune::tile::{Color, TileType};

#[test]
fn test_tile_type_conversion() {
    assert_eq!(TileType::from_u16(0), TileType::Grass);
    assert_eq!(TileType::from_u16(1), TileType::Water);
    assert_eq!(TileType::from_u16(2), TileType::Desert);
    assert_eq!(TileType::from_u16(3), TileType::Stone);
    assert_eq!(TileType::from_u16(4), TileType::Wood);
    assert_eq!(TileType::from_u16(999), TileType::Unknown);
}

#[test]
fn test_tile_colors() {
    assert_eq!(TileType::Grass.to_rgb(), [34, 139, 34]);
    assert_eq!(TileType::Water.to_rgb(), [30, 144, 255]);
    assert_eq!(TileType::Desert.to_rgb(), [238, 203, 173]);
}

#[test]
fn known_codes_round_trip() {
    for v in 0u16..=4 {
        assert_eq!(TileType::from_u16(v).to_u16(), v);
    }
}

#[test]
fn codes_above_range_are_unknown() {
    for v in [5u16, 6, 100, 999, u16::MAX] {
        assert_eq!(TileType::from_u16(v), TileType::Unknown);
    }
    assert_ne!(TileType::from_u16(5), TileType::Grass);
}

#[test]
fn every_tile_survives_encoding() {
    let all = [
        TileType::Grass,
        TileType::Water,
        TileType::Desert,
        TileType::Stone,
        TileType::Wood,
        TileType::Unknown,
    ];
    for t in all {
        assert_eq!(TileType::from_u16(t.to_u16()), t);
    }
}

#[test]
fn tile_names() {
    assert_eq!(TileType::Grass.get_name(), "Grassland");
    assert_eq!(TileType::Water.get_name(), "Water");
    assert_eq!(TileType::Desert.get_name(), "Desert");
    assert_eq!(TileType::Stone.get_name(), "Stone");
    assert_eq!(TileType::Wood.get_name(), "Wood");
    assert_eq!(TileType::Unknown.get_name(), "Unknown");
}

#[test]
fn tile_vertex_colors() {
    assert_eq!(TileType::Grass.get_color(), COLORS::grass_green());
    assert_eq!(TileType::Water.get_color(), COLORS::water_blue());
    assert_eq!(TileType::Desert.get_color(), COLORS::desert_tan());
    assert_eq!(TileType::Stone.get_color(), Color { r: 50, g: 50, b: 50 });
    assert_eq!(TileType::Wood.get_color(), Color { r: 60, g: 30, b: 10 });
    assert_eq!(TileType::Unknown.get_color(), Color { r: 100, g: 0, b: 100 });
}

#[test]
fn remaining_image_colors() {
    assert_eq!(TileType::Stone.to_rgb(), [128, 128, 128]);
    assert_eq!(TileType::Wood.to_rgb(), [139, 69, 19]);
    assert_eq!(TileType::Unknown.to_rgb(), [255, 0, 255]);
}
