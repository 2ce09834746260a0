use fortune::map_image::{map_image_rgb, tile_statistics};
use fortune::tile::TileType;

#[test]
fn pixels_follow_tiles_row_major() {
    let tiles = [TileType::Grass, TileType::Water, TileType::Desert, TileType::Unknown];
    let rgb = map_image_rgb(&tiles, 2, 2);
    assert_eq!(rgb, vec![34, 139, 34, 30, 144, 255, 238, 203, 173, 255, 0, 255]);
}

#[test]
fn missing_tiles_stay_black_and_extra_tiles_drop() {
    let short = [TileType::Stone];
    assert_eq!(map_image_rgb(&short, 2, 1), vec![128, 128, 128, 0, 0, 0]);
    let long = [TileType::Wood, TileType::Wood, TileType::Grass];
    assert_eq!(map_image_rgb(&long, 1, 2), vec![139, 69, 19, 139, 69, 19]);
    assert!(map_image_rgb(&long, 0, 5).is_empty());
}

#[test]
fn statistics_count_each_type() {
    let tiles = [
        TileType::Grass,
        TileType::Water,
        TileType::Grass,
        TileType::Unknown,
        TileType::Desert,
        TileType::Grass,
    ];
    let counts = tile_statistics(&tiles);
    assert_eq!(counts.count(TileType::Grass), 3);
    assert_eq!(counts.count(TileType::Water), 1);
    assert_eq!(counts.count(TileType::Desert), 1);
    assert_eq!(counts.count(TileType::Stone), 0);
    assert_eq!(counts.count(TileType::Wood), 0);
    assert_eq!(counts.count(TileType::Unknown), 1);
    let empty = tile_statistics(&[]);
    assert_eq!(empty.count(TileType::Grass), 0);
}
