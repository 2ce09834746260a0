use vstd::prelude::*;
use crate::constants::COLORS;

verus! {

/// An RGB color whose channels are given in hundredths (0 is none of the channel, 100 is full).
#[derive(Clone, Copy, Debug, PartialEq, Eq, Structural)]
pub struct Color {
    pub r: u8,
    pub g: u8,
    pub b: u8,
}

impl Color {
    pub open spec fn is_valid(self) -> bool {
        self.r <= 100 && self.g <= 100 && self.b <= 100
    }
}

/// The kind of ground a world tile is made of.
#[derive(Clone, Copy, Debug, PartialEq, Eq, Structural, Hash)]
pub enum TileType {
    Grass,
    Water,
    Desert,
    Stone,
    Wood,
    /// Fallback for codes outside the known range.
    Unknown,
}

/// The tile type that a stored 16-bit code stands for.
pub open spec fn tile_of_code(value: u16) -> TileType {
    if value == 0 {
        TileType::Grass
    } else if value == 1 {
        TileType::Water
    } else if value == 2 {
        TileType::Desert
    } else if value == 3 {
        TileType::Stone
    } else if value == 4 {
        TileType::Wood
    } else {
        TileType::Unknown
    }
}

/// The canonical 16-bit code of a tile type; `Unknown` has the largest code.
pub open spec fn code_of_tile(t: TileType) -> u16 {
    match t {
        TileType::Grass => 0,
        TileType::Water => 1,
        TileType::Desert => 2,
        TileType::Stone => 3,
        TileType::Wood => 4,
        TileType::Unknown => 0xffff,
    }
}

pub open spec fn tile_name(t: TileType) -> Seq<char> {
    match t {
        TileType::Grass => "Grassland"@,
        TileType::Water => "Water"@,
        TileType::Desert => "Desert"@,
        TileType::Stone => "Stone"@,
        TileType::Wood => "Wood"@,
        TileType::Unknown => "Unknown"@,
    }
}

/// The vertex color of a tile type.
pub open spec fn tile_color(t: TileType) -> Color {
    match t {
        TileType::Grass => Color { r: 10, g: 80, b: 10 },
        TileType::Water => Color { r: 10, g: 10, b: 80 },
        TileType::Desert => Color { r: 80, g: 70, b: 40 },
        TileType::Stone => Color { r: 50, g: 50, b: 50 },
        TileType::Wood => Color { r: 60, g: 30, b: 10 },
        TileType::Unknown => Color { r: 100, g: 0, b: 100 },
    }
}

/// The 8-bit RGB color of a tile type in the map image.
pub open spec fn tile_rgb(t: TileType) -> Seq<u8> {
    match t {
        TileType::Grass => seq![34u8, 139u8, 34u8],
        TileType::Water => seq![30u8, 144u8, 255u8],
        TileType::Desert => seq![238u8, 203u8, 173u8],
        TileType::Stone => seq![128u8, 128u8, 128u8],
        TileType::Wood => seq![139u8, 69u8, 19u8],
        TileType::Unknown => seq![255u8, 0u8, 255u8],
    }
}

impl TileType {
    pub fn from_u16(value: u16) -> (r: TileType)
        ensures
            r == tile_of_code(value),
    {
        match value {
            0 => TileType::Grass,
            1 => TileType::Water,
            2 => TileType::Desert,
            3 => TileType::Stone,
            4 => TileType::Wood,
            _ => TileType::Unknown,
        }
    }

    pub fn to_u16(&self) -> (r: u16)
        ensures
            r == code_of_tile(*self),
    {
        match self {
            TileType::Grass => 0,
            TileType::Water => 1,
            TileType::Desert => 2,
            TileType::Stone => 3,
            TileType::Wood => 4,
            TileType::Unknown => 0xffff,
        }
    }

    pub fn get_name(&self) -> (r: &'static str)
        ensures
            r@ == tile_name(*self),
    {
        match self {
            TileType::Grass => "Grassland",
            TileType::Water => "Water",
            TileType::Desert => "Desert",
            TileType::Stone => "Stone",
            TileType::Wood => "Wood",
            TileType::Unknown => "Unknown",
        }
    }

    pub fn get_color(&self) -> (r: Color)
        ensures
            r == tile_color(*self),
            r.is_valid(),
    {
        match self {
            TileType::Grass => COLORS::grass_green(),
            TileType::Water => COLORS::water_blue(),
            TileType::Desert => COLORS::desert_tan(),
            TileType::Stone => Color { r: 50, g: 50, b: 50 },
            TileType::Wood => Color { r: 60, g: 30, b: 10 },
            TileType::Unknown => Color { r: 100, g: 0, b: 100 },
        }
    }

    pub fn to_rgb(&self) -> (r: [u8; 3])
        ensures
            r@ == tile_rgb(*self),
    {
        match self {
            TileType::Grass => [34, 139, 34],
            TileType::Water => [30, 144, 255],
            TileType::Desert => [238, 203, 173],
            TileType::Stone => [128, 128, 128],
            TileType::Wood => [139, 69, 19],
            TileType::Unknown => [255, 0, 255],
        }
    }
}

/// Decoding a known code and encoding the tile gives the code back; every
/// code above the known range decodes to `Unknown`.
pub proof fn lemma_tile_code_round_trip(v: u16)
    ensures
        v <= 4 ==> code_of_tile(tile_of_code(v)) == v,
        v > 4 ==> tile_of_code(v) == TileType::Unknown,
{
}

/// Encoding a tile and decoding the code gives the tile back.
pub proof fn lemma_tile_encode_decode(t: TileType)
    ensures
        tile_of_code(code_of_tile(t)) == t,
{
}

} // verus!
