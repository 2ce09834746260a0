use vstd::prelude::*;
use crate::tile::Color;

verus! {

/// Side of a chunk, in tiles.
pub const CHUNK_SIZE: u32 = 16;

/// Largest chunk side the library accepts; it keeps the vertex indices of a
/// chunk mesh within `u32`.
pub const MAX_CHUNK_SIZE: u32 = 4096;

/// Half-width, in chunks, of the square window of resident chunks.
pub const RENDER_DISTANCE: u32 = 5;

pub const NUM_CHUNKS_X: u32 = 256;

pub const NUM_CHUNKS_Y: u32 = 256;

/// World width in tiles.
pub const MAP_WIDTH: u32 = NUM_CHUNKS_X * CHUNK_SIZE;

/// World height in tiles.
pub const MAP_HEIGHT: u32 = NUM_CHUNKS_Y * CHUNK_SIZE;

/// Named colors of the game, channels in hundredths.
#[allow(non_camel_case_types)]
pub struct COLORS;

impl COLORS {
    pub fn tan() -> (r: Color)
        ensures
            r == (Color { r: 80, g: 70, b: 40 }),
    {
        Color { r: 80, g: 70, b: 40 }
    }

    pub fn green() -> (r: Color)
        ensures
            r == (Color { r: 20, g: 60, b: 20 }),
    {
        Color { r: 20, g: 60, b: 20 }
    }

    pub fn blue() -> (r: Color)
        ensures
            r == (Color { r: 20, g: 40, b: 80 }),
    {
        Color { r: 20, g: 40, b: 80 }
    }

    pub fn grass_green() -> (r: Color)
        ensures
            r == (Color { r: 10, g: 80, b: 10 }),
    {
        Color { r: 10, g: 80, b: 10 }
    }

    pub fn water_blue() -> (r: Color)
        ensures
            r == (Color { r: 10, g: 10, b: 80 }),
    {
        Color { r: 10, g: 10, b: 80 }
    }

    pub fn desert_tan() -> (r: Color)
        ensures
            r == (Color { r: 80, g: 70, b: 40 }),
    {
        Color { r: 80, g: 70, b: 40 }
    }
}

} // verus!
