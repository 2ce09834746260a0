use vstd::prelude::*;
use crate::tile::{tile_of_code, TileType};

verus! {

/// The 16-bit value stored little-endian in two bytes.
pub open spec fn le_u16(lo: u8, hi: u8) -> u16 {
    (lo as int + 256 * (hi as int)) as u16
}

/// The tiles that a map file's bytes encode: one tile per complete pair of
/// bytes, in order; a trailing odd byte encodes nothing.
pub open spec fn decoded_tiles(bytes: Seq<u8>) -> Seq<TileType> {
    Seq::new(bytes.len() / 2, |i: int| tile_of_code(le_u16(bytes[2 * i], bytes[2 * i + 1])))
}

/// What a tile grid holds: its size in tiles and the tiles read so far, row-major.
pub struct GridModel {
    pub width: nat,
    pub height: nat,
    pub tiles: Seq<TileType>,
}

impl GridModel {
    /// World tile coordinates are `i32`, so the grid may not be wider or higher than that.
    pub open spec fn wf(self) -> bool {
        self.width <= i32::MAX && self.height <= i32::MAX
    }

    pub open spec fn in_bounds(self, x: int, y: int) -> bool {
        0 <= x < self.width && 0 <= y < self.height
    }

    /// The tile at world tile `(x, y)`: `Unknown` outside the grid and where
    /// the backing data stops short.
    pub open spec fn tile_at(self, x: int, y: int) -> TileType {
        if self.in_bounds(x, y) && y * self.width + x < self.tiles.len() {
            self.tiles[y * self.width + x]
        } else {
            TileType::Unknown
        }
    }

    pub open spec fn is_complete(self) -> bool {
        self.tiles.len() == self.width * self.height
    }
}

/// The full backing map of the world: a flat row-major array of tiles,
/// read-only once built.
pub struct TileGrid {
    width: u32,
    height: u32,
    tiles: Vec<TileType>,
}

impl View for TileGrid {
    type V = GridModel;

    closed spec fn view(&self) -> GridModel {
        GridModel { width: self.width as nat, height: self.height as nat, tiles: self.tiles@ }
    }
}

/// Decodes a map file: little-endian `u16` codes, one per tile.
pub fn decode_tiles(bytes: &[u8]) -> (r: Vec<TileType>)
    ensures
        r@ == decoded_tiles(bytes@),
{
    let len: usize = bytes.len();
    let n: usize = len / 2;
    let mut tiles: Vec<TileType> = Vec::with_capacity(n);
    let mut i: usize = 0;
    while i < n
        invariant
            len == bytes@.len(),
            n == len / 2,
            2 * n <= len,
            i <= n,
            tiles@ =~= decoded_tiles(bytes@).subrange(0, i as int),
        decreases n - i,
    {
        let lo = bytes[2 * i];
        let hi = bytes[2 * i + 1];
        let value: u16 = lo as u16 + 256 * (hi as u16);
        tiles.push(TileType::from_u16(value));
        i = i + 1;
    }
    tiles
}

impl TileGrid {
    pub open spec fn wf(&self) -> bool {
        self@.wf()
    }

    /// A grid over the given tiles; a short tile list leaves the rest of the grid unpopulated.
    pub fn new(width: u32, height: u32, tiles: Vec<TileType>) -> (r: TileGrid)
        requires
            width <= i32::MAX,
            height <= i32::MAX,
        ensures
            r.wf(),
            r@ == (GridModel { width: width as nat, height: height as nat, tiles: tiles@ }),
    {
        TileGrid { width, height, tiles }
    }

    /// A grid of the given size decoded from a map file's bytes.
    pub fn from_bytes(width: u32, height: u32, bytes: &[u8]) -> (r: TileGrid)
        requires
            width <= i32::MAX,
            height <= i32::MAX,
        ensures
            r.wf(),
            r@ == (GridModel {
                width: width as nat,
                height: height as nat,
                tiles: decoded_tiles(bytes@),
            }),
    {
        let tiles = decode_tiles(bytes);
        TileGrid { width, height, tiles }
    }

    /// A complete grid in which every tile is `tile`.
    pub fn filled(width: u32, height: u32, tile: TileType) -> (r: TileGrid)
        requires
            width <= i32::MAX,
            height <= i32::MAX,
            width * height <= usize::MAX,
        ensures
            r.wf(),
            r@.width == width,
            r@.height == height,
            r@.tiles =~= Seq::new((width * height) as nat, |i: int| tile),
    {
        let n: usize = width as usize * height as usize;
        let mut tiles: Vec<TileType> = Vec::with_capacity(n);
        let mut i: usize = 0;
        while i < n
            invariant
                i <= n,
                tiles@ =~= Seq::new(i as nat, |j: int| tile),
            decreases n - i,
        {
            tiles.push(tile);
            i = i + 1;
        }
        TileGrid { width, height, tiles }
    }

    pub fn width(&self) -> (r: u32)
        ensures
            r == self@.width,
    {
        self.width
    }

    pub fn height(&self) -> (r: u32)
        ensures
            r == self@.height,
    {
        self.height
    }

    /// How many tiles the backing data holds.
    pub fn tile_count(&self) -> (r: usize)
        ensures
            r == self@.tiles.len(),
    {
        self.tiles.len()
    }

    /// Whether the backing data holds exactly `width * height` tiles.
    pub fn is_complete(&self) -> (r: bool)
        ensures
            r == self@.is_complete(),
    {
        let w = self.width as u64;
        let h = self.height as u64;
        assert(w * h <= (u32::MAX as u64) * (u32::MAX as u64)) by (nonlinear_arith)
            requires
                w <= u32::MAX,
                h <= u32::MAX,
        ;
        self.tiles.len() as u64 == w * h
    }

    /// The tile at world tile `(x, y)`; `Unknown` outside the grid or past the backing data.
    pub fn get(&self, x: i32, y: i32) -> (r: TileType)
        requires
            self.wf(),
        ensures
            r == self@.tile_at(x as int, y as int),
    {
        if x < 0 || y < 0 || x as u32 >= self.width || y as u32 >= self.height {
            return TileType::Unknown;
        }
        let w = self.width as u64;
        let yy = y as u64;
        let xx = x as u64;
        assert(yy * w <= (i32::MAX as u64) * (i32::MAX as u64)) by (nonlinear_arith)
            requires
                yy <= i32::MAX,
                w <= i32::MAX,
        ;
        let index: u64 = yy * w + xx;
        if index < self.tiles.len() as u64 {
            self.tiles[index as usize]
        } else {
            TileType::Unknown
        }
    }
}

/// Reading a tile never fails: any position outside the grid yields `Unknown`.
pub proof fn lemma_out_of_bounds_is_unknown(g: GridModel, x: int, y: int)
    requires
        x < 0 || y < 0 || x >= g.width || y >= g.height,
    ensures
        g.tile_at(x, y) == TileType::Unknown,
{
}

} // verus!
