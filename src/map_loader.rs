use vstd::prelude::*;
use crate::grid::le_u16;
use crate::tile::Color;

verus! {

/// Side of the square map, in tiles.
pub const MAP_SIZE: usize = 4096;

/// Side of a chunk of the map, in tiles.
pub const CHUNK_SIZE: usize = 256;

/// The ground types of the square editor map.
#[derive(Clone, Copy, Debug, PartialEq, Eq, Structural)]
pub enum MapTileType {
    Grass,
    Desert,
    Water,
    Rock,
    Sand,
}

/// The map tile type a stored code stands for; unknown codes read as grass.
pub open spec fn map_tile_of_code(value: u16) -> MapTileType {
    if value == 1 {
        MapTileType::Desert
    } else if value == 2 {
        MapTileType::Water
    } else if value == 3 {
        MapTileType::Rock
    } else if value == 4 {
        MapTileType::Sand
    } else {
        MapTileType::Grass
    }
}

pub open spec fn map_tile_color(t: MapTileType) -> Color {
    match t {
        MapTileType::Grass => Color { r: 20, g: 80, b: 20 },
        MapTileType::Desert => Color { r: 80, g: 70, b: 40 },
        MapTileType::Water => Color { r: 20, g: 40, b: 80 },
        MapTileType::Rock => Color { r: 50, g: 50, b: 50 },
        MapTileType::Sand => Color { r: 90, g: 80, b: 60 },
    }
}

impl MapTileType {
    pub fn from_u16(value: u16) -> (r: MapTileType)
        ensures
            r == map_tile_of_code(value),
    {
        match value {
            0 => MapTileType::Grass,
            1 => MapTileType::Desert,
            2 => MapTileType::Water,
            3 => MapTileType::Rock,
            4 => MapTileType::Sand,
            _ => MapTileType::Grass,
        }
    }

    pub fn get_color(self) -> (r: Color)
        ensures
            r == map_tile_color(self),
            r.is_valid(),
    {
        match self {
            MapTileType::Grass => Color { r: 20, g: 80, b: 20 },
            MapTileType::Desert => Color { r: 80, g: 70, b: 40 },
            MapTileType::Water => Color { r: 20, g: 40, b: 80 },
            MapTileType::Rock => Color { r: 50, g: 50, b: 50 },
            MapTileType::Sand => Color { r: 90, g: 80, b: 60 },
        }
    }
}

/// Why a map file was refused.
#[derive(Clone, Copy, Debug, PartialEq, Eq, Structural)]
pub enum MapLoadError {
    /// The file does not hold exactly two bytes per tile of the map.
    InvalidSize,
}

/// The tile at `(x, z)` of rows `rows`; grass outside the map and wherever the rows do not reach.
pub open spec fn map_tile_at(rows: Seq<Seq<MapTileType>>, x: int, z: int) -> MapTileType {
    if 0 <= x < MAP_SIZE && 0 <= z < MAP_SIZE && z < rows.len() && x < rows[z].len() {
        rows[z][x]
    } else {
        MapTileType::Grass
    }
}

/// A `MAP_SIZE` by `MAP_SIZE` map whose every tile is given by `f(x, z)`.
pub open spec fn full_map(f: spec_fn(int, int) -> MapTileType) -> Seq<Seq<MapTileType>> {
    Seq::new(MAP_SIZE as nat, |z: int| Seq::new(MAP_SIZE as nat, |x: int| f(x, z)))
}

/// The map a well-sized file encodes: tile `(x, z)` is the code at byte `2 * (z * MAP_SIZE + x)`.
pub open spec fn decoded_map(bytes: Seq<u8>) -> Seq<Seq<MapTileType>> {
    full_map(
        |x: int, z: int|
            map_tile_of_code(
                le_u16(bytes[2 * (z * MAP_SIZE + x)], bytes[2 * (z * MAP_SIZE + x) + 1]),
            ),
    )
}

/// The square editor map, stored row by row.
pub struct GameMap {
    pub tiles: Vec<Vec<MapTileType>>,
}

impl GameMap {
    /// The rows of the map as values.
    pub open spec fn rows(&self) -> Seq<Seq<MapTileType>> {
        self.tiles@.map_values(|row: Vec<MapTileType>| row@)
    }

    /// A map of grass only.
    pub fn new() -> (r: GameMap)
        ensures
            r.rows() == full_map(|x: int, z: int| MapTileType::Grass),
    {
        let r = GameMap { tiles: Self::build_rows(&[], false) };
        r
    }

    /// The map that a map file's bytes encode, or `InvalidSize` unless the
    /// file holds exactly two bytes per tile.
    pub fn from_bytes(bytes: &[u8]) -> (r: Result<GameMap, MapLoadError>)
        ensures
            bytes@.len() != MAP_SIZE * MAP_SIZE * 2 <==> r is Err,
            r matches Err(e) ==> e == MapLoadError::InvalidSize,
            r matches Ok(m) ==> m.rows() == decoded_map(bytes@),
    {
        if bytes.len() != MAP_SIZE * MAP_SIZE * 2 {
            return Err(MapLoadError::InvalidSize);
        }
        Ok(GameMap { tiles: Self::build_rows(bytes, true) })
    }

    /// Builds every row: decoded from `bytes` when `decode` holds, grass otherwise.
    fn build_rows(bytes: &[u8], decode: bool) -> (r: Vec<Vec<MapTileType>>)
        requires
            decode ==> bytes@.len() == MAP_SIZE * MAP_SIZE * 2,
        ensures
            decode ==> r@.map_values(|row: Vec<MapTileType>| row@) == decoded_map(bytes@),
            !decode ==> r@.map_values(|row: Vec<MapTileType>| row@) == full_map(
                |x: int, z: int| MapTileType::Grass,
            ),
    {
        let ghost want = if decode {
            decoded_map(bytes@)
        } else {
            full_map(|x: int, z: int| MapTileType::Grass)
        };
        let mut rows: Vec<Vec<MapTileType>> = Vec::with_capacity(MAP_SIZE);
        let mut z: usize = 0;
        while z < MAP_SIZE
            invariant
                z <= MAP_SIZE,
                decode ==> bytes@.len() == MAP_SIZE * MAP_SIZE * 2,
                want == if decode {
                    decoded_map(bytes@)
                } else {
                    full_map(|x: int, z: int| MapTileType::Grass)
                },
                rows@.len() == z,
                forall|k: int| 0 <= k < z ==> (#[trigger] rows@[k])@ == want[k],
            decreases MAP_SIZE - z,
        {
            let mut row: Vec<MapTileType> = Vec::with_capacity(MAP_SIZE);
            let mut x: usize = 0;
            while x < MAP_SIZE
                invariant
                    z < MAP_SIZE,
                    x <= MAP_SIZE,
                    decode ==> bytes@.len() == MAP_SIZE * MAP_SIZE * 2,
                    want == if decode {
                        decoded_map(bytes@)
                    } else {
                        full_map(|x: int, z: int| MapTileType::Grass)
                    },
                    row@.len() == x,
                    forall|k: int| 0 <= k < x ==> row@[k] == want[z as int][k],
                decreases MAP_SIZE - x,
            {
                let t = if decode {
                    let index = 2 * (z * MAP_SIZE + x);
                    let value: u16 = bytes[index] as u16 + 256 * (bytes[index + 1] as u16);
                    MapTileType::from_u16(value)
                } else {
                    MapTileType::Grass
                };
                row.push(t);
                x = x + 1;
            }
            proof {
                assert(row@ =~= want[z as int]);
            }
            rows.push(row);
            z = z + 1;
        }
        proof {
            assert(rows@.map_values(|row: Vec<MapTileType>| row@) =~= want);
        }
        rows
    }

    /// The tile at `(x, z)`; grass outside the map.
    pub fn get_tile(&self, x: usize, z: usize) -> (r: MapTileType)
        ensures
            r == map_tile_at(self.rows(), x as int, z as int),
    {
        if x < MAP_SIZE && z < MAP_SIZE && z < self.tiles.len() && x < self.tiles[z].len() {
            self.tiles[z][x]
        } else {
            MapTileType::Grass
        }
    }

    /// The `CHUNK_SIZE` by `CHUNK_SIZE` tiles of the chunk at `(chunk_x, chunk_z)`,
    /// row by row; tiles outside the map read as grass.
    pub fn get_chunk_tiles(&self, chunk_x: i32, chunk_z: i32) -> (r: Vec<Vec<MapTileType>>)
        ensures
            r@.len() == CHUNK_SIZE,
            forall|lz: int| 0 <= lz < CHUNK_SIZE ==> (#[trigger] r@[lz])@.len() == CHUNK_SIZE,
            forall|lz: int, lx: int|
                0 <= lz < CHUNK_SIZE && 0 <= lx < CHUNK_SIZE ==> #[trigger] r@[lz]@[lx] == map_tile_at(
                    self.rows(),
                    chunk_x * CHUNK_SIZE + lx,
                    chunk_z * CHUNK_SIZE + lz,
                ),
    {
        let start_x: i64 = chunk_x as i64 * CHUNK_SIZE as i64;
        let start_z: i64 = chunk_z as i64 * CHUNK_SIZE as i64;
        let mut chunk_tiles: Vec<Vec<MapTileType>> = Vec::with_capacity(CHUNK_SIZE);
        let mut local_z: usize = 0;
        while local_z < CHUNK_SIZE
            invariant
                local_z <= CHUNK_SIZE,
                start_x == chunk_x * CHUNK_SIZE,
                start_z == chunk_z * CHUNK_SIZE,
                chunk_tiles@.len() == local_z,
                forall|lz: int| 0 <= lz < local_z ==> (#[trigger] chunk_tiles@[lz])@.len() == CHUNK_SIZE,
                forall|lz: int, lx: int|
                    0 <= lz < local_z && 0 <= lx < CHUNK_SIZE ==> #[trigger] chunk_tiles@[lz]@[lx]
                        == map_tile_at(self.rows(), start_x + lx, start_z + lz),
            decreases CHUNK_SIZE - local_z,
        {
            let mut row: Vec<MapTileType> = Vec::with_capacity(CHUNK_SIZE);
            let mut local_x: usize = 0;
            while local_x < CHUNK_SIZE
                invariant
                    local_z < CHUNK_SIZE,
                    local_x <= CHUNK_SIZE,
                    start_x == chunk_x * CHUNK_SIZE,
                    start_z == chunk_z * CHUNK_SIZE,
                    row@.len() == local_x,
                    forall|lx: int| 0 <= lx < local_x ==> row@[lx] == map_tile_at(
                        self.rows(),
                        start_x + lx,
                        start_z + local_z,
                    ),
                decreases CHUNK_SIZE - local_x,
            {
                let world_x: i64 = start_x + local_x as i64;
                let world_z: i64 = start_z + local_z as i64;
                let t = if 0 <= world_x && world_x < MAP_SIZE as i64 && 0 <= world_z && world_z
                    < MAP_SIZE as i64 {
                    self.get_tile(world_x as usize, world_z as usize)
                } else {
                    MapTileType::Grass
                };
                row.push(t);
                local_x = local_x + 1;
            }
            chunk_tiles.push(row);
            local_z = local_z + 1;
        }
        chunk_tiles
    }
}

} // verus!
