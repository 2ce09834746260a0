use vstd::prelude::*;
use vstd::arithmetic::div_mod::{lemma_fundamental_div_mod_converse, lemma_fundamental_div_mod, lemma_mod_bound};
use crate::constants::MAX_CHUNK_SIZE;
use crate::grid::{GridModel, TileGrid};
use crate::tile::TileType;

verus! {

/// A chunk's place in chunk space; `y` runs along the world's Z axis.
#[derive(Clone, Copy, Debug, PartialEq, Eq, Structural, Hash)]
pub struct ChunkCoord {
    pub x: i32,
    pub y: i32,
}

impl ChunkCoord {
    pub fn new(x: i32, y: i32) -> (r: ChunkCoord)
        ensures
            r == (ChunkCoord { x, y }),
    {
        ChunkCoord { x, y }
    }
}

pub open spec fn valid_chunk_size(size: nat) -> bool {
    1 <= size <= MAX_CHUNK_SIZE
}

/// Every world tile coordinate of the chunk at `pos` fits in an `i32`.
pub open spec fn chunk_fits_i32(pos: ChunkCoord, size: nat) -> bool {
    &&& i32::MIN <= pos.x * size
    &&& pos.x * size + size - 1 <= i32::MAX
    &&& i32::MIN <= pos.y * size
    &&& pos.y * size + size - 1 <= i32::MAX
}

/// The chunk that holds world tile `(tile_x, tile_z)`: the floor of each coordinate over the chunk size.
pub open spec fn chunk_of_tile(tile_x: int, tile_z: int, size: nat) -> ChunkCoord {
    ChunkCoord { x: (tile_x / (size as int)) as i32, y: (tile_z / (size as int)) as i32 }
}

/// What a chunk holds: its coordinate and its `size * size` tiles, row-major
/// from the chunk's top-left tile.
pub struct ChunkModel {
    pub position: ChunkCoord,
    pub size: nat,
    pub tiles: Seq<TileType>,
}

impl ChunkModel {
    pub open spec fn wf(self) -> bool {
        &&& valid_chunk_size(self.size)
        &&& self.tiles.len() == self.size * self.size
        &&& chunk_fits_i32(self.position, self.size)
    }

    /// The tile at local offset `(lx, ly)`.
    pub open spec fn tile(self, lx: int, ly: int) -> TileType {
        self.tiles[ly * self.size + lx]
    }
}

/// The chunk at `pos` cut out of the grid: local tile `k` is world tile
/// `(pos.x * size + k % size, pos.y * size + k / size)`.
pub open spec fn decompose(grid: GridModel, pos: ChunkCoord, size: nat) -> ChunkModel {
    ChunkModel {
        position: pos,
        size,
        tiles: Seq::new(
            size * size,
            |k: int| grid.tile_at(pos.x * size + k % (size as int), pos.y * size + k / (size as int)),
        ),
    }
}

/// The tiles of one chunk, taken from the tile grid.
pub struct ChunkData {
    position: ChunkCoord,
    size: u32,
    tiles: Vec<TileType>,
}

impl View for ChunkData {
    type V = ChunkModel;

    closed spec fn view(&self) -> ChunkModel {
        ChunkModel { position: self.position, size: self.size as nat, tiles: self.tiles@ }
    }
}

impl ChunkData {
    pub open spec fn wf(&self) -> bool {
        self@.wf()
    }

    pub fn position(&self) -> (r: ChunkCoord)
        ensures
            r == self@.position,
    {
        self.position
    }

    pub fn size(&self) -> (r: u32)
        ensures
            r == self@.size,
    {
        self.size
    }

    pub fn tiles(&self) -> (r: &[TileType])
        ensures
            r@ == self@.tiles,
    {
        self.tiles.as_slice()
    }

    /// The tile at local offset `(lx, ly)`.
    pub fn tile(&self, lx: u32, ly: u32) -> (r: TileType)
        requires
            self.wf(),
            lx < self@.size,
            ly < self@.size,
        ensures
            r == self@.tile(lx as int, ly as int),
    {
        proof {
            lemma_local_index_bound(lx as int, ly as int, self.size as int);
            lemma_square_bound(self.size as int);
        }
        self.tiles[ly as usize * self.size as usize + lx as usize]
    }
}

/// A chunk holds few enough tiles to count them in a `usize`.
pub proof fn lemma_square_bound(size: int)
    requires
        1 <= size <= MAX_CHUNK_SIZE,
    ensures
        size * size <= MAX_CHUNK_SIZE * MAX_CHUNK_SIZE,
        MAX_CHUNK_SIZE * MAX_CHUNK_SIZE <= 0x1000000,
{
    assert(size * size <= MAX_CHUNK_SIZE * MAX_CHUNK_SIZE) by (nonlinear_arith)
        requires
            1 <= size <= MAX_CHUNK_SIZE,
    ;
}

/// Local offset `(lx, ly)` of a chunk of side `size` is tile `ly * size + lx`,
/// which lies below `size * size` and splits back into `lx` and `ly`.
pub proof fn lemma_local_index_bound(lx: int, ly: int, size: int)
    requires
        0 <= lx < size,
        0 <= ly < size,
    ensures
        0 <= ly * size + lx < size * size,
        (ly * size + lx) % size == lx,
        (ly * size + lx) / size == ly,
{
    assert(0 <= ly * size + lx < size * size) by (nonlinear_arith)
        requires
            0 <= lx < size,
            0 <= ly < size,
    ;
    lemma_fundamental_div_mod_converse(ly * size + lx, size, ly, lx);
}

/// Cuts the chunk at `chunk_pos` out of the grid; tiles outside the grid come out `Unknown`.
pub fn generate_chunk_from_map(grid: &TileGrid, chunk_pos: ChunkCoord, chunk_size: u32) -> (r: ChunkData)
    requires
        grid.wf(),
        valid_chunk_size(chunk_size as nat),
        chunk_fits_i32(chunk_pos, chunk_size as nat),
    ensures
        r.wf(),
        r@ == decompose(grid@, chunk_pos, chunk_size as nat),
{
    let ghost size = chunk_size as int;
    let ghost want = decompose(grid@, chunk_pos, chunk_size as nat);
    let base_x: i64 = chunk_pos.x as i64 * chunk_size as i64;
    let base_y: i64 = chunk_pos.y as i64 * chunk_size as i64;
    proof {
        lemma_square_bound(size);
    }
    let n: usize = chunk_size as usize * chunk_size as usize;
    let mut tiles: Vec<TileType> = Vec::with_capacity(n);
    let mut ly: u32 = 0;
    while ly < chunk_size
        invariant
            grid.wf(),
            size == chunk_size,
            valid_chunk_size(chunk_size as nat),
            chunk_fits_i32(chunk_pos, chunk_size as nat),
            want == decompose(grid@, chunk_pos, chunk_size as nat),
            base_x == chunk_pos.x * size,
            base_y == chunk_pos.y * size,
            ly <= chunk_size,
            tiles@.len() == ly * size,
            forall|k: int| 0 <= k < tiles@.len() ==> tiles@[k] == want.tiles[k],
        decreases chunk_size - ly,
    {
        let mut lx: u32 = 0;
        while lx < chunk_size
            invariant
                grid.wf(),
                size == chunk_size,
                valid_chunk_size(chunk_size as nat),
                chunk_fits_i32(chunk_pos, chunk_size as nat),
                want == decompose(grid@, chunk_pos, chunk_size as nat),
                base_x == chunk_pos.x * size,
                base_y == chunk_pos.y * size,
                ly < chunk_size,
                lx <= chunk_size,
                tiles@.len() == ly * size + lx,
                forall|k: int| 0 <= k < tiles@.len() ==> tiles@[k] == want.tiles[k],
            decreases chunk_size - lx,
        {
            let world_x = (base_x + lx as i64) as i32;
            let world_y = (base_y + ly as i64) as i32;
            let t = grid.get(world_x, world_y);
            proof {
                lemma_local_index_bound(lx as int, ly as int, size);
            }
            tiles.push(t);
            lx = lx + 1;
        }
        assert(tiles@.len() == (ly + 1) * size) by (nonlinear_arith)
            requires
                tiles@.len() == ly * size + size,
        ;
        ly = ly + 1;
    }
    proof {
        assert(tiles@ =~= want.tiles);
    }
    ChunkData { position: chunk_pos, size: chunk_size, tiles }
}

/// Deterministic decomposition: cutting the same chunk out of the same grid
/// twice gives identical chunk data.
pub proof fn lemma_decompose_deterministic(
    g1: GridModel,
    g2: GridModel,
    pos: ChunkCoord,
    size: nat,
)
    requires
        g1 == g2,
    ensures
        decompose(g1, pos, size) == decompose(g2, pos, size),
{
}

/// The floor of `t / s` for a positive `s`.
fn floor_div(t: i32, s: u32) -> (r: i32)
    requires
        s >= 1,
    ensures
        r == t as int / s as int,
{
    if t >= 0 {
        let q = (t as u32) / s;
        proof {
            lemma_fundamental_div_mod(t as int, s as int);
            lemma_mod_bound(t as int, s as int);
            assert(q <= t) by (nonlinear_arith)
                requires
                    q == t as int / s as int,
                    s >= 1,
                    t >= 0,
            ;
        }
        q as i32
    } else {
        let m: u32 = (-(t as i64) - 1) as u32;
        let q: u32 = m / s;
        proof {
            let r = m as int % s as int;
            lemma_fundamental_div_mod(m as int, s as int);
            lemma_mod_bound(m as int, s as int);
            assert(q <= m) by (nonlinear_arith)
                requires
                    q == m as int / s as int,
                    s >= 1,
            ;
            assert(t as int == (-(q as int) - 1) * s + (s - r - 1)) by (nonlinear_arith)
                requires
                    t as int == -(m as int) - 1,
                    m as int == s * q + r,
            ;
            lemma_fundamental_div_mod_converse(t as int, s as int, -(q as int) - 1, s - r - 1);
        }
        (-(q as i64) - 1) as i32
    }
}

/// The chunk that holds world tile `(tile_x, tile_z)`.
pub fn chunk_at_tile(tile_x: i32, tile_z: i32, chunk_size: u32) -> (r: ChunkCoord)
    requires
        chunk_size >= 1,
    ensures
        r == chunk_of_tile(tile_x as int, tile_z as int, chunk_size as nat),
        r.x as int == tile_x as int / chunk_size as int,
        r.y as int == tile_z as int / chunk_size as int,
{
    ChunkCoord { x: floor_div(tile_x, chunk_size), y: floor_div(tile_z, chunk_size) }
}

} // verus!
