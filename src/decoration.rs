use vstd::prelude::*;
use std::collections::hash_map::DefaultHasher;
use std::hash::Hasher;
use vstd::std_specs::hash::DefaultHasherAdditionalSpecFns;
use crate::chunk::{lemma_local_index_bound, lemma_square_bound, ChunkData, ChunkModel};
use crate::tile::TileType;

verus! {

/// What is placed on a tile.
#[derive(Clone, Copy, Debug, PartialEq, Eq, Structural, Hash)]
pub enum DecorationKind {
    /// An enemy marker, on any tile but water.
    Enemy,
    /// A cactus, on desert.
    Cactus,
    /// A tree, on grass.
    Tree,
}

/// One placement: a kind on a tile, by its local offset in the chunk and its
/// world tile coordinates.
#[derive(Clone, Copy, Debug, PartialEq, Eq, Structural)]
pub struct Decoration {
    pub kind: DecorationKind,
    pub local_x: u32,
    pub local_z: u32,
    pub world_x: i32,
    pub world_z: i32,
}

/// The four little-endian bytes of `x`, as `Hasher::write_i32` feeds them
/// on a little-endian machine.
pub open spec fn i32_le_bytes(x: i32) -> Seq<u8> {
    let u = x as u32;
    seq![
        (u % 256) as u8,
        ((u / 256) % 256) as u8,
        ((u / 65536) % 256) as u8,
        (u / 16777216) as u8,
    ]
}

/// The hash of world tile `(x, z)`: a fresh `DefaultHasher` fed both coordinates.
pub open spec fn position_hash(x: i32, z: i32) -> u64 {
    DefaultHasher::spec_finish(seq![i32_le_bytes(x), i32_le_bytes(z)])
}

/// The decorations that one tile receives, given its hash: an enemy on
/// one non-water tile in 200, a cactus on one desert tile in 50, a tree on
/// one grass tile in 100; the bands are independent.
pub open spec fn tile_decorations(t: TileType, h: u64) -> Seq<DecorationKind> {
    let enemy = if t != TileType::Water && h % 200 == 0 {
        seq![DecorationKind::Enemy]
    } else {
        Seq::empty()
    };
    let biome = if t == TileType::Desert && h % 50 == 0 {
        seq![DecorationKind::Cactus]
    } else if t == TileType::Grass && h % 100 == 0 {
        seq![DecorationKind::Tree]
    } else {
        Seq::empty()
    };
    enemy + biome
}

/// The placements of the tile at local offset `(lx, lz)` of the chunk.
pub open spec fn placements_at(chunk: ChunkModel, lx: int, lz: int) -> Seq<Decoration> {
    let wx = (chunk.position.x * chunk.size + lx) as i32;
    let wz = (chunk.position.y * chunk.size + lz) as i32;
    tile_decorations(chunk.tile(lx, lz), position_hash(wx, wz)).map_values(
        |kind: DecorationKind|
            Decoration { kind, local_x: lx as u32, local_z: lz as u32, world_x: wx, world_z: wz },
    )
}

/// The placements of the first `k` tiles, visited column by column: tile `k`
/// is at local offset `(k / size, k % size)`.
pub open spec fn decorations_upto(chunk: ChunkModel, k: nat) -> Seq<Decoration>
    decreases k,
{
    if k == 0 {
        Seq::empty()
    } else {
        let i = k - 1;
        let s = chunk.size as int;
        decorations_upto(chunk, (k - 1) as nat) + placements_at(chunk, i / s, i % s)
    }
}

/// All placements of a chunk.
pub open spec fn chunk_decorations_of(chunk: ChunkModel) -> Seq<Decoration> {
    decorations_upto(chunk, chunk.size * chunk.size)
}

/// The hash of world tile `(x, z)`, a function of the two coordinates alone.
pub fn tile_hash(x: i32, z: i32) -> (r: u64)
    ensures
        r == position_hash(x, z),
{
    let mut hasher = DefaultHasher::new();
    let xb = i32_to_le_bytes(x);
    let zb = i32_to_le_bytes(z);
    hasher.write(xb.as_slice());
    hasher.write(zb.as_slice());
    proof {
        assert(hasher@ =~= seq![i32_le_bytes(x), i32_le_bytes(z)]);
    }
    hasher.finish()
}

fn i32_to_le_bytes(x: i32) -> (r: [u8; 4])
    ensures
        r@ == i32_le_bytes(x),
{
    let u = x as u32;
    let r = [(u % 256) as u8, ((u / 256) % 256) as u8, ((u / 65536) % 256) as u8, (u / 16777216) as u8];
    proof {
        assert(r@ =~= i32_le_bytes(x));
    }
    r
}

/// The decorations of the chunk, derived from its tiles and from a hash of
/// each tile's world coordinates only, so that a chunk rebuilt after being
/// evicted gets the same ones.
pub fn chunk_decorations(chunk: &ChunkData) -> (r: Vec<Decoration>)
    requires
        chunk.wf(),
    ensures
        r@ == chunk_decorations_of(chunk@),
{
    let size = chunk.size();
    let pos = chunk.position();
    let ghost model = chunk@;
    let ghost s = size as int;
    proof {
        lemma_square_bound(s);
    }
    let base_x: i64 = pos.x as i64 * size as i64;
    let base_z: i64 = pos.y as i64 * size as i64;
    let mut out: Vec<Decoration> = Vec::new();
    let mut i: u32 = 0;
    while i < size
        invariant
            chunk.wf(),
            model == chunk@,
            s == size,
            size == model.size,
            base_x == pos.x * s,
            base_z == pos.y * s,
            pos == model.position,
            i <= size,
            out@ == decorations_upto(model, (i * s) as nat),
        decreases size - i,
    {
        let mut j: u32 = 0;
        while j < size
            invariant
                chunk.wf(),
                model == chunk@,
                s == size,
                size == model.size,
                base_x == pos.x * s,
                base_z == pos.y * s,
                pos == model.position,
                i < size,
                j <= size,
                out@ == decorations_upto(model, (i * s + j) as nat),
            decreases size - j,
        {
            let ghost k = i * s + j;
            proof {
                lemma_local_index_bound(j as int, i as int, s);
            }
            let t = chunk.tile(i, j);
            let wx = (base_x + i as i64) as i32;
            let wz = (base_z + j as i64) as i32;
            let h = tile_hash(wx, wz);
            let ghost before = out@;
            if t != TileType::Water && h % 200 == 0 {
                out.push(Decoration { kind: DecorationKind::Enemy, local_x: i, local_z: j, world_x: wx, world_z: wz });
            }
            if t == TileType::Desert && h % 50 == 0 {
                out.push(Decoration { kind: DecorationKind::Cactus, local_x: i, local_z: j, world_x: wx, world_z: wz });
            } else if t == TileType::Grass && h % 100 == 0 {
                out.push(Decoration { kind: DecorationKind::Tree, local_x: i, local_z: j, world_x: wx, world_z: wz });
            }
            proof {
                assert(out@ =~= before + placements_at(model, i as int, j as int));
                assert(out@ =~= decorations_upto(model, (k + 1) as nat));
            }
            j = j + 1;
        }
        proof {
            assert(i * s + s == (i + 1) * s) by (nonlinear_arith);
        }
        i = i + 1;
    }
    out
}

/// Decoration is deterministic: the same chunk data always yields the same
/// ordered list of placements.
pub proof fn lemma_decorations_deterministic(a: ChunkModel, b: ChunkModel)
    requires
        a == b,
    ensures
        chunk_decorations_of(a) == chunk_decorations_of(b),
{
}

} // verus!
