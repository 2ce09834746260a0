use vstd::prelude::*;
use crate::tile::{tile_rgb, TileType};

verus! {

/// The three color bytes of pixel `p`: its tile's color where there is a tile, black past the end.
pub open spec fn pixel_rgb(tiles: Seq<TileType>, p: int) -> Seq<u8> {
    if p < tiles.len() {
        tile_rgb(tiles[p])
    } else {
        seq![0u8, 0u8, 0u8]
    }
}

/// The RGB bytes of the first `n` pixels, one pixel per tile in order.
pub open spec fn rgb_bytes(tiles: Seq<TileType>, n: nat) -> Seq<u8>
    decreases n,
{
    if n == 0 {
        Seq::empty()
    } else {
        rgb_bytes(tiles, (n - 1) as nat) + pixel_rgb(tiles, n - 1)
    }
}

/// How many times `t` occurs in `s`.
pub open spec fn occurrences(s: Seq<TileType>, t: TileType) -> nat
    decreases s.len(),
{
    if s.len() == 0 {
        0
    } else {
        occurrences(s.drop_last(), t) + if s.last() == t {
            1nat
        } else {
            0nat
        }
    }
}

/// Every pixel takes three bytes.
pub proof fn lemma_rgb_bytes_len(tiles: Seq<TileType>, n: nat)
    ensures
        rgb_bytes(tiles, n).len() == 3 * n,
    decreases n,
{
    if n > 0 {
        lemma_rgb_bytes_len(tiles, (n - 1) as nat);
        assert(pixel_rgb(tiles, n - 1).len() == 3) by {
            if n - 1 < tiles.len() {
                assert(tile_rgb(tiles[n - 1]).len() == 3);
            }
        }
    }
}

/// The pixels of a `width` by `height` map image, row-major, three bytes
/// (red, green, blue) per pixel: pixel `i` shows tile `i`; pixels past the
/// last tile stay black and tiles past the last pixel are left out.
pub fn map_image_rgb(tiles: &[TileType], width: u32, height: u32) -> (r: Vec<u8>)
    requires
        3 * (width * height) <= usize::MAX,
    ensures
        r@ == rgb_bytes(tiles@, (width * height) as nat),
        r@.len() == 3 * (width * height),
{
    let n: usize = width as usize * height as usize;
    let mut out: Vec<u8> = Vec::with_capacity(3 * n);
    let mut p: usize = 0;
    while p < n
        invariant
            n == width * height,
            p <= n,
            out@ == rgb_bytes(tiles@, p as nat),
        decreases n - p,
    {
        let ghost before = out@;
        if p < tiles.len() {
            let rgb = tiles[p].to_rgb();
            out.push(rgb[0]);
            out.push(rgb[1]);
            out.push(rgb[2]);
        } else {
            out.push(0);
            out.push(0);
            out.push(0);
        }
        proof {
            assert(out@ =~= before + pixel_rgb(tiles@, p as int));
        }
        p = p + 1;
    }
    proof {
        lemma_rgb_bytes_len(tiles@, n as nat);
    }
    out
}

/// How many tiles of each type a map holds.
#[derive(Clone, Copy, Debug, PartialEq, Eq, Structural)]
pub struct TileCounts {
    pub grass: usize,
    pub water: usize,
    pub desert: usize,
    pub stone: usize,
    pub wood: usize,
    pub unknown: usize,
}

impl TileCounts {
    pub open spec fn count_of(self, t: TileType) -> usize {
        match t {
            TileType::Grass => self.grass,
            TileType::Water => self.water,
            TileType::Desert => self.desert,
            TileType::Stone => self.stone,
            TileType::Wood => self.wood,
            TileType::Unknown => self.unknown,
        }
    }

    /// The number of tiles of type `t`.
    pub fn count(&self, t: TileType) -> (r: usize)
        ensures
            r == self.count_of(t),
    {
        match t {
            TileType::Grass => self.grass,
            TileType::Water => self.water,
            TileType::Desert => self.desert,
            TileType::Stone => self.stone,
            TileType::Wood => self.wood,
            TileType::Unknown => self.unknown,
        }
    }
}

/// Counts the tiles of each type.
pub fn tile_statistics(tiles: &[TileType]) -> (r: TileCounts)
    ensures
        forall|t: TileType| r.count_of(t) == occurrences(tiles@, t),
{
    let mut counts = TileCounts { grass: 0, water: 0, desert: 0, stone: 0, wood: 0, unknown: 0 };
    let mut i: usize = 0;
    while i < tiles.len()
        invariant
            i <= tiles@.len(),
            forall|t: TileType| counts.count_of(t) == occurrences(tiles@.subrange(0, i as int), t),
            counts.grass <= i,
            counts.water <= i,
            counts.desert <= i,
            counts.stone <= i,
            counts.wood <= i,
            counts.unknown <= i,
        decreases tiles@.len() - i,
    {
        let ghost before = counts;
        match tiles[i] {
            TileType::Grass => counts.grass = counts.grass + 1,
            TileType::Water => counts.water = counts.water + 1,
            TileType::Desert => counts.desert = counts.desert + 1,
            TileType::Stone => counts.stone = counts.stone + 1,
            TileType::Wood => counts.wood = counts.wood + 1,
            TileType::Unknown => counts.unknown = counts.unknown + 1,
        }
        proof {
            let next = tiles@.subrange(0, i + 1);
            assert(next.drop_last() =~= tiles@.subrange(0, i as int));
            assert(next.last() == tiles@[i as int]);
            assert forall|t: TileType| counts.count_of(t) == occurrences(next, t) by {
                assert(before.count_of(t) == occurrences(tiles@.subrange(0, i as int), t));
            }
        }
        i = i + 1;
    }
    proof {
        assert(tiles@.subrange(0, tiles@.len() as int) =~= tiles@);
    }
    counts
}

} // verus!
