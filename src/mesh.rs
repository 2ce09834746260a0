use vstd::prelude::*;
use crate::chunk::{lemma_local_index_bound, lemma_square_bound, ChunkData, ChunkModel};
use crate::tile::{tile_color, Color, TileType};

verus! {

/// One vertex of a chunk mesh, in tile units relative to the chunk's origin.
#[derive(Clone, Copy, Debug, PartialEq, Eq, Structural)]
pub struct MeshVertex {
    pub x: u32,
    pub y: u32,
    pub z: u32,
    pub normal_x: i8,
    pub normal_y: i8,
    pub normal_z: i8,
    pub u: u8,
    pub v: u8,
    pub color: Color,
}

/// The single batched surface of one chunk: a quad per non-water tile, all in
/// one vertex buffer and one triangle index buffer.
pub struct ChunkMesh {
    /// World tile coordinates of the chunk's top-left corner.
    pub origin_x: i32,
    pub origin_z: i32,
    pub vertices: Vec<MeshVertex>,
    pub indices: Vec<u32>,
}

/// A vertex on the ground plane with an upward normal.
pub open spec fn ground_vertex(x: int, z: int, u: int, v: int, color: Color) -> MeshVertex {
    MeshVertex {
        x: x as u32,
        y: 0,
        z: z as u32,
        normal_x: 0,
        normal_y: 1,
        normal_z: 0,
        u: u as u8,
        v: v as u8,
        color,
    }
}

/// The four corners of the unit quad of local tile `(lx, lz)`.
pub open spec fn tile_quad(lx: int, lz: int, color: Color) -> Seq<MeshVertex> {
    seq![
        ground_vertex(lx, lz, 0, 0, color),
        ground_vertex(lx + 1, lz, 1, 0, color),
        ground_vertex(lx + 1, lz + 1, 1, 1, color),
        ground_vertex(lx, lz + 1, 0, 1, color),
    ]
}

/// The two triangles of the quad whose first vertex is `base`, wound so that
/// they face up.
pub open spec fn quad_indices(base: int) -> Seq<u32> {
    seq![
        base as u32,
        (base + 2) as u32,
        (base + 1) as u32,
        base as u32,
        (base + 3) as u32,
        (base + 2) as u32,
    ]
}

/// The vertices of the first `k` tiles of the chunk, in row-major order;
/// water tiles add nothing.
pub open spec fn mesh_vertices(chunk: ChunkModel, k: nat) -> Seq<MeshVertex>
    decreases k,
{
    if k == 0 {
        Seq::empty()
    } else {
        let prev = mesh_vertices(chunk, (k - 1) as nat);
        let i = k - 1;
        let t = chunk.tiles[i];
        if t == TileType::Water {
            prev
        } else {
            prev + tile_quad(i % (chunk.size as int), i / (chunk.size as int), tile_color(t))
        }
    }
}

/// The index buffer of `quads` quads laid one after another.
pub open spec fn mesh_indices(quads: nat) -> Seq<u32>
    decreases quads,
{
    if quads == 0 {
        Seq::empty()
    } else {
        mesh_indices((quads - 1) as nat) + quad_indices(4 * (quads - 1))
    }
}

/// How many of the first `k` tiles are not water.
pub open spec fn solid_count(tiles: Seq<TileType>, k: nat) -> nat
    decreases k,
{
    if k == 0 {
        0
    } else {
        solid_count(tiles, (k - 1) as nat) + if tiles[k - 1] == TileType::Water {
            0nat
        } else {
            1nat
        }
    }
}

/// Each non-water tile adds four vertices, so the first `k` tiles give at most `4 * k`.
pub proof fn lemma_mesh_vertex_count(chunk: ChunkModel, k: nat)
    ensures
        mesh_vertices(chunk, k).len() == 4 * solid_count(chunk.tiles, k),
        solid_count(chunk.tiles, k) <= k,
    decreases k,
{
    if k > 0 {
        lemma_mesh_vertex_count(chunk, (k - 1) as nat);
    }
}

/// Builds the mesh of a chunk: one up-facing unit quad per non-water tile,
/// colored by its tile type, all merged into one buffer.
pub fn build_chunk_mesh(chunk: &ChunkData) -> (r: ChunkMesh)
    requires
        chunk.wf(),
    ensures
        r.origin_x == chunk@.position.x * chunk@.size,
        r.origin_z == chunk@.position.y * chunk@.size,
        r.vertices@ == mesh_vertices(chunk@, chunk@.size * chunk@.size),
        r.vertices@.len() == 4 * solid_count(chunk@.tiles, chunk@.size * chunk@.size),
        r.indices@ == mesh_indices(solid_count(chunk@.tiles, chunk@.size * chunk@.size)),
{
    let size = chunk.size();
    let pos = chunk.position();
    let ghost model = chunk@;
    let ghost s = size as int;
    proof {
        lemma_square_bound(s);
    }
    let mut vertices: Vec<MeshVertex> = Vec::new();
    let mut indices: Vec<u32> = Vec::new();
    let mut vertex_count: u32 = 0;
    let mut ly: u32 = 0;
    while ly < size
        invariant
            chunk.wf(),
            model == chunk@,
            s == size,
            size == model.size,
            s * s <= 0x1000000,
            ly <= size,
            vertices@ == mesh_vertices(model, (ly * s) as nat),
            vertex_count == vertices@.len(),
            indices@ == mesh_indices(solid_count(model.tiles, (ly * s) as nat)),
        decreases size - ly,
    {
        let mut lx: u32 = 0;
        proof {
            assert(ly * s <= s * s) by (nonlinear_arith)
                requires
                    ly < s,
            ;
        }
        while lx < size
            invariant
                chunk.wf(),
                model == chunk@,
                s == size,
                size == model.size,
                s * s <= 0x1000000,
                ly < size,
                lx <= size,
                ly * s + lx <= s * s,
                vertices@ == mesh_vertices(model, (ly * s + lx) as nat),
                vertex_count == vertices@.len(),
                indices@ == mesh_indices(solid_count(model.tiles, (ly * s + lx) as nat)),
            decreases size - lx,
        {
            let ghost k = ly * s + lx;
            proof {
                lemma_local_index_bound(lx as int, ly as int, s);
                lemma_mesh_vertex_count(model, k as nat);
            }
            let t = chunk.tile(lx, ly);
            if t != TileType::Water {
                let color = t.get_color();
                let v = vertex_count;
                vertices.push(MeshVertex { x: lx, y: 0, z: ly, normal_x: 0, normal_y: 1, normal_z: 0, u: 0, v: 0, color });
                vertices.push(MeshVertex { x: lx + 1, y: 0, z: ly, normal_x: 0, normal_y: 1, normal_z: 0, u: 1, v: 0, color });
                vertices.push(MeshVertex { x: lx + 1, y: 0, z: ly + 1, normal_x: 0, normal_y: 1, normal_z: 0, u: 1, v: 1, color });
                vertices.push(MeshVertex { x: lx, y: 0, z: ly + 1, normal_x: 0, normal_y: 1, normal_z: 0, u: 0, v: 1, color });
                indices.push(v);
                indices.push(v + 2);
                indices.push(v + 1);
                indices.push(v);
                indices.push(v + 3);
                indices.push(v + 2);
                vertex_count = v + 4;
                proof {
                    assert(vertices@ =~= mesh_vertices(model, (k + 1) as nat));
                    assert(indices@ =~= mesh_indices(solid_count(model.tiles, (k + 1) as nat)));
                }
            } else {
                proof {
                    assert(vertices@ =~= mesh_vertices(model, (k + 1) as nat));
                }
            }
            lx = lx + 1;
            proof {
                assert(ly * s + lx <= s * s) by (nonlinear_arith)
                    requires
                        ly < s,
                        lx <= s,
                ;
            }
        }
        proof {
            assert(ly * s + s == (ly + 1) * s) by (nonlinear_arith);
        }
        ly = ly + 1;
    }
    proof {
        lemma_mesh_vertex_count(model, (s * s) as nat);
    }
    ChunkMesh {
        origin_x: (pos.x as i64 * size as i64) as i32,
        origin_z: (pos.y as i64 * size as i64) as i32,
        vertices,
        indices,
    }
}

impl ChunkMesh {
    /// Whether the chunk has no geometry: every tile is water.
    pub fn is_empty(&self) -> (r: bool)
        ensures
            r == (self.vertices@.len() == 0),
    {
        self.vertices.len() == 0
    }
}

} // verus!
