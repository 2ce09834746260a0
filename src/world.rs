use vstd::prelude::*;
use crate::chunk::{
    chunk_fits_i32, decompose, generate_chunk_from_map, valid_chunk_size, ChunkCoord, ChunkData,
};
use crate::explored::ExploredChunks;
use crate::grid::{GridModel, TileGrid};
use crate::tile::TileType;

verus! {

/// Whether chunk `c` lies within Chebyshev distance `radius` of `viewer` and
/// inside the map's `max_x` by `max_z` chunks.
pub open spec fn in_window(c: ChunkCoord, viewer: ChunkCoord, radius: int, max_x: int, max_z: int) -> bool {
    &&& viewer.x - radius <= c.x <= viewer.x + radius
    &&& viewer.y - radius <= c.y <= viewer.y + radius
    &&& 0 <= c.x < max_x
    &&& 0 <= c.y < max_z
}

/// The square window of side `2 * radius + 1` around `viewer`, clipped to the map.
pub open spec fn window_set(viewer: ChunkCoord, radius: int, max_x: int, max_z: int) -> Set<ChunkCoord> {
    Set::new(|c: ChunkCoord| in_window(c, viewer, radius, max_x, max_z))
}

/// What the world holds: the tile grid, the streaming parameters, the set of
/// resident chunk coordinates and the set of explored ones.
pub struct WorldModel {
    pub grid: GridModel,
    pub chunk_size: nat,
    pub render_distance: nat,
    pub resident: Set<ChunkCoord>,
    pub explored: Set<ChunkCoord>,
}

impl WorldModel {
    /// Number of whole chunks across the map.
    pub open spec fn max_chunk_x(self) -> int {
        self.grid.width as int / self.chunk_size as int
    }

    /// Number of whole chunks down the map.
    pub open spec fn max_chunk_z(self) -> int {
        self.grid.height as int / self.chunk_size as int
    }

    pub open spec fn window(self, viewer: ChunkCoord) -> Set<ChunkCoord> {
        window_set(viewer, self.render_distance as int, self.max_chunk_x(), self.max_chunk_z())
    }
}

/// A chunk lies on the map: both coordinates within the map's whole chunks.
pub open spec fn on_map(grid: GridModel, size: nat, c: ChunkCoord) -> bool {
    0 <= c.x < grid.width as int / size as int && 0 <= c.y < grid.height as int / size as int
}

pub open spec fn chunk_positions(s: Seq<ChunkData>) -> Seq<ChunkCoord> {
    s.map_values(|c: ChunkData| c@.position)
}

/// Every chunk lies on the map and holds exactly the tiles the grid has there.
pub open spec fn chunks_ok(grid: GridModel, size: nat, s: Seq<ChunkData>) -> bool {
    forall|i: int|
        0 <= i < s.len() ==> {
            &&& on_map(grid, size, #[trigger] s[i]@.position)
            &&& s[i]@ == decompose(grid, s[i]@.position, size)
        }
}

/// What one window recompute changed: the coordinates that became resident
/// and those that were evicted.
pub struct ChunkUpdate {
    pub added: Vec<ChunkCoord>,
    pub removed: Vec<ChunkCoord>,
}

/// The streaming state of the world: the backing grid, the chunks resident
/// around the viewer, and the chunks explored so far.
pub struct WorldData {
    grid: TileGrid,
    chunk_size: u32,
    render_distance: u32,
    chunks: Vec<ChunkData>,
    explored_chunks: ExploredChunks,
}

impl View for WorldData {
    type V = WorldModel;

    closed spec fn view(&self) -> WorldModel {
        WorldModel {
            grid: self.grid@,
            chunk_size: self.chunk_size as nat,
            render_distance: self.render_distance as nat,
            resident: chunk_positions(self.chunks@).to_set(),
            explored: self.explored_chunks@,
        }
    }
}

/// A chunk on the map has all its world tile coordinates within `i32`.
pub proof fn lemma_on_map_fits(grid: GridModel, size: nat, c: ChunkCoord)
    requires
        grid.wf(),
        valid_chunk_size(size),
        on_map(grid, size, c),
    ensures
        chunk_fits_i32(c, size),
        decompose(grid, c, size).wf(),
{
    let s = size as int;
    let w = grid.width as int;
    let h = grid.height as int;
    assert((w / s) * s <= w) by (nonlinear_arith)
        requires
            s >= 1,
            w >= 0,
    {
        vstd::arithmetic::div_mod::lemma_fundamental_div_mod(w, s);
        vstd::arithmetic::div_mod::lemma_mod_bound(w, s);
    }
    assert((h / s) * s <= h) by (nonlinear_arith)
        requires
            s >= 1,
            h >= 0,
    {
        vstd::arithmetic::div_mod::lemma_fundamental_div_mod(h, s);
        vstd::arithmetic::div_mod::lemma_mod_bound(h, s);
    }
    assert(c.x * s + s <= (w / s) * s) by (nonlinear_arith)
        requires
            0 <= c.x,
            c.x + 1 <= w / s,
            s >= 1,
    ;
    assert(c.y * s + s <= (h / s) * s) by (nonlinear_arith)
        requires
            0 <= c.y,
            c.y + 1 <= h / s,
            s >= 1,
    ;
    assert(0 <= c.x * s && 0 <= c.y * s) by (nonlinear_arith)
        requires
            0 <= c.x,
            0 <= c.y,
            s >= 1,
    ;
}

/// Whether some chunk of `chunks` is at `c`.
fn holds_position(chunks: &Vec<ChunkData>, c: ChunkCoord) -> (r: bool)
    ensures
        r == chunk_positions(chunks@).contains(c),
{
    let mut i: usize = 0;
    while i < chunks.len()
        invariant
            i <= chunks@.len(),
            forall|k: int| 0 <= k < i ==> chunks@[k]@.position != c,
        decreases chunks@.len() - i,
    {
        if chunks[i].position() == c {
            proof {
                assert(chunk_positions(chunks@)[i as int] == c);
            }
            return true;
        }
        i = i + 1;
    }
    proof {
        if chunk_positions(chunks@).contains(c) {
            let k = choose|k: int| 0 <= k < chunk_positions(chunks@).len() && chunk_positions(chunks@)[k] == c;
            assert(chunks@[k]@.position == c);
        }
    }
    false
}

impl WorldData {
    pub closed spec fn wf(&self) -> bool {
        &&& self.grid.wf()
        &&& valid_chunk_size(self.chunk_size as nat)
        &&& chunks_ok(self.grid@, self.chunk_size as nat, self.chunks@)
        &&& chunk_positions(self.chunks@).no_duplicates()
        &&& self.explored_chunks.wf()
    }

    /// The resident chunk coordinates, one entry per resident chunk.
    pub closed spec fn resident_entries(&self) -> Seq<ChunkCoord> {
        chunk_positions(self.chunks@)
    }

    /// A world over `grid` with nothing resident and nothing explored yet.
    pub fn new(grid: TileGrid, chunk_size: u32, render_distance: u32) -> (r: WorldData)
        requires
            grid.wf(),
            valid_chunk_size(chunk_size as nat),
        ensures
            r.wf(),
            r@.grid == grid@,
            r@.chunk_size == chunk_size,
            r@.render_distance == render_distance,
            r@.resident == Set::<ChunkCoord>::empty(),
            r@.explored == Set::<ChunkCoord>::empty(),
    {
        let r = WorldData {
            grid,
            chunk_size,
            render_distance,
            chunks: Vec::new(),
            explored_chunks: ExploredChunks::new(),
        };
        proof {
            assert(chunk_positions(r.chunks@) =~= Seq::<ChunkCoord>::empty());
            assert(r@.resident =~= Set::<ChunkCoord>::empty());
        }
        r
    }

    pub fn grid(&self) -> (r: &TileGrid)
        ensures
            r@ == self@.grid,
    {
        &self.grid
    }

    pub fn chunk_size(&self) -> (r: u32)
        ensures
            r == self@.chunk_size,
    {
        self.chunk_size
    }

    pub fn render_distance(&self) -> (r: u32)
        ensures
            r == self@.render_distance,
    {
        self.render_distance
    }

    /// Whether the chunk at `c` is resident.
    pub fn is_resident(&self, c: ChunkCoord) -> (r: bool)
        ensures
            r == self@.resident.contains(c),
    {
        holds_position(&self.chunks, c)
    }

    /// The coordinates of the resident chunks, each once.
    pub fn resident_chunks(&self) -> (r: Vec<ChunkCoord>)
        requires
            self.wf(),
        ensures
            r@ == self.resident_entries(),
            r@.no_duplicates(),
            r@.to_set() == self@.resident,
    {
        let mut out: Vec<ChunkCoord> = Vec::new();
        let mut i: usize = 0;
        while i < self.chunks.len()
            invariant
                i <= self.chunks@.len(),
                out@ =~= chunk_positions(self.chunks@).subrange(0, i as int),
            decreases self.chunks@.len() - i,
        {
            out.push(self.chunks[i].position());
            i = i + 1;
        }
        proof {
            assert(out@ =~= chunk_positions(self.chunks@));
        }
        out
    }

    /// The resident chunk at `c`, if there is one.
    pub fn chunk(&self, c: ChunkCoord) -> (r: Option<&ChunkData>)
        requires
            self.wf(),
        ensures
            r.is_some() == self@.resident.contains(c),
            r matches Some(d) ==> d.wf() && d@ == decompose(self@.grid, c, self@.chunk_size),
    {
        let mut i: usize = 0;
        while i < self.chunks.len()
            invariant
                self.wf(),
                i <= self.chunks@.len(),
                forall|k: int| 0 <= k < i ==> self.chunks@[k]@.position != c,
            decreases self.chunks@.len() - i,
        {
            if self.chunks[i].position() == c {
                proof {
                    assert(chunk_positions(self.chunks@)[i as int] == c);
                    assert(on_map(self.grid@, self.chunk_size as nat, self.chunks@[i as int]@.position));
                    lemma_on_map_fits(self.grid@, self.chunk_size as nat, c);
                }
                return Some(&self.chunks[i]);
            }
            i = i + 1;
        }
        proof {
            if chunk_positions(self.chunks@).contains(c) {
                let k = choose|k: int|
                    0 <= k < chunk_positions(self.chunks@).len() && chunk_positions(self.chunks@)[k] == c;
                assert(self.chunks@[k]@.position == c);
            }
        }
        None
    }

    /// Whether the chunk at `c` has ever been visited.
    pub fn is_explored(&self, c: ChunkCoord) -> (r: bool)
        ensures
            r == self@.explored.contains(c),
    {
        self.explored_chunks.is_explored(c)
    }

    /// How many distinct chunks have been visited.
    pub fn explored_count(&self) -> (r: usize)
        requires
            self.wf(),
        ensures
            r == self@.explored.len(),
    {
        self.explored_chunks.len()
    }
}

/// No duplicate residency: every resident chunk coordinate stands for exactly
/// one live chunk, so the resident entries are distinct and as many as the
/// resident coordinates.
pub proof fn lemma_no_duplicate_residency(w: &WorldData)
    requires
        w.wf(),
    ensures
        w.resident_entries().no_duplicates(),
        w.resident_entries().to_set() == w@.resident,
        w.resident_entries().len() == w@.resident.len(),
{
    chunk_positions(w.chunks@).unique_seq_to_set();
}

/// The tile at world tile `(x, y)`: `Unknown` outside the map or past its data.
pub fn get_tile_at_position(world_data: &WorldData, x: i32, y: i32) -> (r: TileType)
    requires
        world_data.wf(),
    ensures
        r == world_data@.grid.tile_at(x as int, y as int),
{
    world_data.grid.get(x, y)
}

/// Marks the viewer's current chunk as explored.
pub fn update_explored_chunks(world_data: &mut WorldData, viewer_chunk: ChunkCoord)
    requires
        old(world_data).wf(),
    ensures
        final(world_data).wf(),
        final(world_data)@ == (WorldModel {
            explored: old(world_data)@.explored.insert(viewer_chunk),
            ..old(world_data)@
        }),
{
    world_data.explored_chunks.mark_visited(viewer_chunk);
}

/// Whether `c` comes before cell `(x, z)` in the order the window is filled:
/// column by column, and down each column.
pub open spec fn filled_before(c: ChunkCoord, x: int, z: int) -> bool {
    c.x < x || (c.x == x && c.y < z)
}

/// Recomputes the streaming window around the viewer's chunk: evicts every
/// resident chunk outside the window, then cuts out every chunk of the window
/// that is not yet resident. Chunks that stay resident are not rebuilt.
pub fn manage_world_chunks(world_data: &mut WorldData, viewer_chunk: ChunkCoord) -> (r: ChunkUpdate)
    requires
        old(world_data).wf(),
    ensures
        final(world_data).wf(),
        final(world_data)@.grid == old(world_data)@.grid,
        final(world_data)@.chunk_size == old(world_data)@.chunk_size,
        final(world_data)@.render_distance == old(world_data)@.render_distance,
        final(world_data)@.explored == old(world_data)@.explored,
        final(world_data)@.resident == old(world_data)@.window(viewer_chunk),
        r.added@.no_duplicates(),
        r.added@.to_set() == old(world_data)@.window(viewer_chunk).difference(old(world_data)@.resident),
        r.removed@.no_duplicates(),
        r.removed@.to_set() == old(world_data)@.resident.difference(old(world_data)@.window(viewer_chunk)),
{
    let ghost old_world = world_data@;
    let ghost win = old_world.window(viewer_chunk);
    let ghost resident0 = old_world.resident;
    let ghost g = world_data.grid@;
    let size = world_data.chunk_size;
    let ghost sz = size as nat;
    let radius = world_data.render_distance as i64;
    let max_x: i64 = (world_data.grid.width() / size) as i64;
    let max_z: i64 = (world_data.grid.height() / size) as i64;
    let lo_x: i64 = if viewer_chunk.x as i64 - radius > 0 { viewer_chunk.x as i64 - radius } else { 0 };
    let hi_x: i64 = if viewer_chunk.x as i64 + radius < max_x - 1 { viewer_chunk.x as i64 + radius } else { max_x - 1 };
    let lo_z: i64 = if viewer_chunk.y as i64 - radius > 0 { viewer_chunk.y as i64 - radius } else { 0 };
    let hi_z: i64 = if viewer_chunk.y as i64 + radius < max_z - 1 { viewer_chunk.y as i64 + radius } else { max_z - 1 };
    assert(forall|c: ChunkCoord| win.contains(c) <==> (lo_x <= c.x <= hi_x && lo_z <= c.y <= hi_z));

    // Eviction: move every chunk either to `kept` or, as a coordinate, to `removed`.
    let mut pending: Vec<ChunkData> = Vec::new();
    std::mem::swap(&mut pending, &mut world_data.chunks);
    let mut kept: Vec<ChunkData> = Vec::new();
    let mut removed: Vec<ChunkCoord> = Vec::new();
    proof {
        assert(chunk_positions(kept@).to_set() =~= Set::<ChunkCoord>::empty());
        assert(removed@.to_set() =~= Set::<ChunkCoord>::empty());
    }
    while pending.len() > 0
        invariant
            world_data.grid@ == g,
            g.wf(),
            sz == size,
            valid_chunk_size(sz),
            forall|c: ChunkCoord| win.contains(c) <==> (lo_x <= c.x <= hi_x && lo_z <= c.y <= hi_z),
            chunks_ok(g, sz, pending@),
            chunks_ok(g, sz, kept@),
            chunk_positions(pending@).no_duplicates(),
            chunk_positions(kept@).no_duplicates(),
            removed@.no_duplicates(),
            resident0 == chunk_positions(pending@).to_set() + chunk_positions(kept@).to_set() + removed@.to_set(),
            forall|c: ChunkCoord| #[trigger] chunk_positions(pending@).to_set().contains(c) ==> !chunk_positions(kept@).to_set().contains(c) && !removed@.to_set().contains(c),
            forall|c: ChunkCoord| chunk_positions(kept@).to_set().contains(c) ==> win.contains(c),
            forall|c: ChunkCoord| removed@.to_set().contains(c) ==> !win.contains(c),
        decreases pending@.len(),
    {
        let ghost before_pending = pending@;
        let ghost before_kept = kept@;
        let ghost before_removed = removed@;
        let chunk = pending.pop().unwrap();
        let pos = chunk.position();
        proof {
            assert(before_pending == pending@.push(chunk));
            assert(chunk_positions(before_pending) =~= chunk_positions(pending@).push(pos));
            chunk_positions(pending@).lemma_push_to_set_commute(pos);
            assert(!chunk_positions(pending@).contains(pos)) by {
                let n = pending@.len() as int;
                if chunk_positions(pending@).contains(pos) {
                    let k = choose|k: int| 0 <= k < n && chunk_positions(pending@)[k] == pos;
                    assert(chunk_positions(before_pending)[k] == chunk_positions(before_pending)[n]);
                }
            }
            assert(chunks_ok(g, sz, pending@)) by {
                assert forall|i: int| 0 <= i < pending@.len() implies on_map(g, sz, #[trigger] pending@[i]@.position)
                    && pending@[i]@ == decompose(g, pending@[i]@.position, sz) by {
                    assert(pending@[i] == before_pending[i]);
                }
            }
            assert(on_map(g, sz, before_pending[pending@.len() as int]@.position));
            assert(chunk_positions(pending@).no_duplicates()) by {
                assert forall|i: int, j: int|
                    0 <= i < pending@.len() && 0 <= j < pending@.len() && i != j implies
                    chunk_positions(pending@)[i] != chunk_positions(pending@)[j] by {
                    assert(chunk_positions(pending@)[i] == chunk_positions(before_pending)[i]);
                    assert(chunk_positions(pending@)[j] == chunk_positions(before_pending)[j]);
                }
            }
            assert(chunk_positions(before_pending).to_set().contains(pos));
            assert(!chunk_positions(before_kept).to_set().contains(pos));
            assert(!before_removed.to_set().contains(pos));
        }
        if lo_x <= pos.x as i64 && pos.x as i64 <= hi_x && lo_z <= pos.y as i64 && pos.y as i64 <= hi_z {
            kept.push(chunk);
            proof {
                assert(chunk_positions(kept@) =~= chunk_positions(before_kept).push(pos));
                assert(!chunk_positions(before_kept).contains(pos));
                chunk_positions(before_kept).lemma_push_to_set_commute(pos);
                assert(chunks_ok(g, sz, kept@)) by {
                    assert forall|i: int| 0 <= i < kept@.len() implies on_map(g, sz, #[trigger] kept@[i]@.position)
                        && kept@[i]@ == decompose(g, kept@[i]@.position, sz) by {
                        if i < before_kept.len() {
                            assert(kept@[i] == before_kept[i]);
                        }
                    }
                }
                assert(resident0 =~= chunk_positions(pending@).to_set() + chunk_positions(kept@).to_set() + removed@.to_set());
            }
        } else {
            removed.push(pos);
            proof {
                assert(!before_removed.contains(pos));
                before_removed.lemma_push_to_set_commute(pos);
                assert(resident0 =~= chunk_positions(pending@).to_set() + chunk_positions(kept@).to_set() + removed@.to_set());
            }
        }
        proof {
            assert forall|c: ChunkCoord| #[trigger] chunk_positions(pending@).to_set().contains(c) implies
                !chunk_positions(kept@).to_set().contains(c) && !removed@.to_set().contains(c) by {
                assert(chunk_positions(before_pending).to_set().contains(c));
                assert(c != pos);
            }
        }
    }
    proof {
        assert(chunk_positions(pending@) =~= Seq::<ChunkCoord>::empty());
        assert(chunk_positions(pending@).to_set() =~= Set::<ChunkCoord>::empty());
        assert(chunk_positions(kept@).to_set() =~= resident0.intersect(win));
        assert(removed@.to_set() =~= resident0.difference(win));
    }

    // Loading: walk the window column by column and cut out what is missing.
    let mut added: Vec<ChunkCoord> = Vec::new();
    let mut x: i64 = lo_x;
    proof {
        assert(added@.to_set() =~= Set::<ChunkCoord>::empty());
    }
    while x <= hi_x
        invariant
            world_data.grid@ == g,
            world_data.grid.wf(),
            g.wf(),
            sz == size,
            valid_chunk_size(sz),
            max_x == g.width as int / sz as int,
            max_z == g.height as int / sz as int,
            0 <= lo_x,
            0 <= lo_z,
            hi_x < max_x,
            hi_z < max_z,
            lo_x <= x,
            x <= hi_x + 1 || x == lo_x,
            forall|c: ChunkCoord| win.contains(c) <==> (lo_x <= c.x <= hi_x && lo_z <= c.y <= hi_z),
            chunks_ok(g, sz, kept@),
            chunk_positions(kept@).no_duplicates(),
            added@.no_duplicates(),
            forall|c: ChunkCoord| chunk_positions(kept@).to_set().contains(c) <==>
                win.contains(c) && (resident0.contains(c) || filled_before(c, x as int, lo_z as int)),
            forall|c: ChunkCoord| added@.to_set().contains(c) <==>
                win.contains(c) && !resident0.contains(c) && filled_before(c, x as int, lo_z as int),
        decreases hi_x + 1 - x,
    {
        let mut z: i64 = lo_z;
        while z <= hi_z
            invariant
                world_data.grid@ == g,
                world_data.grid.wf(),
                g.wf(),
                sz == size,
                valid_chunk_size(sz),
                max_x == g.width as int / sz as int,
                max_z == g.height as int / sz as int,
                0 <= lo_x,
                0 <= lo_z,
                hi_x < max_x,
                hi_z < max_z,
                lo_x <= x <= hi_x,
                lo_z <= z,
                z <= hi_z + 1 || z == lo_z,
                forall|c: ChunkCoord| win.contains(c) <==> (lo_x <= c.x <= hi_x && lo_z <= c.y <= hi_z),
                chunks_ok(g, sz, kept@),
                chunk_positions(kept@).no_duplicates(),
                added@.no_duplicates(),
                forall|c: ChunkCoord| chunk_positions(kept@).to_set().contains(c) <==>
                    win.contains(c) && (resident0.contains(c) || filled_before(c, x as int, z as int)),
                forall|c: ChunkCoord| added@.to_set().contains(c) <==>
                    win.contains(c) && !resident0.contains(c) && filled_before(c, x as int, z as int),
            decreases hi_z + 1 - z,
        {
            let c = ChunkCoord { x: x as i32, y: z as i32 };
            let ghost before_kept = kept@;
            let ghost before_added = added@;
            assert(win.contains(c));
            if !holds_position(&kept, c) {
                proof {
                    lemma_on_map_fits(g, sz, c);
                }
                let chunk = generate_chunk_from_map(&world_data.grid, c, size);
                kept.push(chunk);
                added.push(c);
                proof {
                    assert(chunk_positions(kept@) =~= chunk_positions(before_kept).push(c));
                    chunk_positions(before_kept).lemma_push_to_set_commute(c);
                    before_added.lemma_push_to_set_commute(c);
                    assert(chunks_ok(g, sz, kept@)) by {
                        assert forall|i: int| 0 <= i < kept@.len() implies on_map(g, sz, #[trigger] kept@[i]@.position)
                            && kept@[i]@ == decompose(g, kept@[i]@.position, sz) by {
                            if i < before_kept.len() {
                                assert(kept@[i] == before_kept[i]);
                            }
                        }
                    }
                }
            }
            z = z + 1;
        }
        x = x + 1;
    }
    world_data.chunks = kept;
    proof {
        assert(world_data@.resident =~= win);
        assert(added@.to_set() =~= win.difference(resident0));
        assert(world_data@.explored == old_world.explored);
    }
    ChunkUpdate { added, removed }
}

/// Whether chunk borders are drawn over new chunks.
pub struct ChunkBorderVisible(pub bool);

/// Flips border drawing when the toggle key was pressed this tick.
pub fn toggle_chunk_borders(chunk_border_visible: &mut ChunkBorderVisible, toggle_pressed: bool)
    ensures
        final(chunk_border_visible).0 == (old(chunk_border_visible).0 != toggle_pressed),
{
    if toggle_pressed {
        chunk_border_visible.0 = !chunk_border_visible.0;
    }
}

} // verus!
