//! Worlds: the client's world, which keeps dimensions and the render cache in step, and a
//! plain world that ingests chunk updates.

use vstd::prelude::*;
use crate::decode::{MapChunkUpdate, applied, decode_chunk_update, inflated};
use crate::pos::{BlockPos, ChunkCoordinate, ColumnPos};
use crate::registry::BlockRegister;
use crate::render::{RenderModel, WorldRenderer, in_extent, unmarked};
use crate::storage::ChunkStorage;
use crate::tessellate::{Face, Mesh, mesh_faces, tessellate_section};

verus! {

/// The faces of every section of column `p`, by vertical index.
pub open spec fn column_meshes(storage: ChunkStorage, blocks: BlockRegister, p: ColumnPos) -> Seq<
    Seq<Face>,
> {
    Seq::new(
        storage.height_spec(),
        |s: int| mesh_faces(storage, blocks, ChunkCoordinate { x: p.x, y: s as i32, z: p.z }),
    )
}

/// Tessellating a column twice with no write in between gives the same meshes: the
/// first pass changes only dirty flags (see `tesselate_chunk`), which meshes ignore.
pub proof fn lemma_retessellation_identical(
    before: ChunkStorage,
    after: ChunkStorage,
    blocks: BlockRegister,
    p: ColumnPos,
)
    requires
        before.wf(),
        after.wf(),
        after.coords() == before.coords(),
        after.height_spec() == before.height_spec(),
        after.sections().len() == before.sections().len(),
        forall|k: int|
            0 <= k < before.sections().len() ==> (#[trigger] after.sections()[k]).cells
                == before.sections()[k].cells,
    ensures
        column_meshes(after, blocks, p) == column_meshes(before, blocks, p),
{
    assert forall|s: int| 0 <= s < before.height_spec() implies #[trigger] column_meshes(
        after,
        blocks,
        p,
    )[s] == column_meshes(before, blocks, p)[s] by {
        crate::tessellate::lemma_mesh_ignores_dirty(
            after,
            before,
            blocks,
            ChunkCoordinate { x: p.x, y: s as i32, z: p.z },
        );
    }
    assert(column_meshes(after, blocks, p) =~= column_meshes(before, blocks, p));
}

/// Whether `p` is among the first `n` queued columns and holds data in `dim`.
pub open spec fn rebuilt(q: Seq<ColumnPos>, n: int, dim: ChunkStorage, p: ColumnPos) -> bool {
    &&& exists|j: int| 0 <= j < n && q[j] == p
    &&& dim.column_present(p.x, p.z)
}

/// Whether `q[from..]` holds `p`.
pub open spec fn queued(q: Seq<ColumnPos>, from: int, p: ColumnPos) -> bool {
    exists|i: int| from <= i < q.len() && q[i] == p
}

pub struct ClientWorld {
    dimensions: Vec<ChunkStorage>,
    player_level_id: usize,
    world_render: WorldRenderer,
    chunk_height: u32,
}

impl ClientWorld {
    pub closed spec fn dims(&self) -> Seq<ChunkStorage> {
        self.dimensions@
    }

    pub closed spec fn player(&self) -> int {
        self.player_level_id as int
    }

    pub closed spec fn render(&self) -> WorldRenderer {
        self.world_render
    }

    /// The number of vertical sections per column the world was made with.
    pub closed spec fn chunk_height_spec(&self) -> u32 {
        self.chunk_height
    }

    pub open spec fn wf(&self) -> bool {
        &&& self.render().wf()
        &&& forall|i: int| 0 <= i < self.dims().len() ==> (#[trigger] self.dims()[i]).wf()
    }

    /// Whether the player's dimension exists.
    pub open spec fn has_player_dimension(&self) -> bool {
        0 <= self.player() < self.dims().len()
    }

    pub open spec fn player_dimension(&self) -> ChunkStorage {
        self.dims()[self.player()]
    }

    /// Whether column `p` has data but no up-to-date mesh: it has no cache entry, or one
    /// of its sections changed since its mesh was built.
    pub open spec fn needs_tessellation(&self, p: ColumnPos) -> bool {
        &&& self.player_dimension().column_present(p.x, p.z)
        &&& (!self.render().has(p) || self.player_dimension().column_dirty(p.x, p.z))
    }

    pub fn new(chunk_height: u32) -> (r: ClientWorld)
        ensures
            r.wf(),
            r.dims().len() == 0,
            r.player() == 0,
            r.render().entries().len() == 0,
            r.render().chunk_height_spec() == chunk_height,
            r.chunk_height_spec() == chunk_height,
    {
        ClientWorld {
            dimensions: Vec::new(),
            player_level_id: 0,
            world_render: WorldRenderer::new(chunk_height),
            chunk_height,
        }
    }

    pub fn get_dimension(&self, id: usize) -> (r: Option<&ChunkStorage>)
        ensures
            match r {
                Some(d) => id < self.dims().len() && *d == self.dims()[id as int],
                None => id >= self.dims().len(),
            },
    {
        if id < self.dimensions.len() {
            Some(&self.dimensions[id])
        } else {
            None
        }
    }

    pub fn get_player_level_id(&self) -> (r: usize)
        ensures
            r == self.player(),
    {
        self.player_level_id
    }

    pub fn get_player_dimension(&self) -> (r: Option<&ChunkStorage>)
        ensures
            match r {
                Some(d) => self.has_player_dimension() && *d == self.player_dimension(),
                None => !self.has_player_dimension(),
            },
    {
        self.get_dimension(self.player_level_id)
    }

    pub fn add_dimension(&mut self, dim: ChunkStorage)
        requires
            old(self).wf(),
            dim.wf(),
        ensures
            final(self).wf(),
            final(self).dims() == old(self).dims().push(dim),
            final(self).chunk_height_spec() == old(self).chunk_height_spec(),
            final(self).player() == old(self).player(),
            final(self).render() == old(self).render(),
    {
        let ghost before = self.dims();
        self.dimensions.push(dim);
        assert forall|i: int| 0 <= i < self.dims().len() implies (#[trigger] self.dims()[i]).wf() by {
            if i < before.len() {
                assert(self.dims()[i] == before[i]);
            }
        }
    }

    pub fn world_renderer(&self) -> (r: &WorldRenderer)
        ensures
            *r == self.render(),
    {
        &self.world_render
    }

    /// Queues column `(x, z)` for tessellation when it needs it.
    pub fn draw_chunk(&self, x: i32, z: i32, queue: &mut std::collections::VecDeque<ColumnPos>)
        requires
            self.wf(),
            self.has_player_dimension(),
        ensures
            final(queue)@ == if self.needs_tessellation(ColumnPos { x, z }) {
                old(queue)@.push(ColumnPos { x, z })
            } else {
                old(queue)@
            },
    {
        let p = ColumnPos::new(x, z);
        let dim = &self.dimensions[self.player_level_id];
        let (present, dirty) = dim.column_state(x, z);
        if present {
            let cached = match self.world_render.get_chunk(p) {
                Some(_) => true,
                None => false,
            };
            if !cached || dirty {
                queue.push_back(p);
            }
        }
    }

    /// The draw pass: flags every cached column outside `[min, max]` (and unflags those
    /// inside), then queues each column of the rectangle that needs tessellation.
    pub fn draw_chunks(&mut self, min: ColumnPos, max: ColumnPos, queue: &mut std::collections::VecDeque<ColumnPos>)
        requires
            old(self).wf(),
            old(self).has_player_dimension(),
        ensures
            final(self).wf(),
            final(self).dims() == old(self).dims(),
            final(self).player() == old(self).player(),
            final(self).chunk_height_spec() == old(self).chunk_height_spec(),
            final(self).render().entries().len() == old(self).render().entries().len(),
            forall|i: int|
                0 <= i < old(self).render().entries().len() ==> #[trigger] final(self).render().entries()[i] == (RenderModel {
                    marked: !in_extent(old(self).render().entries()[i].pos, min, max),
                    ..old(self).render().entries()[i]
                }),
            final(queue)@.len() >= old(queue)@.len(),
            final(queue)@.subrange(0, old(queue)@.len() as int) == old(queue)@,
            forall|i: int|
                old(queue)@.len() <= i < final(queue)@.len() ==> in_extent(
                    #[trigger] final(queue)@[i],
                    min,
                    max,
                ) && final(self).needs_tessellation(final(queue)@[i]),
            forall|p: ColumnPos|
                in_extent(p, min, max) && #[trigger] final(self).needs_tessellation(p) ==> queued(
                    final(queue)@,
                    old(queue)@.len() as int,
                    p,
                ),
    {
        self.world_render.mark_out_of_range(min, max);
        proof {
            assert forall|p: ColumnPos| #[trigger] self.render().has(p) <==> old(self).render().has(p) by {
                if old(self).render().has(p) {
                    let k = choose|k: int|
                        0 <= k < old(self).render().entries().len() && (#[trigger] old(self).render().entries()[k]).pos == p;
                    assert(self.render().entries()[k].pos == p);
                }
                if self.render().has(p) {
                    let k = choose|k: int|
                        0 <= k < self.render().entries().len() && (#[trigger] self.render().entries()[k]).pos == p;
                    assert(old(self).render().entries()[k].pos == p);
                }
            }
        }
        let ghost q0 = queue@;
        let mut x: i64 = min.x as i64;
        while x <= max.x as i64
            invariant
                self.wf(),
                self.has_player_dimension(),
                min.x <= x <= max.x + 1 || (x == min.x && max.x < min.x),
                queue@.len() >= q0.len(),
                queue@.subrange(0, q0.len() as int) == q0,
                forall|i: int|
                    q0.len() <= i < queue@.len() ==> in_extent(#[trigger] queue@[i], min, max)
                        && self.needs_tessellation(queue@[i]),
                forall|p: ColumnPos|
                    in_extent(p, min, max) && p.x < x && #[trigger] self.needs_tessellation(p)
                        ==> queued(queue@, q0.len() as int, p),
            decreases max.x as i64 + 1 - x,
        {
            let mut z: i64 = min.z as i64;
            while z <= max.z as i64
                invariant
                    self.wf(),
                    self.has_player_dimension(),
                    min.x <= x <= max.x,
                    min.z <= z <= max.z + 1 || (z == min.z && max.z < min.z),
                    queue@.len() >= q0.len(),
                    queue@.subrange(0, q0.len() as int) == q0,
                    forall|i: int|
                        q0.len() <= i < queue@.len() ==> in_extent(#[trigger] queue@[i], min, max)
                            && self.needs_tessellation(queue@[i]),
                    forall|p: ColumnPos|
                        in_extent(p, min, max) && (p.x < x || (p.x == x && p.z < z))
                            && #[trigger] self.needs_tessellation(p) ==> queued(
                            queue@,
                            q0.len() as int,
                            p,
                        ),
                decreases max.z as i64 + 1 - z,
            {
                let ghost before = queue@;
                self.draw_chunk(x as i32, z as i32, queue);
                proof {
                    let cur = ColumnPos { x: x as i32, z: z as i32 };
                    assert(queue@.subrange(0, q0.len() as int) =~= q0) by {
                        assert(before.subrange(0, q0.len() as int) == q0);
                    }
                    assert forall|p: ColumnPos|
                        in_extent(p, min, max) && (p.x < x || (p.x == x && p.z < z + 1))
                            && #[trigger] self.needs_tessellation(p) implies queued(
                            queue@,
                            q0.len() as int,
                            p,
                        ) by {
                        if p == cur {
                            assert(queue@[before.len() as int] == p);
                        } else {
                            let i = choose|i: int| q0.len() <= i < before.len() && before[i] == p;
                            assert(queue@[i] == p);
                        }
                    }
                }
                z = z + 1;
            }
            x = x + 1;
        }
    }

    /// Rebuilds the meshes of column `p` from the player's dimension, one per vertical
    /// section, stores them in the cache and clears the column's dirty flags. Without a
    /// player dimension, or for a column with no data, nothing changes.
    pub fn tesselate_chunk(&mut self, p: ColumnPos, blocks: &BlockRegister)
        requires
            old(self).wf(),
        ensures
            final(self).wf(),
            final(self).player() == old(self).player(),
            final(self).dims().len() == old(self).dims().len(),
            final(self).chunk_height_spec() == old(self).chunk_height_spec(),
            !old(self).has_player_dimension() || !old(self).player_dimension().column_present(
                p.x,
                p.z,
            ) ==> *final(self) == *old(self),
            old(self).has_player_dimension() && old(self).player_dimension().column_present(
                p.x,
                p.z,
            ) ==> {
                let before = old(self).player_dimension();
                let after = final(self).player_dimension();
                &&& final(self).render().has(p)
                &&& forall|q: ColumnPos|
                    q != p ==> (#[trigger] final(self).render().has(q) <==> old(self).render().has(
                        q,
                    ))
                &&& forall|i: int|
                    0 <= i < final(self).render().entries().len() ==> {
                        let e = #[trigger] final(self).render().entries()[i];
                        if e.pos == p {
                            e == (RenderModel {
                                pos: p,
                                meshes: column_meshes(before, *blocks, p),
                                marked: false,
                            })
                        } else {
                            i < old(self).render().entries().len() && e == old(self).render().entries()[i]
                        }
                    }
                &&& after.coords() == before.coords()
                &&& after.height_spec() == before.height_spec()
                &&& after.sections().len() == before.sections().len()
                &&& forall|k: int|
                    0 <= k < before.sections().len() ==> (#[trigger] after.sections()[k]).cells
                        == before.sections()[k].cells && after.sections()[k].dirty == (
                    before.sections()[k].dirty && !(before.coords()[k].x == p.x
                        && before.coords()[k].z == p.z))
                &&& forall|d: int|
                    0 <= d < old(self).dims().len() && d != old(self).player() ==> #[trigger] final(self).dims()[d] == old(self).dims()[d]
            },
    {
        if self.player_level_id >= self.dimensions.len() {
            return;
        }
        let id = self.player_level_id;
        let dim = &self.dimensions[id];
        let (present, _) = dim.column_state(p.x, p.z);
        if !present {
            return;
        }
        let height = dim.get_height();
        let mut meshes: Vec<Mesh> = Vec::new();
        let mut s: usize = 0;
        while s < height
            invariant
                dim.wf(),
                height == dim.height_spec(),
                height <= i32::MAX,
                s <= height,
                meshes@.len() == s,
                forall|j: int|
                    0 <= j < s ==> (#[trigger] meshes@[j]).faces@ == mesh_faces(
                        *dim,
                        *blocks,
                        ChunkCoordinate { x: p.x, y: j as i32, z: p.z },
                    ),
            decreases height - s,
        {
            let mesh = tessellate_section(dim, blocks, ChunkCoordinate::new(p.x, s as i32, p.z));
            meshes.push(mesh);
            s = s + 1;
        }
        let ghost before = *dim;
        assert(meshes@.map_values(|m: Mesh| m.faces@) =~= column_meshes(before, *blocks, p));
        let ghost old_dims = self.dimensions@;
        self.dimensions[id].clean_column(p.x, p.z);
        assert(self.dims() == old_dims.update(id as int, self.dims()[id as int]));
        self.world_render.construct_chunk(meshes, p);
    }

    /// Drains `queue`, rebuilding each queued column in turn: every queued column with
    /// data in the player's dimension gets fresh meshes and its dirty flags cleared;
    /// nothing else changes. Without a player dimension only the queue changes.
    pub fn tesselate_chunks(&mut self, queue: &mut std::collections::VecDeque<ColumnPos>, blocks: &BlockRegister)
        requires
            old(self).wf(),
        ensures
            final(queue)@.len() == 0,
            final(self).wf(),
            final(self).player() == old(self).player(),
            final(self).dims().len() == old(self).dims().len(),
            final(self).chunk_height_spec() == old(self).chunk_height_spec(),
            !old(self).has_player_dimension() ==> *final(self) == *old(self),
            old(self).has_player_dimension() ==> {
                let q = old(queue)@;
                let before = old(self).player_dimension();
                let after = final(self).player_dimension();
                &&& forall|c: ColumnPos|
                    #[trigger] rebuilt(q, q.len() as int, before, c) ==> final(self).render().has(c)
                &&& forall|c: ColumnPos|
                    !rebuilt(q, q.len() as int, before, c) ==> (#[trigger] final(self).render().has(c)
                        <==> old(self).render().has(c))
                &&& forall|i: int|
                    0 <= i < final(self).render().entries().len() ==> {
                        let e = #[trigger] final(self).render().entries()[i];
                        if rebuilt(q, q.len() as int, before, e.pos) {
                            e == (RenderModel {
                                pos: e.pos,
                                meshes: column_meshes(before, *blocks, e.pos),
                                marked: false,
                            })
                        } else {
                            i < old(self).render().entries().len() && e == old(self).render().entries()[i]
                        }
                    }
                &&& after.coords() == before.coords()
                &&& after.height_spec() == before.height_spec()
                &&& after.sections().len() == before.sections().len()
                &&& forall|k: int|
                    0 <= k < before.sections().len() ==> (#[trigger] after.sections()[k]).cells
                        == before.sections()[k].cells && after.sections()[k].dirty == (
                    before.sections()[k].dirty && !queued(
                        q,
                        0,
                        ColumnPos { x: before.coords()[k].x, z: before.coords()[k].z },
                    ))
                &&& forall|d: int|
                    0 <= d < old(self).dims().len() && d != old(self).player() ==> #[trigger] final(self).dims()[d] == old(self).dims()[d]
            },
    {
        let ghost q = queue@;
        let ghost start = *self;
        let ghost d0 = start.player_dimension();
        let mut i: usize = 0;
        while i < queue.len()
            invariant
                queue@ == q,
                i <= q.len(),
                start.wf(),
                start == *old(self),
                q == old(queue)@,
                d0 == start.player_dimension(),
                self.wf(),
                self.player() == start.player(),
                self.dims().len() == start.dims().len(),
                self.chunk_height_spec() == start.chunk_height_spec(),
                !start.has_player_dimension() ==> *self == start,
                start.has_player_dimension() ==> {
                    let after = self.player_dimension();
                    &&& forall|c: ColumnPos|
                        #[trigger] rebuilt(q, i as int, d0, c) ==> self.render().has(c)
                    &&& forall|c: ColumnPos|
                        !rebuilt(q, i as int, d0, c) ==> (#[trigger] self.render().has(c)
                            <==> start.render().has(c))
                    &&& forall|j: int|
                        0 <= j < self.render().entries().len() ==> {
                            let e = #[trigger] self.render().entries()[j];
                            if rebuilt(q, i as int, d0, e.pos) {
                                e == (RenderModel {
                                    pos: e.pos,
                                    meshes: column_meshes(d0, *blocks, e.pos),
                                    marked: false,
                                })
                            } else {
                                j < start.render().entries().len() && e == start.render().entries()[j]
                            }
                        }
                    &&& after.coords() == d0.coords()
                    &&& after.height_spec() == d0.height_spec()
                    &&& after.sections().len() == d0.sections().len()
                    &&& forall|k: int|
                        0 <= k < d0.sections().len() ==> (#[trigger] after.sections()[k]).cells
                            == d0.sections()[k].cells && after.sections()[k].dirty == (
                        d0.sections()[k].dirty && !(exists|j: int|
                            0 <= j < i && q[j] == ColumnPos {
                                x: d0.coords()[k].x,
                                z: d0.coords()[k].z,
                            }))
                    &&& forall|d: int|
                        0 <= d < start.dims().len() && d != start.player() ==> #[trigger] self.dims()[d]
                            == start.dims()[d]
                },
            decreases q.len() - i,
        {
            let p = queue[i];
            let ghost before = *self;
            self.tesselate_chunk(p, blocks);
            proof {
                if start.has_player_dimension() {
                    let bd = before.player_dimension();
                    let ad = self.player_dimension();
                    let present = d0.column_present(p.x, p.z);
                    assert(bd.column_present(p.x, p.z) == present);
                    assert forall|c: ColumnPos|
                        #[trigger] rebuilt(q, i + 1, d0, c) <==> (rebuilt(q, i as int, d0, c) || (c == p
                            && present)) by {
                        if rebuilt(q, i + 1, d0, c) {
                            let j = choose|j: int| 0 <= j < i + 1 && q[j] == c;
                            if j < i {
                                assert(rebuilt(q, i as int, d0, c));
                            }
                        }
                        if rebuilt(q, i as int, d0, c) {
                            let j = choose|j: int| 0 <= j < i && q[j] == c;
                            assert(0 <= j < i + 1 && q[j] == c);
                        }
                        if c == p && present {
                            assert(q[i as int] == c);
                        }
                    }
                    if present {
                        assert(start.dims()[start.player()].wf());
                        assert(self.dims()[self.player()].wf());
                        lemma_retessellation_identical(d0, bd, *blocks, p);
                    }
                    assert forall|k: int| 0 <= k < d0.sections().len() implies (#[trigger] ad.sections()[k]).cells
                        == d0.sections()[k].cells && ad.sections()[k].dirty == (
                        d0.sections()[k].dirty && !(exists|j: int|
                            0 <= j < i + 1 && q[j] == ColumnPos {
                                x: d0.coords()[k].x,
                                z: d0.coords()[k].z,
                            })) by {
                        let col = ColumnPos { x: d0.coords()[k].x, z: d0.coords()[k].z };
                        assert(bd.sections()[k].cells == d0.sections()[k].cells);
                        if col == p {
                            assert(d0.coords()[k].x == p.x && d0.coords()[k].z == p.z);
                            assert(present);
                            assert(q[i as int] == col);
                        } else {
                            if exists|j: int| 0 <= j < i + 1 && q[j] == col {
                                let j = choose|j: int| 0 <= j < i + 1 && q[j] == col;
                                assert(j < i);
                            }
                        }
                    }
                }
            }
            i = i + 1;
        }
        queue.clear();
        proof {
            if start.has_player_dimension() {
                let ad = self.player_dimension();
                assert forall|k: int| 0 <= k < d0.sections().len() implies (#[trigger] ad.sections()[k]).dirty
                    == (d0.sections()[k].dirty && !queued(
                        q,
                        0,
                        ColumnPos { x: d0.coords()[k].x, z: d0.coords()[k].z },
                    )) by {
                    assert(ad.sections()[k].cells == d0.sections()[k].cells);
                }
            }
        }
    }

    /// The sweep: drops every flagged column from the cache.
    pub fn process_chunks(&mut self)
        requires
            old(self).wf(),
        ensures
            final(self).wf(),
            final(self).dims() == old(self).dims(),
            final(self).player() == old(self).player(),
            final(self).chunk_height_spec() == old(self).chunk_height_spec(),
            final(self).render().entries() == unmarked(old(self).render().entries()),
    {
        self.world_render.remove_marked_chunks();
        assert(self.dims() == old(self).dims());
        assert forall|i: int| 0 <= i < self.dims().len() implies (#[trigger] self.dims()[i]).wf() by {
            assert(old(self).dims()[i].wf());
        }
    }
}

/// A world that keeps its metadata and one chunk storage, and ingests chunk updates.
pub struct TestWorld {
    time: u64,
    spawn_position: BlockPos,
    dimension_id: i8,
    seed: i64,
    has_weather: bool,
    pub chunk_storage: ChunkStorage,
}

impl TestWorld {
    /// The number of vertical sections: that of the world's storage.
    pub open spec fn height_spec(&self) -> nat {
        self.storage().height_spec()
    }

    /// The world's chunk storage.
    pub closed spec fn storage(&self) -> ChunkStorage {
        self.chunk_storage
    }

    pub closed spec fn time_spec(&self) -> u64 {
        self.time
    }

    pub closed spec fn spawn_spec(&self) -> BlockPos {
        self.spawn_position
    }

    pub closed spec fn dimension_id_spec(&self) -> i8 {
        self.dimension_id
    }

    pub closed spec fn seed_spec(&self) -> i64 {
        self.seed
    }

    pub closed spec fn weather_spec(&self) -> bool {
        self.has_weather
    }

    /// A world `height` sections tall, at time zero, spawning at the origin.
    pub fn new(height: usize) -> (r: TestWorld)
        requires
            height <= i32::MAX,
        ensures
            r.storage().wf(),
            r.storage().height_spec() == height,
            r.storage().coords().len() == 0,
            r.height_spec() == height,
            r.time_spec() == 0,
            r.spawn_spec() == (BlockPos { x: 0, y: 0, z: 0 }),
            r.dimension_id_spec() == 0,
            r.seed_spec() == 0,
            !r.weather_spec(),
    {
        TestWorld {
            time: 0,
            spawn_position: BlockPos::new(0, 0, 0),
            dimension_id: 0,
            seed: 0,
            has_weather: false,
            chunk_storage: ChunkStorage::new(height),
        }
    }

    pub fn set_time(&mut self, time: u64)
        ensures
            final(self).time_spec() == time,
            final(self).height_spec() == old(self).height_spec(),
            final(self).spawn_spec() == old(self).spawn_spec(),
            final(self).dimension_id_spec() == old(self).dimension_id_spec(),
            final(self).seed_spec() == old(self).seed_spec(),
            final(self).weather_spec() == old(self).weather_spec(),
            final(self).storage() == old(self).storage(),
    {
        self.time = time;
    }

    pub fn set_spawn_point(&mut self, spawn_position: BlockPos)
        ensures
            final(self).spawn_spec() == spawn_position,
            final(self).height_spec() == old(self).height_spec(),
            final(self).time_spec() == old(self).time_spec(),
            final(self).dimension_id_spec() == old(self).dimension_id_spec(),
            final(self).seed_spec() == old(self).seed_spec(),
            final(self).weather_spec() == old(self).weather_spec(),
            final(self).storage() == old(self).storage(),
    {
        self.spawn_position = spawn_position;
    }

    pub fn set_dimension_id(&mut self, id: i8)
        ensures
            final(self).dimension_id_spec() == id,
            final(self).height_spec() == old(self).height_spec(),
            final(self).time_spec() == old(self).time_spec(),
            final(self).spawn_spec() == old(self).spawn_spec(),
            final(self).seed_spec() == old(self).seed_spec(),
            final(self).weather_spec() == old(self).weather_spec(),
            final(self).storage() == old(self).storage(),
    {
        self.dimension_id = id;
    }

    pub fn set_seed(&mut self, seed: i64)
        ensures
            final(self).seed_spec() == seed,
            final(self).height_spec() == old(self).height_spec(),
            final(self).time_spec() == old(self).time_spec(),
            final(self).spawn_spec() == old(self).spawn_spec(),
            final(self).dimension_id_spec() == old(self).dimension_id_spec(),
            final(self).weather_spec() == old(self).weather_spec(),
            final(self).storage() == old(self).storage(),
    {
        self.seed = seed;
    }

    pub fn set_weather(&mut self, has_weather: bool)
        ensures
            final(self).weather_spec() == has_weather,
            final(self).height_spec() == old(self).height_spec(),
            final(self).time_spec() == old(self).time_spec(),
            final(self).spawn_spec() == old(self).spawn_spec(),
            final(self).dimension_id_spec() == old(self).dimension_id_spec(),
            final(self).seed_spec() == old(self).seed_spec(),
            final(self).storage() == old(self).storage(),
    {
        self.has_weather = has_weather;
    }

    pub fn get_time(&self) -> (r: u64)
        ensures
            r == self.time_spec(),
    {
        self.time
    }

    pub fn get_spawn_point(&self) -> (r: BlockPos)
        ensures
            r == self.spawn_spec(),
    {
        self.spawn_position
    }

    pub fn get_dimension_id(&self) -> (r: i8)
        ensures
            r == self.dimension_id_spec(),
    {
        self.dimension_id
    }

    pub fn get_seed(&self) -> (r: i64)
        ensures
            r == self.seed_spec(),
    {
        self.seed
    }

    pub fn get_weather(&self) -> (r: bool)
        ensures
            r == self.weather_spec(),
    {
        self.has_weather
    }

    pub fn get_height(&self) -> (r: usize)
        ensures
            r == self.height_spec(),
    {
        self.chunk_storage.get_height()
    }

    /// A world tick: this world has no time-driven state of its own, so nothing changes.
    pub fn tick(&mut self)
        ensures
            *final(self) == *old(self),
    {
    }

    /// Applies a chunk-update message: a region at block `(block_x, block_y, block_z)` of
    /// `size + 1` blocks along each axis, its block ids in the zlib stream `compressed`.
    pub fn handle_map_chunk(
        &mut self,
        block_x: i32,
        block_y: i32,
        block_z: i32,
        size_x: u8,
        size_y: u8,
        size_z: u8,
        compressed: Vec<u8>,
    )
        requires
            old(self).storage().wf(),
        ensures
            applied(
                MapChunkUpdate { block_x, block_y, block_z, size_x, size_y, size_z },
                inflated(
                    MapChunkUpdate { block_x, block_y, block_z, size_x, size_y, size_z },
                    compressed@,
                ),
                old(self).storage(),
                final(self).storage(),
            ),
            final(self).height_spec() == old(self).height_spec(),
            final(self).time_spec() == old(self).time_spec(),
            final(self).spawn_spec() == old(self).spawn_spec(),
            final(self).dimension_id_spec() == old(self).dimension_id_spec(),
            final(self).seed_spec() == old(self).seed_spec(),
            final(self).weather_spec() == old(self).weather_spec(),
    {
        let u = MapChunkUpdate { block_x, block_y, block_z, size_x, size_y, size_z };
        decode_chunk_update(&mut self.chunk_storage, u, &compressed);
    }
}

} // verus!
