//! The render-side cache: one mesh sequence per chunk column, columns flagged when they
//! leave the view rectangle and purged in a separate sweep.

use vstd::prelude::*;
use crate::pos::{ColumnPos, chunk_of, floor_div16};
use crate::tessellate::{Face, Mesh};

verus! {

/// Whether column `p` lies in the rectangle `[min, max]`, both ends included.
pub open spec fn in_extent(p: ColumnPos, min: ColumnPos, max: ColumnPos) -> bool {
    min.x <= p.x <= max.x && min.z <= p.z <= max.z
}

/// The rectangle of columns drawn around a viewer standing at block `(x, z)`: the
/// viewer's column and `render_distance` columns each way. Column coordinates are `i32`,
/// which bounds the distance.
pub fn view_extent(x: i32, z: i32, render_distance: u32) -> (r: (ColumnPos, ColumnPos))
    requires
        render_distance <= 0x4000_0000,
    ensures
        r.0 == (ColumnPos {
            x: (floor_div16(x as int) - render_distance) as i32,
            z: (floor_div16(z as int) - render_distance) as i32,
        }),
        r.1 == (ColumnPos {
            x: (floor_div16(x as int) + render_distance) as i32,
            z: (floor_div16(z as int) + render_distance) as i32,
        }),
{
    proof {
        crate::pos::lemma_chunk_brackets_block(x);
        crate::pos::lemma_chunk_brackets_block(z);
    }
    let cx = chunk_of(x);
    let cz = chunk_of(z);
    let d = render_distance as i32;
    (ColumnPos::new(cx - d, cz - d), ColumnPos::new(cx + d, cz + d))
}

/// What a cache entry holds: its column, the faces of each of its sections' meshes, and
/// whether it is flagged for removal.
pub ghost struct RenderModel {
    pub pos: ColumnPos,
    pub meshes: Seq<Seq<Face>>,
    pub marked: bool,
}

pub struct ChunkRender {
    pub pos: ColumnPos,
    pub meshes: Vec<Mesh>,
    pub marked: bool,
}

impl View for ChunkRender {
    type V = RenderModel;

    open spec fn view(&self) -> RenderModel {
        RenderModel {
            pos: self.pos,
            meshes: self.meshes@.map_values(|m: Mesh| m.faces@),
            marked: self.marked,
        }
    }
}

impl ChunkRender {
    pub fn in_range(&self, min: ColumnPos, max: ColumnPos) -> (r: bool)
        ensures
            r == in_extent(self.pos, min, max),
    {
        min.x <= self.pos.x && self.pos.x <= max.x && min.z <= self.pos.z && self.pos.z <= max.z
    }
}

/// The entries of `s` that are not flagged, in order.
pub open spec fn unmarked(s: Seq<RenderModel>) -> Seq<RenderModel>
    decreases s.len(),
{
    if s.len() == 0 {
        s
    } else {
        let prev = unmarked(s.drop_last());
        if s.last().marked {
            prev
        } else {
            prev.push(s.last())
        }
    }
}

/// An entry is kept by the sweep exactly when it is in the cache and not flagged.
pub proof fn lemma_unmarked_contains(s: Seq<RenderModel>, e: RenderModel)
    ensures
        unmarked(s).contains(e) <==> (s.contains(e) && !e.marked),
    decreases s.len(),
{
    if s.len() > 0 {
        let d = s.drop_last();
        let prev = unmarked(d);
        lemma_unmarked_contains(d, e);
        assert(s.contains(e) <==> (d.contains(e) || s.last() == e)) by {
            if s.contains(e) {
                let i = choose|i: int| 0 <= i < s.len() && s[i] == e;
                if i < s.len() - 1 {
                    assert(d[i] == e);
                }
            }
            if d.contains(e) {
                let i = choose|i: int| 0 <= i < d.len() && d[i] == e;
                assert(s[i] == e);
            }
            if s.last() == e {
                assert(s[s.len() - 1] == e);
            }
        }
        if !s.last().marked {
            let u = prev.push(s.last());
            assert(u.contains(e) <==> (prev.contains(e) || s.last() == e)) by {
                if u.contains(e) {
                    let i = choose|i: int| 0 <= i < u.len() && u[i] == e;
                    if i < prev.len() {
                        assert(prev[i] == e);
                    }
                }
                if prev.contains(e) {
                    let i = choose|i: int| 0 <= i < prev.len() && prev[i] == e;
                    assert(u[i] == e);
                }
                if s.last() == e {
                    assert(u[prev.len() as int] == e);
                }
            }
        }
    }
}

/// Dropping flagged entries keeps columns distinct.
proof fn lemma_unmarked_unique(s: Seq<RenderModel>)
    requires
        forall|i: int, j: int| 0 <= i < j < s.len() ==> s[i].pos != s[j].pos,
    ensures
        forall|i: int, j: int|
            0 <= i < j < unmarked(s).len() ==> unmarked(s)[i].pos != unmarked(s)[j].pos,
    decreases s.len(),
{
    if s.len() > 0 {
        let d = s.drop_last();
        lemma_unmarked_unique(d);
        let prev = unmarked(d);
        if !s.last().marked {
            assert forall|i: int| 0 <= i < prev.len() implies prev[i].pos != s.last().pos by {
                lemma_unmarked_contains(d, prev[i]);
                assert(prev.contains(prev[i]));
                let k = choose|k: int| 0 <= k < d.len() && d[k] == prev[i];
                assert(s[k] == prev[i]);
            }
            let u = prev.push(s.last());
            assert forall|i: int, j: int| 0 <= i < j < u.len() implies u[i].pos != u[j].pos by {
                if j == prev.len() {
                    assert(u[j] == s.last());
                    assert(u[i] == prev[i]);
                } else {
                    assert(u[i] == prev[i] && u[j] == prev[j]);
                }
            }
        }
    }
}

/// Mark then sweep: after a draw pass over `[min, max]` flags the cache `before` into
/// `marked`, and the sweep turns `marked` into `after`, a column keeps its entry exactly
/// when it had one and lies in the rectangle. Every entry inside the rectangle of the
/// latest pass is unflagged, so a column that re-entered range is never swept.
pub proof fn lemma_sweep_after_marking(
    before: Seq<RenderModel>,
    marked: Seq<RenderModel>,
    after: Seq<RenderModel>,
    min: ColumnPos,
    max: ColumnPos,
    p: ColumnPos,
)
    requires
        marked.len() == before.len(),
        forall|i: int|
            0 <= i < before.len() ==> #[trigger] marked[i] == (RenderModel {
                marked: !in_extent(before[i].pos, min, max),
                ..before[i]
            }),
        after == unmarked(marked),
    ensures
        (exists|i: int| 0 <= i < after.len() && after[i].pos == p) <==> ((exists|i: int|
            0 <= i < before.len() && before[i].pos == p) && in_extent(p, min, max)),
        forall|i: int| 0 <= i < marked.len() && in_extent(marked[i].pos, min, max) ==> !marked[i].marked,
{
    if exists|i: int| 0 <= i < after.len() && after[i].pos == p {
        let i = choose|i: int| 0 <= i < after.len() && after[i].pos == p;
        let e = after[i];
        assert(after.contains(e));
        lemma_unmarked_contains(marked, e);
        let k = choose|k: int| 0 <= k < marked.len() && marked[k] == e;
        assert(before[k].pos == p);
    }
    if (exists|i: int| 0 <= i < before.len() && before[i].pos == p) && in_extent(p, min, max) {
        let k = choose|k: int| 0 <= k < before.len() && before[k].pos == p;
        let e = marked[k];
        assert(marked.contains(e));
        lemma_unmarked_contains(marked, e);
        let i = choose|i: int| 0 <= i < after.len() && after[i] == e;
        assert(after[i].pos == p);
    }
}

pub struct WorldRenderer {
    chunks: Vec<ChunkRender>,
    chunk_height: u32,
}

impl WorldRenderer {
    /// The cache entries, in order.
    pub closed spec fn entries(&self) -> Seq<RenderModel> {
        self.chunks@.map_values(|c: ChunkRender| c@)
    }

    pub closed spec fn chunk_height_spec(&self) -> u32 {
        self.chunk_height
    }

    /// No column has two entries.
    pub open spec fn wf(&self) -> bool {
        forall|i: int, j: int|
            0 <= i < j < self.entries().len() ==> self.entries()[i].pos != self.entries()[j].pos
    }

    /// Whether column `p` has an entry.
    pub open spec fn has(&self, p: ColumnPos) -> bool {
        exists|i: int| 0 <= i < self.entries().len() && (#[trigger] self.entries()[i]).pos == p
    }

    pub fn new(chunk_height: u32) -> (r: WorldRenderer)
        ensures
            r.wf(),
            r.entries().len() == 0,
            r.chunk_height_spec() == chunk_height,
    {
        let r = WorldRenderer { chunks: Vec::new(), chunk_height };
        assert(r.entries() =~= Seq::<RenderModel>::empty());
        r
    }

    pub fn len(&self) -> (r: usize)
        ensures
            r == self.entries().len(),
    {
        self.chunks.len()
    }

    /// The entry of column `p`, if any.
    pub fn get_chunk(&self, p: ColumnPos) -> (r: Option<&ChunkRender>)
        requires
            self.wf(),
        ensures
            match r {
                Some(e) => self.has(p) && e.pos == p && exists|i: int|
                    0 <= i < self.entries().len() && self.entries()[i] == e@,
                None => !self.has(p),
            },
    {
        let mut i: usize = 0;
        while i < self.chunks.len()
            invariant
                i <= self.chunks@.len(),
                forall|j: int| 0 <= j < i ==> (#[trigger] self.entries()[j]).pos != p,
            decreases self.chunks@.len() - i,
        {
            assert(self.entries()[i as int] == self.chunks@[i as int]@);
            if self.chunks[i].pos == p {
                return Some(&self.chunks[i]);
            }
            i = i + 1;
        }
        None
    }

    /// Flags every entry outside `[min, max]` and clears the flag of every entry inside.
    pub fn mark_out_of_range(&mut self, min: ColumnPos, max: ColumnPos)
        requires
            old(self).wf(),
        ensures
            final(self).wf(),
            final(self).chunk_height_spec() == old(self).chunk_height_spec(),
            final(self).entries().len() == old(self).entries().len(),
            forall|i: int|
                0 <= i < old(self).entries().len() ==> #[trigger] final(self).entries()[i] == (
                RenderModel {
                    marked: !in_extent(old(self).entries()[i].pos, min, max),
                    ..old(self).entries()[i]
                }),
    {
        let mut i: usize = 0;
        while i < self.chunks.len()
            invariant
                i <= self.chunks@.len(),
                self.chunk_height_spec() == old(self).chunk_height_spec(),
                self.entries().len() == old(self).entries().len(),
                forall|j: int|
                    0 <= j < old(self).entries().len() ==> #[trigger] self.entries()[j] == if j < i {
                        RenderModel {
                            marked: !in_extent(old(self).entries()[j].pos, min, max),
                            ..old(self).entries()[j]
                        }
                    } else {
                        old(self).entries()[j]
                    },
            decreases self.chunks@.len() - i,
        {
            let ghost before = self.entries();
            let in_range = self.chunks[i].in_range(min, max);
            self.chunks[i].marked = !in_range;
            assert(self.entries() =~= before.update(
                i as int,
                RenderModel { marked: !in_range, ..before[i as int] },
            ));
            i = i + 1;
        }
    }

    /// Drops every flagged entry, keeping the others in order.
    pub fn remove_marked_chunks(&mut self)
        requires
            old(self).wf(),
        ensures
            final(self).wf(),
            final(self).chunk_height_spec() == old(self).chunk_height_spec(),
            final(self).entries() == unmarked(old(self).entries()),
    {
        let ghost all = self.entries();
        let mut remaining: Vec<ChunkRender> = Vec::new();
        std::mem::swap(&mut remaining, &mut self.chunks);
        let ghost n = all.len();
        assert(remaining@.map_values(|c: ChunkRender| c@) =~= all);
        assert(all.subrange(0, 0) =~= Seq::<RenderModel>::empty());
        while remaining.len() > 0
            invariant
                remaining@.len() <= n,
                n == all.len(),
                remaining@.map_values(|c: ChunkRender| c@) == all.subrange(
                    n - remaining@.len(),
                    n as int,
                ),
                self.entries() == unmarked(all.subrange(0, n - remaining@.len())),
                self.chunk_height_spec() == old(self).chunk_height_spec(),
            decreases remaining@.len(),
        {
            let ghost done = n - remaining@.len();
            let ghost rest = remaining@;
            let entry = remaining.remove(0);
            assert(entry@ == all[done]) by {
                assert(rest.map_values(|c: ChunkRender| c@)[0] == all[done]);
            }
            assert(remaining@.map_values(|c: ChunkRender| c@) =~= all.subrange(done + 1, n as int))
                by {
                assert forall|j: int| 0 <= j < remaining@.len() implies #[trigger] remaining@[j]@
                    == all[done + 1 + j] by {
                    assert(remaining@[j] == rest[j + 1]);
                    assert(rest.map_values(|c: ChunkRender| c@)[j + 1] == all[done + 1 + j]);
                }
            }
            assert(all.subrange(0, done + 1).drop_last() =~= all.subrange(0, done));
            let ghost before = self.entries();
            if !entry.marked {
                self.chunks.push(entry);
                assert(self.entries() =~= before.push(entry@));
            }
        }
        assert(all.subrange(0, n as int) =~= all);
        proof {
            lemma_unmarked_unique(all);
        }
    }

    /// Stores `meshes` as the entry of column `p`, replacing any entry it had, unflagged.
    pub fn construct_chunk(&mut self, meshes: Vec<Mesh>, p: ColumnPos)
        requires
            old(self).wf(),
        ensures
            final(self).wf(),
            final(self).chunk_height_spec() == old(self).chunk_height_spec(),
            final(self).has(p),
            forall|q: ColumnPos| q != p ==> (#[trigger] final(self).has(q) <==> old(self).has(q)),
            forall|i: int|
                0 <= i < final(self).entries().len() ==> {
                    let e = #[trigger] final(self).entries()[i];
                    if e.pos == p {
                        e == (RenderModel {
                            pos: p,
                            meshes: meshes@.map_values(|m: Mesh| m.faces@),
                            marked: false,
                        })
                    } else {
                        i < old(self).entries().len() && e == old(self).entries()[i]
                    }
                },
    {
        let ghost before = self.entries();
        let mut i: usize = 0;
        let mut found = false;
        while i < self.chunks.len() && !found
            invariant
                i <= self.chunks@.len(),
                self.entries() == before,
                found ==> i < self.chunks@.len() && before[i as int].pos == p,
                forall|j: int| 0 <= j < i ==> (#[trigger] before[j]).pos != p,
            decreases self.chunks@.len() - i + if found { 0int } else { 1int },
        {
            assert(before[i as int] == self.chunks@[i as int]@);
            if self.chunks[i].pos == p {
                found = true;
            } else {
                i = i + 1;
            }
        }
        let entry = ChunkRender { pos: p, meshes, marked: false };
        let ghost e = entry@;
        if found && i < self.chunks.len() {
            let ghost old_chunks = self.chunks@;
            self.chunks[i] = entry;
            assert(self.entries() =~= before.update(i as int, e)) by {
                assert forall|j: int| 0 <= j < before.len() implies #[trigger] self.entries()[j]
                    == before.update(i as int, e)[j] by {
                    if j != i {
                        assert(self.chunks@[j] == old_chunks[j]);
                    }
                }
            }
            assert(self.entries()[i as int].pos == p);
        } else {
            self.chunks.push(entry);
            assert(self.entries() =~= before.push(e));
            assert(self.entries()[before.len() as int].pos == p);
        }
        proof {
            assert forall|q: ColumnPos| q != p implies (#[trigger] self.has(q) <==> before_has(
                before,
                q,
            )) by {
                if before_has(before, q) {
                    let k = choose|k: int| 0 <= k < before.len() && before[k].pos == q;
                    assert(self.entries()[k].pos == q);
                }
                if self.has(q) {
                    let k = choose|k: int|
                        0 <= k < self.entries().len() && (#[trigger] self.entries()[k]).pos == q;
                    assert(before[k].pos == q);
                }
            }
        }
    }
}

spec fn before_has(s: Seq<RenderModel>, q: ColumnPos) -> bool {
    exists|k: int| 0 <= k < s.len() && s[k].pos == q
}

} // verus!
