//! Face-culled meshing of one section: a face of a filled cell is emitted unless the
//! cell next to it, in this section or the adjacent one, is an opaque block.

use vstd::prelude::*;
use crate::pos::ChunkCoordinate;
use crate::registry::BlockRegister;
use crate::section::{ChunkSection, SectionModel, in_section};
use crate::storage::ChunkStorage;

verus! {

/// Number of face slots in a section: six per cell.
pub const FACE_SLOTS: usize = 24576;

#[derive(Clone, Copy, Debug, PartialEq, Eq, Structural)]
pub enum Direction {
    North,
    South,
    East,
    West,
    Up,
    Down,
}

/// The direction of face slot `d` of a cell.
pub open spec fn direction_of(d: int) -> Direction {
    if d == 0 {
        Direction::North
    } else if d == 1 {
        Direction::South
    } else if d == 2 {
        Direction::East
    } else if d == 3 {
        Direction::West
    } else if d == 4 {
        Direction::Up
    } else {
        Direction::Down
    }
}

impl Direction {
    /// The unit step `(dx, dy, dz)` toward the neighbour across this face.
    pub open spec fn offset(self) -> (int, int, int) {
        match self {
            Direction::North => (0, 0, -1),
            Direction::South => (0, 0, 1),
            Direction::East => (1, 0, 0),
            Direction::West => (-1, 0, 0),
            Direction::Up => (0, 1, 0),
            Direction::Down => (0, -1, 0),
        }
    }
}

/// One visible face of a cell, in section-local coordinates.
#[derive(Clone, Copy, Debug, PartialEq, Eq, Structural)]
pub struct Face {
    pub x: u32,
    pub y: u32,
    pub z: u32,
    pub direction: Direction,
    pub block: u64,
}

/// The faces of one section at one point in time.
pub struct Mesh {
    pub coord: ChunkCoordinate,
    pub faces: Vec<Face>,
}

/// The section stored at integer chunk coordinates `(x, y, z)`, if any.
pub open spec fn stored_section(storage: ChunkStorage, x: int, y: int, z: int) -> Option<
    SectionModel,
> {
    if i32::MIN <= x <= i32::MAX && i32::MIN <= y <= i32::MAX && i32::MIN <= z <= i32::MAX
        && storage.contains(ChunkCoordinate { x: x as i32, y: y as i32, z: z as i32 }) {
        Some(storage.section_at(ChunkCoordinate { x: x as i32, y: y as i32, z: z as i32 }))
    } else {
        None
    }
}

/// Wraps a local coordinate that stepped one past either edge into the adjacent section.
pub open spec fn wrap16(v: int) -> int {
    if v < 0 {
        v + 16
    } else if v >= 16 {
        v - 16
    } else {
        v
    }
}

/// The block next to cell `(x, y, z)` of the section `s` at `c`, across face `dir`:
/// `None` when it lies in an adjacent section that is not stored.
pub open spec fn neighbor_block(
    storage: ChunkStorage,
    c: ChunkCoordinate,
    s: SectionModel,
    x: int,
    y: int,
    z: int,
    dir: Direction,
) -> Option<u64> {
    let (dx, dy, dz) = dir.offset();
    let (nx, ny, nz) = (x + dx, y + dy, z + dz);
    if in_section(nx, ny, nz) {
        Some(s.get(nx, ny, nz))
    } else {
        match stored_section(storage, c.x + dx, c.y + dy, c.z + dz) {
            Some(n) => Some(n.get(wrap16(nx), wrap16(ny), wrap16(nz))),
            None => None,
        }
    }
}

/// Whether face `dir` of cell `(x, y, z)` shows: the cell is filled (non-zero) and the
/// block across the face is absent or not opaque.
pub open spec fn face_visible(
    storage: ChunkStorage,
    blocks: BlockRegister,
    c: ChunkCoordinate,
    s: SectionModel,
    x: int,
    y: int,
    z: int,
    dir: Direction,
) -> bool {
    &&& s.get(x, y, z) != 0
    &&& match neighbor_block(storage, c, s, x, y, z, dir) {
        Some(b) => !blocks.opaque(b),
        None => true,
    }
}

/// The cell of face slot `j`: slots run over cells in storage order, six per cell.
pub open spec fn slot_cell(j: int) -> (int, int, int) {
    let p = j / 6;
    (p / 256, p % 16, (p / 16) % 16)
}

pub open spec fn slot_visible(
    storage: ChunkStorage,
    blocks: BlockRegister,
    c: ChunkCoordinate,
    s: SectionModel,
    j: int,
) -> bool {
    let (x, y, z) = slot_cell(j);
    face_visible(storage, blocks, c, s, x, y, z, direction_of(j % 6))
}

pub open spec fn slot_face(s: SectionModel, j: int) -> Face {
    let (x, y, z) = slot_cell(j);
    Face {
        x: x as u32,
        y: y as u32,
        z: z as u32,
        direction: direction_of(j % 6),
        block: s.get(x, y, z),
    }
}

/// The visible faces among the first `k` slots, in slot order.
pub open spec fn faces_upto(
    storage: ChunkStorage,
    blocks: BlockRegister,
    c: ChunkCoordinate,
    s: SectionModel,
    k: nat,
) -> Seq<Face>
    decreases k,
{
    if k == 0 {
        Seq::empty()
    } else {
        let prev = faces_upto(storage, blocks, c, s, (k - 1) as nat);
        if slot_visible(storage, blocks, c, s, k - 1) {
            prev.push(slot_face(s, k - 1))
        } else {
            prev
        }
    }
}

/// The faces of the section at `c`: none when no section is stored there.
pub open spec fn mesh_faces(storage: ChunkStorage, blocks: BlockRegister, c: ChunkCoordinate) -> Seq<
    Face,
> {
    if storage.contains(c) {
        faces_upto(storage, blocks, c, storage.section_at(c), FACE_SLOTS as nat)
    } else {
        Seq::empty()
    }
}

/// Every face among the first `k` slots is the face of a visible slot before `k`.
proof fn lemma_faces_upto_members(
    storage: ChunkStorage,
    blocks: BlockRegister,
    c: ChunkCoordinate,
    s: SectionModel,
    k: nat,
)
    ensures
        forall|i: int|
            0 <= i < faces_upto(storage, blocks, c, s, k).len() ==> exists|j: int|
                0 <= j < k && slot_visible(storage, blocks, c, s, j) && #[trigger] faces_upto(
                    storage,
                    blocks,
                    c,
                    s,
                    k,
                )[i] == slot_face(s, j),
    decreases k,
{
    if k > 0 {
        lemma_faces_upto_members(storage, blocks, c, s, (k - 1) as nat);
        let prev = faces_upto(storage, blocks, c, s, (k - 1) as nat);
        let cur = faces_upto(storage, blocks, c, s, k);
        assert forall|i: int| 0 <= i < cur.len() implies exists|j: int|
            0 <= j < k && slot_visible(storage, blocks, c, s, j) && #[trigger] cur[i] == slot_face(
                s,
                j,
            ) by {
            if i < prev.len() {
                assert(cur[i] == prev[i]);
                let j = choose|j: int|
                    0 <= j < k - 1 && slot_visible(storage, blocks, c, s, j) && #[trigger] prev[i]
                        == slot_face(s, j);
            } else {
                assert(cur[i] == slot_face(s, k - 1));
            }
        }
    }
}

/// The face of every visible slot before `k` is among the first `k` slots' faces.
proof fn lemma_faces_upto_contains(
    storage: ChunkStorage,
    blocks: BlockRegister,
    c: ChunkCoordinate,
    s: SectionModel,
    k: nat,
    j: int,
)
    requires
        0 <= j < k,
        slot_visible(storage, blocks, c, s, j),
    ensures
        faces_upto(storage, blocks, c, s, k).contains(slot_face(s, j)),
    decreases k,
{
    let cur = faces_upto(storage, blocks, c, s, k);
    if j == k - 1 {
        assert(cur[cur.len() - 1] == slot_face(s, j));
    } else {
        lemma_faces_upto_contains(storage, blocks, c, s, (k - 1) as nat, j);
        let prev = faces_upto(storage, blocks, c, s, (k - 1) as nat);
        let i = choose|i: int| 0 <= i < prev.len() && prev[i] == slot_face(s, j);
        assert(cur[i] == slot_face(s, j));
    }
}

/// A section filled with one opaque block has no interior faces: each face it shows
/// lies on the section's boundary, facing a block that is absent or not opaque. When
/// the section above is absent, its top layer shows, so the mesh is not empty.
pub proof fn lemma_uniform_opaque_section(
    storage: ChunkStorage,
    blocks: BlockRegister,
    c: ChunkCoordinate,
    b: u64,
)
    requires
        storage.wf(),
        storage.contains(c),
        b != 0,
        blocks.opaque(b),
        forall|x: int, y: int, z: int|
            in_section(x, y, z) ==> #[trigger] storage.section_at(c).get(x, y, z) == b,
    ensures
        forall|i: int|
            0 <= i < mesh_faces(storage, blocks, c).len() ==> {
                let f = #[trigger] mesh_faces(storage, blocks, c)[i];
                let (dx, dy, dz) = f.direction.offset();
                &&& f.block == b
                &&& !in_section(f.x + dx, f.y + dy, f.z + dz)
                &&& match stored_section(storage, c.x + dx, c.y + dy, c.z + dz) {
                    Some(n) => !blocks.opaque(
                        n.get(wrap16(f.x + dx), wrap16(f.y + dy), wrap16(f.z + dz)),
                    ),
                    None => true,
                }
            },
        stored_section(storage, c.x as int, c.y + 1, c.z as int) is None ==> mesh_faces(
            storage,
            blocks,
            c,
        ).contains(Face { x: 0, y: 15, z: 0, direction: Direction::Up, block: b }),
{
    let s = storage.section_at(c);
    lemma_faces_upto_members(storage, blocks, c, s, FACE_SLOTS as nat);
    let faces = mesh_faces(storage, blocks, c);
    assert forall|i: int| 0 <= i < faces.len() implies {
        let f = #[trigger] faces[i];
        let (dx, dy, dz) = f.direction.offset();
        &&& f.block == b
        &&& !in_section(f.x + dx, f.y + dy, f.z + dz)
        &&& match stored_section(storage, c.x + dx, c.y + dy, c.z + dz) {
            Some(n) => !blocks.opaque(n.get(wrap16(f.x + dx), wrap16(f.y + dy), wrap16(f.z + dz))),
            None => true,
        }
    } by {
        let j = choose|j: int|
            0 <= j < FACE_SLOTS && slot_visible(storage, blocks, c, s, j) && #[trigger] faces[i]
                == slot_face(s, j);
        let (x, y, z) = slot_cell(j);
        assert(in_section(x, y, z));
        assert(faces[i].x == x && faces[i].y == y && faces[i].z == z);
    }
    if stored_section(storage, c.x as int, c.y + 1, c.z as int) is None {
        assert(slot_cell(94) == (0int, 15int, 0int));
        assert(slot_visible(storage, blocks, c, s, 94));
        lemma_faces_upto_contains(storage, blocks, c, s, FACE_SLOTS as nat, 94);
    }
}

/// Meshes depend on the stored cells alone: two storages with the same sections at the
/// same places and the same cells give the same faces, whatever their dirty flags.
pub proof fn lemma_mesh_ignores_dirty(
    s1: ChunkStorage,
    s2: ChunkStorage,
    blocks: BlockRegister,
    c: ChunkCoordinate,
)
    requires
        s1.wf(),
        s2.wf(),
        s1.coords() == s2.coords(),
        s1.sections().len() == s2.sections().len(),
        forall|k: int| 0 <= k < s1.sections().len() ==> (#[trigger] s1.sections()[k]).cells == s2.sections()[k].cells,
    ensures
        mesh_faces(s1, blocks, c) == mesh_faces(s2, blocks, c),
{
    if s1.contains(c) {
        assert(s2.contains(c));
        assert(s1.index_of(c) == s2.index_of(c));
        let idx = s1.index_of(c);
        assert(0 <= idx < s1.coords().len());
        assert(s1.sections()[idx].cells == s2.sections()[idx].cells);
        lemma_faces_upto_same_cells(s1, s2, blocks, c, s1.section_at(c), s2.section_at(c), FACE_SLOTS as nat);
    }
}

proof fn lemma_faces_upto_same_cells(
    s1: ChunkStorage,
    s2: ChunkStorage,
    blocks: BlockRegister,
    c: ChunkCoordinate,
    a: SectionModel,
    b: SectionModel,
    k: nat,
)
    requires
        s1.wf(),
        s2.wf(),
        s1.coords() == s2.coords(),
        s1.sections().len() == s2.sections().len(),
        forall|k: int| 0 <= k < s1.sections().len() ==> (#[trigger] s1.sections()[k]).cells == s2.sections()[k].cells,
        a.cells == b.cells,
    ensures
        faces_upto(s1, blocks, c, a, k) == faces_upto(s2, blocks, c, b, k),
    decreases k,
{
    if k > 0 {
        lemma_faces_upto_same_cells(s1, s2, blocks, c, a, b, (k - 1) as nat);
        let j = k - 1;
        let (x, y, z) = slot_cell(j);
        let dir = direction_of(j % 6);
        let (dx, dy, dz) = dir.offset();
        let (cx, cy, cz) = (c.x + dx, c.y + dy, c.z + dz);
        if i32::MIN <= cx <= i32::MAX && i32::MIN <= cy <= i32::MAX && i32::MIN <= cz <= i32::MAX {
            let n = ChunkCoordinate { x: cx as i32, y: cy as i32, z: cz as i32 };
            if s1.contains(n) {
                assert(s2.contains(n));
                assert(s1.index_of(n) == s2.index_of(n));
                let idx = s1.index_of(n);
                assert(0 <= idx < s1.coords().len());
                assert(s1.sections()[idx].cells == s2.sections()[idx].cells);
            } else {
                assert(!s2.contains(n));
            }
        }
        assert(slot_visible(s1, blocks, c, a, j) == slot_visible(s2, blocks, c, b, j));
        assert(slot_face(a, j) == slot_face(b, j));
    }
}

fn direction_at(d: usize) -> (r: Direction)
    requires
        d < 6,
    ensures
        r == direction_of(d as int),
{
    if d == 0 {
        Direction::North
    } else if d == 1 {
        Direction::South
    } else if d == 2 {
        Direction::East
    } else if d == 3 {
        Direction::West
    } else if d == 4 {
        Direction::Up
    } else {
        Direction::Down
    }
}

/// The stored section at chunk coordinates `c` stepped by `(dx, dy, dz)`.
fn section_beside<'a>(
    storage: &'a ChunkStorage,
    c: ChunkCoordinate,
    dx: i64,
    dy: i64,
    dz: i64,
) -> (r: Option<&'a ChunkSection>)
    requires
        storage.wf(),
        -1 <= dx <= 1,
        -1 <= dy <= 1,
        -1 <= dz <= 1,
    ensures
        match r {
            Some(n) => n.wf() && stored_section(
                *storage,
                c.x + dx,
                c.y + dy,
                c.z + dz,
            ) == Some(n@),
            None => stored_section(*storage, c.x + dx, c.y + dy, c.z + dz) is None,
        },
{
    let x = c.x as i64 + dx;
    let y = c.y as i64 + dy;
    let z = c.z as i64 + dz;
    if x < i32::MIN as i64 || x > i32::MAX as i64 || y < i32::MIN as i64 || y > i32::MAX as i64
        || z < i32::MIN as i64 || z > i32::MAX as i64 {
        return None;
    }
    storage.get_chunk(ChunkCoordinate::new(x as i32, y as i32, z as i32))
}

/// Whether face `dir` of cell `(x, y, z)` of `section`, stored at `c`, shows.
fn is_face_visible(
    storage: &ChunkStorage,
    blocks: &BlockRegister,
    c: ChunkCoordinate,
    section: &ChunkSection,
    x: u32,
    y: u32,
    z: u32,
    dir: Direction,
) -> (r: bool)
    requires
        storage.wf(),
        section.wf(),
        in_section(x as int, y as int, z as int),
    ensures
        r == face_visible(*storage, *blocks, c, section@, x as int, y as int, z as int, dir),
{
    if section.get_pos(x, y, z) == 0 {
        return false;
    }
    let (dx, dy, dz): (i64, i64, i64) = match dir {
        Direction::North => (0, 0, -1),
        Direction::South => (0, 0, 1),
        Direction::East => (1, 0, 0),
        Direction::West => (-1, 0, 0),
        Direction::Up => (0, 1, 0),
        Direction::Down => (0, -1, 0),
    };
    let nx = x as i64 + dx;
    let ny = y as i64 + dy;
    let nz = z as i64 + dz;
    let inside = 0 <= nx && nx < 16 && 0 <= ny && ny < 16 && 0 <= nz && nz < 16;
    if inside {
        let b = section.get_pos(nx as u32, ny as u32, nz as u32);
        !blocks.is_opaque(b)
    } else {
        match section_beside(storage, c, dx, dy, dz) {
            Some(n) => {
                let wx = if nx < 0 { nx + 16 } else if nx >= 16 { nx - 16 } else { nx };
                let wy = if ny < 0 { ny + 16 } else if ny >= 16 { ny - 16 } else { ny };
                let wz = if nz < 0 { nz + 16 } else if nz >= 16 { nz - 16 } else { nz };
                let b = n.get_pos(wx as u32, wy as u32, wz as u32);
                !blocks.is_opaque(b)
            },
            None => true,
        }
    }
}

/// The faces of the section at `c`, in slot order.
pub fn tessellate_section(storage: &ChunkStorage, blocks: &BlockRegister, c: ChunkCoordinate) -> (r:
    Mesh)
    requires
        storage.wf(),
    ensures
        r.coord == c,
        r.faces@ == mesh_faces(*storage, *blocks, c),
{
    let mut faces: Vec<Face> = Vec::new();
    match storage.get_chunk(c) {
        None => {},
        Some(section) => {
            let mut k: usize = 0;
            while k < FACE_SLOTS
                invariant
                    storage.wf(),
                    section.wf(),
                    section@ == storage.section_at(c),
                    k <= FACE_SLOTS,
                    faces@ == faces_upto(*storage, *blocks, c, section@, k as nat),
                decreases FACE_SLOTS - k,
            {
                let p = k / 6;
                let x = (p / 256) as u32;
                let y = (p % 16) as u32;
                let z = ((p / 16) % 16) as u32;
                let dir = direction_at(k % 6);
                if is_face_visible(storage, blocks, c, section, x, y, z, dir) {
                    let block = section.get_pos(x, y, z);
                    faces.push(Face { x, y, z, direction: dir, block });
                }
                k = k + 1;
            }
        },
    }
    Mesh { coord: c, faces }
}

} // verus!
