//! A 16 x 16 x 16 store of packed block values with a dirty flag.

use vstd::prelude::*;

verus! {

/// Number of cells in a section.
pub const SECTION_VOLUME: usize = 4096;

/// Whether `(x, y, z)` are local coordinates inside a section.
pub open spec fn in_section(x: int, y: int, z: int) -> bool {
    0 <= x < 16 && 0 <= y < 16 && 0 <= z < 16
}

/// Where the cell at local `(x, y, z)` is stored: `y + z*16 + x*16*16`.
pub open spec fn cell_index(x: int, y: int, z: int) -> int {
    y + z * 16 + x * 256
}

/// Distinct local coordinates are stored in distinct cells, all inside the section.
pub proof fn lemma_cell_index(x: int, y: int, z: int, x2: int, y2: int, z2: int)
    requires
        in_section(x, y, z),
        in_section(x2, y2, z2),
    ensures
        0 <= cell_index(x, y, z) < SECTION_VOLUME,
        cell_index(x, y, z) == cell_index(x2, y2, z2) <==> (x == x2 && y == y2 && z == z2),
{
}

/// What a section holds: its cells, in storage order, and its dirty flag.
pub ghost struct SectionModel {
    pub cells: Seq<u64>,
    pub dirty: bool,
}

impl SectionModel {
    pub open spec fn get(self, x: int, y: int, z: int) -> u64 {
        self.cells[cell_index(x, y, z)]
    }

    pub open spec fn set(self, x: int, y: int, z: int, v: u64) -> SectionModel {
        SectionModel { cells: self.cells.update(cell_index(x, y, z), v), dirty: self.dirty }
    }

    pub open spec fn empty() -> SectionModel {
        SectionModel { cells: Seq::new(SECTION_VOLUME as nat, |i: int| 0u64), dirty: false }
    }
}

/// Writing a cell and reading it back gives the written value; reading any other cell
/// gives what it held before.
pub proof fn lemma_set_then_get(
    s: SectionModel,
    x: int,
    y: int,
    z: int,
    v: u64,
    x2: int,
    y2: int,
    z2: int,
)
    requires
        s.cells.len() == SECTION_VOLUME,
        in_section(x, y, z),
        in_section(x2, y2, z2),
    ensures
        s.set(x, y, z, v).get(x2, y2, z2) == if x == x2 && y == y2 && z == z2 {
            v
        } else {
            s.get(x2, y2, z2)
        },
{
    lemma_cell_index(x, y, z, x2, y2, z2);
}

pub struct ChunkSection {
    blocks: Vec<u64>,
    dirty: bool,
}

impl View for ChunkSection {
    type V = SectionModel;

    closed spec fn view(&self) -> SectionModel {
        SectionModel { cells: self.blocks@, dirty: self.dirty }
    }
}

impl ChunkSection {
    /// Every section holds exactly one value per cell.
    pub open spec fn wf(&self) -> bool {
        self@.cells.len() == SECTION_VOLUME
    }

    /// A section with every cell zero, not dirty.
    pub fn create_empty() -> (r: ChunkSection)
        ensures
            r.wf(),
            r@ == SectionModel::empty(),
    {
        let mut blocks: Vec<u64> = Vec::new();
        let mut i: usize = 0;
        while i < SECTION_VOLUME
            invariant
                i <= SECTION_VOLUME,
                blocks@.len() == i,
                forall|j: int| 0 <= j < i ==> blocks@[j] == 0u64,
            decreases SECTION_VOLUME - i,
        {
            blocks.push(0u64);
            i = i + 1;
        }
        let r = ChunkSection { blocks, dirty: false };
        assert(r@.cells =~= SectionModel::empty().cells);
        r
    }

    /// The value at local `(x, y, z)`.
    pub fn get_pos(&self, x: u32, y: u32, z: u32) -> (r: u64)
        requires
            self.wf(),
            in_section(x as int, y as int, z as int),
        ensures
            r == self@.get(x as int, y as int, z as int),
    {
        proof {
            lemma_cell_index(x as int, y as int, z as int, x as int, y as int, z as int);
        }
        self.blocks[(y + z * 16 + x * 256) as usize]
    }

    /// Writes `value` at local `(x, y, z)`.
    pub fn set_pos(&mut self, x: u32, y: u32, z: u32, value: u64)
        requires
            old(self).wf(),
            in_section(x as int, y as int, z as int),
        ensures
            final(self).wf(),
            final(self)@ == old(self)@.set(x as int, y as int, z as int, value),
    {
        proof {
            lemma_cell_index(x as int, y as int, z as int, x as int, y as int, z as int);
        }
        self.blocks.set((y + z * 16 + x * 256) as usize, value);
    }

    pub fn set_dirty(&mut self, dirty: bool)
        ensures
            final(self)@ == (SectionModel { dirty, ..old(self)@ }),
    {
        self.dirty = dirty;
    }

    pub fn is_dirty(&self) -> (r: bool)
        ensures
            r == self@.dirty,
    {
        self.dirty
    }
}

} // verus!
