//! Sections of a world, addressed by chunk coordinate, within a fixed number of
//! vertical sections.

use vstd::prelude::*;
use crate::pos::ChunkCoordinate;
use crate::section::{ChunkSection, SectionModel, in_section, SECTION_VOLUME};

verus! {

/// Sections are held in an arena; `coords[i]` is the coordinate of `sections[i]`.
pub struct ChunkStorage {
    height: usize,
    coords: Vec<ChunkCoordinate>,
    sections: Vec<ChunkSection>,
}

impl ChunkStorage {
    /// Number of vertical sections per column.
    pub closed spec fn height_spec(&self) -> nat {
        self.height as nat
    }

    /// Coordinates of the stored sections, by arena index.
    pub closed spec fn coords(&self) -> Seq<ChunkCoordinate> {
        self.coords@
    }

    /// Contents of the stored sections, by arena index.
    pub closed spec fn sections(&self) -> Seq<SectionModel> {
        self.sections@.map_values(|s: ChunkSection| s@)
    }

    /// Whether a section may exist at `c`: its vertical index lies in `[0, height)`.
    pub open spec fn valid(&self, c: ChunkCoordinate) -> bool {
        0 <= c.y < self.height_spec()
    }

    pub open spec fn wf(&self) -> bool {
        &&& self.height_spec() <= i32::MAX
        &&& self.coords().len() == self.sections().len()
        &&& forall|i: int, j: int|
            0 <= i < j < self.coords().len() ==> self.coords()[i] != self.coords()[j]
        &&& forall|i: int| 0 <= i < self.coords().len() ==> self.valid(#[trigger] self.coords()[i])
        &&& forall|i: int|
            0 <= i < self.sections().len() ==> (#[trigger] self.sections()[i]).cells.len()
                == SECTION_VOLUME
    }

    /// Whether any section of column `(x, z)` is stored.
    pub open spec fn column_present(&self, x: i32, z: i32) -> bool {
        exists|i: int|
            0 <= i < self.coords().len() && (#[trigger] self.coords()[i]).x == x && self.coords()[i].z
                == z
    }

    /// Whether any stored section of column `(x, z)` is dirty.
    pub open spec fn column_dirty(&self, x: i32, z: i32) -> bool {
        exists|i: int|
            0 <= i < self.coords().len() && (#[trigger] self.coords()[i]).x == x && self.coords()[i].z
                == z && self.sections()[i].dirty
    }

    /// Whether a section is stored at `c`.
    pub open spec fn contains(&self, c: ChunkCoordinate) -> bool {
        exists|i: int| 0 <= i < self.coords().len() && self.coords()[i] == c
    }

    /// The arena index of the section at `c`, when there is one.
    pub open spec fn index_of(&self, c: ChunkCoordinate) -> int {
        choose|i: int| 0 <= i < self.coords().len() && self.coords()[i] == c
    }

    /// The section at `c`, when there is one.
    pub open spec fn section_at(&self, c: ChunkCoordinate) -> SectionModel {
        self.sections()[self.index_of(c)]
    }

    /// In a well-formed storage the index of a coordinate is the one place it is stored.
    pub proof fn lemma_index_of(&self, i: int)
        requires
            self.wf(),
            0 <= i < self.coords().len(),
        ensures
            self.contains(self.coords()[i]),
            self.index_of(self.coords()[i]) == i,
    {
    }

    /// A storage with `height` sections per column; section indices are `i32`, which
    /// bounds the height.
    pub fn new(height: usize) -> (r: ChunkStorage)
        requires
            height <= i32::MAX,
        ensures
            r.wf(),
            r.height_spec() == height,
            r.coords().len() == 0,
    {
        let r = ChunkStorage { height, coords: Vec::new(), sections: Vec::new() };
        assert(r.sections() =~= Seq::<SectionModel>::empty());
        r
    }

    pub fn get_height(&self) -> (r: usize)
        ensures
            r == self.height_spec(),
    {
        self.height
    }

    /// Whether `c` lies within the vertical range of this storage.
    pub fn in_range(&self, c: ChunkCoordinate) -> (r: bool)
        ensures
            r == self.valid(c),
    {
        c.y >= 0 && (c.y as usize) < self.height
    }

    /// The arena index of the section at `c`, or `None` when none is stored.
    pub fn find(&self, c: ChunkCoordinate) -> (r: Option<usize>)
        requires
            self.wf(),
        ensures
            match r {
                Some(i) => i < self.coords().len() && self.coords()[i as int] == c,
                None => !self.contains(c),
            },
    {
        let mut i: usize = 0;
        while i < self.coords.len()
            invariant
                i <= self.coords@.len(),
                forall|j: int| 0 <= j < i ==> self.coords@[j] != c,
            decreases self.coords@.len() - i,
        {
            if self.coords[i] == c {
                return Some(i);
            }
            i = i + 1;
        }
        None
    }

    /// Whether column `(x, z)` holds any section, and whether any of them is dirty.
    pub fn column_state(&self, x: i32, z: i32) -> (r: (bool, bool))
        requires
            self.wf(),
        ensures
            r.0 == self.column_present(x, z),
            r.1 == self.column_dirty(x, z),
    {
        let mut present = false;
        let mut dirty = false;
        let mut i: usize = 0;
        while i < self.coords.len()
            invariant
                self.wf(),
                i <= self.coords@.len(),
                present == exists|j: int|
                    0 <= j < i && (#[trigger] self.coords()[j]).x == x && self.coords()[j].z == z,
                dirty == exists|j: int|
                    0 <= j < i && (#[trigger] self.coords()[j]).x == x && self.coords()[j].z == z
                        && self.sections()[j].dirty,
            decreases self.coords@.len() - i,
        {
            let c = self.coords[i];
            if c.x == x && c.z == z {
                present = true;
                assert(self.sections()[i as int] == self.sections@[i as int]@);
                if self.sections[i].is_dirty() {
                    dirty = true;
                }
            }
            i = i + 1;
        }
        (present, dirty)
    }

    /// The section at `c`; absent and out-of-range coordinates give `None`.
    pub fn get_chunk(&self, c: ChunkCoordinate) -> (r: Option<&ChunkSection>)
        requires
            self.wf(),
        ensures
            match r {
                Some(s) => self.contains(c) && s@ == self.section_at(c) && s.wf(),
                None => !self.contains(c),
            },
    {
        match self.find(c) {
            Some(i) => {
                proof {
                    self.lemma_index_of(i as int);
                    assert(self.sections()[i as int] == self.sections@[i as int]@);
                }
                Some(&self.sections[i])
            },
            None => None,
        }
    }

    /// The arena index of the section at `c`, creating an empty one there when none
    /// is stored. `None` exactly when `c` lies outside the vertical range.
    pub fn get_or_create_chunk(&mut self, c: ChunkCoordinate) -> (r: Option<usize>)
        requires
            old(self).wf(),
        ensures
            final(self).wf(),
            final(self).height_spec() == old(self).height_spec(),
            r is None <==> !old(self).valid(c),
            r is None ==> *final(self) == *old(self),
            old(self).contains(c) ==> *final(self) == *old(self),
            r matches Some(i) ==> i < final(self).coords().len() && final(self).coords()[i as int]
                == c,
            !old(self).contains(c) && old(self).valid(c) ==> {
                &&& final(self).coords() == old(self).coords().push(c)
                &&& final(self).sections() == old(self).sections().push(SectionModel::empty())
            },
    {
        if !self.in_range(c) {
            return None;
        }
        match self.find(c) {
            Some(i) => Some(i),
            None => {
                let s = ChunkSection::create_empty();
                let ghost old_sections = self.sections();
                self.coords.push(c);
                self.sections.push(s);
                assert(self.sections() =~= old_sections.push(SectionModel::empty()));
                Some(self.coords.len() - 1)
            },
        }
    }

    /// Writes `value` into cell `(x, y, z)` of the section at arena index `i`.
    pub fn set_pos_at(&mut self, i: usize, x: u32, y: u32, z: u32, value: u64)
        requires
            old(self).wf(),
            i < old(self).coords().len(),
            in_section(x as int, y as int, z as int),
        ensures
            final(self).wf(),
            final(self).height_spec() == old(self).height_spec(),
            final(self).coords() == old(self).coords(),
            final(self).sections() == old(self).sections().update(
                i as int,
                old(self).sections()[i as int].set(x as int, y as int, z as int, value),
            ),
    {
        let ghost old_sections = self.sections();
        assert(old_sections[i as int] == self.sections@[i as int]@);
        self.sections[i].set_pos(x, y, z, value);
        assert(self.sections() =~= old_sections.update(
            i as int,
            old_sections[i as int].set(x as int, y as int, z as int, value),
        ));
    }

    /// Sets the dirty flag of the section at arena index `i`.
    pub fn set_dirty_at(&mut self, i: usize, dirty: bool)
        requires
            old(self).wf(),
            i < old(self).coords().len(),
        ensures
            final(self).wf(),
            final(self).height_spec() == old(self).height_spec(),
            final(self).coords() == old(self).coords(),
            final(self).sections() == old(self).sections().update(
                i as int,
                SectionModel { dirty, ..old(self).sections()[i as int] },
            ),
    {
        let ghost old_sections = self.sections();
        self.sections[i].set_dirty(dirty);
        assert(self.sections() =~= old_sections.update(
            i as int,
            SectionModel { dirty, ..old_sections[i as int] },
        ));
    }

    /// Clears the dirty flag of every stored section of column `(x, z)`.
    pub fn clean_column(&mut self, x: i32, z: i32)
        requires
            old(self).wf(),
        ensures
            final(self).wf(),
            final(self).height_spec() == old(self).height_spec(),
            final(self).coords() == old(self).coords(),
            final(self).sections().len() == old(self).sections().len(),
            forall|k: int|
                0 <= k < old(self).sections().len() ==> #[trigger] final(self).sections()[k] == if old(
                    self,
                ).coords()[k].x == x && old(self).coords()[k].z == z {
                    SectionModel { dirty: false, ..old(self).sections()[k] }
                } else {
                    old(self).sections()[k]
                },
    {
        let mut i: usize = 0;
        while i < self.coords.len()
            invariant
                self.wf(),
                self.height_spec() == old(self).height_spec(),
                self.coords() == old(self).coords(),
                self.sections().len() == old(self).sections().len(),
                i <= self.coords().len(),
                forall|k: int|
                    0 <= k < old(self).sections().len() ==> #[trigger] self.sections()[k] == if k < i
                        && old(self).coords()[k].x == x && old(self).coords()[k].z == z {
                        SectionModel { dirty: false, ..old(self).sections()[k] }
                    } else {
                        old(self).sections()[k]
                    },
            decreases self.coords@.len() - i,
        {
            let c = self.coords[i];
            if c.x == x && c.z == z {
                self.set_dirty_at(i, false);
            }
            i = i + 1;
        }
    }

    /// Marks the section at `c` dirty when one is stored; otherwise does nothing.
    pub fn mark_dirty_if_present(&mut self, c: ChunkCoordinate)
        requires
            old(self).wf(),
        ensures
            final(self).wf(),
            final(self).height_spec() == old(self).height_spec(),
            final(self).coords() == old(self).coords(),
            final(self).sections().len() == old(self).sections().len(),
            forall|k: int|
                0 <= k < old(self).sections().len() ==> #[trigger] final(self).sections()[k] == if old(
                    self,
                ).coords()[k] == c {
                    SectionModel { dirty: true, ..old(self).sections()[k] }
                } else {
                    old(self).sections()[k]
                },
    {
        match self.find(c) {
            Some(i) => {
                self.set_dirty_at(i, true);
            },
            None => {},
        }
    }
}

} // verus!
