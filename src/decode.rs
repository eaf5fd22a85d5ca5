//! Applying a partial chunk update, a rectangular region of block ids delivered as a
//! zlib stream, to the sections of a world.

use vstd::prelude::*;
use crate::pos::{ChunkCoordinate, chunk_of, chunk_origin, floor_div16};
use crate::section::{SectionModel, in_section, lemma_set_then_get};
use crate::storage::ChunkStorage;

verus! {

/// The header of a chunk-update message. Each size byte holds the extent minus one.
#[derive(Clone, Copy, Debug, PartialEq, Eq, Structural)]
pub struct MapChunkUpdate {
    pub block_x: i32,
    pub block_y: i32,
    pub block_z: i32,
    pub size_x: u8,
    pub size_y: u8,
    pub size_z: u8,
}

/// Byte `i` of a decompressed buffer; bytes past its end read as zero.
pub open spec fn raw_byte(raw: Seq<u8>, i: int) -> u64 {
    if 0 <= i < raw.len() {
        raw[i] as u64
    } else {
        0
    }
}

impl MapChunkUpdate {
    pub open spec fn sx(self) -> int {
        self.size_x as int + 1
    }

    pub open spec fn sy(self) -> int {
        self.size_y as int + 1
    }

    pub open spec fn sz(self) -> int {
        self.size_z as int + 1
    }

    /// Number of cells in the region.
    pub open spec fn volume(self) -> int {
        self.sx() * self.sy() * self.sz()
    }

    /// The chunk column that holds the region's origin.
    pub open spec fn chunk_x(self) -> int {
        floor_div16(self.block_x as int)
    }

    pub open spec fn chunk_z(self) -> int {
        floor_div16(self.block_z as int)
    }

    /// The region's origin relative to its chunk column.
    pub open spec fn start_x(self) -> int {
        self.block_x - self.chunk_x() * 16
    }

    pub open spec fn start_z(self) -> int {
        self.block_z - self.chunk_z() * 16
    }

    /// Where region cell `(x, y, z)` lies in the buffer: `y + z*sy + x*sy*sz`.
    pub open spec fn source_index(self, x: int, y: int, z: int) -> int {
        y + z * self.sy() + x * (self.sy() * self.sz())
    }

    /// The region row that cell layer `ly` of the section at vertical index `section_y`
    /// lies in.
    pub open spec fn row_of(self, section_y: int, ly: int) -> int {
        section_y * 16 + ly - self.block_y
    }

    /// Whether the update writes cell `(lx, ly, lz)` of the section at `c`.
    pub open spec fn covers(self, c: ChunkCoordinate, lx: int, ly: int, lz: int) -> bool {
        &&& c.x == self.chunk_x()
        &&& c.z == self.chunk_z()
        &&& 0 <= lx - self.start_x() < self.sx()
        &&& 0 <= self.row_of(c.y as int, ly) < self.sy()
        &&& 0 <= lz - self.start_z() < self.sz()
    }

    /// The value the update writes into cell `(lx, ly, lz)` of the section at `c`.
    pub open spec fn value_at(
        self,
        raw: Seq<u8>,
        c: ChunkCoordinate,
        lx: int,
        ly: int,
        lz: int,
    ) -> u64 {
        raw_byte(
            raw,
            self.source_index(lx - self.start_x(), self.row_of(c.y as int, ly), lz - self.start_z()),
        )
    }

    /// Whether one of the first `n` rows of the region lies in vertical section `s`.
    pub open spec fn rows_reach(self, s: int, n: int) -> bool {
        &&& n > 0
        &&& floor_div16(self.block_y as int) <= s <= floor_div16(self.block_y + n - 1)
    }

    /// Whether a section at `c` receives rows of the update.
    pub open spec fn spans(self, c: ChunkCoordinate) -> bool {
        &&& c.x == self.chunk_x()
        &&& c.z == self.chunk_z()
        &&& self.rows_reach(c.y as int, self.sy())
    }

    /// Whether a section at `c` is a horizontal neighbour of the update's column, within
    /// the vertical band `[block_y / 16, (block_y + sy) / 16)`.
    pub open spec fn neighbor_band(self, c: ChunkCoordinate) -> bool {
        &&& {
            ||| (c.x == self.chunk_x() + 1 && c.z == self.chunk_z())
            ||| (c.x == self.chunk_x() - 1 && c.z == self.chunk_z())
            ||| (c.x == self.chunk_x() && c.z == self.chunk_z() + 1)
            ||| (c.x == self.chunk_x() && c.z == self.chunk_z() - 1)
        }
        &&& floor_div16(self.block_y as int) <= c.y < floor_div16(self.block_y + self.sy())
    }
}

/// What `after` holds when the update `u`, with decompressed bytes `raw`, has been
/// applied to `before`:
/// - sections keep their arena places, and new ones are created only where the
///   update's rows land, so every in-range section the update spans exists;
/// - each cell the update covers holds its byte of `raw` (zero past its end), every
///   other cell is unchanged, and new sections are otherwise empty;
/// - a section is dirty when it was, when the update spans it, or when it is a
///   horizontal neighbour of the update's column in its vertical band.
pub open spec fn applied(
    u: MapChunkUpdate,
    raw: Seq<u8>,
    before: ChunkStorage,
    after: ChunkStorage,
) -> bool {
    &&& after.wf()
    &&& after.height_spec() == before.height_spec()
    &&& after.coords().len() >= before.coords().len()
    &&& forall|k: int|
        0 <= k < before.coords().len() ==> #[trigger] after.coords()[k] == before.coords()[k]
    &&& forall|k: int|
        before.coords().len() <= k < after.coords().len() ==> u.spans(
            #[trigger] after.coords()[k],
        )
    &&& forall|c: ChunkCoordinate| u.spans(c) && before.valid(c) ==> #[trigger] after.contains(c)
    &&& forall|k: int, a: int, b: int, d: int|
        0 <= k < after.coords().len() && in_section(a, b, d) ==> #[trigger] after.sections()[k].get(
            a,
            b,
            d,
        ) == if u.covers(after.coords()[k], a, b, d) {
            u.value_at(raw, after.coords()[k], a, b, d)
        } else if k < before.coords().len() {
            before.sections()[k].get(a, b, d)
        } else {
            0u64
        }
    &&& forall|k: int|
        0 <= k < after.coords().len() ==> (#[trigger] after.sections()[k]).dirty == (u.spans(
            after.coords()[k],
        ) || u.neighbor_band(after.coords()[k]) || (k < before.coords().len()
            && before.sections()[k].dirty))
}

/// Size of the decompression buffer: the block ids, one byte per cell, followed by
/// the metadata, half a byte per cell, rounded up. The metadata is sized for here but
/// not applied to cells.
pub open spec fn buffer_len_spec(u: MapChunkUpdate) -> int {
    u.volume() + (u.volume() + 1) / 2
}

/// What one `read` from a zlib decoder over `data` leaves in the buffer `buf`.
pub uninterp spec fn zlib_read_into(data: Seq<u8>, buf: Seq<u8>) -> Seq<u8>;

/// The decompressed bytes of an update: one read of the stream into a zeroed buffer.
pub open spec fn inflated(u: MapChunkUpdate, compressed: Seq<u8>) -> Seq<u8> {
    zlib_read_into(compressed, Seq::new(buffer_len_spec(u) as nat, |i: int| 0u8))
}

/// Relies on `Read::read` of `flate2::read::ZlibDecoder`: it decompresses the zlib stream
/// in `data` into `buf`, as far as one read goes, and the result depends on `data` and
/// `buf` alone. A slice keeps its length. A corrupt or truncated stream yields an error,
/// which is ignored: what was written stays.
#[verifier::external_body]
fn zlib_read(data: &[u8], buf: &mut Vec<u8>)
    ensures
        final(buf)@.len() == old(buf)@.len(),
        final(buf)@ == zlib_read_into(data@, old(buf)@),
{
    let mut decoder = flate2::read::ZlibDecoder::new(data);
    let _ = std::io::Read::read(&mut decoder, buf.as_mut_slice());
}

/// Bounds on the buffer index of a region cell.
proof fn lemma_source_index_bounds(u: MapChunkUpdate, x: int, y: int, z: int)
    requires
        0 <= x < u.sx(),
        0 <= y < u.sy(),
        0 <= z < u.sz(),
    ensures
        0 <= z * u.sy() <= 255 * 256,
        0 <= u.sy() * u.sz() <= 256 * 256,
        0 <= x * (u.sy() * u.sz()) <= 255 * (256 * 256),
        0 <= u.source_index(x, y, z) < u.volume(),
        u.volume() <= 256 * 256 * 256,
{
    let sx = u.sx();
    let sy = u.sy();
    let sz = u.sz();
    assert(0 <= z * sy <= 255 * 256) by (nonlinear_arith)
        requires
            0 <= z < sz,
            1 <= sy <= 256,
            sz <= 256,
    ;
    assert(0 <= sy * sz <= 256 * 256) by (nonlinear_arith)
        requires
            1 <= sy <= 256,
            1 <= sz <= 256,
    ;
    assert(0 <= x * (sy * sz) <= 255 * (256 * 256)) by (nonlinear_arith)
        requires
            0 <= x < sx,
            sx <= 256,
            0 <= sy * sz <= 256 * 256,
    ;
    assert(0 <= y + z * sy + x * (sy * sz) < sx * sy * sz) by (nonlinear_arith)
        requires
            0 <= x < sx,
            0 <= y < sy,
            0 <= z < sz,
    ;
    assert(sx * sy * sz <= 256 * 256 * 256) by (nonlinear_arith)
        requires
            1 <= sx <= 256,
            1 <= sy <= 256,
            1 <= sz <= 256,
    ;
}

/// Reads byte `i` of `raw`, zero past its end.
fn read_raw(raw: &Vec<u8>, i: usize) -> (r: u64)
    ensures
        r == raw_byte(raw@, i as int),
{
    if i < raw.len() {
        raw[i] as u64
    } else {
        0
    }
}

/// Writes region row `y` into the section at arena index `i`, where that row is the
/// section's local layer `ly`.
fn write_row(
    storage: &mut ChunkStorage,
    i: usize,
    u: MapChunkUpdate,
    start_x: u32,
    start_z: u32,
    y: usize,
    ly: u32,
    raw: &Vec<u8>,
)
    requires
        old(storage).wf(),
        i < old(storage).coords().len(),
        old(storage).coords()[i as int].x == u.chunk_x(),
        old(storage).coords()[i as int].z == u.chunk_z(),
        start_x == u.start_x(),
        start_z == u.start_z(),
        0 <= u.start_x() < 16,
        0 <= u.start_z() < 16,
        y < u.sy(),
        ly < 16,
        u.row_of(old(storage).coords()[i as int].y as int, ly as int) == y,
    ensures
        final(storage).wf(),
        final(storage).height_spec() == old(storage).height_spec(),
        final(storage).coords() == old(storage).coords(),
        final(storage).sections().len() == old(storage).sections().len(),
        forall|k: int|
            0 <= k < old(storage).sections().len() && k != i ==> #[trigger] final(storage).sections()[k] == old(storage).sections()[k],
        final(storage).sections()[i as int].dirty == old(storage).sections()[i as int].dirty,
        forall|lx: int, ly2: int, lz: int|
            in_section(lx, ly2, lz) ==> #[trigger] final(storage).sections()[i as int].get(
                lx,
                ly2,
                lz,
            ) == if ly2 == ly && 0 <= lx - u.start_x() < u.sx() && 0 <= lz - u.start_z()
                < u.sz() {
                u.value_at(raw@, old(storage).coords()[i as int], lx, ly2, lz)
            } else {
                old(storage).sections()[i as int].get(lx, ly2, lz)
            },
{
    let ghost s0 = old(storage).sections()[i as int];
    let ghost c = old(storage).coords()[i as int];
    let size_x: usize = u.size_x as usize + 1;
    let size_y: usize = u.size_y as usize + 1;
    let size_z: usize = u.size_z as usize + 1;
    let mut x: usize = 0;
    while x < size_x
        invariant
            storage.wf(),
            storage.height_spec() == old(storage).height_spec(),
            storage.coords() == old(storage).coords(),
            storage.sections().len() == old(storage).sections().len(),
            forall|k: int|
                0 <= k < old(storage).sections().len() && k != i ==> #[trigger] storage.sections()[k]
                    == old(storage).sections()[k],
            storage.sections()[i as int].dirty == s0.dirty,
            x <= size_x,
            size_x == u.sx(),
            size_y == u.sy(),
            size_z == u.sz(),
            y < size_y,
            start_x < 16,
            start_z < 16,
            start_x == u.start_x(),
            start_z == u.start_z(),
            i < storage.sections().len(),
            ly < 16,
            c == old(storage).coords()[i as int],
            u.row_of(c.y as int, ly as int) == y,
            forall|lx: int, ly2: int, lz: int|
                in_section(lx, ly2, lz) ==> #[trigger] storage.sections()[i as int].get(
                    lx,
                    ly2,
                    lz,
                ) == if ly2 == ly && 0 <= lx - u.start_x() < x && 0 <= lz - u.start_z()
                    < u.sz() {
                    u.value_at(raw@, c, lx, ly2, lz)
                } else {
                    s0.get(lx, ly2, lz)
                },
        decreases size_x - x,
    {
        let mut z: usize = 0;
        while z < size_z
            invariant
                storage.wf(),
                storage.height_spec() == old(storage).height_spec(),
                storage.coords() == old(storage).coords(),
                storage.sections().len() == old(storage).sections().len(),
                forall|k: int|
                    0 <= k < old(storage).sections().len() && k != i ==> #[trigger] storage.sections()[k]
                        == old(storage).sections()[k],
                storage.sections()[i as int].dirty == s0.dirty,
                x < size_x,
                z <= size_z,
                size_x == u.sx(),
                size_y == u.sy(),
                size_z == u.sz(),
                y < size_y,
                start_x < 16,
                start_z < 16,
                start_x == u.start_x(),
                start_z == u.start_z(),
                i < storage.sections().len(),
                ly < 16,
                c == old(storage).coords()[i as int],
                u.row_of(c.y as int, ly as int) == y,
                forall|lx: int, ly2: int, lz: int|
                    in_section(lx, ly2, lz) ==> #[trigger] storage.sections()[i as int].get(
                        lx,
                        ly2,
                        lz,
                    ) == if ly2 == ly && (0 <= lx - u.start_x() < x || (lx - u.start_x() == x
                        && 0 <= lz - u.start_z() < z)) && 0 <= lz - u.start_z() < u.sz() {
                        u.value_at(raw@, c, lx, ly2, lz)
                    } else {
                        s0.get(lx, ly2, lz)
                    },
            decreases size_z - z,
        {
            let lx: usize = start_x as usize + x;
            let lz: usize = start_z as usize + z;
            if lx < 16 && lz < 16 {
                proof {
                    lemma_source_index_bounds(u, x as int, y as int, z as int);
                }
                let index: usize = y + z * size_y + x * (size_y * size_z);
                let value = read_raw(raw, index);
                let ghost before = storage.sections()[i as int];
                assert(before.cells.len() == 4096);
                assert(value == u.value_at(raw@, c, lx as int, ly as int, lz as int));
                storage.set_pos_at(i, lx as u32, ly, lz as u32, value);
                proof {
                    assert forall|ax: int, ay: int, az: int| in_section(ax, ay, az) implies #[trigger] storage.sections()[i as int].get(
                        ax,
                        ay,
                        az,
                    ) == if ay == ly && (0 <= ax - u.start_x() < x || (ax - u.start_x() == x
                        && 0 <= az - u.start_z() < z + 1)) && 0 <= az - u.start_z() < u.sz() {
                        u.value_at(raw@, c, ax, ay, az)
                    } else {
                        s0.get(ax, ay, az)
                    } by {
                        assert(before.get(ax, ay, az) == if ay == ly && (0 <= ax - u.start_x() < x || (ax - u.start_x() == x
                            && 0 <= az - u.start_z() < z)) && 0 <= az - u.start_z() < u.sz() {
                            u.value_at(raw@, c, ax, ay, az)
                        } else {
                            s0.get(ax, ay, az)
                        });
                        lemma_set_then_get(before, lx as int, ly as int, lz as int, value, ax, ay, az);
                    }
                }
            }
            z = z + 1;
        }
        x = x + 1;
    }
}

/// A section cell lies in region row `y` only if the section is the one holding
/// height `block_y + y`.
proof fn lemma_row_section(u: MapChunkUpdate, s: int, b: int, y: int, sec: int)
    requires
        0 <= b < 16,
        u.row_of(s, b) == y,
        sec * 16 <= u.block_y + y < sec * 16 + 16,
    ensures
        s == sec,
{
}

/// The vertical section that holds height `v`: `v >> 4`.
fn section_of_height(v: i64) -> (r: i64)
    requires
        -0x1_0000_0000 <= v < 0x1_0000_0000,
    ensures
        r == floor_div16(v as int),
        r * 16 <= v < r * 16 + 16,
        -0x1000_0000 <= r < 0x1000_0000,
{
    assert((v >> 4) as int * 16 <= v as int && (v as int) < (v >> 4) as int * 16 + 16)
        by (bit_vector);
    v >> 4
}

/// Writes every row of the region into the sections of the update's column, creating
/// the sections it needs inside the storage's vertical range, and marks each dirty.
fn apply_rows(
    storage: &mut ChunkStorage,
    u: MapChunkUpdate,
    chunk_x: i32,
    chunk_z: i32,
    start_x: u32,
    start_z: u32,
    raw: &Vec<u8>,
)
    requires
        old(storage).wf(),
        chunk_x == u.chunk_x(),
        chunk_z == u.chunk_z(),
        start_x == u.start_x(),
        start_z == u.start_z(),
        0 <= u.start_x() < 16,
        0 <= u.start_z() < 16,
    ensures
        final(storage).wf(),
        final(storage).height_spec() == old(storage).height_spec(),
        final(storage).coords().len() >= old(storage).coords().len(),
        forall|k: int|
            0 <= k < old(storage).coords().len() ==> #[trigger] final(storage).coords()[k]
                == old(storage).coords()[k],
        forall|k: int|
            old(storage).coords().len() <= k < final(storage).coords().len() ==> u.spans(
                #[trigger] final(storage).coords()[k],
            ),
        forall|c: ChunkCoordinate|
            u.spans(c) && old(storage).valid(c) ==> #[trigger] final(storage).contains(c),
        forall|k: int, a: int, b: int, d: int|
            0 <= k < final(storage).coords().len() && in_section(a, b, d) ==> #[trigger] final(storage).sections()[k].get(a, b, d) == if u.covers(final(storage).coords()[k], a, b, d) {
                u.value_at(raw@, final(storage).coords()[k], a, b, d)
            } else if k < old(storage).coords().len() {
                old(storage).sections()[k].get(a, b, d)
            } else {
                0u64
            },
        forall|k: int|
            0 <= k < final(storage).coords().len() ==> (#[trigger] final(storage).sections()[k]).dirty
                == (u.spans(final(storage).coords()[k]) || (k < old(storage).coords().len()
                && old(storage).sections()[k].dirty)),
{
    let ghost s0 = *old(storage);
    let size_y: usize = u.size_y as usize + 1;
    let mut y: usize = 0;
    while y < size_y
        invariant
            storage.wf(),
            storage.height_spec() == s0.height_spec(),
            size_y == u.sy(),
            y <= size_y,
            chunk_x == u.chunk_x(),
            chunk_z == u.chunk_z(),
            start_x == u.start_x(),
            start_z == u.start_z(),
            0 <= u.start_x() < 16,
            0 <= u.start_z() < 16,
            storage.coords().len() >= s0.coords().len(),
            forall|k: int|
                0 <= k < s0.coords().len() ==> #[trigger] storage.coords()[k] == s0.coords()[k],
            forall|k: int|
                s0.coords().len() <= k < storage.coords().len() ==> {
                    let c = #[trigger] storage.coords()[k];
                    c.x == u.chunk_x() && c.z == u.chunk_z() && u.rows_reach(c.y as int, y as int)
                },
            forall|c: ChunkCoordinate|
                c.x == u.chunk_x() && c.z == u.chunk_z() && u.rows_reach(c.y as int, y as int)
                    && s0.valid(c) ==> #[trigger] storage.contains(c),
            forall|k: int, a: int, b: int, d: int|
                0 <= k < storage.coords().len() && in_section(a, b, d) ==> #[trigger] storage.sections()[k].get(
                    a,
                    b,
                    d,
                ) == if u.covers(storage.coords()[k], a, b, d) && u.row_of(
                    storage.coords()[k].y as int,
                    b,
                ) < y {
                    u.value_at(raw@, storage.coords()[k], a, b, d)
                } else if k < s0.coords().len() {
                    s0.sections()[k].get(a, b, d)
                } else {
                    0u64
                },
            forall|k: int|
                0 <= k < storage.coords().len() ==> (#[trigger] storage.sections()[k]).dirty == ((
                storage.coords()[k].x == u.chunk_x() && storage.coords()[k].z == u.chunk_z()
                    && u.rows_reach(storage.coords()[k].y as int, y as int)) || (k
                    < s0.coords().len() && s0.sections()[k].dirty)),
        decreases size_y - y,
    {
        let actual_y: i64 = u.block_y as i64 + y as i64;
        let section_y = section_of_height(actual_y);
        let ly: u32 = (actual_y - section_y * 16) as u32;
        let c = ChunkCoordinate::new(chunk_x, section_y as i32, chunk_z);
        let ghost before = *storage;
        match storage.get_or_create_chunk(c) {
            None => {
                proof {
                    assert forall|k: int, a: int, b: int, d: int|
                        0 <= k < storage.coords().len() && in_section(a, b, d) implies #[trigger] storage.sections()[k].get(
                            a,
                            b,
                            d,
                        ) == if u.covers(storage.coords()[k], a, b, d) && u.row_of(
                            storage.coords()[k].y as int,
                            b,
                        ) < y + 1 {
                            u.value_at(raw@, storage.coords()[k], a, b, d)
                        } else if k < s0.coords().len() {
                            s0.sections()[k].get(a, b, d)
                        } else {
                            0u64
                        } by {
                        if u.covers(storage.coords()[k], a, b, d) && u.row_of(storage.coords()[k].y as int, b) == y {
                            lemma_row_section(u, storage.coords()[k].y as int, b, y as int, section_y as int);
                            assert(storage.coords()[k] == c);
                            assert(storage.valid(storage.coords()[k]));
                        }
                    }
                    assert forall|c2: ChunkCoordinate|
                        c2.x == u.chunk_x() && c2.z == u.chunk_z() && u.rows_reach(c2.y as int, y + 1)
                            && s0.valid(c2) implies #[trigger] storage.contains(c2) by {
                        if c2.y != section_y {
                            assert(u.rows_reach(c2.y as int, y as int));
                        }
                    }
                }
            },
            Some(i) => {
                let ghost created = *storage;
                proof {
                    if !before.contains(c) {
                        assert forall|k: int, a: int, b: int, d: int|
                            0 <= k < created.coords().len() && in_section(a, b, d) implies #[trigger] created.sections()[k].get(
                                a,
                                b,
                                d,
                            ) == if u.covers(created.coords()[k], a, b, d) && u.row_of(
                                created.coords()[k].y as int,
                                b,
                            ) < y {
                                u.value_at(raw@, created.coords()[k], a, b, d)
                            } else if k < s0.coords().len() {
                                s0.sections()[k].get(a, b, d)
                            } else {
                                0u64
                            } by {
                            if k == before.coords().len() {
                                assert(created.sections()[k] == SectionModel::empty());
                                assert(created.coords()[k] == c);
                            } else {
                                assert(created.sections()[k] == before.sections()[k]);
                                assert(created.coords()[k] == before.coords()[k]);
                            }
                        }
                    }
                }
                write_row(storage, i, u, start_x, start_z, y, ly, raw);
                let ghost written = *storage;
                storage.set_dirty_at(i, true);
                proof {
                    assert forall|k: int, a: int, b: int, d: int|
                        0 <= k < storage.coords().len() && in_section(a, b, d) implies #[trigger] storage.sections()[k].get(
                            a,
                            b,
                            d,
                        ) == if u.covers(storage.coords()[k], a, b, d) && u.row_of(
                            storage.coords()[k].y as int,
                            b,
                        ) < y + 1 {
                            u.value_at(raw@, storage.coords()[k], a, b, d)
                        } else if k < s0.coords().len() {
                            s0.sections()[k].get(a, b, d)
                        } else {
                            0u64
                        } by {
                        assert(storage.sections()[k].cells == written.sections()[k].cells);
                        if k == i {
                            assert(storage.coords()[k] == c);
                            assert(u.row_of(c.y as int, b) == y <==> b == ly);
                            assert(written.sections()[k].get(a, b, d) == if b == ly && 0 <= a
                                - u.start_x() < u.sx() && 0 <= d - u.start_z() < u.sz() {
                                u.value_at(raw@, c, a, b, d)
                            } else {
                                created.sections()[k].get(a, b, d)
                            });
                            assert(created.coords()[k] == c);
                            assert(created.sections()[k].get(a, b, d) == if u.covers(c, a, b, d)
                                && u.row_of(c.y as int, b) < y {
                                u.value_at(raw@, c, a, b, d)
                            } else if k < s0.coords().len() {
                                s0.sections()[k].get(a, b, d)
                            } else {
                                0u64
                            });
                        }
                        if k != i {
                            assert(written.sections()[k] == created.sections()[k]);
                            if u.covers(storage.coords()[k], a, b, d) && u.row_of(
                                storage.coords()[k].y as int,
                                b,
                            ) == y {
                                lemma_row_section(u, storage.coords()[k].y as int, b, y as int, section_y as int);
                                assert(storage.coords()[k] == c);
                                assert(false);
                            }
                        }
                    }
                    assert forall|c2: ChunkCoordinate|
                        c2.x == u.chunk_x() && c2.z == u.chunk_z() && u.rows_reach(c2.y as int, y + 1)
                            && s0.valid(c2) implies #[trigger] storage.contains(c2) by {
                        if c2.y == section_y {
                            assert(c2 == c);
                            assert(storage.coords()[i as int] == c2);
                        } else {
                            assert(u.rows_reach(c2.y as int, y as int));
                            assert(before.contains(c2));
                            let j = before.index_of(c2);
                            assert(storage.coords()[j] == c2);
                        }
                    }
                }
            },
        }
        y = y + 1;
    }
}

/// Marks dirty every stored section horizontally adjacent to the update's column within
/// its vertical band.
fn mark_neighbors(storage: &mut ChunkStorage, u: MapChunkUpdate, chunk_x: i32, chunk_z: i32)
    requires
        old(storage).wf(),
        chunk_x == u.chunk_x(),
        chunk_z == u.chunk_z(),
        -0x0800_0000 <= u.chunk_x() < 0x0800_0000,
        -0x0800_0000 <= u.chunk_z() < 0x0800_0000,
    ensures
        final(storage).wf(),
        final(storage).height_spec() == old(storage).height_spec(),
        final(storage).coords() == old(storage).coords(),
        final(storage).sections().len() == old(storage).sections().len(),
        forall|k: int|
            0 <= k < old(storage).coords().len() ==> (#[trigger] final(storage).sections()[k]).cells
                == old(storage).sections()[k].cells,
        forall|k: int|
            0 <= k < old(storage).coords().len() ==> (#[trigger] final(storage).sections()[k]).dirty
                == (old(storage).sections()[k].dirty || u.neighbor_band(old(storage).coords()[k])),
{
    let ghost s0 = *old(storage);
    let low = section_of_height(u.block_y as i64);
    let high = section_of_height(u.block_y as i64 + u.size_y as i64 + 1);
    let mut s: i64 = low;
    while s < high
        invariant
            storage.wf(),
            storage.height_spec() == s0.height_spec(),
            storage.coords() == s0.coords(),
            storage.sections().len() == s0.sections().len(),
            low == floor_div16(u.block_y as int),
            high == floor_div16(u.block_y + u.sy()),
            -0x1000_0000 <= high < 0x1000_0000,
            low <= s <= high || high < low,
            chunk_x == u.chunk_x(),
            chunk_z == u.chunk_z(),
            -0x0800_0000 <= u.chunk_x() < 0x0800_0000,
            -0x0800_0000 <= u.chunk_z() < 0x0800_0000,
            forall|k: int|
                0 <= k < s0.coords().len() ==> (#[trigger] storage.sections()[k]).cells
                    == s0.sections()[k].cells,
            forall|k: int|
                0 <= k < s0.coords().len() ==> (#[trigger] storage.sections()[k]).dirty == (
                s0.sections()[k].dirty || (u.neighbor_band(s0.coords()[k]) && s0.coords()[k].y
                    < s)),
        decreases high - s,
    {
        let sy = s as i32;
        storage.mark_dirty_if_present(ChunkCoordinate::new(chunk_x + 1, sy, chunk_z));
        storage.mark_dirty_if_present(ChunkCoordinate::new(chunk_x - 1, sy, chunk_z));
        storage.mark_dirty_if_present(ChunkCoordinate::new(chunk_x, sy, chunk_z + 1));
        storage.mark_dirty_if_present(ChunkCoordinate::new(chunk_x, sy, chunk_z - 1));
        s = s + 1;
    }
}

/// An update whose rows cross a section boundary lands in two distinct sections, the
/// lowest and the highest it spans; each in-range one is present afterwards, whether or
/// not it existed before.
pub proof fn lemma_update_across_sections(
    u: MapChunkUpdate,
    raw: Seq<u8>,
    before: ChunkStorage,
    after: ChunkStorage,
)
    requires
        applied(u, raw, before, after),
        floor_div16(u.block_y as int) < floor_div16(u.block_y + u.sy() - 1),
    ensures
        ({
            let low = ChunkCoordinate {
                x: u.chunk_x() as i32,
                y: floor_div16(u.block_y as int) as i32,
                z: u.chunk_z() as i32,
            };
            let high = ChunkCoordinate {
                x: u.chunk_x() as i32,
                y: floor_div16(u.block_y + u.sy() - 1) as i32,
                z: u.chunk_z() as i32,
            };
            &&& low != high
            &&& before.valid(low) ==> after.contains(low)
            &&& before.valid(high) ==> after.contains(high)
        }),
{
    crate::pos::lemma_chunk_brackets_block(u.block_x);
    crate::pos::lemma_chunk_brackets_block(u.block_z);
    let low = ChunkCoordinate {
        x: u.chunk_x() as i32,
        y: floor_div16(u.block_y as int) as i32,
        z: u.chunk_z() as i32,
    };
    let high = ChunkCoordinate {
        x: u.chunk_x() as i32,
        y: floor_div16(u.block_y + u.sy() - 1) as i32,
        z: u.chunk_z() as i32,
    };
    assert(u.spans(low));
    assert(u.spans(high));
}

/// The size of the decompression buffer for `u`.
pub fn buffer_len(u: MapChunkUpdate) -> (r: usize)
    ensures
        r == buffer_len_spec(u),
{
    proof {
        lemma_source_index_bounds(u, 0, 0, 0);
        let sx = u.sx();
        let syz = u.sy() * u.sz();
        assert(0 <= sx * syz <= 256 * (256 * 256)) by (nonlinear_arith)
            requires
                1 <= sx <= 256,
                0 <= syz <= 256 * 256,
        ;
    }
    let volume: usize = (u.size_x as usize + 1) * ((u.size_y as usize + 1) * (u.size_z as usize
        + 1));
    assert(volume == u.volume()) by (nonlinear_arith)
        requires
            volume == u.sx() * (u.sy() * u.sz()),
    ;
    volume + (volume + 1) / 2
}

/// Applies update `u`, whose decompressed bytes are `raw`, to `storage`: each row of the
/// region goes into the section of the update's column that holds it, created when
/// absent and skipped when out of the vertical range; cells outside the column are
/// skipped; then the neighbouring sections are marked dirty.
pub fn apply_chunk_update(storage: &mut ChunkStorage, u: MapChunkUpdate, raw: &Vec<u8>)
    requires
        old(storage).wf(),
    ensures
        applied(u, raw@, *old(storage), *final(storage)),
{
    proof {
        crate::pos::lemma_chunk_brackets_block(u.block_x);
        crate::pos::lemma_chunk_brackets_block(u.block_z);
    }
    let chunk_x = chunk_of(u.block_x);
    let chunk_z = chunk_of(u.block_z);
    let start_x = (u.block_x - chunk_origin(chunk_x)) as u32;
    let start_z = (u.block_z - chunk_origin(chunk_z)) as u32;
    apply_rows(storage, u, chunk_x, chunk_z, start_x, start_z, raw);
    let ghost mid = *storage;
    mark_neighbors(storage, u, chunk_x, chunk_z);
    proof {
        let after = *storage;
        let before = *old(storage);
        assert forall|k: int, a: int, b: int, d: int|
            0 <= k < after.coords().len() && in_section(a, b, d) implies #[trigger] after.sections()[k].get(
                a,
                b,
                d,
            ) == if u.covers(after.coords()[k], a, b, d) {
                u.value_at(raw@, after.coords()[k], a, b, d)
            } else if k < before.coords().len() {
                before.sections()[k].get(a, b, d)
            } else {
                0u64
            } by {
            assert(after.sections()[k].cells == mid.sections()[k].cells);
            assert(mid.sections()[k].get(a, b, d) == after.sections()[k].get(a, b, d));
        }
        assert forall|c: ChunkCoordinate| u.spans(c) && before.valid(c) implies #[trigger] after.contains(c) by {
            assert(mid.contains(c));
            let j = mid.index_of(c);
            assert(after.coords()[j] == c);
        }
    }
}

/// Decompresses an update's payload and applies it to `storage`. A payload that
/// decompresses short leaves the rest of the buffer zero.
pub fn decode_chunk_update(storage: &mut ChunkStorage, u: MapChunkUpdate, compressed: &Vec<u8>)
    requires
        old(storage).wf(),
    ensures
        applied(u, inflated(u, compressed@), *old(storage), *final(storage)),
{
    let len = buffer_len(u);
    let mut raw: Vec<u8> = Vec::new();
    let mut i: usize = 0;
    while i < len
        invariant
            i <= len,
            raw@ == Seq::new(i as nat, |j: int| 0u8),
        decreases len - i,
    {
        raw.push(0u8);
        i = i + 1;
        assert(raw@ =~= Seq::new(i as nat, |j: int| 0u8));
    }
    zlib_read(compressed.as_slice(), &mut raw);
    apply_chunk_update(storage, u, &raw);
}

} // verus!
