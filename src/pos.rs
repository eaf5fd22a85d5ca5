//! Block and chunk coordinates.

use vstd::prelude::*;

verus! {

/// Edge length of a chunk section, in blocks.
pub const CHUNK_SECTION_AXIS_SIZE: usize = 16;

/// An absolute block coordinate in the world.
#[derive(Clone, Copy, Debug, PartialEq, Eq, Structural)]
pub struct BlockPos {
    pub x: i32,
    pub y: i32,
    pub z: i32,
}

impl BlockPos {
    pub fn new(x: i32, y: i32, z: i32) -> (r: BlockPos)
        ensures
            r == (BlockPos { x, y, z }),
    {
        BlockPos { x, y, z }
    }
}

/// The coordinate of one section: chunk column `(x, z)` and vertical section index `y`.
#[derive(Clone, Copy, Debug, PartialEq, Eq, Structural)]
pub struct ChunkCoordinate {
    pub x: i32,
    pub y: i32,
    pub z: i32,
}

impl ChunkCoordinate {
    pub fn new(x: i32, y: i32, z: i32) -> (r: ChunkCoordinate)
        ensures
            r == (ChunkCoordinate { x, y, z }),
    {
        ChunkCoordinate { x, y, z }
    }
}

/// The horizontal position of a chunk column.
#[derive(Clone, Copy, Debug, PartialEq, Eq, Structural)]
pub struct ColumnPos {
    pub x: i32,
    pub z: i32,
}

impl ColumnPos {
    pub fn new(x: i32, z: i32) -> (r: ColumnPos)
        ensures
            r == (ColumnPos { x, z }),
    {
        ColumnPos { x, z }
    }
}

/// Floor division by the section size (`/` on `int` rounds toward negative infinity
/// for a positive divisor).
pub open spec fn floor_div16(v: int) -> int {
    v / 16
}

/// The chunk that holds block coordinate `x`: `x >> 4`.
pub fn chunk_of(x: i32) -> (r: i32)
    ensures
        r == floor_div16(x as int),
        r * 16 <= x < r * 16 + 16,
{
    let r = x >> 4;
    assert((x >> 4) as int * 16 <= x as int && (x as int) < (x >> 4) as int * 16 + 16)
        by (bit_vector);
    r
}

/// The block coordinate of the first block of chunk `c`: `c << 4`.
pub fn chunk_origin(c: i32) -> (r: i32)
    requires
        -0x0800_0000 <= c < 0x0800_0000,
    ensures
        r == c * 16,
{
    assert(-0x0800_0000 <= c < 0x0800_0000 ==> c << 4 == c * 16) by (bit_vector);
    c << 4
}

/// The chunk that holds block coordinate `x`, followed by its origin, brackets `x`.
pub proof fn lemma_chunk_brackets_block(x: i32)
    ensures
        floor_div16(x as int) * 16 <= x < floor_div16(x as int) * 16 + 16,
        -0x0800_0000 <= floor_div16(x as int) < 0x0800_0000,
{
}

} // verus!
