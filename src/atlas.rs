//! Entries of a texture atlas laid out as a regular grid.

use vstd::prelude::*;

verus! {

/// A texture placed in one cell of a uniform atlas grid.
#[derive(Clone, Debug)]
pub struct UniformAtlasTextureType {
    pub cell: u32,
    pub identifier: String,
}

} // verus!
