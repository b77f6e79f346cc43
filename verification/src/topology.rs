//! Plain descriptions shared by builders, meshes and bindings.

use vstd::prelude::*;

verus! {

/// How vertices are assembled into primitives.
#[derive(Clone, Copy, Debug, PartialEq, Eq, Hash, Structural)]
pub enum Primitive {
    /// Each vertex is a point.
    PointList,
    /// Each pair of vertices is a line segment.
    LineList,
    /// Every two consecutive vertices are a line segment.
    LineStrip,
    /// Each triplet of vertices is a triangle.
    TriangleList,
    /// Every three consecutive vertices are a triangle.
    TriangleStrip,
    /// Patches of the given number of control points.
    PatchList(u8),
}

/// The width of one index.
#[derive(Clone, Copy, Debug, PartialEq, Eq, Hash, Structural)]
pub enum IndexType {
    /// Two bytes per index.
    U16,
    /// Four bytes per index.
    U32,
}

impl IndexType {
    /// Bytes per index.
    pub open spec fn bytes_per_index(self) -> nat {
        match self {
            IndexType::U16 => 2,
            IndexType::U32 => 4,
        }
    }

    /// Bytes per index.
    pub fn width(self) -> (w: usize)
        ensures
            w == self.bytes_per_index(),
    {
        match self {
            IndexType::U16 => 2,
            IndexType::U32 => 4,
        }
    }
}

} // verus!
