use vstd::prelude::*;

verus! {

/// An integer cell of the block grid.
#[derive(Clone, Copy, Debug, PartialEq, Eq, Structural, Hash)]
pub struct BlockPos {
    pub x: i32,
    pub y: i32,
    pub z: i32,
}

impl BlockPos {
    pub fn new(x: i32, y: i32, z: i32) -> (r: BlockPos)
        ensures
            r.x == x,
            r.y == y,
            r.z == z,
    {
        BlockPos { x, y, z }
    }
}

} // verus!
