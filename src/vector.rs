use vstd::prelude::*;

verus! {

/// A triple of coordinates, in whichever unit the owner uses (grid cells or
/// vertex indices).
#[derive(Debug, PartialEq, Eq, Clone, Copy)]
pub struct Vec3<T> {
    pub x: T,
    pub y: T,
    pub z: T,
}

impl<T> Vec3<T> {
    pub fn new(x: T, y: T, z: T) -> (r: Self)
        ensures
            r.x == x,
            r.y == y,
            r.z == z,
    {
        Vec3 { x, y, z }
    }
}

} // verus!
