use vstd::prelude::*;

verus! {

/// A point of the integer lattice that spans the XZ plane.
#[derive(Clone, Copy, Debug, PartialEq, Eq, Structural, Hash)]
pub struct Vertex {
    pub x: i32,
    pub z: i32,
}

/// Clamps a mathematical integer into the range of `i32`.
pub open spec fn clamp_i32(v: int) -> int {
    if v < i32::MIN {
        i32::MIN as int
    } else if v > i32::MAX {
        i32::MAX as int
    } else {
        v
    }
}

fn clamped_sum(v: i64) -> (r: i32)
    ensures
        r == clamp_i32(v as int),
{
    if v < i32::MIN as i64 {
        i32::MIN
    } else if v > i32::MAX as i64 {
        i32::MAX
    } else {
        v as i32
    }
}

impl Vertex {
    pub fn new(x: i32, z: i32) -> (r: Vertex)
        ensures
            r.x == x,
            r.z == z,
    {
        Vertex { x, z }
    }

    /// Componentwise sum; both sums must fit in `i32`.
    pub fn add(self, other: Vertex) -> (r: Vertex)
        requires
            i32::MIN <= self.x + other.x <= i32::MAX,
            i32::MIN <= self.z + other.z <= i32::MAX,
        ensures
            r.x == self.x + other.x,
            r.z == self.z + other.z,
    {
        Vertex { x: self.x + other.x, z: self.z + other.z }
    }

    /// Componentwise sum, clamped to the range of `i32`.
    pub fn saturating_add(self, other: Vertex) -> (r: Vertex)
        ensures
            r.x == clamp_i32(self.x + other.x),
            r.z == clamp_i32(self.z + other.z),
    {
        Vertex { x: clamped_sum(self.x as i64 + other.x as i64), z: clamped_sum(self.z as i64 + other.z as i64) }
    }

    /// Componentwise difference, clamped to the range of `i32`.
    pub fn saturating_sub(self, other: Vertex) -> (r: Vertex)
        ensures
            r.x == clamp_i32(self.x - other.x),
            r.z == clamp_i32(self.z - other.z),
    {
        Vertex { x: clamped_sum(self.x as i64 - other.x as i64), z: clamped_sum(self.z as i64 - other.z as i64) }
    }
}

impl From<(i32, i32)> for Vertex {
    fn from(xz: (i32, i32)) -> (r: Vertex) {
        Vertex { x: xz.0, z: xz.1 }
    }
}

impl vstd::std_specs::convert::FromSpecImpl<(i32, i32)> for Vertex {
    open spec fn obeys_from_spec() -> bool {
        true
    }

    open spec fn from_spec(xz: (i32, i32)) -> Vertex {
        Vertex { x: xz.0, z: xz.1 }
    }
}

} // verus!
