use vstd::prelude::*;

use crate::lattice::{product_pair, range_product};
use crate::vertex::Vertex;

verus! {

/// A rectangular block of the lattice. `origin` is given in chunk units;
/// `size` counts the lattice cells along each axis.
#[derive(Clone, Copy, Debug, PartialEq, Eq, Structural, Hash)]
pub struct Chunk {
    pub size: Vertex,
    pub origin: Vertex,
}

/// A chunk extent is usable when both axes hold at least one cell and one
/// more vertex than cells still fits in `i32`.
pub open spec fn valid_size(size: Vertex) -> bool {
    0 < size.x < i32::MAX && 0 < size.z < i32::MAX
}

/// The vertex at position `i` of a row-major walk over `[0, w] x [0, d]`.
pub open spec fn row_major(w: int, i: int) -> Vertex {
    Vertex { x: (i % (w + 1)) as i32, z: (i / (w + 1)) as i32 }
}

impl Chunk {
    pub open spec fn wf(self) -> bool {
        valid_size(self.size)
    }

    /// Number of lattice vertices the chunk covers, its edges included.
    pub open spec fn vertex_count(self) -> int {
        (self.size.x + 1) * (self.size.z + 1)
    }

    /// Number of cells (quads) the chunk covers.
    pub open spec fn quad_count(self) -> int {
        self.size.x * self.size.z
    }

    /// The first lattice vertex of the chunk, in global lattice coordinates.
    pub open spec fn origin_lattice(self) -> (int, int) {
        (self.origin.x * self.size.x, self.origin.z * self.size.z)
    }

    pub fn new(origin: Vertex, size: Vertex) -> (r: Chunk)
        requires
            valid_size(size),
        ensures
            r.origin == origin,
            r.size == size,
            r.wf(),
    {
        Chunk { size, origin }
    }

    pub fn count_columns(&self) -> (r: i32)
        requires
            self.wf(),
        ensures
            r == self.size.x + 1,
    {
        self.size.x + 1
    }

    pub fn count_rows(&self) -> (r: i32)
        requires
            self.wf(),
        ensures
            r == self.size.z + 1,
    {
        self.size.z + 1
    }

    pub fn area(&self) -> (r: i32)
        requires
            self.wf(),
            self.quad_count() <= i32::MAX,
        ensures
            r == self.quad_count(),
    {
        self.size.x * self.size.z
    }

    pub fn width(&self) -> (r: i32)
        ensures
            r == self.size.x,
    {
        self.size.x
    }

    pub fn depth(&self) -> (r: i32)
        ensures
            r == self.size.z,
    {
        self.size.z
    }

    /// The origin scaled by the size: the first lattice vertex the chunk covers.
    pub fn origin_vertex(&self) -> (r: Vertex)
        requires
            i32::MIN <= self.origin_lattice().0 <= i32::MAX,
            i32::MIN <= self.origin_lattice().1 <= i32::MAX,
        ensures
            r.x == self.origin_lattice().0,
            r.z == self.origin_lattice().1,
    {
        Vertex::new(self.origin.x * self.size.x, self.origin.z * self.size.z)
    }

    /// Every local vertex of `[0, width] x [0, depth]`, row by row: `z` in the
    /// outer order, `x` in the inner one.
    pub fn iter_by_row(&self) -> (r: Vec<Vertex>)
        requires
            self.wf(),
            self.vertex_count() <= usize::MAX,
        ensures
            r@.len() == self.vertex_count(),
            forall|i: int| 0 <= i < r@.len() ==> #[trigger] r@[i] == row_major(self.size.x as int, i),
    {
        proof {
            let w = self.size.x as int;
            let d = self.size.z as int;
            assert((d - 0 + 1) * (w - 0 + 1) == (w + 1) * (d + 1)) by (nonlinear_arith);
        }
        let pairs = range_product(0, self.size.z, 0, self.size.x);
        let mut out: Vec<Vertex> = Vec::new();
        let mut i: usize = 0;
        while i < pairs.len()
            invariant
                i <= pairs@.len(),
                pairs@.len() == self.vertex_count(),
                out@.len() == i,
                forall|j: int|
                    0 <= j < pairs@.len() ==> (#[trigger] pairs@[j]).0 == product_pair(0, 0, self.size.x + 1, j).0
                        && pairs@[j].1 == product_pair(0, 0, self.size.x + 1, j).1,
                forall|j: int| 0 <= j < i ==> #[trigger] out@[j] == row_major(self.size.x as int, j),
            decreases pairs@.len() - i,
        {
            let (z, x) = pairs[i];
            out.push(Vertex { x, z });
            i = i + 1;
        }
        out
    }
}

impl Default for Chunk {
    fn default() -> (r: Chunk)
        ensures
            r.origin == (Vertex { x: 0, z: 0 }),
            r.size == (Vertex { x: 40, z: 40 }),
    {
        Chunk::new(Vertex::new(0, 0), Vertex::new(40, 40))
    }
}

} // verus!
