use vstd::prelude::*;

use crate::chunk::{row_major, Chunk};
use crate::lattice::lemma_product_pair_at;
use crate::vertex::Vertex;

verus! {

/// Offset from a quad's near corner of the `k`-th of its six indices: the
/// triangle `(far, near + 1, near + row)` and then `(near, near + row, near + 1)`.
pub open spec fn corner_offset(w: int, k: int) -> int {
    if k == 0 {
        w + 2
    } else if k == 1 {
        1
    } else if k == 2 {
        w + 1
    } else if k == 3 {
        0
    } else if k == 4 {
        w + 1
    } else {
        1
    }
}

/// Vertex-buffer index of the near corner of quad `q` in a chunk `w` cells wide,
/// the quads being numbered row by row.
pub open spec fn quad_corner(w: int, q: int) -> int {
    (w + 1) * (q / w) + q % w
}

/// The `n`-th entry of the index buffer of a chunk `w` cells wide.
pub open spec fn mesh_index(w: int, n: int) -> int {
    quad_corner(w, n / 6) + corner_offset(w, n % 6)
}

/// A chunk whose mesh can be indexed with `u32` and whose global lattice
/// vertices fit in `i32`.
pub open spec fn meshable(chunk: Chunk) -> bool {
    &&& chunk.wf()
    &&& chunk.vertex_count() <= u32::MAX
    &&& i32::MIN <= chunk.origin_lattice().0
    &&& chunk.origin_lattice().0 + chunk.size.x <= i32::MAX
    &&& i32::MIN <= chunk.origin_lattice().1
    &&& chunk.origin_lattice().1 + chunk.size.z <= i32::MAX
}

/// `l` is the lattice layout of `chunk`'s mesh: the vertex buffer walks the
/// chunk row by row, in local and in global lattice coordinates, and the index
/// buffer holds two triangles for each quad.
pub open spec fn is_layout_of(chunk: Chunk, l: MeshLayout) -> bool {
    let w = chunk.size.x as int;
    &&& l.local@.len() == chunk.vertex_count()
    &&& l.global@.len() == chunk.vertex_count()
    &&& l.indices@.len() == chunk.quad_count() * 6
    &&& forall|i: int| 0 <= i < l.local@.len() ==> #[trigger] l.local@[i] == row_major(w, i)
    &&& forall|i: int|
        0 <= i < l.global@.len() ==> (#[trigger] l.global@[i]).x == chunk.origin_lattice().0
            + row_major(w, i).x && l.global@[i].z == chunk.origin_lattice().1 + row_major(w, i).z
    &&& forall|n: int| 0 <= n < l.indices@.len() ==> #[trigger] l.indices@[n] == mesh_index(w, n)
}

/// The lattice part of a chunk's mesh. Entry `i` of `local` and of `global` is
/// the `i`-th vertex of the vertex buffer, in chunk-local and in global lattice
/// coordinates; `indices` lists the triangles, three entries each.
pub struct MeshLayout {
    pub local: Vec<Vertex>,
    pub global: Vec<Vertex>,
    pub indices: Vec<u32>,
}

/// One chunk whose mesh is to be built.
#[derive(Clone, Copy, Debug)]
pub struct GridChunkMesh {
    pub chunk: Chunk,
}

impl GridChunkMesh {
    pub fn new(chunk: Chunk) -> (r: GridChunkMesh)
        ensures
            r.chunk == chunk,
    {
        GridChunkMesh { chunk }
    }

    /// The six indices of the quad whose near corner is `local_vertex`.
    fn get_quad_triangles(&self, local_vertex: Vertex) -> (r: [u32; 6])
        requires
            meshable(self.chunk),
            0 <= local_vertex.x < self.chunk.size.x,
            0 <= local_vertex.z < self.chunk.size.z,
        ensures
            forall|k: int|
                0 <= k < 6 ==> #[trigger] r@[k] == (self.chunk.size.x + 1) * local_vertex.z
                    + local_vertex.x + corner_offset(self.chunk.size.x as int, k),
    {
        let ghost w = self.chunk.size.x as int;
        let ghost d = self.chunk.size.z as int;
        let ghost z = local_vertex.z as int;
        let ghost x = local_vertex.x as int;
        proof {
            assert((w + 1) * z + x + w + 2 < (w + 1) * (d + 1)) by (nonlinear_arith)
                requires
                    0 <= x < w,
                    0 <= z < d,
            ;
        }
        let row_offset = self.chunk.size.x as u32 + 1;
        let quad_index = row_offset * local_vertex.z as u32 + local_vertex.x as u32;
        [
            quad_index + row_offset + 1,
            quad_index + 1,
            quad_index + row_offset,
            quad_index,
            quad_index + row_offset,
            quad_index + 1,
        ]
    }

    /// Quads that come before the vertex at `(x, z)` in the row-major walk and
    /// own an index block.
    spec fn quads_before(w: int, d: int, x: int, z: int) -> int {
        if z < d {
            z * w + x
        } else {
            d * w
        }
    }

    /// The lattice part of the mesh: the vertex buffer in row-major order, in
    /// local and global coordinates, and two triangles for every quad.
    pub fn build_layout(&self) -> (r: MeshLayout)
        requires
            meshable(self.chunk),
        ensures
            is_layout_of(self.chunk, r),
            forall|n: int| 0 <= n < r.indices@.len() ==> #[trigger] r.indices@[n] < self.chunk.vertex_count(),
            r.global@.len() > 0,
            r.global@[0].x == self.chunk.origin_lattice().0,
            r.global@[0].z == self.chunk.origin_lattice().1,
    {
        let ghost w = self.chunk.size.x as int;
        let ghost d = self.chunk.size.z as int;
        let origin = self.chunk.origin_vertex();
        let local = self.chunk.iter_by_row();
        let mut global: Vec<Vertex> = Vec::new();
        let mut indices: Vec<u32> = Vec::new();
        let ghost mut gx: int = 0;
        let ghost mut gz: int = 0;
        let mut i: usize = 0;
        while i < local.len()
            invariant
                meshable(self.chunk),
                w == self.chunk.size.x,
                d == self.chunk.size.z,
                origin.x == self.chunk.origin_lattice().0,
                origin.z == self.chunk.origin_lattice().1,
                local@.len() == (w + 1) * (d + 1),
                forall|j: int| 0 <= j < local@.len() ==> #[trigger] local@[j] == row_major(w, j),
                i <= local@.len(),
                0 <= gx <= w,
                0 <= gz,
                i == gz * (w + 1) + gx,
                global@.len() == i,
                forall|j: int|
                    0 <= j < i ==> (#[trigger] global@[j]).x == origin.x + row_major(w, j).x
                        && global@[j].z == origin.z + row_major(w, j).z,
                indices@.len() == 6 * Self::quads_before(w, d, gx, gz),
                forall|n: int| 0 <= n < indices@.len() ==> #[trigger] indices@[n] == mesh_index(w, n),
            decreases local@.len() - i,
        {
            proof {
                vstd::arithmetic::div_mod::lemma_fundamental_div_mod_converse(i as int, w + 1, gz, gx);
                assert(gz <= d) by (nonlinear_arith)
                    requires
                        i == gz * (w + 1) + gx,
                        i < (w + 1) * (d + 1),
                        0 <= gx <= w,
                        0 <= gz,
                ;
            }
            let vertex = local[i];
            assert(vertex.x == gx && vertex.z == gz);
            global.push(origin.add(vertex));
            if vertex.x < self.chunk.size.x && vertex.z < self.chunk.size.z {
                let tri = self.get_quad_triangles(vertex);
                let ghost q = gz * w + gx;
                let ghost start = indices@.len() as int;
                proof {
                    assert(start == 6 * q);
                    assert forall|k: int| 0 <= k < 6 implies (#[trigger] (6 * q + k)) / 6 == q && (6 * q
                        + k) % 6 == k by {
                        vstd::arithmetic::div_mod::lemma_fundamental_div_mod_converse(6 * q + k, 6, q, k);
                    }
                    lemma_product_pair_at(d, w, gz, gx);
                    assert(quad_corner(w, q) == (w + 1) * gz + gx);
                }
                let mut k: usize = 0;
                while k < 6
                    invariant
                        k <= 6,
                        indices@.len() == start + k,
                        start == 6 * q,
                        quad_corner(w, q) == (w + 1) * gz + gx,
                        forall|m: int| 0 <= m < 6 ==> #[trigger] tri@[m] == (w + 1) * gz + gx + corner_offset(w, m),
                        forall|m: int| 0 <= m < 6 ==> (#[trigger] (6 * q + m)) / 6 == q && (6 * q + m) % 6 == m,
                        forall|n: int| 0 <= n < indices@.len() ==> #[trigger] indices@[n] == mesh_index(w, n),
                    decreases 6 - k,
                {
                    proof {
                        assert((6 * q + k) / 6 == q && (6 * q + k) % 6 == k);
                    }
                    indices.push(tri[k]);
                    k = k + 1;
                }
            }
            proof {
                let oz = gz;
                if gx < w {
                    gx = gx + 1;
                } else {
                    gx = 0;
                    gz = oz + 1;
                    assert((oz + 1) * (w + 1) == oz * (w + 1) + w + 1) by (nonlinear_arith);
                    assert((oz + 1) * w == oz * w + w) by (nonlinear_arith);
                }
            }
            i = i + 1;
        }
        proof {
            assert(gz == d + 1 && gx == 0) by (nonlinear_arith)
                requires
                    i == gz * (w + 1) + gx,
                    i == (w + 1) * (d + 1),
                    0 <= gx <= w,
                    0 <= gz,
            ;
            assert(d * w == w * d) by (nonlinear_arith);
            assert forall|n: int| 0 <= n < indices@.len() implies #[trigger] indices@[n] < self.chunk.vertex_count() by {
                lemma_mesh_index_bound(w, d, n);
            }
        }
        proof {
            assert((w + 1) * (d + 1) > 0) by (nonlinear_arith)
                requires
                    w > 0,
                    d > 0,
            ;
            assert(row_major(w, 0) == (Vertex { x: 0, z: 0 }));
        }
        MeshLayout { local, global, indices }
    }

    /// The lattice part of the mesh, or `None` when the chunk is not
    /// well formed, its vertices cannot be indexed with `u32`, or its global
    /// lattice vertices leave the range of `i32`.
    pub fn checked_layout(&self) -> (r: Option<MeshLayout>)
        ensures
            r is Some <==> meshable(self.chunk),
            r matches Some(l) ==> is_layout_of(self.chunk, l),
    {
        let size = self.chunk.size;
        let origin = self.chunk.origin;
        if size.x <= 0 || size.x == i32::MAX || size.z <= 0 || size.z == i32::MAX {
            return None;
        }
        let columns = size.x as u64 + 1;
        let rows = size.z as u64 + 1;
        proof {
            assert(columns * rows <= 0x8000_0000u64 * 0x8000_0000u64) by (nonlinear_arith)
                requires
                    columns <= 0x8000_0000u64,
                    rows <= 0x8000_0000u64,
            ;
        }
        if columns > u32::MAX as u64 || rows > u32::MAX as u64 || columns * rows > u32::MAX as u64 {
            return None;
        }
        let ghost ox = origin.x as int * size.x as int;
        let ghost oz = origin.z as int * size.z as int;
        proof {
            assert(-0x8000_0000 * 0x7fff_ffff <= ox <= 0x8000_0000 * 0x7fff_ffff) by (nonlinear_arith)
                requires
                    ox == origin.x as int * size.x as int,
                    i32::MIN <= origin.x <= i32::MAX,
                    0 < size.x < i32::MAX,
            ;
            assert(-0x8000_0000 * 0x7fff_ffff <= oz <= 0x8000_0000 * 0x7fff_ffff) by (nonlinear_arith)
                requires
                    oz == origin.z as int * size.z as int,
                    i32::MIN <= origin.z <= i32::MAX,
                    0 < size.z < i32::MAX,
            ;
        }
        let start_x = origin.x as i64 * size.x as i64;
        let start_z = origin.z as i64 * size.z as i64;
        if start_x < i32::MIN as i64 || start_x + size.x as i64 > i32::MAX as i64 || start_z
            < i32::MIN as i64 || start_z + size.z as i64 > i32::MAX as i64 {
            return None;
        }
        Some(self.build_layout())
    }

    pub fn count_vertices(&self) -> (r: usize)
        requires
            self.chunk.wf(),
            self.chunk.vertex_count() <= usize::MAX,
        ensures
            r == self.chunk.vertex_count(),
    {
        self.chunk.count_columns() as usize * self.chunk.count_rows() as usize
    }

    pub fn count_indices(&self) -> (r: usize)
        requires
            self.chunk.wf(),
            self.chunk.quad_count() * 6 <= usize::MAX,
        ensures
            r == self.chunk.quad_count() * 6,
    {
        self.chunk.width() as usize * self.chunk.depth() as usize * 6
    }
}

/// Every entry of the index buffer of a `w` by `d` chunk names one of its
/// `(w + 1) * (d + 1)` vertices.
pub proof fn lemma_mesh_index_bound(w: int, d: int, n: int)
    requires
        w > 0,
        d > 0,
        0 <= n < w * d * 6,
    ensures
        0 <= mesh_index(w, n) < (w + 1) * (d + 1),
{
    let q = n / 6;
    assert(0 <= q < w * d) by {
        vstd::arithmetic::div_mod::lemma_fundamental_div_mod(n, 6);
    }
    assert(0 <= q / w < d && 0 <= q % w < w) by {
        vstd::arithmetic::div_mod::lemma_fundamental_div_mod(q, w);
        assert(0 <= q / w < d) by (nonlinear_arith)
            requires
                w > 0,
                0 <= q < w * d,
                q == w * (q / w) + q % w,
                0 <= q % w < w,
        ;
    }
    let z = q / w;
    let x = q % w;
    let k = n % 6;
    assert(0 <= k < 6);
    assert(0 <= corner_offset(w, k) <= w + 2);
    assert(mesh_index(w, n) == (w + 1) * z + x + corner_offset(w, k));
    assert((w + 1) * z + x + w + 2 < (w + 1) * (d + 1)) by (nonlinear_arith)
        requires
            0 <= x < w,
            0 <= z < d,
    ;
    assert(0 <= (w + 1) * z) by (nonlinear_arith)
        requires
            0 <= z,
            w > 0,
    ;
}

} // verus!
