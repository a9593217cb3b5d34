use vstd::prelude::*;

use crate::chunk::valid_size;
use crate::lattice::{
    lemma_product_pair_at, lemma_product_pair_bounds, lemma_product_pair_injective, product_pair,
    range_product,
};
use crate::vertex::{clamp_i32, Vertex};

verus! {

/// Half-width, in chunks, of the square of chunks kept around the tracked chunk.
pub const VISIBLE_CHUNKS_RANGE: i32 = 3;

/// The inclusive bounds `(left, right, back, forward)` of the window of chunks
/// around `center`, clamped to the range of `i32`.
pub open spec fn window_bounds(center: Vertex) -> (int, int, int, int) {
    (
        clamp_i32(center.x - VISIBLE_CHUNKS_RANGE),
        clamp_i32(center.x + VISIBLE_CHUNKS_RANGE),
        clamp_i32(center.z - VISIBLE_CHUNKS_RANGE),
        clamp_i32(center.z + VISIBLE_CHUNKS_RANGE),
    )
}

pub open spec fn in_window(center: Vertex, v: Vertex) -> bool {
    let (left, right, back, forward) = window_bounds(center);
    left <= v.x <= right && back <= v.z <= forward
}

/// The chunk coordinates in play around `center`.
pub open spec fn window_set(center: Vertex) -> Set<Vertex> {
    Set::new(|v: Vertex| in_window(center, v))
}

/// Number of chunk coordinates in the window around `center`.
pub open spec fn window_len(center: Vertex) -> int {
    let (left, right, back, forward) = window_bounds(center);
    (right - left + 1) * (forward - back + 1)
}

/// Chunks along each side of the window: the tracked chunk and the visible
/// range on both sides of it.
pub open spec fn window_side() -> int {
    2 * VISIBLE_CHUNKS_RANGE + 1
}

/// The window far enough from the ends of `i32` that no bound is clamped.
pub open spec fn unclamped(center: Vertex) -> bool {
    i32::MIN + VISIBLE_CHUNKS_RANGE <= center.x <= i32::MAX - VISIBLE_CHUNKS_RANGE
        && i32::MIN + VISIBLE_CHUNKS_RANGE <= center.z <= i32::MAX - VISIBLE_CHUNKS_RANGE
}

/// A rejected terrain configuration.
#[derive(Clone, Copy, Debug, PartialEq, Eq, Structural)]
pub enum ConfigError {
    /// A chunk extent must hold at least one cell along each axis, and one
    /// more vertex than cells must fit in `i32`.
    InvalidChunkSize,
}

/// The chunks of the XZ plane that are in play around one tracked chunk.
#[derive(Clone, Debug)]
pub struct Grid {
    chunks_in_play: Vec<Vertex>,
    chunk_size: Vertex,
}

impl Grid {
    pub closed spec fn in_play(self) -> Seq<Vertex> {
        self.chunks_in_play@
    }

    pub closed spec fn size(self) -> Vertex {
        self.chunk_size
    }

    pub closed spec fn wf(self) -> bool {
        valid_size(self.chunk_size) && self.chunks_in_play@.no_duplicates()
    }

    pub fn new(chunk_size: Vertex) -> (r: Grid)
        requires
            valid_size(chunk_size),
        ensures
            r.wf(),
            r.size() == chunk_size,
            r.in_play().len() == 0,
    {
        Grid { chunks_in_play: Vec::new(), chunk_size }
    }

    /// Checks the chunk extent before building a grid.
    pub fn try_new(chunk_size: Vertex) -> (r: Result<Grid, ConfigError>)
        ensures
            r is Ok <==> valid_size(chunk_size),
            r matches Ok(g) ==> g.wf() && g.size() == chunk_size && g.in_play().len() == 0,
            r matches Err(e) ==> e == ConfigError::InvalidChunkSize,
    {
        if 0 < chunk_size.x && chunk_size.x < i32::MAX && 0 < chunk_size.z && chunk_size.z < i32::MAX {
            Ok(Grid::new(chunk_size))
        } else {
            Err(ConfigError::InvalidChunkSize)
        }
    }

    /// What a well-formed grid guarantees to its users.
    pub proof fn lemma_wf(self)
        requires
            self.wf(),
        ensures
            valid_size(self.size()),
            self.in_play().no_duplicates(),
    {
    }

    /// The chunk coordinates in play, in the order `update` produced them.
    pub fn chunks_in_play(&self) -> (r: &Vec<Vertex>)
        ensures
            r@ == self.in_play(),
    {
        &self.chunks_in_play
    }

    pub fn chunk_size(&self) -> (r: Vertex)
        ensures
            r == self.size(),
    {
        self.chunk_size
    }

    /// Whether `v` is in play.
    pub fn contains(&self, v: Vertex) -> (r: bool)
        ensures
            r == self.in_play().contains(v),
    {
        let mut i: usize = 0;
        while i < self.chunks_in_play.len()
            invariant
                i <= self.chunks_in_play@.len(),
                forall|j: int| 0 <= j < i ==> self.chunks_in_play@[j] != v,
            decreases self.chunks_in_play@.len() - i,
        {
            if self.chunks_in_play[i] == v {
                return true;
            }
            i = i + 1;
        }
        false
    }

    /// Replaces the chunks in play by the square window around `center`, the
    /// chunk that holds the tracked position: `x` in the outer order, `z` in the
    /// inner one.
    pub fn update(&mut self, center: Vertex)
        requires
            old(self).wf(),
        ensures
            final(self).wf(),
            final(self).size() == old(self).size(),
            final(self).in_play().len() == window_len(center),
            final(self).in_play().to_set() == window_set(center),
            final(self).in_play().no_duplicates(),
            forall|i: int|
                0 <= i < final(self).in_play().len() ==> (#[trigger] final(self).in_play()[i]).x
                    == product_pair(window_bounds(center).0, window_bounds(center).2,
                        window_bounds(center).3 - window_bounds(center).2 + 1, i).0
                    && final(self).in_play()[i].z == product_pair(window_bounds(center).0,
                        window_bounds(center).2, window_bounds(center).3 - window_bounds(center).2 + 1, i).1,
            unclamped(center) ==> final(self).in_play().len() == window_side() * window_side(),
            unclamped(center) ==> final(self).in_play().len() == 49,
    {
        let range = Vertex::new(VISIBLE_CHUNKS_RANGE, VISIBLE_CHUNKS_RANGE);
        let low = center.saturating_sub(range);
        let high = center.saturating_add(range);
        let ghost (left, right, back, forward) = window_bounds(center);
        let ghost na = right - left + 1;
        let ghost nb = forward - back + 1;
        proof {
            assert(1 <= na <= 7 && 1 <= nb <= 7);
            assert(na * nb <= 49) by (nonlinear_arith)
                requires
                    1 <= na <= 7,
                    1 <= nb <= 7,
            ;
        }
        let pairs = range_product(low.x, high.x, low.z, high.z);
        let mut out: Vec<Vertex> = Vec::new();
        let mut i: usize = 0;
        while i < pairs.len()
            invariant
                i <= pairs@.len(),
                pairs@.len() == na * nb,
                nb > 0,
                out@.len() == i,
                forall|j: int|
                    0 <= j < pairs@.len() ==> (#[trigger] pairs@[j]).0 == product_pair(left, back, nb, j).0
                        && pairs@[j].1 == product_pair(left, back, nb, j).1,
                forall|j: int|
                    0 <= j < i ==> (#[trigger] out@[j]).x == product_pair(left, back, nb, j).0
                        && out@[j].z == product_pair(left, back, nb, j).1,
            decreases pairs@.len() - i,
        {
            let (x, z) = pairs[i];
            out.push(Vertex { x, z });
            i = i + 1;
        }
        proof {
            let s = out@;
            assert forall|a: int, b: int| 0 <= a < s.len() && 0 <= b < s.len() && a != b implies s[a]
                != s[b] by {
                lemma_product_pair_injective(nb, a, b);
            }
            assert forall|v: Vertex| s.contains(v) <==> in_window(center, v) by {
                if s.contains(v) {
                    let j = choose|j: int| 0 <= j < s.len() && s[j] == v;
                    lemma_product_pair_bounds(na, nb, j);
                }
                if in_window(center, v) {
                    let p = v.x - left;
                    let q = v.z - back;
                    lemma_product_pair_at(na, nb, p, q);
                    let j = p * nb + q;
                    assert(s[j] == v);
                }
            }
            assert(s.to_set() =~= window_set(center));
            if unclamped(center) {
                assert(na == 7 && nb == 7);
                assert(na * nb == 49) by (nonlinear_arith)
                    requires
                        na == 7,
                        nb == 7,
                ;
            }
        }
        self.chunks_in_play = out;
    }
}

impl Default for Grid {
    fn default() -> (r: Grid)
        ensures
            r.wf(),
            r.size() == (Vertex { x: 40, z: 40 }),
            r.in_play().len() == 0,
    {
        Grid::new(Vertex::new(40, 40))
    }
}

} // verus!
