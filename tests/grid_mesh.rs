use bevy_grid_mesh::{Chunk, ConfigError, Grid, GridChunkMesh, GridChunks, Vertex};

fn v(x: i32, z: i32) -> Vertex {
    Vertex::new(x, z)
}

#[test]
fn vertex_add_and_saturate() {
    assert_eq!(v(1, -2).add(v(3, 4)), v(4, 2));
    assert_eq!(v(i32::MAX - 1, 0).saturating_add(v(3, 3)), v(i32::MAX, 3));
    assert_eq!(v(i32::MIN + 1, 5).saturating_sub(v(3, 3)), v(i32::MIN, 2));
    assert_eq!(v(10, -10).saturating_sub(v(3, 3)), v(7, -13));
}

#[test]
fn chunk_derived_quantities() {
    let c = Chunk::new(v(-2, 3), v(4, 5));
    assert_eq!(c.count_columns(), 5);
    assert_eq!(c.count_rows(), 6);
    assert_eq!(c.area(), 20);
    assert_eq!(c.width(), 4);
    assert_eq!(c.depth(), 5);
    assert_eq!(c.origin_vertex(), v(-8, 15));
}

#[test]
fn chunk_default() {
    let c = Chunk::default();
    assert_eq!(c.origin, v(0, 0));
    assert_eq!(c.size, v(40, 40));
}

#[test]
fn iter_by_row_is_row_major() {
    let c = Chunk::new(v(0, 0), v(2, 1));
    let got = c.iter_by_row();
    let want = vec![v(0, 0), v(1, 0), v(2, 0), v(0, 1), v(1, 1), v(2, 1)];
    assert_eq!(got, want);
}

#[test]
fn grid_window_at_origin() {
    let mut g = Grid::new(v(2, 2));
    g.update(v(0, 0));
    let in_play = g.chunks_in_play();
    assert_eq!(in_play.len(), 49);
    let mut expected = Vec::new();
    for x in -3..=3 {
        for z in -3..=3 {
            expected.push(v(x, z));
        }
    }
    assert_eq!(in_play, &expected);
    assert!(g.contains(v(3, -3)));
    assert!(!g.contains(v(4, 0)));
}

#[test]
fn grid_window_moves_with_center() {
    let mut g = Grid::default();
    g.update(v(10, -5));
    assert_eq!(g.chunks_in_play().len(), 49);
    assert_eq!(g.chunks_in_play()[0], v(7, -8));
    assert_eq!(g.chunks_in_play()[48], v(13, -2));
    g.update(v(0, 0));
    assert_eq!(g.chunks_in_play().len(), 49);
    assert!(!g.contains(v(10, -5)));
}

#[test]
fn grid_window_saturates_at_integer_edge() {
    let mut g = Grid::new(v(2, 2));
    g.update(v(i32::MAX, i32::MIN));
    // four columns reach the edge, four rows reach the other
    assert_eq!(g.chunks_in_play().len(), 16);
    assert!(g.contains(v(i32::MAX, i32::MIN)));
    assert!(g.contains(v(i32::MAX - 3, i32::MIN + 3)));
}

#[test]
fn grid_rejects_bad_chunk_size() {
    assert_eq!(Grid::try_new(v(0, 4)).err(), Some(ConfigError::InvalidChunkSize));
    assert_eq!(Grid::try_new(v(4, -1)).err(), Some(ConfigError::InvalidChunkSize));
    assert_eq!(Grid::try_new(v(i32::MAX, 1)).err(), Some(ConfigError::InvalidChunkSize));
    let g = Grid::try_new(v(3, 4)).unwrap();
    assert_eq!(g.chunk_size(), v(3, 4));
    assert!(g.chunks_in_play().is_empty());
}

#[test]
fn mesh_sizing_small_chunk() {
    let m = GridChunkMesh::new(Chunk::new(v(0, 0), v(2, 2)));
    assert_eq!(m.count_vertices(), 9);
    assert_eq!(m.count_indices(), 24);
    let layout = m.build_layout();
    assert_eq!(layout.local.len(), 9);
    assert_eq!(layout.global.len(), 9);
    assert_eq!(layout.indices.len(), 24);
    assert!(layout.indices.iter().all(|&i| i < 9));
    // lattice (1, 1) is the fifth vertex of the buffer
    assert_eq!(layout.local[4], v(1, 1));
    assert_eq!(layout.global[4], v(1, 1));
}

#[test]
fn mesh_index_winding() {
    let m = GridChunkMesh::new(Chunk::new(v(0, 0), v(2, 2)));
    let layout = m.build_layout();
    assert_eq!(&layout.indices[0..6], &[4, 1, 3, 0, 3, 1]);
    assert_eq!(&layout.indices[6..12], &[5, 2, 4, 1, 4, 2]);
    assert_eq!(&layout.indices[18..24], &[8, 5, 7, 4, 7, 5]);
}

#[test]
fn mesh_rectangular_chunk() {
    let m = GridChunkMesh::new(Chunk::new(v(0, 0), v(3, 1)));
    assert_eq!(m.count_vertices(), 8);
    assert_eq!(m.count_indices(), 18);
    let layout = m.build_layout();
    assert_eq!(
        layout.indices,
        vec![5, 1, 4, 0, 4, 1, 6, 2, 5, 1, 5, 2, 7, 3, 6, 2, 6, 3]
    );
}

#[test]
fn mesh_global_vertices_start_at_origin() {
    let m = GridChunkMesh::new(Chunk::new(v(-1, 2), v(2, 3)));
    let layout = m.build_layout();
    assert_eq!(layout.global[0], v(-2, 6));
    assert_eq!(layout.global[11], v(0, 9));
    assert_eq!(layout.local[11], v(2, 3));
}

fn reconcile(chunks: &mut GridChunks<u32>, grid: &Grid, next_handle: &mut u32) -> (usize, usize) {
    let removed = chunks.evict_stale(grid.chunks_in_play());
    let missing = chunks.missing(grid.chunks_in_play());
    for c in &missing {
        chunks.register(*c, vec![*next_handle]);
        *next_handle += 1;
    }
    (removed.len(), missing.len())
}

#[test]
fn reconcile_fills_and_evicts() {
    let mut g = Grid::new(v(2, 2));
    let mut chunks: GridChunks<u32> = GridChunks::new();
    let mut next = 0;
    g.update(v(0, 0));
    assert_eq!(reconcile(&mut chunks, &g, &mut next), (0, 49));
    assert_eq!(chunks.len(), 49);
    for c in g.chunks_in_play() {
        assert!(chunks.contains_key(*c));
    }
    g.update(v(1, 0));
    let removed = chunks.evict_stale(g.chunks_in_play());
    let mut keys: Vec<Vertex> = removed.iter().map(|e| e.0).collect();
    keys.sort_by_key(|k| k.z);
    assert_eq!(keys, (-3..=3).map(|z| v(-3, z)).collect::<Vec<_>>());
    assert_eq!(removed[0].1, vec![0]);
    let missing = chunks.missing(g.chunks_in_play());
    assert_eq!(missing, (-3..=3).map(|z| v(4, z)).collect::<Vec<_>>());
}

#[test]
fn reconcile_twice_is_no_op() {
    let mut g = Grid::new(v(2, 2));
    let mut chunks: GridChunks<u32> = GridChunks::new();
    let mut next = 0;
    g.update(v(5, 5));
    reconcile(&mut chunks, &g, &mut next);
    assert_eq!(reconcile(&mut chunks, &g, &mut next), (0, 0));
    assert_eq!(chunks.len(), 49);
    assert_eq!(chunks.get(v(5, 5)), Some(&vec![24]));
    assert_eq!(chunks.get(v(9, 5)), None);
}

#[test]
fn checked_layout_refuses_unbuildable_chunks() {
    let ok = GridChunkMesh::new(Chunk::new(v(1, 1), v(2, 2)));
    let layout = ok.checked_layout().unwrap();
    assert_eq!(layout.global[0], v(2, 2));
    assert_eq!(layout.indices.len(), 24);
    let far = GridChunkMesh::new(Chunk::new(v(i32::MAX / 2, 0), v(4, 4)));
    assert!(far.checked_layout().is_none());
    let empty = GridChunkMesh::new(Chunk { size: v(0, 3), origin: v(0, 0) });
    assert!(empty.checked_layout().is_none());
    let huge = GridChunkMesh::new(Chunk::new(v(0, 0), v(100_000, 100_000)));
    assert!(huge.checked_layout().is_none());
}

#[test]
fn vertex_from_pair() {
    let p: Vertex = (4, -9).into();
    assert_eq!(p, Vertex::new(4, -9));
}
