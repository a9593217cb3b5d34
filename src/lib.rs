//! Streams an endless XZ-plane terrain as a square window of chunks around a
//! tracked chunk: the lattice of vertices, the chunks cut out of it, the window
//! of chunks in play, the index layout of each chunk's mesh, and the ledger that
//! reconciles spawned chunks with the window.

pub mod chunk;
pub mod grid;
pub mod lattice;
pub mod mesh;
pub mod registry;
pub mod vertex;

pub use chunk::Chunk;
pub use grid::{ConfigError, Grid};
pub use mesh::{GridChunkMesh, MeshLayout};
pub use registry::GridChunks;
pub use vertex::Vertex;
