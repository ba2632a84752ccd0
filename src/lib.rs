//! Ingestion of a minimal Wavefront-style geometry description: a single-pass
//! scanner that collects `v` positions and `f` triangle faces, and the
//! expansion of the resulting triangles into a flat vertex/index buffer pair.
pub mod text;
pub mod mesh;
pub mod scanner;
