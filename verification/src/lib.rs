//! Worlds joined by portals: the portal graph, the crossing protocol that
//! moves the controlled body between worlds, and the depth-bounded walk that
//! orders the passes of a recursive portal render.
//!
//! The library holds the discrete side of the subsystem. Poses, view
//! matrices and pixels stay with the embedding program, which feeds the
//! library contact events and visibility answers and carries out the
//! crossings and render passes that the library hands back.

pub mod crossing;
pub mod level;
pub mod levels;
pub mod scale;
pub mod target;
pub mod walk;
pub mod physics;
pub mod plan;
pub mod render;
