//! Movement planning and motion interpolation for a puzzle game played on a
//! triangular tessellation of tiles.
//!
//! The crate is organised leaves-first:
//! - `d6`: the 12-element dihedral symmetry group, signed axis directions and
//!   orthogonal axis systems, with the group laws proved;
//! - `fragment`: the catalogue of renderable tile fragments;
//! - `geom`: trusted declarations of the `glam` matrix/vector types and the
//!   converters from exact integer data to them;
//! - `pga`: pivots (screw-motion generators), motions and arc-length indexed
//!   trajectories, built on the `geometric_algebra` crate;
//! - `anchor`: symbolic attachment points on tiles and the group action on them;
//! - `route`: the authored route families and their symmetry expansion;
//! - `world`: the tile dictionary, the movement planner and the session state.

pub mod anchor;
pub mod d6;
pub mod fragment;
pub mod geom;
pub mod pga;
pub mod route;
pub mod world;
