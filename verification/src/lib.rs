//! A three-dimensional cellular automaton with decaying cells, and the
//! surface of its live cells as a mesh of triangles.
//!
//! A [`grid::Grid`] holds one state per cell, from dead to fully alive.
//! [`step::tick`] advances it by one generation under its [`rules::Rules`];
//! [`mesh::generate_mesh`] builds the faces that its live cells show.
//! Every function is verified with Verus against a contract over
//! [`grid::GridView`], the mathematical grid; [`neighbours`] and
//! [`surface`] hold what is proved of all grids beyond the contracts.

pub mod grid;
pub mod layout;
pub mod mesh;
pub mod neighbours;
pub mod rules;
pub mod seed;
pub mod step;
pub mod surface;
