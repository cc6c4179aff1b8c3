//! A two-dimensional Ising spin lattice on a torus, its energy model and
//! the single-site Monte Carlo update that drives it.

pub mod field;
pub mod hamiltonian;
pub mod render;
pub mod rng;
pub mod sweep;
pub mod spin;
