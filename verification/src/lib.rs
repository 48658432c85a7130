//! A 2-D Boussinesq convection engine in vorticity/stream-function form.
//!
//! The engine advances five same-shaped scalar fields (temperature,
//! vorticity, stream function and the two velocity components) on a uniform
//! grid over the unit square: a fixed-budget Jacobi relaxation recovers the
//! stream function from vorticity, central differences rebuild the interior
//! velocity, Thom's formula refreshes wall vorticity, and a forward-Euler
//! sweep with upwind advection, central diffusion and a buoyancy source
//! advances vorticity and temperature.
//!
//! All numerics are stated against an abstract scalar ([`scalar::CfdScalar`]),
//! so every contract pins the exact value of every cell a step produces,
//! independently of the arithmetic the caller instantiates. A saturating
//! fixed-point scalar ([`fixed::Fixed`]) is provided and verified in full.
//!
//! [`records`] gives the persistence shape of a state — one record per
//! cell — and the load path that rebuilds a state from stored records;
//! [`laws`] proves the global properties of the engine: boundary
//! invariance, determinism, zero-buoyancy stationarity, and, in
//! [`records`], the persistence round trip.

pub mod scalar;
pub mod fixed;
pub mod grid;
pub mod model;
pub mod sweeps;
pub mod simulation;
pub mod records;
pub mod laws;
pub mod render;
