//! Verified bookkeeping core of a plane-wave pseudopotential solver.
//!
//! Everything that is exactly representable in integers — grid sizing,
//! reciprocal-vector enumeration, the coefficient-to-grid index map,
//! mixer history management and the self-consistency control flow — is
//! specified and proved here.  The floating-point numerics (transforms,
//! potentials, eigensolver arithmetic) live outside the verified core and
//! consume the guarantees established by these modules.

pub mod basis;
pub mod fft_map;
pub mod kpoints;
pub mod mixing;
pub mod scf;
pub mod simulation;
pub mod solver;
