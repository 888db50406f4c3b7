//! Simulation configuration: the Hamiltonian model selector and the
//! fail-fast validation of the builder's required fields.

use vstd::prelude::*;

verus! {

/// Which kinetic-energy formula the Hamiltonian operator applies.
#[derive(Debug, Clone, Copy, PartialEq, Eq, Structural)]
pub enum HamiltonianModel {
    /// Non-relativistic kinetic energy |k+G|^2.
    Schrodinger,
    /// Scalar-relativistic kinetic energy (c^2/2)(sqrt(1 + 4|k+G|^2/c^2) - 1).
    DiracScalarRelativistic,
}

/// Configuration errors raised before any numerical work begins.
#[derive(Debug, Clone, Copy, PartialEq, Eq, Structural)]
pub enum SimulationError {
    /// No crystal structure was supplied to the builder.
    MissingStructure,
    /// No wavefunction cutoff energy was supplied to the builder.
    MissingEcut,
    /// The supplied k-point list is empty.
    InvalidKGrid,
}

/// Maps the builder's `relativistic` switch to the model it selects.
pub fn model_for_relativistic_flag(enabled: bool) -> (m: HamiltonianModel)
    ensures
        m == if enabled {
            HamiltonianModel::DiracScalarRelativistic
        } else {
            HamiltonianModel::Schrodinger
        },
{
    if enabled {
        HamiltonianModel::DiracScalarRelativistic
    } else {
        HamiltonianModel::Schrodinger
    }
}

/// Fail-fast validation of a simulation configuration.
///
/// The builder finalization step checks its required fields in this order:
/// a structure must be present, then a cutoff, then the k-point list (after
/// defaulting to the zone-center point when none was given) must be
/// non-empty.  Returns `Ok` exactly when all three hold.
pub fn validate_config(has_structure: bool, has_ecut: bool, n_k_points: usize) -> (r: Result<
    (),
    SimulationError,
>)
    ensures
        r == if !has_structure {
            Result::<(), SimulationError>::Err(SimulationError::MissingStructure)
        } else if !has_ecut {
            Result::<(), SimulationError>::Err(SimulationError::MissingEcut)
        } else if n_k_points == 0 {
            Result::<(), SimulationError>::Err(SimulationError::InvalidKGrid)
        } else {
            Result::<(), SimulationError>::Ok(())
        },
        r is Ok <==> has_structure && has_ecut && n_k_points > 0,
{
    if !has_structure {
        Err(SimulationError::MissingStructure)
    } else if !has_ecut {
        Err(SimulationError::MissingEcut)
    } else if n_k_points == 0 {
        Err(SimulationError::InvalidKGrid)
    } else {
        Ok(())
    }
}

} // verus!
