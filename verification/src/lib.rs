//! Verified core of the spectral conservation toolkit: the tension-graph
//! topology, the conservation tracker's sliding window, and the shared
//! enumerations of Laplacian and anomaly kinds.
use vstd::prelude::*;

pub mod graph;
pub mod tracker;

verus! {

/// Which Laplacian of the weight matrix is built.
#[derive(Debug, Clone, PartialEq, Eq, Structural)]
pub enum LaplacianType {
    Unnormalized,
    SymmetricNormalized,
    RandomWalkNormalized,
}

/// The kind of irregularity that an anomaly reports.
#[derive(Debug, Clone, PartialEq, Eq, Structural)]
pub enum AnomalyType {
    ConservationViolation,
    StructuralBreak,
    SpectralOutlier,
    TransitionAnomaly,
}

} // verus!
