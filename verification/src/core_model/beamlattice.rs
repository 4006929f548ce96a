use vstd::prelude::*;

verus! {

/// Beam Lattice extension: the beams that a mesh carries besides its triangles.
#[derive(Debug, Clone, PartialEq, Eq)]
pub struct BeamLattice {
    pub beams: Beams,
}

/// The list of beams of a beam lattice.
#[derive(Debug, Clone, PartialEq, Eq)]
pub struct Beams {
    pub beam: Vec<Beam>,
}

/// A beam between two vertices of the mesh, given by their indices.
#[derive(Debug, Clone, PartialEq, Eq)]
pub struct Beam {
    pub v1: usize,
    pub v2: usize,
}

} // verus!
