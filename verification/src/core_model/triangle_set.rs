use vstd::prelude::*;

verus! {

/// The triangle sets of a mesh.
#[derive(Debug, Clone, PartialEq, Eq)]
pub struct TriangleSets {
    pub trianglesets: Vec<TriangleSet>,
}

/// A named group of triangles of a mesh, given by their indices.
#[derive(Debug, Clone, PartialEq, Eq)]
pub struct TriangleSet {
    pub name: String,
    pub identifier: String,
    pub refs: Vec<usize>,
}

} // verus!
