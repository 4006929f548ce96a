//! The 3MF model: the data that a model part of a package holds.

pub mod beamlattice;
pub mod booleanshape;
pub mod build;
pub mod component;
pub mod mesh;
pub mod metadata;
pub mod model;
pub mod object;
pub mod resources;
pub mod transform;
pub mod triangle_set;
