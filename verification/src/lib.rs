//! Reading and writing the 3D Manufacturing Format (3MF): the package model,
//! a builder that keeps a model consistent while it is assembled, queries over
//! models and packages, and the decisions that the package reader and writer make.

pub mod threemf_namespaces;
pub mod text;
pub mod core_model;
pub mod io;
pub mod query;
