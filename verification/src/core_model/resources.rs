use vstd::prelude::*;

use crate::core_model::object::Object;

verus! {

/// The resources of a model: its objects and its base materials.
#[derive(Debug, Clone, PartialEq, Eq)]
pub struct Resources {
    pub object: Vec<Object>,
    pub basematerials: Vec<BaseMaterials>,
}

/// A base material: a name and a display color.
#[derive(Debug, Clone, PartialEq, Eq)]
pub struct Base {
    pub name: String,
    pub displaycolor: String,
}

/// A group of base materials, referred to by its id.
#[derive(Debug, Clone, PartialEq, Eq)]
pub struct BaseMaterials {
    pub id: usize,
    pub base: Vec<Base>,
}

} // verus!
