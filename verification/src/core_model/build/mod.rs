use vstd::prelude::*;

use crate::core_model::transform::Transform;

verus! {

/// The build section of a model: the objects that are to be manufactured.
#[derive(Debug, Clone, PartialEq, Eq)]
pub struct Build {
    /// Production extension: the UUID of the build.
    pub uuid: Option<String>,
    pub item: Vec<Item>,
}

/// One object placed in the build.
#[derive(Debug, Clone, PartialEq, Eq)]
pub struct Item {
    pub objectid: usize,
    pub transform: Option<Transform>,
    pub partnumber: Option<String>,
    /// Production extension: the model part that holds the object.
    pub path: Option<String>,
    /// Production extension: the UUID of the item.
    pub uuid: Option<String>,
}

} // verus!
