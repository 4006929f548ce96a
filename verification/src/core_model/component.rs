use vstd::prelude::*;

use crate::core_model::transform::Transform;

verus! {

/// The components of a composed object.
#[derive(Debug, Clone, PartialEq, Eq)]
pub struct Components {
    pub component: Vec<Component>,
}

/// A reference to another object, placed by a transform.
#[derive(Debug, Clone, PartialEq, Eq)]
pub struct Component {
    pub objectid: usize,
    pub transform: Option<Transform>,
    /// Production extension: the model part that holds the referenced object.
    pub path: Option<String>,
    /// Production extension: the UUID of the component.
    pub uuid: Option<String>,
}

} // verus!
