use vstd::prelude::*;

verus! {

/// A named piece of metadata of a model.
#[derive(Debug, Clone, PartialEq, Eq)]
pub struct Metadata {
    pub name: String,
    pub preserve: Option<bool>,
    pub value: Option<String>,
}

} // verus!
