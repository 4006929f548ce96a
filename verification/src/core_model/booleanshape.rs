use vstd::prelude::*;

use crate::core_model::transform::Transform;
use crate::text::{lowercases_to, lowercases_to_str};

verus! {

/// Boolean Operations extension: a shape made by applying boolean operations
/// on a base object.
#[derive(Debug, Clone, PartialEq, Eq)]
pub struct BooleanShape {
    pub objectid: usize,
    pub operation: Option<BooleanOperation>,
    pub transform: Option<Transform>,
    pub path: Option<String>,
    pub boolean: Vec<Boolean>,
}

/// The operation of a boolean shape; union when none is given.
#[derive(Debug, Clone, Copy, PartialEq, Eq, Structural)]
pub enum BooleanOperation {
    Union,
    Difference,
    Intersection,
}

/// The operation that a name stands for: the names are compared in lower
/// case, and a name that is none of them stands for union.
pub open spec fn boolean_operation_from_name(name: Seq<char>) -> BooleanOperation {
    if lowercases_to(name, "union"@) {
        BooleanOperation::Union
    } else if lowercases_to(name, "difference"@) {
        BooleanOperation::Difference
    } else if lowercases_to(name, "intersection"@) {
        BooleanOperation::Intersection
    } else {
        BooleanOperation::Union
    }
}

/// The name under which an operation is written.
pub open spec fn boolean_operation_name(op: BooleanOperation) -> Seq<char> {
    match op {
        BooleanOperation::Union => "union"@,
        BooleanOperation::Difference => "difference"@,
        BooleanOperation::Intersection => "intersection"@,
    }
}

/// Reading the name of an operation, in any ASCII case, gives that operation
/// back.
pub proof fn lemma_boolean_operation_name_round_trip(op: BooleanOperation, name: Seq<char>)
    requires
        lowercases_to(name, boolean_operation_name(op)),
    ensures
        boolean_operation_from_name(name) == op,
{
    reveal_strlit("union");
    reveal_strlit("difference");
    reveal_strlit("intersection");
    let lower = name.map_values(|c: char| crate::text::ascii_lower(c));
    assert(lower.len() == name.len());
    assert("union"@.len() == 5 && "difference"@.len() == 10 && "intersection"@.len() == 12);
}

impl BooleanOperation {
    /// The operation named by `name`, compared in lower case; union for any other name.
    pub fn from_name(name: &str) -> (op: BooleanOperation)
        ensures
            op == boolean_operation_from_name(name@),
    {
        if lowercases_to_str(name, "union") {
            BooleanOperation::Union
        } else if lowercases_to_str(name, "difference") {
            BooleanOperation::Difference
        } else if lowercases_to_str(name, "intersection") {
            BooleanOperation::Intersection
        } else {
            BooleanOperation::Union
        }
    }
}

impl Default for BooleanOperation {
    fn default() -> (op: BooleanOperation)
        ensures
            op == BooleanOperation::Union,
    {
        BooleanOperation::Union
    }
}

impl From<String> for BooleanOperation {
    fn from(value: String) -> (op: BooleanOperation) {
        BooleanOperation::from_name(value.as_str())
    }
}

impl vstd::std_specs::convert::FromSpecImpl<String> for BooleanOperation {
    open spec fn obeys_from_spec() -> bool {
        true
    }

    open spec fn from_spec(v: String) -> BooleanOperation {
        boolean_operation_from_name(v@)
    }
}

/// One operand of a boolean shape.
#[derive(Debug, Clone, PartialEq, Eq)]
pub struct Boolean {
    pub objectid: usize,
    pub transform: Option<Transform>,
    pub path: Option<String>,
}

} // verus!
