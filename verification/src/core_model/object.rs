use vstd::prelude::*;

use crate::core_model::component::Components;
use crate::core_model::mesh::Mesh;
use crate::text::{lowercases_to, lowercases_to_str};

verus! {

/// An object of a model: a mesh, or a composition of other objects.
#[derive(Debug, Clone, PartialEq, Eq)]
pub struct Object {
    pub id: usize,
    pub objecttype: Option<ObjectType>,
    pub thumbnail: Option<String>,
    pub partnumber: Option<String>,
    pub name: Option<String>,
    pub pid: Option<usize>,
    pub pindex: Option<usize>,
    /// Production extension: the UUID of the object.
    pub uuid: Option<String>,
    pub mesh: Option<Mesh>,
    pub components: Option<Components>,
}

/// The role of an object; model when none is given.
#[derive(Debug, Clone, Copy, PartialEq, Eq, Structural)]
pub enum ObjectType {
    Model,
    Support,
    SolidSupport,
    Surface,
    Other,
}

/// The object type that a name stands for: the names are compared in lower
/// case, and a name that is none of them stands for model.
pub open spec fn object_type_from_name(name: Seq<char>) -> ObjectType {
    if lowercases_to(name, "model"@) {
        ObjectType::Model
    } else if lowercases_to(name, "support"@) {
        ObjectType::Support
    } else if lowercases_to(name, "solidsupport"@) {
        ObjectType::SolidSupport
    } else if lowercases_to(name, "surface"@) {
        ObjectType::Surface
    } else if lowercases_to(name, "other"@) {
        ObjectType::Other
    } else {
        ObjectType::Model
    }
}

impl ObjectType {
    /// The object type named by `name`, compared in lower case; model for any other name.
    pub fn from_name(name: &str) -> (t: ObjectType)
        ensures
            t == object_type_from_name(name@),
    {
        if lowercases_to_str(name, "model") {
            ObjectType::Model
        } else if lowercases_to_str(name, "support") {
            ObjectType::Support
        } else if lowercases_to_str(name, "solidsupport") {
            ObjectType::SolidSupport
        } else if lowercases_to_str(name, "surface") {
            ObjectType::Surface
        } else if lowercases_to_str(name, "other") {
            ObjectType::Other
        } else {
            ObjectType::Model
        }
    }
}

impl Default for ObjectType {
    fn default() -> (t: ObjectType)
        ensures
            t == ObjectType::Model,
    {
        ObjectType::Model
    }
}

impl From<String> for ObjectType {
    fn from(value: String) -> (t: ObjectType) {
        ObjectType::from_name(value.as_str())
    }
}

impl vstd::std_specs::convert::FromSpecImpl<String> for ObjectType {
    open spec fn obeys_from_spec() -> bool {
        true
    }

    open spec fn from_spec(v: String) -> ObjectType {
        object_type_from_name(v@)
    }
}

/// The name of an object type, as 3MF writes it.
pub open spec fn object_type_name(t: ObjectType) -> Seq<char> {
    match t {
        ObjectType::Model => "model"@,
        ObjectType::Support => "support"@,
        ObjectType::SolidSupport => "solidsupport"@,
        ObjectType::Surface => "surface"@,
        ObjectType::Other => "other"@,
    }
}

impl ObjectType {
    /// The name of this object type, as 3MF writes it: in lower case.
    pub fn name(&self) -> (r: &'static str)
        ensures
            r@ == object_type_name(*self),
    {
        match self {
            ObjectType::Model => "model",
            ObjectType::Support => "support",
            ObjectType::SolidSupport => "solidsupport",
            ObjectType::Surface => "surface",
            ObjectType::Other => "other",
        }
    }
}

/// Reading the name of an object type gives the object type back.
pub proof fn lemma_object_type_name_round_trip(t: ObjectType)
    ensures
        object_type_from_name(object_type_name(t)) == t,
{
    reveal_strlit("model");
    reveal_strlit("support");
    reveal_strlit("solidsupport");
    reveal_strlit("surface");
    reveal_strlit("other");
    let n = object_type_name(t);
    assert(n.map_values(|c: char| crate::text::ascii_lower(c)) =~= n);
    match t {
        ObjectType::Model => {},
        ObjectType::Support => {
            assert(n.len() != "model"@.len());
        },
        ObjectType::SolidSupport => {
            assert(n.len() != "model"@.len());
            assert(n.len() != "support"@.len());
        },
        ObjectType::Surface => {
            assert(n.len() != "model"@.len());
            assert(n[2] != "support"@[2]);
            assert(n.len() != "solidsupport"@.len());
        },
        ObjectType::Other => {
            assert(n.len() == "model"@.len());
            assert(n[0] != "model"@[0]);
            assert(n.len() != "support"@.len());
            assert(n.len() != "solidsupport"@.len());
            assert(n.len() != "surface"@.len());
        },
    }
}

/// Reading the name of a value in any ASCII case gives that value back.
pub proof fn lemma_object_type_name_round_trip_any_case(t: ObjectType, name: Seq<char>)
    requires
        lowercases_to(name, object_type_name(t)),
    ensures
        object_type_from_name(name) == t,
{
    lemma_object_type_name_round_trip(t);
    let n = object_type_name(t);
    assert(n.map_values(|c: char| crate::text::ascii_lower(c)) =~= n) by {
        reveal_strlit("model");
        reveal_strlit("support");
        reveal_strlit("solidsupport");
        reveal_strlit("surface");
        reveal_strlit("other");
    }
    assert(name.map_values(|c: char| crate::text::ascii_lower(c)) == n);
}

} // verus!
