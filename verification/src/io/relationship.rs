//! The relationships of an Open Packaging Conventions package: which parts
//! a part refers to, and as what.
use vstd::prelude::*;

use crate::text::str_equal;

verus! {

/// Relationship type of a 3D model part.
pub const MODEL_RELATIONSHIP_TYPE: &'static str = "http://schemas.microsoft.com/3dmanufacturing/2013/01/3dmodel";

/// Relationship type of a thumbnail.
pub const THUMBNAIL_RELATIONSHIP_TYPE: &'static str = "http://schemas.openxmlformats.org/package/2006/relationships/metadata/thumbnail";

/// Namespace of the relationships parts.
pub const RELATIONSHIPS_NS: &'static str = "http://schemas.openxmlformats.org/package/2006/relationships";

/// The relationships of one relationships part.
#[derive(Debug, Clone, PartialEq, Eq)]
pub struct Relationships {
    pub relationships: Vec<Relationship>,
}

/// One relationship: the part `target` is referred to as `relationship_type`.
#[derive(Debug, Clone, PartialEq, Eq)]
pub struct Relationship {
    pub id: String,
    pub target: String,
    pub relationship_type: RelationshipType,
}

/// The kinds of relationship known to this library; any other is kept with
/// its type as it was read.
#[derive(Debug, Clone, PartialEq, Eq)]
pub enum RelationshipType {
    /// A 3D model part.
    Model,
    /// A thumbnail image.
    Thumbnail,
    /// A part that this library does not know, with its relationship type.
    Unknown(String),
}

/// The relationship type that a name stands for: one of the known names
/// gives its kind, any other an unknown kind with that name.
pub open spec fn relationship_type_from_string(value: String) -> RelationshipType {
    if value@ == MODEL_RELATIONSHIP_TYPE@ {
        RelationshipType::Model
    } else if value@ == THUMBNAIL_RELATIONSHIP_TYPE@ {
        RelationshipType::Thumbnail
    } else {
        RelationshipType::Unknown(value)
    }
}

/// The name of a relationship type, as it stands in a relationships part.
pub open spec fn relationship_type_name(t: RelationshipType) -> Seq<char> {
    match t {
        RelationshipType::Model => MODEL_RELATIONSHIP_TYPE@,
        RelationshipType::Thumbnail => THUMBNAIL_RELATIONSHIP_TYPE@,
        RelationshipType::Unknown(s) => s@,
    }
}

impl RelationshipType {
    /// The name of this relationship type, as it stands in a relationships part.
    pub fn type_str(&self) -> (r: &str)
        ensures
            r@ == relationship_type_name(*self),
    {
        match self {
            RelationshipType::Model => MODEL_RELATIONSHIP_TYPE,
            RelationshipType::Thumbnail => THUMBNAIL_RELATIONSHIP_TYPE,
            RelationshipType::Unknown(s) => s.as_str(),
        }
    }
}

impl From<String> for RelationshipType {
    fn from(value: String) -> (r: RelationshipType) {
        if str_equal(value.as_str(), MODEL_RELATIONSHIP_TYPE) {
            RelationshipType::Model
        } else if str_equal(value.as_str(), THUMBNAIL_RELATIONSHIP_TYPE) {
            RelationshipType::Thumbnail
        } else {
            RelationshipType::Unknown(value)
        }
    }
}

impl vstd::std_specs::convert::FromSpecImpl<String> for RelationshipType {
    open spec fn obeys_from_spec() -> bool {
        true
    }

    open spec fn from_spec(v: String) -> RelationshipType {
        relationship_type_from_string(v)
    }
}

/// Reading the name of a relationship type back gives the same type.
pub proof fn lemma_relationship_type_round_trip(t: RelationshipType, name: String)
    requires
        name@ == relationship_type_name(t),
        t matches RelationshipType::Unknown(s) ==> s@ != MODEL_RELATIONSHIP_TYPE@ && s@ != THUMBNAIL_RELATIONSHIP_TYPE@,
    ensures
        relationship_type_name(relationship_type_from_string(name)) == relationship_type_name(t),
        relationship_type_from_string(name) is Model <==> t is Model,
        relationship_type_from_string(name) is Thumbnail <==> t is Thumbnail,
{
    reveal_strlit("http://schemas.microsoft.com/3dmanufacturing/2013/01/3dmodel");
    reveal_strlit("http://schemas.openxmlformats.org/package/2006/relationships/metadata/thumbnail");
}

/// A relationship type read from a text is written as that text.
pub proof fn lemma_relationship_type_name_of_read(value: String)
    ensures
        relationship_type_name(relationship_type_from_string(value)) == value@,
{
}

} // verus!
