//! The content types of an Open Packaging Conventions package: which kind of
//! content each file extension holds.
use vstd::prelude::*;

use crate::text::str_equal;

verus! {

/// Content type of a relationships part.
pub const RELATIONSHIP_NS: &'static str = "application/vnd.openxmlformats-package.relationships+xml";

/// Content type of a 3D model part.
pub const MODEL_NS: &'static str = "application/vnd.ms-package.3dmanufacturing-3dmodel+xml";

/// Content type of a PNG image.
pub const PNG_NS: &'static str = "image/png";

/// Content type of a JPEG image.
pub const JPEG_NS: &'static str = "image/jpeg";

/// Namespace of the content types part.
pub const CONTENT_TYPES_NS: &'static str = "http://schemas.openxmlformats.org/package/2006/content-types";

/// The content types of a package: one default per file extension.
#[derive(Debug, PartialEq, Eq)]
pub struct ContentTypes {
    pub defaults: Vec<DefaultContentTypes>,
}

/// The content types known to this library; any other is kept as it was read.
#[derive(Debug, PartialEq, Eq)]
pub enum DefaultContentTypeEnum {
    /// A relationships part.
    Relationship,
    /// A 3D model part.
    Model,
    /// A PNG image.
    ImagePng,
    /// A JPEG image.
    ImageJPEG,
    /// A content type that this library does not know, with its name.
    Unknown(String),
}

/// A content type as a plain value.
pub enum ContentTypeView {
    Relationship,
    Model,
    ImagePng,
    ImageJPEG,
    Unknown(Seq<char>),
}

impl View for DefaultContentTypeEnum {
    type V = ContentTypeView;

    open spec fn view(&self) -> ContentTypeView {
        match self {
            DefaultContentTypeEnum::Relationship => ContentTypeView::Relationship,
            DefaultContentTypeEnum::Model => ContentTypeView::Model,
            DefaultContentTypeEnum::ImagePng => ContentTypeView::ImagePng,
            DefaultContentTypeEnum::ImageJPEG => ContentTypeView::ImageJPEG,
            DefaultContentTypeEnum::Unknown(s) => ContentTypeView::Unknown(s@),
        }
    }
}

/// The name of a content type, as it stands in the content types part.
pub open spec fn content_type_name(t: ContentTypeView) -> Seq<char> {
    match t {
        ContentTypeView::Relationship => RELATIONSHIP_NS@,
        ContentTypeView::Model => MODEL_NS@,
        ContentTypeView::ImagePng => PNG_NS@,
        ContentTypeView::ImageJPEG => JPEG_NS@,
        ContentTypeView::Unknown(s) => s,
    }
}

/// The content type that a name stands for: one of the known names gives
/// its content type, any other an unknown one with that name.
pub open spec fn content_type_of_name(name: Seq<char>) -> ContentTypeView {
    if name == RELATIONSHIP_NS@ {
        ContentTypeView::Relationship
    } else if name == MODEL_NS@ {
        ContentTypeView::Model
    } else if name == PNG_NS@ {
        ContentTypeView::ImagePng
    } else if name == JPEG_NS@ {
        ContentTypeView::ImageJPEG
    } else {
        ContentTypeView::Unknown(name)
    }
}

/// The content type that a name stands for, as an exec value.
pub open spec fn content_type_from_string(value: String) -> DefaultContentTypeEnum {
    if value@ == RELATIONSHIP_NS@ {
        DefaultContentTypeEnum::Relationship
    } else if value@ == MODEL_NS@ {
        DefaultContentTypeEnum::Model
    } else if value@ == PNG_NS@ {
        DefaultContentTypeEnum::ImagePng
    } else if value@ == JPEG_NS@ {
        DefaultContentTypeEnum::ImageJPEG
    } else {
        DefaultContentTypeEnum::Unknown(value)
    }
}

impl DefaultContentTypeEnum {
    /// The name of this content type, as it stands in the content types part.
    pub fn content_type_str(&self) -> (r: &str)
        ensures
            r@ == content_type_name(self@),
    {
        match self {
            DefaultContentTypeEnum::Relationship => RELATIONSHIP_NS,
            DefaultContentTypeEnum::Model => MODEL_NS,
            DefaultContentTypeEnum::ImagePng => PNG_NS,
            DefaultContentTypeEnum::ImageJPEG => JPEG_NS,
            DefaultContentTypeEnum::Unknown(s) => s.as_str(),
        }
    }

    /// Whether this is the content type of relationships parts.
    pub fn is_relationship(&self) -> (r: bool)
        ensures
            r == (self@ is Relationship),
    {
        match self {
            DefaultContentTypeEnum::Relationship => true,
            _ => false,
        }
    }
}

impl From<String> for DefaultContentTypeEnum {
    fn from(value: String) -> (r: DefaultContentTypeEnum) {
        if str_equal(value.as_str(), RELATIONSHIP_NS) {
            DefaultContentTypeEnum::Relationship
        } else if str_equal(value.as_str(), MODEL_NS) {
            DefaultContentTypeEnum::Model
        } else if str_equal(value.as_str(), PNG_NS) {
            DefaultContentTypeEnum::ImagePng
        } else if str_equal(value.as_str(), JPEG_NS) {
            DefaultContentTypeEnum::ImageJPEG
        } else {
            DefaultContentTypeEnum::Unknown(value)
        }
    }
}

impl vstd::std_specs::convert::FromSpecImpl<String> for DefaultContentTypeEnum {
    open spec fn obeys_from_spec() -> bool {
        true
    }

    open spec fn from_spec(v: String) -> DefaultContentTypeEnum {
        content_type_from_string(v)
    }
}

/// The content type of the files with one extension.
#[derive(Debug, PartialEq, Eq)]
pub struct DefaultContentTypes {
    pub extension: String,
    pub content_type: DefaultContentTypeEnum,
}

/// The extension of relationships parts among the defaults: that of the
/// first default whose content type is that of relationships, `rels` when
/// none is.
pub open spec fn relationships_extension(defaults: Seq<DefaultContentTypes>) -> Seq<char>
    decreases defaults.len(),
{
    if defaults.len() == 0 {
        "rels"@
    } else if defaults[0].content_type@ is Relationship {
        defaults[0].extension@
    } else {
        relationships_extension(defaults.drop_first())
    }
}

/// The extension of relationships parts is that of a default of the list
/// for relationships, before which no default is for relationships; it is
/// `rels` exactly when no default is for relationships.
pub proof fn lemma_relationships_extension(defaults: Seq<DefaultContentTypes>)
    ensures
        (exists|k: int| 0 <= k < defaults.len() && (#[trigger] defaults[k]).content_type@ is Relationship
            && defaults[k].extension@ == relationships_extension(defaults)
            && forall|j: int| 0 <= j < k ==> !((#[trigger] defaults[j]).content_type@ is Relationship))
        || ((forall|k: int| 0 <= k < defaults.len() ==> !((#[trigger] defaults[k]).content_type@ is Relationship))
            && relationships_extension(defaults) == "rels"@),
    decreases defaults.len(),
{
    if defaults.len() > 0 {
        let rest = defaults.drop_first();
        lemma_relationships_extension(rest);
        if !(defaults[0].content_type@ is Relationship) {
            if exists|k: int| 0 <= k < rest.len() && (#[trigger] rest[k]).content_type@ is Relationship
                && rest[k].extension@ == relationships_extension(rest)
                && forall|j: int| 0 <= j < k ==> !((#[trigger] rest[j]).content_type@ is Relationship) {
                let k = choose|k: int| 0 <= k < rest.len() && (#[trigger] rest[k]).content_type@ is Relationship
                    && rest[k].extension@ == relationships_extension(rest)
                    && forall|j: int| 0 <= j < k ==> !((#[trigger] rest[j]).content_type@ is Relationship);
                assert(defaults[k + 1] == rest[k]);
                assert forall|j: int| 0 <= j < k + 1 implies !((#[trigger] defaults[j]).content_type@ is Relationship) by {
                    if j > 0 {
                        assert(defaults[j] == rest[j - 1]);
                    }
                }
            } else {
                assert forall|k: int| 0 <= k < defaults.len() implies !((#[trigger] defaults[k]).content_type@ is Relationship) by {
                    if k > 0 {
                        assert(defaults[k] == rest[k - 1]);
                    }
                }
            }
        } else {
            assert(defaults[0].extension@ == relationships_extension(defaults));
        }
    }
}

/// The extension of the relationships parts of a package: that of the first
/// default for relationships, `rels` when there is none.
pub fn determine_relationships_extension(content_types: &ContentTypes) -> (r: String)
    ensures
        r@ == relationships_extension(content_types.defaults@),
{
    let defaults = &content_types.defaults;
    let mut i: usize = 0;
    assert(defaults@.skip(0) == defaults@);
    while i < defaults.len()
        invariant
            defaults@ == content_types.defaults@,
            i <= defaults.len(),
            relationships_extension(defaults@) == relationships_extension(defaults@.skip(i as int)),
        decreases defaults.len() - i,
    {
        assert(defaults@.skip(i as int).drop_first() == defaults@.skip(i + 1));
        assert(defaults@.skip(i as int)[0] == defaults@[i as int]);
        if defaults[i].content_type.is_relationship() {
            return defaults[i].extension.clone();
        }
        i = i + 1;
    }
    assert(defaults@.skip(i as int).len() == 0);
    "rels".to_owned()
}

/// Reading the name that a content type is written with gives the same
/// name back: a content type read from a text is written as that text.
pub proof fn lemma_content_type_name_round_trip(value: String)
    ensures
        content_type_name(content_type_from_string(value)@) == value@,
{
}

} // verus!
