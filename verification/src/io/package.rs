//! A 3MF package held in memory: the root model, the sub-models, the
//! thumbnails and other parts, each under its path in the package, with the
//! relationships and content types that tie them together.
use vstd::prelude::*;

use image::{DynamicImage, ImageError};

use crate::core_model::model::Model;
use crate::io::content_types::{ContentTypes, DefaultContentTypeEnum, DefaultContentTypes};
use crate::io::error::{encode_png, load_image, png_encoding, Error};
use crate::io::utils::{strip_leading_slash, try_strip_leading_slash};
use crate::text::str_equal;
use crate::io::path_map::PathMap;
use crate::io::relationship::{Relationship, RelationshipType, Relationships};

verus! {

/// Path of the relationships part at the root of a package.
pub const ROOT_RELATIONSHIPS_PATH: &'static str = "_rels/.rels";

/// Path of the root model part that a package made from a model gets.
pub const DEFAULT_ROOT_MODEL_PATH: &'static str = "3D/3dmodel.model";

/// A 3MF package. The parts of its nested folders are kept flat, each under
/// its path in the package.
#[derive(Debug, PartialEq)]
pub struct ThreemfPackage {
    /// The root model; it has a build.
    pub root: Model,
    /// The other models, under their paths.
    pub sub_models: PathMap<Model>,
    /// The thumbnails, under their paths; the thumbnail paths of the models
    /// should be among them.
    pub thumbnails: PathMap<DynamicImage>,
    /// The bytes of the parts that this library does not know, under their paths.
    pub unknown_parts: PathMap<Vec<u8>>,
    /// The relationships parts, under their paths; there is at least the one
    /// at the root of the package.
    pub relationships: PathMap<Relationships>,
    /// The content types of the package.
    pub content_types: ContentTypes,
}

/// The relationships part of a package made from a model: one relationship
/// to the root model.
pub open spec fn default_root_relationships(r: Relationships) -> bool {
    &&& r.relationships@.len() == 1
    &&& r.relationships@[0].id@ == "rel0"@
    &&& r.relationships@[0].target@ == DEFAULT_ROOT_MODEL_PATH@
    &&& r.relationships@[0].relationship_type == RelationshipType::Model
}

/// The content types of a package made from a model: models and relationships.
pub open spec fn default_content_types(c: ContentTypes) -> bool {
    &&& c.defaults@.len() == 2
    &&& c.defaults@[0].extension@ == "model"@
    &&& c.defaults@[0].content_type@ is Model
    &&& c.defaults@[1].extension@ == "rels"@
    &&& c.defaults@[1].content_type@ is Relationship
}

/// `p` holds `value` as its root model, at the default path, with nothing
/// else but the relationship to it and the content types of models and
/// relationships.
pub open spec fn is_package_of_model(p: ThreemfPackage, value: Model) -> bool {
    &&& p.root == value
    &&& p.sub_models@.len() == 0
    &&& p.thumbnails@.len() == 0
    &&& p.unknown_parts@.len() == 0
    &&& p.relationships@.len() == 1
    &&& p.relationships.entries().len() == 1
    &&& p.relationships.entries()[0].0 == ROOT_RELATIONSHIPS_PATH@
    &&& default_root_relationships(p.relationships.entries()[0].1)
    &&& default_content_types(p.content_types)
}

impl ThreemfPackage {
    /// The package that holds `value` as its root model, at the default path,
    /// with nothing else but the relationship to it and the content types of
    /// models and relationships.
    pub fn from_model(value: Model) -> (p: ThreemfPackage)
        ensures
            is_package_of_model(p, value),
    {
        let mut rels: PathMap<Relationships> = PathMap::new();
        let rel = Relationship {
            id: "rel0".to_owned(),
            target: DEFAULT_ROOT_MODEL_PATH.to_owned(),
            relationship_type: RelationshipType::Model,
        };
        let mut list: Vec<Relationship> = Vec::new();
        list.push(rel);
        rels.insert(ROOT_RELATIONSHIPS_PATH.to_owned(), Relationships { relationships: list });
        let mut defaults: Vec<DefaultContentTypes> = Vec::new();
        defaults.push(DefaultContentTypes { extension: "model".to_owned(), content_type: DefaultContentTypeEnum::Model });
        defaults.push(DefaultContentTypes { extension: "rels".to_owned(), content_type: DefaultContentTypeEnum::Relationship });
        let sub_models: PathMap<Model> = PathMap::new();
        let thumbnails: PathMap<DynamicImage> = PathMap::new();
        let unknown_parts: PathMap<Vec<u8>> = PathMap::new();
        proof {
            assert(rels@.dom() =~= set![ROOT_RELATIONSHIPS_PATH@]);
            assert(sub_models@.dom() =~= Set::<Seq<char>>::empty());
            assert(thumbnails@.dom() =~= Set::<Seq<char>>::empty());
            assert(unknown_parts@.dom() =~= Set::<Seq<char>>::empty());
        }
        ThreemfPackage {
            root: value,
            sub_models,
            thumbnails,
            unknown_parts,
            relationships: rels,
            content_types: ContentTypes { defaults },
        }
    }
}

impl From<Model> for ThreemfPackage {
    /// The package made by [`ThreemfPackage::from_model`].
    fn from(value: Model) -> (p: ThreemfPackage)
        ensures
            is_package_of_model(p, value),
    {
        ThreemfPackage::from_model(value)
    }
}

impl vstd::std_specs::convert::FromSpecImpl<Model> for ThreemfPackage {
    /// The conversion states its result through `is_package_of_model`, in
    /// its own `ensures`, not through a spec function that names the package.
    open spec fn obeys_from_spec() -> bool {
        false
    }

    open spec fn from_spec(v: Model) -> ThreemfPackage {
        vstd::pervasive::arbitrary()
    }
}

/// Collects the parts of a package while it is read.
pub struct ThreemfPackageProcessor {
    root: Option<Model>,
    sub_models: PathMap<Model>,
    thumbnails: PathMap<DynamicImage>,
    unknown_parts: PathMap<Vec<u8>>,
    relationships: PathMap<Relationships>,
    content_types: ContentTypes,
}

impl ThreemfPackageProcessor {
    /// The root model read so far.
    pub closed spec fn root_of(&self) -> Option<Model> {
        self.root
    }

    /// The sub-models read so far, under their paths.
    pub closed spec fn sub_models_of(&self) -> Map<Seq<char>, Model> {
        self.sub_models@
    }

    /// The thumbnails read so far, under their paths.
    pub closed spec fn thumbnails_of(&self) -> Map<Seq<char>, DynamicImage> {
        self.thumbnails@
    }

    /// The unknown parts read so far, under their paths.
    pub closed spec fn unknown_parts_of(&self) -> Map<Seq<char>, Vec<u8>> {
        self.unknown_parts@
    }

    /// The relationships parts, under their paths.
    pub closed spec fn relationships_of(&self) -> Map<Seq<char>, Relationships> {
        self.relationships@
    }

    /// The content types of the package.
    pub closed spec fn content_types_of(&self) -> ContentTypes {
        self.content_types
    }

    /// A processor that has read nothing yet, for a package with the given
    /// content types.
    pub fn new(content_types: ContentTypes) -> (p: ThreemfPackageProcessor)
        ensures
            p.root_of() is None,
            p.sub_models_of().len() == 0,
            p.thumbnails_of().len() == 0,
            p.unknown_parts_of().len() == 0,
            p.relationships_of().len() == 0,
            p.content_types_of() == content_types,
    {
        let p = ThreemfPackageProcessor {
            root: None,
            sub_models: PathMap::new(),
            thumbnails: PathMap::new(),
            unknown_parts: PathMap::new(),
            relationships: PathMap::new(),
            content_types,
        };
        proof {
            assert(p.sub_models@.dom() =~= Set::<Seq<char>>::empty());
            assert(p.thumbnails@.dom() =~= Set::<Seq<char>>::empty());
            assert(p.unknown_parts@.dom() =~= Set::<Seq<char>>::empty());
            assert(p.relationships@.dom() =~= Set::<Seq<char>>::empty());
        }
        p
    }

    /// Whether the root model has been read.
    pub fn has_root(&self) -> (r: bool)
        ensures
            r == self.root_of() is Some,
    {
        self.root.is_some()
    }

    /// Set the relationships parts of the package.
    pub fn set_relationships(&mut self, relationships: PathMap<Relationships>)
        ensures
            final(self).relationships_of() == relationships@,
            final(self).root_of() == old(self).root_of(),
            final(self).sub_models_of() == old(self).sub_models_of(),
            final(self).thumbnails_of() == old(self).thumbnails_of(),
            final(self).unknown_parts_of() == old(self).unknown_parts_of(),
            final(self).content_types_of() == old(self).content_types_of(),
    {
        self.relationships = relationships;
    }

    /// Take the model read from the part `target`: it is the root model when
    /// `is_root`, else a sub-model under its path.
    pub fn process_model(&mut self, target: &str, model: Model, is_root: bool)
        ensures
            is_root ==> final(self).root_of() == Some(model) && final(self).sub_models_of() == old(self).sub_models_of(),
            !is_root ==> final(self).root_of() == old(self).root_of()
                && final(self).sub_models_of() == old(self).sub_models_of().insert(target@, model),
            final(self).thumbnails_of() == old(self).thumbnails_of(),
            final(self).unknown_parts_of() == old(self).unknown_parts_of(),
            final(self).relationships_of() == old(self).relationships_of(),
            final(self).content_types_of() == old(self).content_types_of(),
    {
        if is_root {
            self.root = Some(model);
        } else {
            self.sub_models.insert(target.to_owned(), model);
        }
    }

    /// Keep the thumbnail that loading the part `target` gave under its path;
    /// when the load failed, its error is returned as an image error and
    /// nothing is kept.
    pub fn keep_thumbnail(&mut self, target: &str, loaded: Result<DynamicImage, ImageError>) -> (r: Result<(), Error>)
        ensures
            match loaded {
                Ok(img) => r is Ok && final(self).thumbnails_of() == old(self).thumbnails_of().insert(target@, img),
                Err(e) => r == Err::<(), Error>(Error::ImageReadError(e))
                    && final(self).thumbnails_of() == old(self).thumbnails_of(),
            },
            final(self).root_of() == old(self).root_of(),
            final(self).sub_models_of() == old(self).sub_models_of(),
            final(self).unknown_parts_of() == old(self).unknown_parts_of(),
            final(self).relationships_of() == old(self).relationships_of(),
            final(self).content_types_of() == old(self).content_types_of(),
    {
        match loaded {
            Ok(image) => {
                self.thumbnails.insert(target.to_owned(), image);
                Ok(())
            },
            Err(e) => Err(Error::ImageReadError(e)),
        }
    }

    /// Decode the thumbnail read from the part `target` and keep it under its
    /// path; when the bytes do not decode, the error is returned and nothing
    /// is kept.
    pub fn process_thumbnail(&mut self, target: &str, image_bytes: &[u8]) -> (r: Result<(), Error>)
        ensures
            r is Ok ==> final(self).thumbnails_of().dom() == old(self).thumbnails_of().dom().insert(target@),
            r is Err ==> (r matches Err(Error::ImageReadError(_))) && final(self).thumbnails_of() == old(self).thumbnails_of(),
            final(self).root_of() == old(self).root_of(),
            final(self).sub_models_of() == old(self).sub_models_of(),
            final(self).unknown_parts_of() == old(self).unknown_parts_of(),
            final(self).relationships_of() == old(self).relationships_of(),
            final(self).content_types_of() == old(self).content_types_of(),
    {
        self.keep_thumbnail(target, load_image(image_bytes))
    }

    /// Keep the bytes read from the part `target`, of a content type that
    /// this library does not know, under its path.
    pub fn process_unknown(&mut self, target: &str, content_type: &str, data: &[u8])
        ensures
            final(self).unknown_parts_of() == old(self).unknown_parts_of().insert(target@, final(self).unknown_parts_of()[target@]),
            final(self).unknown_parts_of()[target@]@ == data@,
            final(self).root_of() == old(self).root_of(),
            final(self).sub_models_of() == old(self).sub_models_of(),
            final(self).thumbnails_of() == old(self).thumbnails_of(),
            final(self).relationships_of() == old(self).relationships_of(),
            final(self).content_types_of() == old(self).content_types_of(),
    {
        let bytes = vstd::slice::slice_to_vec(data);
        self.unknown_parts.insert(target.to_owned(), bytes);
    }

    /// The package that was read; the root model must have been read.
    pub fn into_threemf_package(self) -> (p: ThreemfPackage)
        requires
            self.root_of() is Some,
        ensures
            Some(p.root) == self.root_of(),
            p.sub_models@ == self.sub_models_of(),
            p.thumbnails@ == self.thumbnails_of(),
            p.unknown_parts@ == self.unknown_parts_of(),
            p.relationships@ == self.relationships_of(),
            p.content_types == self.content_types_of(),
    {
        ThreemfPackage {
            root: self.root.unwrap(),
            sub_models: self.sub_models,
            thumbnails: self.thumbnails,
            unknown_parts: self.unknown_parts,
            relationships: self.relationships,
            content_types: self.content_types,
        }
    }
}

/// Path of the content types part of a package.
pub const CONTENT_TYPES_PATH: &'static str = "[Content_Types].xml";

/// What a part of a package to be written holds.
pub enum PartData<'a> {
    /// The content types.
    ContentTypes(&'a ContentTypes),
    /// A relationships part.
    Relationships(&'a Relationships),
    /// A model.
    Model(&'a Model),
    /// An encoded thumbnail.
    Image(Vec<u8>),
    /// The bytes of a part that this library does not know.
    Bytes(&'a Vec<u8>),
}

/// A part of a package to be written: its file name in the archive and what it holds.
pub struct PartEntry<'a> {
    pub filename: String,
    pub data: PartData<'a>,
}

/// One step of writing a package: a relationships part, or the part that a
/// relationship refers to (`from_root` when the relationship is in the
/// relationships part at the root).
pub enum WriteStep {
    RelationshipsPart(Seq<char>, Relationships),
    Target(bool, Relationship),
}

/// The steps for the relationships parts `e`: each part, then the parts its
/// relationships refer to, in order.
pub open spec fn write_steps(e: Seq<(Seq<char>, Relationships)>) -> Seq<WriteStep>
    decreases e.len(),
{
    if e.len() == 0 {
        Seq::empty()
    } else {
        let last = e.last();
        let from_root = last.0 == ROOT_RELATIONSHIPS_PATH@;
        write_steps(e.drop_last()).push(WriteStep::RelationshipsPart(last.0, last.1))
            + last.1.relationships@.map_values(|r: Relationship| WriteStep::Target(from_root, r))
    }
}

/// Why a step of writing fails.
pub enum WriteFailure {
    /// No sub-model under the target path.
    NoModel(Seq<char>),
    /// No thumbnail under the target path.
    NoThumbnail(Seq<char>),
    /// The thumbnail does not encode.
    ImageEncoding,
    /// No unknown part under the target path.
    NoData(Seq<char>),
}

/// Why the step `s` fails for the package `p`, if it does: a model that a
/// relationship outside the root relationships part refers to must be among
/// the sub-models, a thumbnail among the thumbnails and encode, other parts
/// among the unknown parts.
pub open spec fn step_failure(p: ThreemfPackage, s: WriteStep) -> Option<WriteFailure> {
    match s {
        WriteStep::RelationshipsPart(_, _) => None,
        WriteStep::Target(from_root, rel) => match rel.relationship_type {
            RelationshipType::Model => if !from_root && !p.sub_models@.contains_key(rel.target@) {
                Some(WriteFailure::NoModel(rel.target@))
            } else {
                None
            },
            RelationshipType::Thumbnail => if !p.thumbnails@.contains_key(rel.target@) {
                Some(WriteFailure::NoThumbnail(rel.target@))
            } else if png_encoding(p.thumbnails@[rel.target@]) is None {
                Some(WriteFailure::ImageEncoding)
            } else {
                None
            },
            RelationshipType::Unknown(_) => if !p.unknown_parts@.contains_key(rel.target@) {
                Some(WriteFailure::NoData(rel.target@))
            } else {
                None
            },
        },
    }
}

/// The error that a failure of writing gives.
pub open spec fn failure_error(e: Error, f: WriteFailure) -> bool {
    match f {
        WriteFailure::NoModel(t) => e matches Error::WriteError(m) && m@ == "No model found for relationship target "@ + t,
        WriteFailure::NoThumbnail(t) => e matches Error::WriteError(m) && m@ == "No thumbnail image found for relationship target "@ + t,
        WriteFailure::ImageEncoding => e is ImageReadError,
        WriteFailure::NoData(t) => e matches Error::WriteError(m) && m@ == "No data found for relationship target "@ + t,
    }
}

/// The part that the step `s` writes for the package `p`: a relationships
/// part under its path; the root model, a sub-model, the encoded thumbnail or
/// the bytes of an unknown part under the target path without its leading slash.
pub open spec fn step_entry(p: ThreemfPackage, s: WriteStep, e: PartEntry) -> bool {
    match s {
        WriteStep::RelationshipsPart(path, rels) => e.filename@ == path && (e.data matches PartData::Relationships(r) && *r == rels),
        WriteStep::Target(from_root, rel) => {
            &&& e.filename@ == strip_leading_slash(rel.target@)
            &&& match rel.relationship_type {
                RelationshipType::Model => e.data matches PartData::Model(m)
                    && *m == (if from_root { p.root } else { p.sub_models@[rel.target@] }),
                RelationshipType::Thumbnail => e.data matches PartData::Image(b)
                    && png_encoding(p.thumbnails@[rel.target@]) == Some(b@),
                RelationshipType::Unknown(_) => e.data matches PartData::Bytes(b) && *b == p.unknown_parts@[rel.target@],
            }
        },
    }
}

/// The message for a missing target.
fn missing_target_message(lead: &str, target: &str) -> (m: String)
    ensures
        m@ == lead@ + target@,
{
    let mut m = String::new();
    m.append(lead);
    m.append(target);
    m
}

impl ThreemfPackage {
    /// The part that one relationship refers to, or why it cannot be written.
    fn target_entry(&self, rel: &Relationship, from_root: bool) -> (r: Result<PartEntry<'_>, Error>)
        ensures
            match step_failure(*self, WriteStep::Target(from_root, *rel)) {
                Some(f) => r matches Err(e) && failure_error(e, f),
                None => r matches Ok(e) && step_entry(*self, WriteStep::Target(from_root, *rel), e),
            },
    {
        let filename = try_strip_leading_slash(rel.target.as_str()).to_owned();
        match &rel.relationship_type {
            RelationshipType::Model => {
                if from_root {
                    Ok(PartEntry { filename, data: PartData::Model(&self.root) })
                } else {
                    match self.sub_models.get(rel.target.as_str()) {
                        Some(m) => Ok(PartEntry { filename, data: PartData::Model(m) }),
                        None => Err(Error::WriteError(
                            missing_target_message("No model found for relationship target ", rel.target.as_str()),
                        )),
                    }
                }
            },
            RelationshipType::Thumbnail => {
                match self.thumbnails.get(rel.target.as_str()) {
                    Some(image) => match encode_png(image) {
                        Ok(bytes) => Ok(PartEntry { filename, data: PartData::Image(bytes) }),
                        Err(e) => Err(Error::ImageReadError(e)),
                    },
                    None => Err(Error::WriteError(
                        missing_target_message("No thumbnail image found for relationship target ", rel.target.as_str()),
                    )),
                }
            },
            RelationshipType::Unknown(_) => {
                match self.unknown_parts.get(rel.target.as_str()) {
                    Some(bytes) => Ok(PartEntry { filename, data: PartData::Bytes(bytes) }),
                    None => Err(Error::WriteError(
                        missing_target_message("No data found for relationship target ", rel.target.as_str()),
                    )),
                }
            },
        }
    }

    /// The parts to write for this package, in order: the content types,
    /// then each relationships part followed by the parts its relationships
    /// refer to. A relationship whose target the package does not hold stops
    /// it with an error, the first one in that order.
    #[verifier::loop_isolation(false)]
    pub fn write_plan(&self) -> (r: Result<Vec<PartEntry<'_>>, Error>)
        ensures
            ({
                let steps = write_steps(self.relationships.entries());
                &&& r is Ok <==> forall|k: int| 0 <= k < steps.len() ==> step_failure(*self, #[trigger] steps[k]) is None
                &&& r matches Ok(v) ==> {
                    &&& v@.len() == steps.len() + 1
                    &&& v@[0].filename@ == CONTENT_TYPES_PATH@
                    &&& v@[0].data matches PartData::ContentTypes(c) && *c == self.content_types
                    &&& forall|k: int| 0 <= k < steps.len() ==> step_entry(*self, #[trigger] steps[k], v@[k + 1])
                }
                &&& r matches Err(e) ==> exists|k: int| 0 <= k < steps.len()
                    && (forall|j: int| 0 <= j < k ==> step_failure(*self, #[trigger] steps[j]) is None)
                    && (step_failure(*self, #[trigger] steps[k]) matches Some(f) && failure_error(e, f))
            }),
    {
        let ghost entries = self.relationships.entries();
        let mut out: Vec<PartEntry<'_>> = Vec::new();
        out.push(PartEntry { filename: CONTENT_TYPES_PATH.to_owned(), data: PartData::ContentTypes(&self.content_types) });
        let n = self.relationships.len();
        let mut i: usize = 0;
        while i < n
            invariant
                n == entries.len(),
                entries == self.relationships.entries(),
                i <= n,
                out@.len() == write_steps(entries.take(i as int)).len() + 1,
                out@[0].filename@ == CONTENT_TYPES_PATH@,
                out@[0].data matches PartData::ContentTypes(c) && *c == self.content_types,
                forall|k: int| 0 <= k < write_steps(entries.take(i as int)).len()
                    ==> step_entry(*self, #[trigger] write_steps(entries.take(i as int))[k], out@[k + 1]),
                forall|k: int| 0 <= k < write_steps(entries.take(i as int)).len()
                    ==> step_failure(*self, #[trigger] write_steps(entries.take(i as int))[k]) is None,
            decreases n - i,
        {
            let (path, rels) = self.relationships.entry_at(i);
            let ghost before = write_steps(entries.take(i as int));
            let ghost from_root_g = path@ == ROOT_RELATIONSHIPS_PATH@;
            let ghost targets = rels.relationships@.map_values(|r: Relationship| WriteStep::Target(from_root_g, r));
            proof {
                assert(entries.take(i + 1).drop_last() == entries.take(i as int));
                assert(entries.take(i + 1).last() == entries[i as int]);
                assert(write_steps(entries.take(i + 1)) == before.push(WriteStep::RelationshipsPart(path@, *rels)) + targets);
            }
            out.push(PartEntry { filename: path.to_owned(), data: PartData::Relationships(rels) });
            let from_root = str_equal(path, ROOT_RELATIONSHIPS_PATH);
            let m = rels.relationships.len();
            let mut j: usize = 0;
            while j < m
                invariant
                    m == rels.relationships@.len(),
                    j <= m,
                    from_root == from_root_g,
                    targets == rels.relationships@.map_values(|r: Relationship| WriteStep::Target(from_root_g, r)),
                    out@.len() == before.len() + 2 + j,
                    out@[0].filename@ == CONTENT_TYPES_PATH@,
                    out@[0].data matches PartData::ContentTypes(c) && *c == self.content_types,
                    forall|k: int| 0 <= k < before.len() ==> step_entry(*self, #[trigger] before[k], out@[k + 1]),
                    forall|k: int| 0 <= k < before.len() ==> step_failure(*self, #[trigger] before[k]) is None,
                    step_entry(*self, WriteStep::RelationshipsPart(path@, *rels), out@[before.len() as int + 1]),
                    forall|k: int| 0 <= k < j ==> step_entry(*self, #[trigger] targets[k], out@[before.len() + 2 + k]),
                    forall|k: int| 0 <= k < j ==> step_failure(*self, #[trigger] targets[k]) is None,
                decreases m - j,
            {
                let rel = &rels.relationships[j];
                assert(targets[j as int] == WriteStep::Target(from_root, *rel));
                match self.target_entry(rel, from_root) {
                    Ok(e) => {
                        out.push(e);
                    },
                    Err(e) => {
                        proof {
                            let all = write_steps(entries);
                            let k = before.len() + 1 + j;
                            lemma_write_steps_prefix(entries, i as int + 1);
                            assert(write_steps(entries.take(i + 1))[k] == targets[j as int]);
                            assert(all[k] == targets[j as int]);
                            assert forall|q: int| 0 <= q < k implies step_failure(*self, #[trigger] all[q]) is None by {
                                assert(all[q] == write_steps(entries.take(i + 1))[q]);
                                if q < before.len() {
                                    assert(write_steps(entries.take(i + 1))[q] == before[q]);
                                } else if q > before.len() {
                                    assert(write_steps(entries.take(i + 1))[q] == targets[q - before.len() - 1]);
                                }
                            }
                        }
                        return Err(e);
                    },
                }
                j = j + 1;
            }
            proof {
                let now = write_steps(entries.take(i + 1));
                assert forall|k: int| 0 <= k < now.len() implies step_entry(*self, #[trigger] now[k], out@[k + 1])
                    && step_failure(*self, now[k]) is None by {
                    if k < before.len() {
                        assert(now[k] == before[k]);
                    } else if k == before.len() {
                        assert(now[k] == WriteStep::RelationshipsPart(path@, *rels));
                    } else {
                        assert(now[k] == targets[k - before.len() - 1]);
                    }
                }
            }
            i = i + 1;
        }
        assert(entries.take(n as int) == entries);
        Ok(out)
    }
}

/// The steps for the first `i` relationships parts come first among the
/// steps for all of them.
proof fn lemma_write_steps_prefix(e: Seq<(Seq<char>, Relationships)>, i: int)
    requires
        0 <= i <= e.len(),
    ensures
        write_steps(e.take(i)).len() <= write_steps(e).len(),
        forall|k: int| 0 <= k < write_steps(e.take(i)).len() ==> #[trigger] write_steps(e)[k] == write_steps(e.take(i))[k],
    decreases e.len() - i,
{
    if i < e.len() {
        lemma_write_steps_prefix(e, i + 1);
        assert(e.take(i + 1).drop_last() == e.take(i));
    } else {
        assert(e.take(i) == e);
    }
}

/// The file that writing a package gives the part a relationship refers to
/// is the file that reading the package opens for that relationship: the
/// target path without its leading slash.
pub proof fn lemma_written_part_is_read_back(p: ThreemfPackage, from_root: bool, rel: Relationship, root: Seq<char>, e: PartEntry, s: crate::io::reading::ReadStep)
    requires
        step_entry(p, WriteStep::Target(from_root, rel), e),
        crate::io::reading::read_step_for(rel, root, s),
    ensures
        e.filename@ == s.zip_name@,
        (rel.relationship_type is Model) ==> (s.kind is Model && e.data is Model),
        (rel.relationship_type is Thumbnail) ==> (s.kind is Thumbnail && e.data is Image),
        (rel.relationship_type is Unknown) ==> (s.kind is Unknown && e.data is Bytes),
{
}

} // verus!
