//! A 3MF package with its parts kept as they are in the archive: the XML of
//! the models, relationships and content types as text, the other parts as
//! bytes.
use vstd::prelude::*;

use crate::io::path_map::PathMap;

verus! {

/// A 3MF package whose parts are not parsed. The parts of its nested
/// folders are kept flat, each under its path in the package.
#[derive(Debug, PartialEq)]
pub struct ThreemfUnpacked {
    /// The XML of the root model.
    pub root: String,
    /// The XML of the other models, under their paths.
    pub sub_models: PathMap<String>,
    /// The bytes of the thumbnails, under their paths.
    pub thumbnails: PathMap<Vec<u8>>,
    /// The bytes of the parts that this library does not know, under their paths.
    pub unknown_parts: PathMap<Vec<u8>>,
    /// The XML of the relationships parts, under their paths.
    pub relationships: PathMap<String>,
    /// The XML of the content types part.
    pub content_types: String,
}

/// Collects the parts of a package while it is unpacked.
pub struct ThreemfUnpackedProcessor {
    root: String,
    sub_models: PathMap<String>,
    thumbnails: PathMap<Vec<u8>>,
    unknown_parts: PathMap<Vec<u8>>,
    relationships: PathMap<String>,
    content_types: String,
}

/// The parts that a processor or an unpacked package holds, as plain values.
pub struct UnpackedView {
    pub root: Seq<char>,
    pub sub_models: Map<Seq<char>, String>,
    pub thumbnails: Map<Seq<char>, Vec<u8>>,
    pub unknown_parts: Map<Seq<char>, Vec<u8>>,
    pub relationships: Map<Seq<char>, String>,
    pub content_types: Seq<char>,
}

impl View for ThreemfUnpackedProcessor {
    type V = UnpackedView;

    closed spec fn view(&self) -> UnpackedView {
        UnpackedView {
            root: self.root@,
            sub_models: self.sub_models@,
            thumbnails: self.thumbnails@,
            unknown_parts: self.unknown_parts@,
            relationships: self.relationships@,
            content_types: self.content_types@,
        }
    }
}

impl View for ThreemfUnpacked {
    type V = UnpackedView;

    open spec fn view(&self) -> UnpackedView {
        UnpackedView {
            root: self.root@,
            sub_models: self.sub_models@,
            thumbnails: self.thumbnails@,
            unknown_parts: self.unknown_parts@,
            relationships: self.relationships@,
            content_types: self.content_types@,
        }
    }
}

impl ThreemfUnpackedProcessor {
    /// A processor that has read no part yet, for a package with the given
    /// content types and relationships parts.
    pub fn new(content_types: String, relationships: PathMap<String>) -> (p: ThreemfUnpackedProcessor)
        ensures
            p@.root.len() == 0,
            p@.sub_models.len() == 0,
            p@.thumbnails.len() == 0,
            p@.unknown_parts.len() == 0,
            p@.relationships == relationships@,
            p@.content_types == content_types@,
    {
        let p = ThreemfUnpackedProcessor {
            root: String::new(),
            sub_models: PathMap::new(),
            thumbnails: PathMap::new(),
            unknown_parts: PathMap::new(),
            relationships,
            content_types,
        };
        proof {
            assert(p.sub_models@.dom() =~= Set::<Seq<char>>::empty());
            assert(p.thumbnails@.dom() =~= Set::<Seq<char>>::empty());
            assert(p.unknown_parts@.dom() =~= Set::<Seq<char>>::empty());
        }
        p
    }

    /// Take the XML of the model read from the part `target`: it is the root
    /// model when `is_root`, else a sub-model under its path.
    pub fn process_model(&mut self, target: &str, xml_content: String, is_root: bool)
        ensures
            final(self)@ == (if is_root {
                UnpackedView { root: xml_content@, ..old(self)@ }
            } else {
                UnpackedView { sub_models: old(self)@.sub_models.insert(target@, xml_content), ..old(self)@ }
            }),
    {
        if is_root {
            self.root = xml_content;
        } else {
            self.sub_models.insert(target.to_owned(), xml_content);
        }
    }

    /// Keep the bytes of the thumbnail read from the part `target` under its path.
    pub fn process_thumbnail(&mut self, target: &str, image_bytes: &[u8])
        ensures
            final(self)@ == (UnpackedView {
                thumbnails: old(self)@.thumbnails.insert(target@, final(self)@.thumbnails[target@]),
                ..old(self)@
            }),
            final(self)@.thumbnails[target@]@ == image_bytes@,
    {
        self.thumbnails.insert(target.to_owned(), vstd::slice::slice_to_vec(image_bytes));
    }

    /// Keep the bytes read from the part `target`, of a content type that
    /// this library does not know, under its path.
    pub fn process_unknown(&mut self, target: &str, content_type: &str, data: &[u8])
        ensures
            final(self)@ == (UnpackedView {
                unknown_parts: old(self)@.unknown_parts.insert(target@, final(self)@.unknown_parts[target@]),
                ..old(self)@
            }),
            final(self)@.unknown_parts[target@]@ == data@,
    {
        self.unknown_parts.insert(target.to_owned(), vstd::slice::slice_to_vec(data));
    }

    /// When the model at `root_model_path` was kept as a sub-model, make it
    /// the root model.
    pub fn promote_root(&mut self, root_model_path: &str)
        ensures
            final(self)@ == (if old(self)@.sub_models.contains_key(root_model_path@) {
                UnpackedView {
                    root: old(self)@.sub_models[root_model_path@]@,
                    sub_models: old(self)@.sub_models.remove(root_model_path@),
                    ..old(self)@
                }
            } else {
                old(self)@
            }),
    {
        match self.sub_models.remove(root_model_path) {
            Some(content) => {
                self.root = content;
            },
            None => {},
        }
    }

    /// The package that was unpacked.
    pub fn into_threemf_unpacked(self) -> (u: ThreemfUnpacked)
        ensures
            u@ == self@,
    {
        ThreemfUnpacked {
            root: self.root,
            sub_models: self.sub_models,
            thumbnails: self.thumbnails,
            unknown_parts: self.unknown_parts,
            relationships: self.relationships,
            content_types: self.content_types,
        }
    }
}

} // verus!
