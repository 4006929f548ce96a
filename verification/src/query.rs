//! Lookups of objects in a package, by id and by kind.
use vstd::prelude::*;

use crate::core_model::model::Model;
use crate::core_model::object::Object;
use crate::io::package::ThreemfPackage;
use crate::io::query::{
    collect_from_package, collect_objects, filtered_objects, first_with_id, object_ref_view, objects_in_models,
    package_models, ObjectFilter, ObjectRef,
};
use crate::text::opt_view;

verus! {

/// The first object of the model whose id is `object_id`, if any.
pub fn get_object_ref_from_model(object_id: usize, model: &Model) -> (r: Option<&Object>)
    ensures
        match first_with_id(model.resources.object@, object_id) {
            Some(o) => r == Some(&o),
            None => r is None,
        },
{
    match crate::io::query::get_object_from_model(object_id, model) {
        Some(o) => Some(o.object),
        None => None,
    }
}

/// Where to look for an object: the model at `path` when it is given, else
/// the model at `parent_model` when that is given, else the root model.
pub open spec fn lookup_model(p: ThreemfPackage, path: Option<Seq<char>>, parent: Option<Seq<char>>) -> Option<(Option<Seq<char>>, Model)> {
    match path {
        Some(sp) => if p.sub_models@.contains_key(sp) { Some((Some(sp), p.sub_models@[sp])) } else { None },
        None => match parent {
            Some(mp) => if p.sub_models@.contains_key(mp) { Some((Some(mp), p.sub_models@[mp])) } else { None },
            None => Some((None, p.root)),
        },
    }
}

/// A given path decides where an object is looked for, whatever the parent
/// model: the sub-model at that path, under that path, and nothing when the
/// package holds no sub-model there. Without a path, the parent model decides
/// in the same way, and without either the root model is searched, under no
/// path.
pub proof fn lemma_lookup_follows_path(p: ThreemfPackage, sp: Seq<char>, parent: Option<Seq<char>>)
    ensures
        lookup_model(p, Some(sp), parent) == lookup_model(p, Some(sp), None),
        lookup_model(p, Some(sp), parent) is Some <==> p.sub_models@.contains_key(sp),
        lookup_model(p, Some(sp), parent) matches Some((mp, m)) ==> mp == Some(sp) && m == p.sub_models@[sp],
        lookup_model(p, None, Some(sp)) == lookup_model(p, Some(sp), parent),
        lookup_model(p, None, None) == Some((None::<Seq<char>>, p.root)),
{
}

/// The object `object_id` of the model where it is to be looked for, with
/// the path of that model: the sub-model at `path` when a path is given, else
/// the sub-model at `parent_model` when that is given, else the root model
/// (whose path is none). A sub-model that the package does not hold gives
/// neither an object nor a path.
pub fn get_object_ref_from_id<'a>(
    object_id: usize,
    package: &'a ThreemfPackage,
    path: &Option<String>,
    parent_model: &Option<String>,
) -> (r: (Option<&'a Object>, Option<String>))
    ensures
        match lookup_model(*package, opt_view(*path), opt_view(*parent_model)) {
            Some((mp, m)) => opt_view(r.1) == mp && match first_with_id(m.resources.object@, object_id) {
                Some(o) => r.0 == Some(&o),
                None => r.0 is None,
            },
            None => r.0 is None && r.1 is None,
        },
{
    match path {
        Some(sub_model_path) => match package.sub_models.get(sub_model_path.as_str()) {
            Some(model) => (get_object_ref_from_model(object_id, model), Some(sub_model_path.clone())),
            None => (None, None),
        },
        None => match parent_model {
            Some(model_path) => match package.sub_models.get(model_path.as_str()) {
                Some(model) => (get_object_ref_from_model(object_id, model), Some(model_path.clone())),
                None => (None, None),
            },
            None => (get_object_ref_from_model(object_id, &package.root), None),
        },
    }
}

/// The objects that the references stand for.
fn objects_of<'a>(refs: Vec<ObjectRef<'a>>) -> (r: Vec<&'a Object>)
    ensures
        r@.len() == refs@.len(),
        forall|k: int| 0 <= k < r@.len() ==> *(#[trigger] r@[k]) == *refs@[k].object,
{
    let mut out: Vec<&'a Object> = Vec::new();
    let mut i: usize = 0;
    while i < refs.len()
        invariant
            i <= refs.len(),
            out@.len() == i,
            forall|k: int| 0 <= k < i ==> *(#[trigger] out@[k]) == *refs@[k].object,
        decreases refs.len() - i,
    {
        out.push(refs[i].object);
        i = i + 1;
    }
    out
}

/// The objects of the model that `f` selects, in order.
fn select_from_model<'a>(model: &'a Model, f: ObjectFilter) -> (r: Vec<&'a Object>)
    ensures
        r@.len() == filtered_objects(model.resources.object@, f).len(),
        forall|k: int| 0 <= k < r@.len() ==> *(#[trigger] r@[k]) == filtered_objects(model.resources.object@, f)[k],
{
    let mut refs: Vec<ObjectRef<'a>> = Vec::new();
    collect_objects(model, None, f, &mut refs);
    let ghost objs = filtered_objects(model.resources.object@, f);
    proof {
        assert(refs@.map_values(|x: ObjectRef<'a>| object_ref_view(x)) == Seq::<(Option<Seq<char>>, Object)>::empty()
            + objs.map_values(|o: Object| (None::<Seq<char>>, o)));
        assert(refs@.len() == refs@.map_values(|x: ObjectRef<'a>| object_ref_view(x)).len());
        assert(objs.len() == objs.map_values(|o: Object| (None::<Seq<char>>, o)).len());
    }
    let r = objects_of(refs);
    proof {
        assert forall|k: int| 0 <= k < r@.len() implies *(#[trigger] r@[k]) == objs[k] by {
            assert(refs@.map_values(|x: ObjectRef<'a>| object_ref_view(x))[k]
                == (Seq::<(Option<Seq<char>>, Object)>::empty() + objs.map_values(|o: Object| (None::<Seq<char>>, o)))[k]);
        }
    }
    r
}

/// The objects of the package that `f` selects, model after model.
fn select_from_package<'a>(package: &'a ThreemfPackage, f: ObjectFilter) -> (r: Vec<&'a Object>)
    ensures
        r@.len() == objects_in_models(package_models(*package), f).len(),
        forall|k: int| 0 <= k < r@.len() ==> *(#[trigger] r@[k]) == objects_in_models(package_models(*package), f)[k].1,
{
    let refs = collect_from_package(package, f);
    let ghost objs = objects_in_models(package_models(*package), f);
    proof {
        assert(refs@.len() == refs@.map_values(|x: ObjectRef<'a>| object_ref_view(x)).len());
    }
    let r = objects_of(refs);
    proof {
        assert forall|k: int| 0 <= k < r@.len() implies *(#[trigger] r@[k]) == objs[k].1 by {
            assert(refs@.map_values(|x: ObjectRef<'a>| object_ref_view(x))[k] == objs[k]);
        }
    }
    r
}

/// The mesh objects of the package, model after model.
pub fn get_mesh_objects(package: &ThreemfPackage) -> (r: Vec<&Object>)
    ensures
        r@.len() == objects_in_models(package_models(*package), ObjectFilter::Mesh).len(),
        forall|k: int| 0 <= k < r@.len() ==> *(#[trigger] r@[k]) == objects_in_models(package_models(*package), ObjectFilter::Mesh)[k].1,
{
    select_from_package(package, ObjectFilter::Mesh)
}

/// The mesh objects of the model, in order.
pub fn get_mesh_objects_from_model(model: &Model) -> (r: Vec<&Object>)
    ensures
        r@.len() == filtered_objects(model.resources.object@, ObjectFilter::Mesh).len(),
        forall|k: int| 0 <= k < r@.len() ==> *(#[trigger] r@[k]) == filtered_objects(model.resources.object@, ObjectFilter::Mesh)[k],
{
    select_from_model(model, ObjectFilter::Mesh)
}

/// The composed objects of the package, model after model.
pub fn get_composedpart_objects(package: &ThreemfPackage) -> (r: Vec<&Object>)
    ensures
        r@.len() == objects_in_models(package_models(*package), ObjectFilter::ComposedPart).len(),
        forall|k: int| 0 <= k < r@.len() ==> *(#[trigger] r@[k]) == objects_in_models(package_models(*package), ObjectFilter::ComposedPart)[k].1,
{
    select_from_package(package, ObjectFilter::ComposedPart)
}

/// The composed objects of the model, in order.
pub fn get_composedpart_objects_from_model(model: &Model) -> (r: Vec<&Object>)
    ensures
        r@.len() == filtered_objects(model.resources.object@, ObjectFilter::ComposedPart).len(),
        forall|k: int| 0 <= k < r@.len() ==> *(#[trigger] r@[k]) == filtered_objects(model.resources.object@, ObjectFilter::ComposedPart)[k],
{
    select_from_model(model, ObjectFilter::ComposedPart)
}

/// The mesh objects with a beam lattice of the package, model after model.
pub fn get_beam_lattice_objects(package: &ThreemfPackage) -> (r: Vec<&Object>)
    ensures
        r@.len() == objects_in_models(package_models(*package), ObjectFilter::BeamLattice).len(),
        forall|k: int| 0 <= k < r@.len() ==> *(#[trigger] r@[k]) == objects_in_models(package_models(*package), ObjectFilter::BeamLattice)[k].1,
{
    select_from_package(package, ObjectFilter::BeamLattice)
}

/// The mesh objects with a beam lattice of the model, in order.
pub fn get_beam_lattice_objects_from_model(model: &Model) -> (r: Vec<&Object>)
    ensures
        r@.len() == filtered_objects(model.resources.object@, ObjectFilter::BeamLattice).len(),
        forall|k: int| 0 <= k < r@.len() ==> *(#[trigger] r@[k]) == filtered_objects(model.resources.object@, ObjectFilter::BeamLattice)[k],
{
    select_from_model(model, ObjectFilter::BeamLattice)
}

} // verus!
