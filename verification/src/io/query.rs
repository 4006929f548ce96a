//! Queries over models and packages: their objects, mesh objects, composed
//! objects and build items, each with the path of the model it comes from.
use vstd::prelude::*;

use crate::core_model::build::Item;
use crate::core_model::component::Components;
use crate::core_model::mesh::Mesh;
use crate::core_model::model::Model;
use crate::core_model::object::{Object, ObjectType};
use crate::core_model::transform::Transform;
use crate::io::package::ThreemfPackage;
use crate::text::{clone_opt, opt_view, str_equal};

verus! {

/// The text of an optional string slice.
pub open spec fn opt_str(p: Option<&str>) -> Option<Seq<char>> {
    match p {
        Some(s) => Some(s@),
        None => None,
    }
}

/// A reference to an object of a model, with the path of the model when it
/// is a sub-model.
pub struct ObjectRef<'a> {
    /// The object.
    pub object: &'a Object,
    /// The path of the model that holds it; none for the root model.
    pub path: Option<&'a str>,
}

/// An object reference as a plain value: the path and the object.
pub open spec fn object_ref_view(r: ObjectRef) -> (Option<Seq<char>>, Object) {
    (opt_str(r.path), *r.object)
}

/// A reference to a model of a package, with its path when it is a sub-model.
pub struct ModelRef<'a> {
    /// The model.
    pub model: &'a Model,
    /// The path of the model; none for the root model.
    pub path: Option<&'a str>,
}

/// A model reference as a plain value: the path and the model.
pub open spec fn model_ref_view(r: ModelRef) -> (Option<Seq<char>>, Model) {
    (opt_str(r.path), *r.model)
}

/// Which objects a query selects.
#[derive(Clone, Copy, PartialEq, Eq, Structural)]
pub enum ObjectFilter {
    /// Every object.
    All,
    /// The objects that are meshes.
    Mesh,
    /// The objects made of components.
    ComposedPart,
    /// The mesh objects with a beam lattice.
    BeamLattice,
}

/// Whether the object `o` is one that `f` selects.
pub open spec fn passes(o: Object, f: ObjectFilter) -> bool {
    match f {
        ObjectFilter::All => true,
        ObjectFilter::Mesh => o.mesh is Some,
        ObjectFilter::ComposedPart => o.components is Some,
        ObjectFilter::BeamLattice => o.mesh matches Some(m) && m.beamlattice is Some,
    }
}

/// The objects of `objs` that `f` selects, in order.
pub open spec fn filtered_objects(objs: Seq<Object>, f: ObjectFilter) -> Seq<Object>
    decreases objs.len(),
{
    if objs.len() == 0 {
        Seq::empty()
    } else if passes(objs.last(), f) {
        filtered_objects(objs.drop_last(), f).push(objs.last())
    } else {
        filtered_objects(objs.drop_last(), f)
    }
}

/// The models of a package, each with its path: the root model first, then
/// the sub-models in order.
pub open spec fn package_models(p: ThreemfPackage) -> Seq<(Option<Seq<char>>, Model)> {
    seq![(None::<Seq<char>>, p.root)] + p.sub_models.entries().map_values(
        |e: (Seq<char>, Model)| (Some(e.0), e.1),
    )
}

/// The objects of the models `ms` that `f` selects, model after model, each
/// with the path of its model.
pub open spec fn objects_in_models(ms: Seq<(Option<Seq<char>>, Model)>, f: ObjectFilter) -> Seq<(Option<Seq<char>>, Object)>
    decreases ms.len(),
{
    if ms.len() == 0 {
        Seq::empty()
    } else {
        objects_in_models(ms.drop_last(), f) + filtered_objects(ms.last().1.resources.object@, f).map_values(
            |o: Object| (ms.last().0, o),
        )
    }
}

/// The first object of `objs` whose id is `id`.
pub open spec fn first_with_id(objs: Seq<Object>, id: usize) -> Option<Object>
    decreases objs.len(),
{
    if objs.len() == 0 {
        None
    } else if objs[0].id == id {
        Some(objs[0])
    } else {
        first_with_id(objs.drop_first(), id)
    }
}

/// The first object of the model whose id is `object_id`, if any.
pub fn get_object_from_model<'a>(object_id: usize, model: &'a Model) -> (r: Option<ObjectRef<'a>>)
    ensures
        match first_with_id(model.resources.object@, object_id) {
            Some(o) => r matches Some(x) && *x.object == o && x.path is None,
            None => r is None,
        },
{
    let objs = &model.resources.object;
    let mut i: usize = 0;
    assert(objs@.skip(0) == objs@);
    while i < objs.len()
        invariant
            objs@ == model.resources.object@,
            i <= objs.len(),
            first_with_id(objs@, object_id) == first_with_id(objs@.skip(i as int), object_id),
        decreases objs.len() - i,
    {
        assert(objs@.skip(i as int).drop_first() == objs@.skip(i + 1));
        assert(objs@.skip(i as int)[0] == objs@[i as int]);
        if objs[i].id == object_id {
            return Some(ObjectRef { object: &objs[i], path: None });
        }
        i = i + 1;
    }
    assert(objs@.skip(i as int).len() == 0);
    None
}

/// Append the objects of `model` that `f` selects, with the path `path`.
pub(crate) fn collect_objects<'a>(model: &'a Model, path: Option<&'a str>, f: ObjectFilter, out: &mut Vec<ObjectRef<'a>>)
    ensures
        final(out)@.map_values(|r: ObjectRef<'a>| object_ref_view(r)) == old(out)@.map_values(|r: ObjectRef<'a>| object_ref_view(r))
            + filtered_objects(model.resources.object@, f).map_values(|o: Object| (opt_str(path), o)),
{
    let objs = &model.resources.object;
    let ghost start = old(out)@.map_values(|r: ObjectRef<'a>| object_ref_view(r));
    let mut i: usize = 0;
    while i < objs.len()
        invariant
            objs@ == model.resources.object@,
            i <= objs.len(),
            out@.map_values(|r: ObjectRef<'a>| object_ref_view(r)) == start
                + filtered_objects(objs@.take(i as int), f).map_values(|o: Object| (opt_str(path), o)),
        decreases objs.len() - i,
    {
        let o = &objs[i];
        proof {
            assert(objs@.take(i + 1).drop_last() == objs@.take(i as int));
            assert(objs@.take(i + 1).last() == *o);
        }
        let keep = match f {
            ObjectFilter::All => true,
            ObjectFilter::Mesh => o.mesh.is_some(),
            ObjectFilter::ComposedPart => o.components.is_some(),
            ObjectFilter::BeamLattice => match &o.mesh {
                Some(m) => m.beamlattice.is_some(),
                None => false,
            },
        };
        if keep {
            let ghost prev = out@;
            out.push(ObjectRef { object: o, path });
            assert(out@.map_values(|r: ObjectRef<'a>| object_ref_view(r))
                == prev.map_values(|r: ObjectRef<'a>| object_ref_view(r)).push((opt_str(path), *o)));
        }
        i = i + 1;
    }
    assert(objs@.take(objs.len() as int) == objs@);
}

/// All objects of the model reference, with its path.
pub fn get_objects_from_model_ref<'a>(model_ref: ModelRef<'a>) -> (r: Vec<ObjectRef<'a>>)
    ensures
        r@.map_values(|x: ObjectRef<'a>| object_ref_view(x))
            == filtered_objects(model_ref.model.resources.object@, ObjectFilter::All).map_values(|o: Object| (opt_str(model_ref.path), o)),
{
    let mut out: Vec<ObjectRef<'a>> = Vec::new();
    collect_objects(model_ref.model, model_ref.path, ObjectFilter::All, &mut out);
    out
}

/// All objects of the model, as objects of the root model.
pub fn get_objects_from_model<'a>(model: &'a Model) -> (r: Vec<ObjectRef<'a>>)
    ensures
        r@.map_values(|x: ObjectRef<'a>| object_ref_view(x))
            == filtered_objects(model.resources.object@, ObjectFilter::All).map_values(|o: Object| (None::<Seq<char>>, o)),
{
    get_objects_from_model_ref(ModelRef { model, path: None })
}

/// The mesh objects of the model reference, with its path.
pub fn get_mesh_objects_from_model_ref<'a>(model_ref: ModelRef<'a>) -> (r: Vec<ObjectRef<'a>>)
    ensures
        r@.map_values(|x: ObjectRef<'a>| object_ref_view(x))
            == filtered_objects(model_ref.model.resources.object@, ObjectFilter::Mesh).map_values(|o: Object| (opt_str(model_ref.path), o)),
{
    let mut out: Vec<ObjectRef<'a>> = Vec::new();
    collect_objects(model_ref.model, model_ref.path, ObjectFilter::Mesh, &mut out);
    out
}

/// The composed objects of the model reference, with its path.
pub fn get_composedpart_objects_from_model_ref<'a>(model_ref: ModelRef<'a>) -> (r: Vec<ObjectRef<'a>>)
    ensures
        r@.map_values(|x: ObjectRef<'a>| object_ref_view(x))
            == filtered_objects(model_ref.model.resources.object@, ObjectFilter::ComposedPart).map_values(|o: Object| (opt_str(model_ref.path), o)),
{
    let mut out: Vec<ObjectRef<'a>> = Vec::new();
    collect_objects(model_ref.model, model_ref.path, ObjectFilter::ComposedPart, &mut out);
    out
}

/// All models of the package: the root model first, then the sub-models
/// with their paths.
pub fn iter_models<'a>(package: &'a ThreemfPackage) -> (r: Vec<ModelRef<'a>>)
    ensures
        r@.map_values(|x: ModelRef<'a>| model_ref_view(x)) == package_models(*package),
{
    let mut out: Vec<ModelRef<'a>> = Vec::new();
    out.push(ModelRef { model: &package.root, path: None });
    let n = package.sub_models.len();
    let ghost subs = package.sub_models.entries().map_values(|e: (Seq<char>, Model)| (Some(e.0), e.1));
    let mut i: usize = 0;
    while i < n
        invariant
            n == package.sub_models.entries().len(),
            subs == package.sub_models.entries().map_values(|e: (Seq<char>, Model)| (Some(e.0), e.1)),
            i <= n,
            out@.map_values(|x: ModelRef<'a>| model_ref_view(x)) == seq![(None::<Seq<char>>, package.root)] + subs.take(i as int),
        decreases n - i,
    {
        let (path, model) = package.sub_models.entry_at(i);
        let ghost prev = out@;
        out.push(ModelRef { model, path: Some(path) });
        assert(out@.map_values(|x: ModelRef<'a>| model_ref_view(x))
            == prev.map_values(|x: ModelRef<'a>| model_ref_view(x)).push((Some(path@), *model)));
        assert(subs.take(i + 1) == subs.take(i as int).push(subs[i as int]));
        i = i + 1;
    }
    assert(subs.take(n as int) == subs);
    out
}

/// The objects of the package that `f` selects, model after model.
pub(crate) fn collect_from_package<'a>(package: &'a ThreemfPackage, f: ObjectFilter) -> (r: Vec<ObjectRef<'a>>)
    ensures
        r@.map_values(|x: ObjectRef<'a>| object_ref_view(x)) == objects_in_models(package_models(*package), f),
{
    let models = iter_models(package);
    let ghost ms = package_models(*package);
    let mut out: Vec<ObjectRef<'a>> = Vec::new();
    let mut i: usize = 0;
    while i < models.len()
        invariant
            models@.map_values(|x: ModelRef<'a>| model_ref_view(x)) == ms,
            i <= models.len(),
            out@.map_values(|x: ObjectRef<'a>| object_ref_view(x)) == objects_in_models(ms.take(i as int), f),
        decreases models.len() - i,
    {
        let m = &models[i];
        proof {
            assert(ms.take(i + 1).drop_last() == ms.take(i as int));
            assert(ms.take(i + 1).last() == ms[i as int]);
            assert(ms[i as int] == model_ref_view(*m));
        }
        collect_objects(m.model, m.path, f, &mut out);
        i = i + 1;
    }
    assert(ms.take(models.len() as int) == ms);
    out
}

/// All objects of the package, model after model.
pub fn get_objects<'a>(package: &'a ThreemfPackage) -> (r: Vec<ObjectRef<'a>>)
    ensures
        r@.map_values(|x: ObjectRef<'a>| object_ref_view(x)) == objects_in_models(package_models(*package), ObjectFilter::All),
{
    collect_from_package(package, ObjectFilter::All)
}

/// A reference to an object with its metadata and what it is made of.
pub struct GenericObjectRef<'a, T> {
    /// What the object is made of (a mesh, components).
    entity: &'a T,
    pub id: usize,
    pub object_type: ObjectType,
    pub thumbnail: Option<String>,
    pub part_number: Option<String>,
    pub name: Option<String>,
    pub pid: Option<usize>,
    pub pindex: Option<usize>,
    pub uuid: Option<String>,
    /// The path of the model that holds the object; none for the root model.
    pub origin_model_path: Option<&'a str>,
}

impl<'a, T> GenericObjectRef<'a, T> {
    /// What the object is made of.
    pub closed spec fn entity_of(&self) -> T {
        *self.entity
    }

    /// The path of the model that holds the object; none for the root model.
    pub closed spec fn origin_of(&self) -> Option<Seq<char>> {
        opt_str(self.origin_model_path)
    }
}

/// The reference `g` describes the object `o` of the model at `path`, made of `entity`;
/// an object without a type is a model.
pub closed spec fn describes<T>(g: GenericObjectRef<T>, o: Object, path: Option<Seq<char>>, entity: T) -> bool {
    &&& g.entity_of() == entity
    &&& g.id == o.id
    &&& g.object_type == (match o.objecttype {
        Some(t) => t,
        None => ObjectType::Model,
    })
    &&& g.thumbnail == o.thumbnail
    &&& g.part_number == o.partnumber
    &&& g.name == o.name
    &&& g.pid == o.pid
    &&& g.pindex == o.pindex
    &&& g.uuid == o.uuid
    &&& opt_str(g.origin_model_path) == path
}

/// A reference to a mesh object with all its data.
pub struct MeshObjectRef<'a>(GenericObjectRef<'a, Mesh>);

impl<'a> MeshObjectRef<'a> {
    /// The reference to the object with its metadata.
    pub closed spec fn generic(&self) -> GenericObjectRef<'a, Mesh> {
        self.0
    }

    fn new(o: ObjectRef<'a>) -> (r: MeshObjectRef<'a>)
        requires
            o.object.mesh is Some,
        ensures
            describes(r.generic(), *o.object, opt_str(o.path), o.object.mesh->0),
    {
        let mesh = match &o.object.mesh {
            Some(m) => m,
            None => vstd::pervasive::unreached(),
        };
        MeshObjectRef(GenericObjectRef {
            entity: mesh,
            id: o.object.id,
            object_type: match o.object.objecttype {
                Some(t) => t,
                None => ObjectType::Model,
            },
            thumbnail: clone_opt(&o.object.thumbnail),
            part_number: clone_opt(&o.object.partnumber),
            name: clone_opt(&o.object.name),
            pid: o.object.pid,
            pindex: o.object.pindex,
            uuid: clone_opt(&o.object.uuid),
            origin_model_path: o.path,
        })
    }

    /// The mesh of the object.
    pub fn mesh(&self) -> (r: &'a Mesh)
        ensures
            *r == self.generic().entity_of(),
    {
        self.0.entity
    }
}

impl<'a> core::ops::Deref for MeshObjectRef<'a> {
    type Target = GenericObjectRef<'a, Mesh>;

    fn deref(&self) -> (r: &GenericObjectRef<'a, Mesh>)
        ensures
            *r == self.generic(),
    {
        &self.0
    }
}

/// The mesh objects that the object references `refs` stand for.
fn mesh_refs<'a>(refs: Vec<ObjectRef<'a>>) -> (r: Vec<MeshObjectRef<'a>>)
    requires
        forall|k: int| 0 <= k < refs@.len() ==> (#[trigger] refs@[k]).object.mesh is Some,
    ensures
        r@.len() == refs@.len(),
        forall|k: int| 0 <= k < r@.len() ==> describes(
            (#[trigger] r@[k]).generic(), *refs@[k].object, opt_str(refs@[k].path), refs@[k].object.mesh->0),
{
    let mut out: Vec<MeshObjectRef<'a>> = Vec::new();
    let mut i: usize = 0;
    while i < refs.len()
        invariant
            i <= refs.len(),
            forall|k: int| 0 <= k < refs@.len() ==> (#[trigger] refs@[k]).object.mesh is Some,
            out@.len() == i,
            forall|k: int| 0 <= k < i ==> describes(
                (#[trigger] out@[k]).generic(), *refs@[k].object, opt_str(refs@[k].path), refs@[k].object.mesh->0),
        decreases refs.len() - i,
    {
        let o = ObjectRef { object: refs[i].object, path: refs[i].path };
        out.push(MeshObjectRef::new(o));
        i = i + 1;
    }
    out
}

/// Every object that a query over a model selects is one that its filter
/// selects: a mesh query gives only meshes, a composed-part query only
/// compositions, a beam lattice query only meshes with a beam lattice.
pub proof fn lemma_filtered_pass(objs: Seq<Object>, f: ObjectFilter)
    ensures
        forall|k: int| 0 <= k < filtered_objects(objs, f).len() ==> passes(#[trigger] filtered_objects(objs, f)[k], f),
    decreases objs.len(),
{
    if objs.len() > 0 {
        lemma_filtered_pass(objs.drop_last(), f);
        let prev = filtered_objects(objs.drop_last(), f);
        assert forall|k: int| 0 <= k < filtered_objects(objs, f).len() implies passes(#[trigger] filtered_objects(objs, f)[k], f) by {
            if k < prev.len() {
                assert(filtered_objects(objs, f)[k] == prev[k]);
            }
        }
    }
}

/// The objects that a filter selects are exactly those of the list that
/// pass it, in their order in the list.
pub proof fn lemma_filtered_objects_are_the_passing_ones(objs: Seq<Object>, f: ObjectFilter)
    ensures
        filtered_objects(objs, f) == objs.filter(|o: Object| passes(o, f)),
    decreases objs.len(),
{
    reveal(Seq::filter);
    if objs.len() > 0 {
        lemma_filtered_objects_are_the_passing_ones(objs.drop_last(), f);
    }
}

/// The first object with an id is an object of the list with that id, and
/// no object before it has that id; there is none exactly when no object of
/// the list has the id.
pub proof fn lemma_first_with_id(objs: Seq<Object>, id: usize)
    ensures
        match first_with_id(objs, id) {
            Some(o) => exists|k: int| 0 <= k < objs.len() && #[trigger] objs[k] == o && o.id == id
                && forall|j: int| 0 <= j < k ==> (#[trigger] objs[j]).id != id,
            None => forall|k: int| 0 <= k < objs.len() ==> (#[trigger] objs[k]).id != id,
        },
    decreases objs.len(),
{
    if objs.len() > 0 {
        let rest = objs.drop_first();
        lemma_first_with_id(rest, id);
        if objs[0].id != id {
            match first_with_id(rest, id) {
                Some(o) => {
                    let k = choose|k: int| 0 <= k < rest.len() && #[trigger] rest[k] == o && o.id == id
                        && forall|j: int| 0 <= j < k ==> (#[trigger] rest[j]).id != id;
                    assert(objs[k + 1] == o);
                    assert forall|j: int| 0 <= j < k + 1 implies (#[trigger] objs[j]).id != id by {
                        if j > 0 {
                            assert(objs[j] == rest[j - 1]);
                        }
                    }
                },
                None => {
                    assert forall|k: int| 0 <= k < objs.len() implies (#[trigger] objs[k]).id != id by {
                        if k > 0 {
                            assert(objs[k] == rest[k - 1]);
                        }
                    }
                },
            }
        } else {
            assert(objs[0] == first_with_id(objs, id)->0);
        }
    }
}

/// Every object that a query over a package selects is one that its
/// filter selects.
pub proof fn lemma_models_pass(ms: Seq<(Option<Seq<char>>, Model)>, f: ObjectFilter)
    ensures
        forall|k: int| 0 <= k < objects_in_models(ms, f).len() ==> passes((#[trigger] objects_in_models(ms, f)[k]).1, f),
    decreases ms.len(),
{
    if ms.len() > 0 {
        lemma_models_pass(ms.drop_last(), f);
        lemma_filtered_pass(ms.last().1.resources.object@, f);
        let a = objects_in_models(ms.drop_last(), f);
        let b = filtered_objects(ms.last().1.resources.object@, f).map_values(|o: Object| (ms.last().0, o));
        assert forall|k: int| 0 <= k < objects_in_models(ms, f).len() implies passes((#[trigger] objects_in_models(ms, f)[k]).1, f) by {
            if k >= a.len() {
                assert(objects_in_models(ms, f)[k] == b[k - a.len()]);
            } else {
                assert(objects_in_models(ms, f)[k] == a[k]);
            }
        }
    }
}

/// The mesh objects of the model, as objects of the root model.
pub fn get_mesh_objects_from_model<'a>(model: &'a Model) -> (r: Vec<MeshObjectRef<'a>>)
    ensures
        r@.len() == filtered_objects(model.resources.object@, ObjectFilter::Mesh).len(),
        forall|k: int| 0 <= k < r@.len() ==> describes(
            (#[trigger] r@[k]).generic(),
            filtered_objects(model.resources.object@, ObjectFilter::Mesh)[k],
            None,
            filtered_objects(model.resources.object@, ObjectFilter::Mesh)[k].mesh->0,
        ),
{
    let refs = get_mesh_objects_from_model_ref(ModelRef { model, path: None });
    let ghost objs = filtered_objects(model.resources.object@, ObjectFilter::Mesh);
    proof {
        assert(refs@.map_values(|x: ObjectRef<'a>| object_ref_view(x)) == objs.map_values(|o: Object| (None::<Seq<char>>, o)));
        assert(refs@.len() == refs@.map_values(|x: ObjectRef<'a>| object_ref_view(x)).len());
        assert(objs.len() == objs.map_values(|o: Object| (None::<Seq<char>>, o)).len());
        lemma_filtered_pass(model.resources.object@, ObjectFilter::Mesh);
        assert forall|k: int| 0 <= k < refs@.len() implies (#[trigger] refs@[k]).object.mesh is Some by {
            assert(refs@.map_values(|x: ObjectRef<'a>| object_ref_view(x))[k] == (None::<Seq<char>>, objs[k]));
        }
    }
    let r = mesh_refs(refs);
    proof {
        assert forall|k: int| 0 <= k < r@.len() implies describes(
            (#[trigger] r@[k]).generic(), objs[k], None, objs[k].mesh->0) by {
            assert(refs@.map_values(|x: ObjectRef<'a>| object_ref_view(x))[k] == (None::<Seq<char>>, objs[k]));
        }
    }
    r
}

/// The mesh objects of the package, model after model.
pub fn get_mesh_objects<'a>(package: &'a ThreemfPackage) -> (r: Vec<MeshObjectRef<'a>>)
    ensures
        r@.len() == objects_in_models(package_models(*package), ObjectFilter::Mesh).len(),
        forall|k: int| 0 <= k < r@.len() ==> describes(
            (#[trigger] r@[k]).generic(),
            objects_in_models(package_models(*package), ObjectFilter::Mesh)[k].1,
            objects_in_models(package_models(*package), ObjectFilter::Mesh)[k].0,
            objects_in_models(package_models(*package), ObjectFilter::Mesh)[k].1.mesh->0,
        ),
{
    let refs = collect_from_package(package, ObjectFilter::Mesh);
    let ghost objs = objects_in_models(package_models(*package), ObjectFilter::Mesh);
    proof {
        assert(refs@.len() == refs@.map_values(|x: ObjectRef<'a>| object_ref_view(x)).len());
        lemma_models_pass(package_models(*package), ObjectFilter::Mesh);
        assert forall|k: int| 0 <= k < refs@.len() implies (#[trigger] refs@[k]).object.mesh is Some by {
            assert(refs@.map_values(|x: ObjectRef<'a>| object_ref_view(x))[k] == objs[k]);
        }
    }
    let r = mesh_refs(refs);
    proof {
        assert forall|k: int| 0 <= k < r@.len() implies describes(
            (#[trigger] r@[k]).generic(), objs[k].1, objs[k].0, objs[k].1.mesh->0) by {
            assert(refs@.map_values(|x: ObjectRef<'a>| object_ref_view(x))[k] == objs[k]);
        }
    }
    r
}

/// A reference to an object made of components, with its metadata.
pub struct ComposedPartObjectRef<'a>(GenericObjectRef<'a, Components>);

/// A component of a composed object, with where to look for the object it
/// refers to.
pub struct ComponentRef {
    /// The id of the object that the component refers to.
    pub objectid: usize,
    /// The path of the model that holds that object: the component's own
    /// path when it has one, else the path of the model of the composed object.
    pub path_to_look_for: Option<String>,
    /// The transform of the component.
    pub transform: Option<Transform>,
    /// The UUID of the component.
    pub uuid: Option<String>,
}

impl<'a> ComposedPartObjectRef<'a> {
    /// The reference to the object with its metadata.
    pub closed spec fn generic(&self) -> GenericObjectRef<'a, Components> {
        self.0
    }

    fn new(o: ObjectRef<'a>) -> (r: ComposedPartObjectRef<'a>)
        requires
            o.object.components is Some,
        ensures
            describes(r.generic(), *o.object, opt_str(o.path), o.object.components->0),
    {
        let components = match &o.object.components {
            Some(c) => c,
            None => vstd::pervasive::unreached(),
        };
        ComposedPartObjectRef(GenericObjectRef {
            entity: components,
            id: o.object.id,
            object_type: match o.object.objecttype {
                Some(t) => t,
                None => ObjectType::Model,
            },
            thumbnail: clone_opt(&o.object.thumbnail),
            part_number: clone_opt(&o.object.partnumber),
            name: clone_opt(&o.object.name),
            pid: o.object.pid,
            pindex: o.object.pindex,
            uuid: clone_opt(&o.object.uuid),
            origin_model_path: o.path,
        })
    }

    /// The components of the object, in order; each is looked for in the
    /// model of its own path, or else in the model of the composed object.
    pub fn components(&self) -> (r: Vec<ComponentRef>)
        ensures
            r@.len() == self.generic().entity_of().component@.len(),
            forall|k: int| 0 <= k < r@.len() ==> {
                let c = self.generic().entity_of().component@[k];
                &&& (#[trigger] r@[k]).objectid == c.objectid
                &&& r@[k].transform == c.transform
                &&& r@[k].uuid == c.uuid
                &&& opt_view(r@[k].path_to_look_for) == (match c.path {
                    Some(p) => Some(p@),
                    None => self.generic().origin_of(),
                })
            },
    {
        let comps = &self.0.entity.component;
        let mut out: Vec<ComponentRef> = Vec::new();
        let mut i: usize = 0;
        while i < comps.len()
            invariant
                comps@ == self.generic().entity_of().component@,
                i <= comps.len(),
                out@.len() == i,
                forall|k: int| 0 <= k < i ==> {
                    let c = comps@[k];
                    &&& (#[trigger] out@[k]).objectid == c.objectid
                    &&& out@[k].transform == c.transform
                    &&& out@[k].uuid == c.uuid
                    &&& opt_view(out@[k].path_to_look_for) == (match c.path {
                        Some(p) => Some(p@),
                        None => self.generic().origin_of(),
                    })
                },
            decreases comps.len() - i,
        {
            let c = &comps[i];
            let path_to_look_for = match &c.path {
                Some(p) => Some(p.clone()),
                None => match self.0.origin_model_path {
                    Some(parent) => Some(parent.to_owned()),
                    None => None,
                },
            };
            out.push(ComponentRef { objectid: c.objectid, transform: c.transform, path_to_look_for, uuid: clone_opt(&c.uuid) });
            i = i + 1;
        }
        out
    }
}

impl<'a> core::ops::Deref for ComposedPartObjectRef<'a> {
    type Target = GenericObjectRef<'a, Components>;

    fn deref(&self) -> (r: &GenericObjectRef<'a, Components>)
        ensures
            *r == self.generic(),
    {
        &self.0
    }
}

/// The composed objects that the object references `refs` stand for.
fn composed_refs<'a>(refs: Vec<ObjectRef<'a>>) -> (r: Vec<ComposedPartObjectRef<'a>>)
    requires
        forall|k: int| 0 <= k < refs@.len() ==> (#[trigger] refs@[k]).object.components is Some,
    ensures
        r@.len() == refs@.len(),
        forall|k: int| 0 <= k < r@.len() ==> describes(
            (#[trigger] r@[k]).generic(), *refs@[k].object, opt_str(refs@[k].path), refs@[k].object.components->0),
{
    let mut out: Vec<ComposedPartObjectRef<'a>> = Vec::new();
    let mut i: usize = 0;
    while i < refs.len()
        invariant
            i <= refs.len(),
            forall|k: int| 0 <= k < refs@.len() ==> (#[trigger] refs@[k]).object.components is Some,
            out@.len() == i,
            forall|k: int| 0 <= k < i ==> describes(
                (#[trigger] out@[k]).generic(), *refs@[k].object, opt_str(refs@[k].path), refs@[k].object.components->0),
        decreases refs.len() - i,
    {
        let o = ObjectRef { object: refs[i].object, path: refs[i].path };
        out.push(ComposedPartObjectRef::new(o));
        i = i + 1;
    }
    out
}

/// The composed objects of the model, as objects of the root model.
pub fn get_composedpart_objects_from_model<'a>(model: &'a Model) -> (r: Vec<ComposedPartObjectRef<'a>>)
    ensures
        r@.len() == filtered_objects(model.resources.object@, ObjectFilter::ComposedPart).len(),
        forall|k: int| 0 <= k < r@.len() ==> describes(
            (#[trigger] r@[k]).generic(),
            filtered_objects(model.resources.object@, ObjectFilter::ComposedPart)[k],
            None,
            filtered_objects(model.resources.object@, ObjectFilter::ComposedPart)[k].components->0,
        ),
{
    let refs = get_composedpart_objects_from_model_ref(ModelRef { model, path: None });
    let ghost objs = filtered_objects(model.resources.object@, ObjectFilter::ComposedPart);
    proof {
        assert(refs@.map_values(|x: ObjectRef<'a>| object_ref_view(x)) == objs.map_values(|o: Object| (None::<Seq<char>>, o)));
        assert(refs@.len() == refs@.map_values(|x: ObjectRef<'a>| object_ref_view(x)).len());
        assert(objs.len() == objs.map_values(|o: Object| (None::<Seq<char>>, o)).len());
        lemma_filtered_pass(model.resources.object@, ObjectFilter::ComposedPart);
        assert forall|k: int| 0 <= k < refs@.len() implies (#[trigger] refs@[k]).object.components is Some by {
            assert(refs@.map_values(|x: ObjectRef<'a>| object_ref_view(x))[k] == (None::<Seq<char>>, objs[k]));
        }
    }
    let r = composed_refs(refs);
    proof {
        assert forall|k: int| 0 <= k < r@.len() implies describes(
            (#[trigger] r@[k]).generic(), objs[k], None, objs[k].components->0) by {
            assert(refs@.map_values(|x: ObjectRef<'a>| object_ref_view(x))[k] == (None::<Seq<char>>, objs[k]));
        }
    }
    r
}

/// The composed objects of the package, model after model.
pub fn get_composedpart_objects<'a>(package: &'a ThreemfPackage) -> (r: Vec<ComposedPartObjectRef<'a>>)
    ensures
        r@.len() == objects_in_models(package_models(*package), ObjectFilter::ComposedPart).len(),
        forall|k: int| 0 <= k < r@.len() ==> describes(
            (#[trigger] r@[k]).generic(),
            objects_in_models(package_models(*package), ObjectFilter::ComposedPart)[k].1,
            objects_in_models(package_models(*package), ObjectFilter::ComposedPart)[k].0,
            objects_in_models(package_models(*package), ObjectFilter::ComposedPart)[k].1.components->0,
        ),
{
    let refs = collect_from_package(package, ObjectFilter::ComposedPart);
    let ghost objs = objects_in_models(package_models(*package), ObjectFilter::ComposedPart);
    proof {
        assert(refs@.len() == refs@.map_values(|x: ObjectRef<'a>| object_ref_view(x)).len());
        lemma_models_pass(package_models(*package), ObjectFilter::ComposedPart);
        assert forall|k: int| 0 <= k < refs@.len() implies (#[trigger] refs@[k]).object.components is Some by {
            assert(refs@.map_values(|x: ObjectRef<'a>| object_ref_view(x))[k] == objs[k]);
        }
    }
    let r = composed_refs(refs);
    proof {
        assert forall|k: int| 0 <= k < r@.len() implies describes(
            (#[trigger] r@[k]).generic(), objs[k].1, objs[k].0, objs[k].1.components->0) by {
            assert(refs@.map_values(|x: ObjectRef<'a>| object_ref_view(x))[k] == objs[k]);
        }
    }
    r
}

/// A reference to a build item, with the path of its model when it is a sub-model.
pub struct ItemRef<'a> {
    /// The item.
    pub item: &'a Item,
    /// The path of the model that holds the item; none for the root model.
    pub origin_model_path: Option<&'a str>,
}

/// An item reference as a plain value: the path and the item.
pub open spec fn item_ref_view(r: ItemRef) -> (Option<Seq<char>>, Item) {
    (opt_str(r.origin_model_path), *r.item)
}

impl<'a> ItemRef<'a> {
    /// The id of the object that the item refers to.
    pub fn objectid(&self) -> (r: usize)
        ensures
            r == self.item.objectid,
    {
        self.item.objectid
    }

    /// The transform of the item.
    pub fn transform(&self) -> (r: Option<&Transform>)
        ensures
            match r {
                Some(t) => self.item.transform == Some(*t),
                None => self.item.transform is None,
            },
    {
        match &self.item.transform {
            Some(t) => Some(t),
            None => None,
        }
    }

    /// The part number of the item.
    pub fn partnumber(&self) -> (r: Option<&str>)
        ensures
            opt_str(r) == opt_view(self.item.partnumber),
    {
        match &self.item.partnumber {
            Some(p) => Some(p.as_str()),
            None => None,
        }
    }

    /// Production extension: the path of the model part that holds the object.
    pub fn path(&self) -> (r: Option<&str>)
        ensures
            opt_str(r) == opt_view(self.item.path),
    {
        match &self.item.path {
            Some(p) => Some(p.as_str()),
            None => None,
        }
    }

    /// Production extension: the UUID of the item.
    pub fn uuid(&self) -> (r: Option<&str>)
        ensures
            opt_str(r) == opt_view(self.item.uuid),
    {
        match &self.item.uuid {
            Some(u) => Some(u.as_str()),
            None => None,
        }
    }
}

/// The build items of the models `ms`, model after model, each with the path of its model.
pub open spec fn items_in_models(ms: Seq<(Option<Seq<char>>, Model)>) -> Seq<(Option<Seq<char>>, Item)>
    decreases ms.len(),
{
    if ms.len() == 0 {
        Seq::empty()
    } else {
        items_in_models(ms.drop_last()) + ms.last().1.build.item@.map_values(|i: Item| (ms.last().0, i))
    }
}

/// Append the build items of `model`, with the path `path`.
fn collect_items<'a>(model: &'a Model, path: Option<&'a str>, out: &mut Vec<ItemRef<'a>>)
    ensures
        final(out)@.map_values(|r: ItemRef<'a>| item_ref_view(r)) == old(out)@.map_values(|r: ItemRef<'a>| item_ref_view(r))
            + model.build.item@.map_values(|i: Item| (opt_str(path), i)),
{
    let items = &model.build.item;
    let ghost start = old(out)@.map_values(|r: ItemRef<'a>| item_ref_view(r));
    let mut i: usize = 0;
    while i < items.len()
        invariant
            items@ == model.build.item@,
            i <= items.len(),
            out@.map_values(|r: ItemRef<'a>| item_ref_view(r)) == start
                + items@.take(i as int).map_values(|it: Item| (opt_str(path), it)),
        decreases items.len() - i,
    {
        let ghost prev = out@;
        out.push(ItemRef { item: &items[i], origin_model_path: path });
        assert(out@.map_values(|r: ItemRef<'a>| item_ref_view(r))
            == prev.map_values(|r: ItemRef<'a>| item_ref_view(r)).push((opt_str(path), items@[i as int])));
        assert(items@.take(i + 1).map_values(|it: Item| (opt_str(path), it))
            == items@.take(i as int).map_values(|it: Item| (opt_str(path), it)).push((opt_str(path), items@[i as int])));
        i = i + 1;
    }
    assert(items@.take(items.len() as int) == items@);
}

/// The build items of the model reference, with its path.
pub fn get_items_from_model_ref<'a>(model_ref: ModelRef<'a>) -> (r: Vec<ItemRef<'a>>)
    ensures
        r@.map_values(|x: ItemRef<'a>| item_ref_view(x))
            == model_ref.model.build.item@.map_values(|i: Item| (opt_str(model_ref.path), i)),
{
    let mut out: Vec<ItemRef<'a>> = Vec::new();
    collect_items(model_ref.model, model_ref.path, &mut out);
    out
}

/// The build items of the model, as items of the root model.
pub fn get_items_from_model<'a>(model: &'a Model) -> (r: Vec<ItemRef<'a>>)
    ensures
        r@.map_values(|x: ItemRef<'a>| item_ref_view(x)) == model.build.item@.map_values(|i: Item| (None::<Seq<char>>, i)),
{
    get_items_from_model_ref(ModelRef { model, path: None })
}

/// All build items of the package, model after model.
pub fn get_items<'a>(package: &'a ThreemfPackage) -> (r: Vec<ItemRef<'a>>)
    ensures
        r@.map_values(|x: ItemRef<'a>| item_ref_view(x)) == items_in_models(package_models(*package)),
{
    let models = iter_models(package);
    let ghost ms = package_models(*package);
    let mut out: Vec<ItemRef<'a>> = Vec::new();
    let mut i: usize = 0;
    while i < models.len()
        invariant
            models@.map_values(|x: ModelRef<'a>| model_ref_view(x)) == ms,
            i <= models.len(),
            out@.map_values(|x: ItemRef<'a>| item_ref_view(x)) == items_in_models(ms.take(i as int)),
        decreases models.len() - i,
    {
        let m = &models[i];
        proof {
            assert(ms.take(i + 1).drop_last() == ms.take(i as int));
            assert(ms.take(i + 1).last() == ms[i as int]);
            assert(ms[i as int] == model_ref_view(*m));
        }
        collect_items(m.model, m.path, &mut out);
        i = i + 1;
    }
    assert(ms.take(models.len() as int) == ms);
    out
}

/// The items of `items` that refer to the object `objectid`, in order.
pub open spec fn items_for_object(items: Seq<(Option<Seq<char>>, Item)>, objectid: usize) -> Seq<(Option<Seq<char>>, Item)>
    decreases items.len(),
{
    if items.len() == 0 {
        Seq::empty()
    } else if items.last().1.objectid == objectid {
        items_for_object(items.drop_last(), objectid).push(items.last())
    } else {
        items_for_object(items.drop_last(), objectid)
    }
}

/// The items for an object are exactly those of the list that refer to
/// it, in their order in the list.
pub proof fn lemma_items_for_object_are_those_referring(items: Seq<(Option<Seq<char>>, Item)>, objectid: usize)
    ensures
        items_for_object(items, objectid) == items.filter(|x: (Option<Seq<char>>, Item)| x.1.objectid == objectid),
    decreases items.len(),
{
    reveal(Seq::filter);
    if items.len() > 0 {
        lemma_items_for_object_are_those_referring(items.drop_last(), objectid);
    }
}

/// The build items of the package that refer to the object `objectid`;
/// several items may refer to the same object.
pub fn get_items_by_objectid<'a>(package: &'a ThreemfPackage, objectid: usize) -> (r: Vec<ItemRef<'a>>)
    ensures
        r@.map_values(|x: ItemRef<'a>| item_ref_view(x)) == items_for_object(items_in_models(package_models(*package)), objectid),
{
    let all = get_items(package);
    let ghost allv = all@.map_values(|x: ItemRef<'a>| item_ref_view(x));
    let mut out: Vec<ItemRef<'a>> = Vec::new();
    let mut i: usize = 0;
    while i < all.len()
        invariant
            allv == all@.map_values(|x: ItemRef<'a>| item_ref_view(x)),
            i <= all.len(),
            out@.map_values(|x: ItemRef<'a>| item_ref_view(x)) == items_for_object(allv.take(i as int), objectid),
        decreases all.len() - i,
    {
        proof {
            assert(allv.take(i + 1).drop_last() == allv.take(i as int));
            assert(allv.take(i + 1).last() == item_ref_view(all@[i as int]));
        }
        if all[i].item.objectid == objectid {
            let ghost prev = out@;
            out.push(ItemRef { item: all[i].item, origin_model_path: all[i].origin_model_path });
            assert(out@.map_values(|x: ItemRef<'a>| item_ref_view(x))
                == prev.map_values(|x: ItemRef<'a>| item_ref_view(x)).push(item_ref_view(all@[i as int])));
        }
        i = i + 1;
    }
    assert(allv.take(all.len() as int) == allv);
    out
}

/// Whether the item has the UUID `uuid`.
pub open spec fn has_uuid(item: Item, uuid: Seq<char>) -> bool {
    item.uuid matches Some(u) && u@ == uuid
}

/// The first build item of the package, model after model, that has the
/// UUID `uuid`, if any.
pub fn get_item_by_uuid<'a>(package: &'a ThreemfPackage, uuid: &str) -> (r: Option<ItemRef<'a>>)
    ensures
        ({
            let items = items_in_models(package_models(*package));
            match r {
                Some(x) => exists|k: int| 0 <= k < items.len() && #[trigger] items[k] == item_ref_view(x)
                    && has_uuid(items[k].1, uuid@)
                    && forall|j: int| 0 <= j < k ==> !has_uuid((#[trigger] items[j]).1, uuid@),
                None => forall|k: int| 0 <= k < items.len() ==> !has_uuid((#[trigger] items[k]).1, uuid@),
            }
        }),
{
    let all = get_items(package);
    let ghost allv = all@.map_values(|x: ItemRef<'a>| item_ref_view(x));
    let mut i: usize = 0;
    while i < all.len()
        invariant
            allv == all@.map_values(|x: ItemRef<'a>| item_ref_view(x)),
            allv == items_in_models(package_models(*package)),
            i <= all.len(),
            forall|j: int| 0 <= j < i ==> !has_uuid((#[trigger] allv[j]).1, uuid@),
        decreases all.len() - i,
    {
        let found = match &all[i].item.uuid {
            Some(u) => str_equal(u.as_str(), uuid),
            None => false,
        };
        assert(allv[i as int] == item_ref_view(all@[i as int]));
        if found {
            let x = ItemRef { item: all[i].item, origin_model_path: all[i].origin_model_path };
            assert(allv[i as int] == item_ref_view(x));
            return Some(x);
        }
        i = i + 1;
    }
    None
}

/// The items that a query by object id gives all refer to that object, and
/// none of the items that refer to it is missed.
pub proof fn lemma_items_for_object(items: Seq<(Option<Seq<char>>, Item)>, objectid: usize)
    ensures
        forall|k: int| 0 <= k < items_for_object(items, objectid).len()
            ==> (#[trigger] items_for_object(items, objectid)[k]).1.objectid == objectid,
        items_for_object(items, objectid).len() == items.filter(|x: (Option<Seq<char>>, Item)| x.1.objectid == objectid).len(),
    decreases items.len(),
{
    reveal(Seq::filter);
    if items.len() > 0 {
        lemma_items_for_object(items.drop_last(), objectid);
        let prev = items_for_object(items.drop_last(), objectid);
        assert forall|k: int| 0 <= k < items_for_object(items, objectid).len()
            implies (#[trigger] items_for_object(items, objectid)[k]).1.objectid == objectid by {
            if k < prev.len() {
                assert(items_for_object(items, objectid)[k] == prev[k]);
            }
        }
    }
}

} // verus!
