//! A builder that assembles a [`Model`] step by step and keeps it consistent:
//! object ids are handed out in order, components only refer to objects that
//! exist, and the Production extension's rules on UUIDs and paths are kept.
use vstd::prelude::*;

use crate::core_model::build::{Build, Item};
use crate::core_model::component::{Component, Components};
use crate::core_model::mesh::{Mesh, Triangle, Triangles, Vertex, Vertices};
use crate::core_model::metadata::Metadata;
use crate::core_model::model::Model;
use crate::core_model::object::Object;
use crate::core_model::resources::Resources;
use crate::core_model::transform::Transform;
use crate::io::namespaces::{
    extensions_definition, get_extensions_definition, has_uri, namespaces_view, NamespaceView,
    XmlNamespace,
};
use crate::threemf_namespaces::{
    BEAM_LATTICE_BALLS_NS, BEAM_LATTICE_BALLS_PREFIX, BEAM_LATTICE_NS, BEAM_LATTICE_PREFIX,
    CORE_TRIANGLESET_NS, CORE_TRIANGLESET_PREFIX, PROD_NS, PROD_PREFIX,
};

pub use crate::core_model::model::Unit;
pub use crate::core_model::object::ObjectType;

verus! {

/// Errors of the model as a whole.
#[derive(Debug, Clone, Copy, PartialEq, Eq, Structural)]
pub enum ModelError {
    /// The model has no build, but a root model and build items require one.
    BuildItemNotSet,
    /// A build was given to a model that is not a root model.
    BuildOnlyAllowedInRootModel,
    /// The build could not be made.
    BuildError(BuildError),
    /// A build item could not be made.
    ItemError(ItemError),
}

/// Errors when the Production extension is made required.
#[derive(Debug, Clone, Copy, PartialEq, Eq, Structural)]
pub enum ProductionExtensionError {
    ObjectUuidNotSet,
    ComponentUuidNotSet,
    ItemUuidNotSet,
    BuildUuidNotSet,
    PathUsedOnComponent,
    PathUsedOnItem,
}

/// Errors of the build section.
#[derive(Debug, Clone, Copy, PartialEq, Eq, Structural)]
pub enum BuildError {
    /// The Production extension is required but the build has no UUID.
    BuildUuidNotSet,
}

/// Errors of a build item.
#[derive(Debug, Clone, Copy, PartialEq, Eq, Structural)]
pub enum ItemError {
    /// The item has a path but the Production extension is not required.
    ItemPathSetWithoutProductionExtension,
    /// The Production extension is required but the item has no UUID.
    ItemUuidNotSet,
}

/// Errors of a mesh object.
#[derive(Debug, Clone, Copy, PartialEq, Eq, Structural)]
pub enum MeshObjectError {
    /// The Production extension is required but the object has no UUID.
    ObjectUuidNotSet,
}

/// Errors of an object made of components.
#[derive(Debug, Clone, Copy, PartialEq, Eq, Structural)]
pub enum ComponentsObjectError {
    /// The Production extension is required but a component has no UUID.
    ComponentUuidNotSet,
    /// A component has a path but the Production extension is not required.
    PathSetWithoutProductionExtension,
    /// A component refers to an object that the model does not hold.
    ObjectReferenceNotFoundForComponent,
    /// The Production extension is required but the object has no UUID.
    ObjectUuidNotSet,
}

/// The id of an object of a model; a type of its own so that ids are not
/// mixed up with other numbers.
#[derive(Debug, Clone, Copy, PartialEq, Eq, Hash, Structural)]
pub struct ObjectId(usize);

impl View for ObjectId {
    type V = usize;

    closed spec fn view(&self) -> usize {
        self.0
    }
}

impl From<usize> for ObjectId {
    fn from(id: usize) -> (r: ObjectId) {
        ObjectId(id)
    }
}

impl vstd::std_specs::convert::FromSpecImpl<usize> for ObjectId {
    open spec fn obeys_from_spec() -> bool {
        true
    }

    closed spec fn from_spec(v: usize) -> ObjectId {
        ObjectId(v)
    }
}

impl From<ObjectId> for usize {
    fn from(id: ObjectId) -> (r: usize) {
        id.0
    }
}

impl vstd::std_specs::convert::FromSpecImpl<ObjectId> for usize {
    open spec fn obeys_from_spec() -> bool {
        true
    }

    open spec fn from_spec(v: ObjectId) -> usize {
        v@
    }
}


/// A vertex with the given coordinates.
pub open spec fn vertex_at(c: [u64; 3]) -> Vertex {
    Vertex { x: c@[0], y: c@[1], z: c@[2] }
}

/// The vertices that a flat list of coordinates gives: each three consecutive
/// coordinates make one vertex, and a remainder of fewer than three is ignored.
pub open spec fn vertices_from_flat(c: Seq<u64>) -> Seq<Vertex> {
    Seq::new(c.len() / 3, |i: int| Vertex { x: c[3 * i], y: c[3 * i + 1], z: c[3 * i + 2] })
}

/// A triangle over the given vertex indices, without properties.
pub open spec fn triangle_over(v1: usize, v2: usize, v3: usize) -> Triangle {
    Triangle { v1, v2, v3, p1: None, p2: None, p3: None, pid: None }
}

/// The triangles that a flat list of vertex indices gives: each three
/// consecutive indices make one triangle, and a remainder of fewer than three
/// is ignored.
pub open spec fn triangles_from_flat(t: Seq<usize>) -> Seq<Triangle> {
    Seq::new(t.len() / 3, |i: int| triangle_over(t[3 * i], t[3 * i + 1], t[3 * i + 2]))
}

/// Fewer than three coordinates give no vertex, and a flat list of
/// coordinates gives the vertex of its first three coordinates followed by
/// the vertices of the rest: the list is read three coordinates at a time.
pub proof fn lemma_vertices_from_flat_by_triples(x: u64, y: u64, z: u64, rest: Seq<u64>)
    ensures
        rest.len() < 3 ==> vertices_from_flat(rest) == Seq::<Vertex>::empty(),
        vertices_from_flat(seq![x, y, z] + rest) == seq![Vertex { x, y, z }] + vertices_from_flat(rest),
{
    let c = seq![x, y, z] + rest;
    assert(c.len() / 3 == rest.len() / 3 + 1);
    assert(vertices_from_flat(rest).len() == rest.len() / 3);
    assert forall|i: int| 1 <= i < c.len() / 3 implies #[trigger] vertices_from_flat(c)[i] == vertices_from_flat(rest)[i - 1] by {
        assert(c[3 * i] == rest[3 * (i - 1)]);
        assert(c[3 * i + 1] == rest[3 * (i - 1) + 1]);
        assert(c[3 * i + 2] == rest[3 * (i - 1) + 2]);
    }
    assert(vertices_from_flat(c) =~= seq![Vertex { x, y, z }] + vertices_from_flat(rest));
    if rest.len() < 3 {
        assert(vertices_from_flat(rest) =~= Seq::<Vertex>::empty());
    }
}

/// Fewer than three indices give no triangle, and a flat list of indices
/// gives the triangle over its first three indices followed by the triangles
/// of the rest: the list is read three indices at a time.
pub proof fn lemma_triangles_from_flat_by_triples(a: usize, b: usize, c: usize, rest: Seq<usize>)
    ensures
        rest.len() < 3 ==> triangles_from_flat(rest) == Seq::<Triangle>::empty(),
        triangles_from_flat(seq![a, b, c] + rest) == seq![triangle_over(a, b, c)] + triangles_from_flat(rest),
{
    let t = seq![a, b, c] + rest;
    assert(t.len() / 3 == rest.len() / 3 + 1);
    assert forall|i: int| 1 <= i < t.len() / 3 implies #[trigger] triangles_from_flat(t)[i] == triangles_from_flat(rest)[i - 1] by {
        assert(t[3 * i] == rest[3 * (i - 1)]);
        assert(t[3 * i + 1] == rest[3 * (i - 1) + 1]);
        assert(t[3 * i + 2] == rest[3 * (i - 1) + 2]);
    }
    assert(triangles_from_flat(t) =~= seq![triangle_over(a, b, c)] + triangles_from_flat(rest));
    if rest.len() < 3 {
        assert(triangles_from_flat(rest) =~= Seq::<Triangle>::empty());
    }
}

/// Builder for the mesh of a mesh object.
pub struct MeshBuilder {
    vertices: Vec<Vertex>,
    triangles: Vec<Triangle>,
}

impl MeshBuilder {
    /// The vertices added so far.
    pub closed spec fn vertices_of(&self) -> Seq<Vertex> {
        self.vertices@
    }

    /// The triangles added so far.
    pub closed spec fn triangles_of(&self) -> Seq<Triangle> {
        self.triangles@
    }

    pub(crate) fn new() -> (b: MeshBuilder)
        ensures
            b.vertices_of() == Seq::<Vertex>::empty(),
            b.triangles_of() == Seq::<Triangle>::empty(),
    {
        MeshBuilder { vertices: Vec::new(), triangles: Vec::new() }
    }

    /// Add a vertex.
    pub fn add_vertex(&mut self, coords: &[u64; 3]) -> (r: &mut Self)
        ensures
            r.vertices_of() == old(self).vertices_of().push(vertex_at(*coords)),
            r.triangles_of() == old(self).triangles_of(),
            *final(self) == *final(r),
    {
        self.vertices.push(Vertex { x: coords[0], y: coords[1], z: coords[2] });
        self
    }

    /// Add vertices, one for each triple of coordinates.
    pub fn add_vertices(&mut self, vertices: &[[u64; 3]]) -> (r: &mut Self)
        ensures
            r.vertices_of() == old(self).vertices_of() + vertices@.map_values(|c: [u64; 3]| vertex_at(c)),
            r.triangles_of() == old(self).triangles_of(),
            *final(self) == *final(r),
    {
        let mut i: usize = 0;
        while i < vertices.len()
            invariant
                i <= vertices.len(),
                self.vertices@ == old(self).vertices@ + vertices@.take(i as int).map_values(|c: [u64; 3]| vertex_at(c)),
                self.triangles@ == old(self).triangles@,
            decreases vertices.len() - i,
        {
            let c = &vertices[i];
            self.vertices.push(Vertex { x: c[0], y: c[1], z: c[2] });
            i = i + 1;
            assert(vertices@.take(i as int).map_values(|c: [u64; 3]| vertex_at(c))
                == vertices@.take(i - 1).map_values(|c: [u64; 3]| vertex_at(c)).push(vertex_at(vertices@[i - 1])));
        }
        assert(vertices@.take(vertices.len() as int) == vertices@);
        self
    }

    /// Add vertices from a flat list of coordinates: each three consecutive
    /// coordinates make one vertex, and a remainder of fewer than three is ignored.
    pub fn add_vertices_flat(&mut self, vertices: &[u64]) -> (r: &mut Self)
        ensures
            r.vertices_of() == old(self).vertices_of() + vertices_from_flat(vertices@),
            r.triangles_of() == old(self).triangles_of(),
            *final(self) == *final(r),
    {
        let n = vertices.len() / 3;
        let mut i: usize = 0;
        let mut k: usize = 0;
        while i < n
            invariant
                n == vertices.len() / 3,
                i <= n,
                k == 3 * i,
                self.vertices@ == old(self).vertices@ + vertices_from_flat(vertices@).take(i as int),
                self.triangles@ == old(self).triangles@,
            decreases n - i,
        {
            self.vertices.push(Vertex { x: vertices[k], y: vertices[k + 1], z: vertices[k + 2] });
            i = i + 1;
            k = k + 3;
            assert(vertices_from_flat(vertices@).take(i as int)
                == vertices_from_flat(vertices@).take(i - 1).push(vertices_from_flat(vertices@)[i - 1]));
        }
        assert(vertices_from_flat(vertices@).take(n as int) == vertices_from_flat(vertices@));
        self
    }

    /// Add a triangle over three vertex indices.
    pub fn add_triangle(&mut self, indices: &[usize; 3]) -> (r: &mut Self)
        ensures
            r.triangles_of() == old(self).triangles_of().push(triangle_over(indices@[0], indices@[1], indices@[2])),
            r.vertices_of() == old(self).vertices_of(),
            *final(self) == *final(r),
    {
        self.triangles.push(Triangle {
            v1: indices[0],
            v2: indices[1],
            v3: indices[2],
            p1: None,
            p2: None,
            p3: None,
            pid: None,
        });
        self
    }

    /// Add triangles, one for each triple of vertex indices.
    pub fn add_triangles(&mut self, triangles: &[[usize; 3]]) -> (r: &mut Self)
        ensures
            r.triangles_of() == old(self).triangles_of() + triangles@.map_values(|t: [usize; 3]| triangle_over(t@[0], t@[1], t@[2])),
            r.vertices_of() == old(self).vertices_of(),
            *final(self) == *final(r),
    {
        let mut i: usize = 0;
        while i < triangles.len()
            invariant
                i <= triangles.len(),
                self.triangles@ == old(self).triangles@ + triangles@.take(i as int).map_values(|t: [usize; 3]| triangle_over(t@[0], t@[1], t@[2])),
                self.vertices@ == old(self).vertices@,
            decreases triangles.len() - i,
        {
            let t = &triangles[i];
            self.triangles.push(Triangle { v1: t[0], v2: t[1], v3: t[2], p1: None, p2: None, p3: None, pid: None });
            i = i + 1;
            assert(triangles@.take(i as int).map_values(|t: [usize; 3]| triangle_over(t@[0], t@[1], t@[2]))
                == triangles@.take(i - 1).map_values(|t: [usize; 3]| triangle_over(t@[0], t@[1], t@[2])).push(
                    triangle_over(triangles@[i - 1]@[0], triangles@[i - 1]@[1], triangles@[i - 1]@[2])));
        }
        assert(triangles@.take(triangles.len() as int) == triangles@);
        self
    }

    /// Add triangles from a flat list of vertex indices: each three
    /// consecutive indices make one triangle, and a remainder of fewer than
    /// three is ignored.
    pub fn add_triangles_flat(&mut self, triangles: &[usize]) -> (r: &mut Self)
        ensures
            r.triangles_of() == old(self).triangles_of() + triangles_from_flat(triangles@),
            r.vertices_of() == old(self).vertices_of(),
            *final(self) == *final(r),
    {
        let n = triangles.len() / 3;
        let mut i: usize = 0;
        let mut k: usize = 0;
        while i < n
            invariant
                n == triangles.len() / 3,
                i <= n,
                k == 3 * i,
                self.triangles@ == old(self).triangles@ + triangles_from_flat(triangles@).take(i as int),
                self.vertices@ == old(self).vertices@,
            decreases n - i,
        {
            self.triangles.push(Triangle {
                v1: triangles[k],
                v2: triangles[k + 1],
                v3: triangles[k + 2],
                p1: None,
                p2: None,
                p3: None,
                pid: None,
            });
            i = i + 1;
            k = k + 3;
            assert(triangles_from_flat(triangles@).take(i as int)
                == triangles_from_flat(triangles@).take(i - 1).push(triangles_from_flat(triangles@)[i - 1]));
        }
        assert(triangles_from_flat(triangles@).take(n as int) == triangles_from_flat(triangles@));
        self
    }

    fn build_mesh(self) -> (r: Result<Mesh, MeshObjectError>)
        ensures
            r matches Ok(m) && m.vertices.vertex@ == self.vertices_of() && m.triangles.triangle@ == self.triangles_of()
                && m.trianglesets is None && m.beamlattice is None,
    {
        Ok(Mesh {
            vertices: Vertices { vertex: self.vertices },
            triangles: Triangles { triangle: self.triangles },
            trianglesets: None,
            beamlattice: None,
        })
    }
}

/// Builder for a component of an object made of components.
pub struct ComponentBuilder {
    objectid: usize,
    transform: Option<Transform>,
    path: Option<String>,
    uuid: Option<String>,
}

impl ComponentBuilder {
    /// The component that this builder describes.
    pub closed spec fn component(&self) -> Component {
        Component { objectid: self.objectid, transform: self.transform, path: self.path, uuid: self.uuid }
    }

    /// A builder for a component that refers to the object `object_id`.
    pub fn new(object_id: ObjectId) -> (b: ComponentBuilder)
        ensures
            b.component().objectid == object_id@,
            b.component().transform is None,
            b.component().path is None,
            b.component().uuid is None,
    {
        ComponentBuilder { objectid: object_id.0, transform: None, path: None, uuid: None }
    }

    /// Set the transform of the component.
    pub fn transform(&mut self, transform: Transform) -> (r: &mut Self)
        ensures
            r.component() == (Component { transform: Some(transform), ..old(self).component() }),
            *final(self) == *final(r),
    {
        self.transform = Some(transform);
        self
    }

    /// Set the UUID of the component.
    pub fn uuid(&mut self, uuid: &str) -> (r: &mut Self)
        ensures
            r.component() == (Component { uuid: r.component().uuid, ..old(self).component() }),
            r.component().uuid matches Some(u) && u@ == uuid@,
            *final(self) == *final(r),
    {
        self.uuid = Some(uuid.to_owned());
        self
    }

    /// Set the path of the model part that holds the referenced object.
    pub fn path(&mut self, path: &str) -> (r: &mut Self)
        ensures
            r.component() == (Component { path: r.component().path, ..old(self).component() }),
            r.component().path matches Some(p) && p@ == path@,
            *final(self) == *final(r),
    {
        self.path = Some(path.to_owned());
        self
    }

    fn build(self) -> (c: Component)
        ensures
            c == self.component(),
    {
        Component { objectid: self.objectid, transform: self.transform, path: self.path, uuid: self.uuid }
    }
}

/// Whether some id of `ids` is `id`.
pub open spec fn ids_contain(ids: Seq<ObjectId>, id: usize) -> bool {
    exists|k: int| 0 <= k < ids.len() && (#[trigger] ids[k])@ == id
}

/// The check that an object made of the components `comps` passes when the
/// objects `ids` exist: with the Production extension each component needs a
/// UUID, without it no component may have a path, and each component must
/// refer to an existing object.
pub open spec fn components_check(comps: Seq<Component>, ids: Seq<ObjectId>, production: bool) -> Option<ComponentsObjectError> {
    if production && exists|j: int| 0 <= j < comps.len() && (#[trigger] comps[j]).uuid is None {
        Some(ComponentsObjectError::ComponentUuidNotSet)
    } else if !production && exists|j: int| 0 <= j < comps.len() && (#[trigger] comps[j]).path is Some {
        Some(ComponentsObjectError::PathSetWithoutProductionExtension)
    } else if exists|j: int| 0 <= j < comps.len() && !ids_contain(ids, (#[trigger] comps[j]).objectid) {
        Some(ComponentsObjectError::ObjectReferenceNotFoundForComponent)
    } else {
        None
    }
}

/// An object made of components passes its check exactly when every
/// component refers to an existing object, carries a UUID with the
/// Production extension and has no path without it; each error names a
/// component that breaks its rule.
pub proof fn lemma_components_check(comps: Seq<Component>, ids: Seq<ObjectId>, production: bool)
    ensures
        components_check(comps, ids, production) is None <==> forall|j: int| 0 <= j < comps.len() ==> {
            &&& ids_contain(ids, (#[trigger] comps[j]).objectid)
            &&& production ==> comps[j].uuid is Some
            &&& !production ==> comps[j].path is None
        },
        components_check(comps, ids, production) == Some(ComponentsObjectError::ComponentUuidNotSet) ==> production
            && exists|j: int| 0 <= j < comps.len() && (#[trigger] comps[j]).uuid is None,
        components_check(comps, ids, production) == Some(ComponentsObjectError::PathSetWithoutProductionExtension)
            ==> !production && exists|j: int| 0 <= j < comps.len() && (#[trigger] comps[j]).path is Some,
        components_check(comps, ids, production) == Some(ComponentsObjectError::ObjectReferenceNotFoundForComponent)
            ==> exists|j: int| 0 <= j < comps.len() && !ids_contain(ids, (#[trigger] comps[j]).objectid),
{
}

/// Builder for the components of an object.
pub struct ComponentsBuilder {
    components: Vec<Component>,
    all_existing_object_ids: Vec<ObjectId>,
}

impl ComponentsBuilder {
    /// The components added so far.
    pub closed spec fn components_of(&self) -> Seq<Component> {
        self.components@
    }

    /// The ids of the objects that the components may refer to.
    pub closed spec fn known_ids(&self) -> Seq<ObjectId> {
        self.all_existing_object_ids@
    }

    fn new(all_existing_object_ids: Vec<ObjectId>) -> (b: ComponentsBuilder)
        ensures
            b.components_of() == Seq::<Component>::empty(),
            b.known_ids() == all_existing_object_ids@,
    {
        ComponentsBuilder { components: Vec::new(), all_existing_object_ids }
    }

    /// Add a component that refers to the object `object_id`.
    pub fn add_component(&mut self, object_id: ObjectId) -> (r: &mut Self)
        ensures
            r.components_of() == old(self).components_of().push(
                Component { objectid: object_id@, transform: None, path: None, uuid: None },
            ),
            r.known_ids() == old(self).known_ids(),
            *final(self) == *final(r),
    {
        self.components.push(Component { objectid: object_id.0, transform: None, path: None, uuid: None });
        self
    }

    /// Add a component that refers to the object `object_id`, set up by `f`.
    pub fn add_component_advanced<F>(&mut self, object_id: ObjectId, f: F) -> (r: &mut Self)
        where
            F: FnOnce(&mut ComponentBuilder),
        requires
            forall|b: &mut ComponentBuilder| call_requires(f, (b,)),
        ensures
            exists|b: &mut ComponentBuilder, res: ()|
                #![trigger call_ensures(f, (b,), res)]
                (*b).component() == (Component { objectid: object_id@, transform: None, path: None, uuid: None })
                && call_ensures(f, (b,), res)
                && r.components_of() == old(self).components_of().push(
                    Component { objectid: object_id@, ..(*final(b)).component() },
                ),
            r.known_ids() == old(self).known_ids(),
            *final(self) == *final(r),
    {
        let mut builder = ComponentBuilder::new(object_id);
        f(&mut builder);
        // `f` reaches the builder only through its public methods, none of
        // which changes the referenced object.
        builder.objectid = object_id.0;
        let component = builder.build();
        self.components.push(component);
        self
    }

    #[verifier::loop_isolation(false)]
    fn build_components(self, is_production_ext_required: bool) -> (r: Result<Components, ComponentsObjectError>)
        ensures
            match components_check(self.components_of(), self.known_ids(), is_production_ext_required) {
                Some(e) => r == Err::<Components, ComponentsObjectError>(e),
                None => r matches Ok(c) && c.component@ == self.components_of(),
            },
    {
        let n = self.components.len();
        if is_production_ext_required {
            let mut j: usize = 0;
            while j < n
                invariant
                    n == self.components.len(),
                    j <= n,
                    forall|k: int| 0 <= k < j ==> (#[trigger] self.components@[k]).uuid is Some,
                decreases n - j,
            {
                if self.components[j].uuid.is_none() {
                    assert((self.components@[j as int]).uuid is None);
                    return Err(ComponentsObjectError::ComponentUuidNotSet);
                }
                j = j + 1;
            }
        } else {
            let mut j: usize = 0;
            while j < n
                invariant
                    n == self.components.len(),
                    j <= n,
                    forall|k: int| 0 <= k < j ==> (#[trigger] self.components@[k]).path is None,
                decreases n - j,
            {
                if self.components[j].path.is_some() {
                    assert((self.components@[j as int]).path is Some);
                    return Err(ComponentsObjectError::PathSetWithoutProductionExtension);
                }
                j = j + 1;
            }
        }
        let mut j: usize = 0;
        while j < n
            invariant
                n == self.components.len(),
                j <= n,
                forall|k: int| 0 <= k < j ==> ids_contain(self.all_existing_object_ids@, (#[trigger] self.components@[k]).objectid),
            decreases n - j,
        {
            let id = self.components[j].objectid;
            let mut found = false;
            let mut k: usize = 0;
            while k < self.all_existing_object_ids.len()
                invariant
                    k <= self.all_existing_object_ids.len(),
                    found == exists|m: int| 0 <= m < k && (#[trigger] self.all_existing_object_ids@[m])@ == id,
                decreases self.all_existing_object_ids.len() - k,
            {
                if self.all_existing_object_ids[k].0 == id {
                    found = true;
                }
                k = k + 1;
            }
            if !found {
                assert(!ids_contain(self.all_existing_object_ids@, (self.components@[j as int]).objectid));
                return Err(ComponentsObjectError::ObjectReferenceNotFoundForComponent);
            }
            j = j + 1;
        }
        Ok(Components { component: self.components })
    }
}

/// The item that an [`ItemBuilder`] gives, or the error it meets: without the
/// Production extension an item may not have a path; with it, it needs a UUID.
pub open spec fn item_check(item: Item, production: bool) -> Option<ItemError> {
    if !production && item.path is Some {
        Some(ItemError::ItemPathSetWithoutProductionExtension)
    } else if production && item.uuid is None {
        Some(ItemError::ItemUuidNotSet)
    } else {
        None
    }
}

/// Builder for a build item.
pub struct ItemBuilder {
    objectid: ObjectId,
    transform: Option<Transform>,
    partnumber: Option<String>,
    path: Option<String>,
    uuid: Option<String>,
}

impl ItemBuilder {
    /// The item that this builder describes.
    pub closed spec fn item(&self) -> Item {
        Item {
            objectid: self.objectid.0,
            transform: self.transform,
            partnumber: self.partnumber,
            path: self.path,
            uuid: self.uuid,
        }
    }

    fn new(objectid: ObjectId) -> (b: ItemBuilder)
        ensures
            b.item().objectid == objectid@,
            b.item().transform is None,
            b.item().partnumber is None,
            b.item().path is None,
            b.item().uuid is None,
    {
        ItemBuilder { objectid, transform: None, partnumber: None, path: None, uuid: None }
    }

    /// Set the transform of the item.
    pub fn transform(&mut self, transform: Transform) -> (r: &mut Self)
        ensures
            r.item() == (Item { transform: Some(transform), ..old(self).item() }),
            *final(self) == *final(r),
    {
        self.transform = Some(transform);
        self
    }

    /// Set the part number of the item.
    pub fn partnumber(&mut self, partnumber: &str) -> (r: &mut Self)
        ensures
            r.item() == (Item { partnumber: r.item().partnumber, ..old(self).item() }),
            r.item().partnumber matches Some(p) && p@ == partnumber@,
            *final(self) == *final(r),
    {
        self.partnumber = Some(partnumber.to_owned());
        self
    }

    /// Set the UUID of the item.
    pub fn uuid(&mut self, uuid: &str) -> (r: &mut Self)
        ensures
            r.item() == (Item { uuid: r.item().uuid, ..old(self).item() }),
            r.item().uuid matches Some(u) && u@ == uuid@,
            *final(self) == *final(r),
    {
        self.uuid = Some(uuid.to_owned());
        self
    }

    /// Set the path of the model part that holds the object.
    pub fn path(&mut self, path: &str) -> (r: &mut Self)
        ensures
            r.item() == (Item { path: r.item().path, ..old(self).item() }),
            r.item().path matches Some(p) && p@ == path@,
            *final(self) == *final(r),
    {
        self.path = Some(path.to_owned());
        self
    }

    fn build(self, is_production_ext_enabled: bool) -> (r: Result<Item, ItemError>)
        ensures
            match item_check(self.item(), is_production_ext_enabled) {
                Some(e) => r == Err::<Item, ItemError>(e),
                None => r == Ok::<Item, ItemError>(self.item()),
            },
    {
        if !is_production_ext_enabled && self.path.is_some() {
            return Err(ItemError::ItemPathSetWithoutProductionExtension);
        } else if is_production_ext_enabled && self.uuid.is_none() {
            return Err(ItemError::ItemUuidNotSet);
        }
        Ok(Item {
            objectid: self.objectid.0,
            transform: self.transform,
            partnumber: self.partnumber,
            path: self.path,
            uuid: self.uuid,
        })
    }
}

/// A build item passes its check exactly when it carries a UUID with the
/// Production extension and has no path without it; each error names the
/// rule that the item breaks.
pub proof fn lemma_item_check(item: Item, production: bool)
    ensures
        item_check(item, production) is None <==> (production ==> item.uuid is Some) && (!production
            ==> item.path is None),
        item_check(item, production) == Some(ItemError::ItemPathSetWithoutProductionExtension) ==> !production
            && item.path is Some,
        item_check(item, production) == Some(ItemError::ItemUuidNotSet) ==> production && item.uuid is None,
{
}

/// Builder for the build section.
pub struct BuildBuilder {
    items: Vec<Item>,
    uuid: Option<String>,
}

impl BuildBuilder {
    /// The items added so far.
    pub closed spec fn items_of(&self) -> Seq<Item> {
        self.items@
    }

    /// The UUID given to the build.
    pub closed spec fn uuid_of(&self) -> Option<String> {
        self.uuid
    }

    fn new() -> (b: BuildBuilder)
        ensures
            b.items_of() == Seq::<Item>::empty(),
            b.uuid_of() is None,
    {
        BuildBuilder { items: Vec::new(), uuid: None }
    }

    fn uuid(&mut self, uuid: String) -> (r: &mut Self)
        ensures
            r.uuid_of() == Some(uuid),
            r.items_of() == old(self).items_of(),
            *final(self) == *final(r),
    {
        self.uuid = Some(uuid);
        self
    }

    /// Build the item that `builder` describes and add it; on an error the
    /// build is left as it was.
    fn push_item(&mut self, builder: ItemBuilder, is_production_ext_enabled: bool) -> (r: Result<(), ItemError>)
        ensures
            final(self).uuid_of() == old(self).uuid_of(),
            r is Err ==> *final(self) == *old(self),
            match item_check(builder.item(), is_production_ext_enabled) {
                Some(e) => r == Err::<(), ItemError>(e) && final(self).items_of() == old(self).items_of(),
                None => r is Ok && final(self).items_of() == old(self).items_of().push(builder.item()),
            },
    {
        let item = builder.build(is_production_ext_enabled)?;
        self.items.push(item);
        Ok(())
    }

    /// Add an item for the object `objectid`, set up by `f`; on an error the
    /// build is left as it was.
    fn add_build_item<F>(&mut self, objectid: ObjectId, is_production_ext_enabled: bool, f: F) -> (r: Result<(), ItemError>)
        where
            F: FnOnce(&mut ItemBuilder),
        requires
            forall|b: &mut ItemBuilder| call_requires(f, (b,)),
        ensures
            final(self).uuid_of() == old(self).uuid_of(),
            r is Err ==> *final(self) == *old(self),
            exists|b: &mut ItemBuilder, res: ()|
                #![trigger call_ensures(f, (b,), res)]
                (*b).item() == plain_item(objectid@)
                && call_ensures(f, (b,), res)
                && match item_check(Item { objectid: objectid@, ..(*final(b)).item() }, is_production_ext_enabled) {
                    Some(e) => r == Err::<(), ItemError>(e),
                    None => r is Ok && final(self).items_of() == old(self).items_of().push(
                        Item { objectid: objectid@, ..(*final(b)).item() },
                    ),
                },
    {
        let mut builder = ItemBuilder::new(objectid);
        f(&mut builder);
        // `f` reaches the builder only through its public methods, none of
        // which changes the referenced object.
        builder.objectid = objectid;
        self.push_item(builder, is_production_ext_enabled)
    }

    fn can_build(&self, is_production_ext_enabled: bool) -> (r: Result<(), BuildError>)
        ensures
            r is Err <==> is_production_ext_enabled && self.uuid_of() is None,
    {
        if is_production_ext_enabled && self.uuid.is_none() {
            return Err(BuildError::BuildUuidNotSet);
        }
        Ok(())
    }

    fn build(self, is_production_ext_required: bool) -> (r: Result<Build, BuildError>)
        ensures
            r is Err <==> is_production_ext_required && self.uuid_of() is None,
            r matches Ok(b) ==> b.uuid is None && b.item@ == self.items_of(),
    {
        self.can_build(is_production_ext_required)?;
        Ok(Build { uuid: None, item: self.items })
    }
}

/// Builder for the resources of a model.
pub struct ResourcesBuilder {
    objects: Vec<Object>,
}

impl ResourcesBuilder {
    /// The objects added so far.
    pub closed spec fn objects_of(&self) -> Seq<Object> {
        self.objects@
    }

    fn new() -> (b: ResourcesBuilder)
        ensures
            b.objects_of() == Seq::<Object>::empty(),
    {
        ResourcesBuilder { objects: Vec::new() }
    }

    fn build(self) -> (r: Resources)
        ensures
            r.object@ == self.objects_of(),
            r.basematerials@ == Seq::<crate::core_model::resources::BaseMaterials>::empty(),
    {
        Resources { object: self.objects, basematerials: Vec::new() }
    }
}

/// Builder for an object; `T` builds what the object is made of.
pub struct ObjectBuilder<T> {
    entity: T,
    object_id: ObjectId,
    objecttype: Option<ObjectType>,
    thumbnail: Option<String>,
    partnumber: Option<String>,
    name: Option<String>,
    pid: Option<usize>,
    pindex: Option<usize>,
    uuid: Option<String>,
    // whether the Production extension is required; the object then needs a UUID
    is_production_ext_required: bool,
}

impl<T> ObjectBuilder<T> {
    /// The object that this builder describes, without what it is made of.
    pub closed spec fn header(&self) -> Object {
        Object {
            id: self.object_id.0,
            objecttype: self.objecttype,
            thumbnail: self.thumbnail,
            partnumber: self.partnumber,
            name: self.name,
            pid: self.pid,
            pindex: self.pindex,
            uuid: self.uuid,
            mesh: None,
            components: None,
        }
    }

    /// The builder of what the object is made of.
    pub closed spec fn entity_of(&self) -> T {
        self.entity
    }

    /// Whether the object is built with the Production extension required.
    pub closed spec fn production_required_of(&self) -> bool {
        self.is_production_ext_required
    }

    /// Set the object type.
    pub fn object_type(&mut self, object_type: ObjectType) -> (r: &mut Self)
        ensures
            r.header() == (Object { objecttype: Some(object_type), ..old(self).header() }),
            r.entity_of() == old(self).entity_of(),
            r.production_required_of() == old(self).production_required_of(),
            *final(self) == *final(r),
    {
        self.objecttype = Some(object_type);
        self
    }

    /// Set the object name.
    pub fn name(&mut self, name: &str) -> (r: &mut Self)
        ensures
            r.header() == (Object { name: r.header().name, ..old(self).header() }),
            r.header().name matches Some(n) && n@ == name@,
            r.entity_of() == old(self).entity_of(),
            r.production_required_of() == old(self).production_required_of(),
            *final(self) == *final(r),
    {
        self.name = Some(name.to_owned());
        self
    }

    /// Set the part number.
    pub fn part_number(&mut self, part_number: &str) -> (r: &mut Self)
        ensures
            r.header() == (Object { partnumber: r.header().partnumber, ..old(self).header() }),
            r.header().partnumber matches Some(p) && p@ == part_number@,
            r.entity_of() == old(self).entity_of(),
            r.production_required_of() == old(self).production_required_of(),
            *final(self) == *final(r),
    {
        self.partnumber = Some(part_number.to_owned());
        self
    }

    /// Set the UUID of the object.
    pub fn uuid(&mut self, uuid: &str) -> (r: &mut Self)
        ensures
            r.header() == (Object { uuid: r.header().uuid, ..old(self).header() }),
            r.header().uuid matches Some(u) && u@ == uuid@,
            r.entity_of() == old(self).entity_of(),
            r.production_required_of() == old(self).production_required_of(),
            *final(self) == *final(r),
    {
        self.uuid = Some(uuid.to_owned());
        self
    }
}

impl<T> core::ops::Deref for ObjectBuilder<T> {
    type Target = T;

    fn deref(&self) -> (r: &T)
        ensures
            *r == self.entity_of(),
    {
        &self.entity
    }
}

impl<T> core::ops::DerefMut for ObjectBuilder<T> {
    fn deref_mut(&mut self) -> (r: &mut T)
        ensures
            *r == old(self).entity_of(),
            final(self).entity_of() == *final(r),
            final(self).header() == old(self).header(),
            final(self).production_required_of() == old(self).production_required_of(),
    {
        &mut self.entity
    }
}

/// Builder for an object that is a mesh.
pub type MeshObjectBuilder = ObjectBuilder<MeshBuilder>;

/// The object that a mesh object builder describes, made of the mesh `mesh`.
pub open spec fn mesh_object(b: MeshObjectBuilder, mesh: Mesh) -> Object {
    Object { mesh: Some(mesh), ..b.header() }
}

impl ObjectBuilder<MeshBuilder> {
    fn new(object_id: ObjectId, is_production_ext_required: bool) -> (b: MeshObjectBuilder)
        ensures
            b.header().id == object_id@,
            b.header().objecttype == Some(ObjectType::Model),
            b.header().thumbnail is None,
            b.header().partnumber is None,
            b.header().name is None,
            b.header().pid is None,
            b.header().pindex is None,
            b.header().uuid is None,
            b.production_required_of() == is_production_ext_required,
            b.entity_of().vertices_of() == Seq::<Vertex>::empty(),
            b.entity_of().triangles_of() == Seq::<Triangle>::empty(),
    {
        ObjectBuilder {
            entity: MeshBuilder::new(),
            object_id,
            objecttype: Some(ObjectType::Model),
            thumbnail: None,
            partnumber: None,
            name: None,
            pid: None,
            pindex: None,
            uuid: None,
            is_production_ext_required,
        }
    }

    fn build(self) -> (r: Result<Object, MeshObjectError>)
        ensures
            r is Err <==> self.production_required_of() && self.header().uuid is None,
            r matches Err(e) ==> e == MeshObjectError::ObjectUuidNotSet,
            r matches Ok(o) ==> (o == Object { mesh: o.mesh, ..self.header() }) && (o.mesh matches Some(m)
                && m.vertices.vertex@ == self.entity_of().vertices_of()
                && m.triangles.triangle@ == self.entity_of().triangles_of()
                && m.trianglesets is None && m.beamlattice is None),
    {
        let mesh = match self.entity.build_mesh() {
            Ok(m) => m,
            Err(e) => return Err(e),
        };
        if self.is_production_ext_required && self.uuid.is_none() {
            return Err(MeshObjectError::ObjectUuidNotSet);
        }
        Ok(Object {
            id: self.object_id.0,
            objecttype: self.objecttype,
            thumbnail: self.thumbnail,
            partnumber: self.partnumber,
            name: self.name,
            pid: self.pid,
            pindex: self.pindex,
            uuid: self.uuid,
            mesh: Some(mesh),
            components: None,
        })
    }
}

/// Builder for an object made of components.
pub type ComponentsObjectBuilder = ObjectBuilder<ComponentsBuilder>;

impl ObjectBuilder<ComponentsBuilder> {
    fn new(object_id: ObjectId, all_existing_object_ids: Vec<ObjectId>, is_production_ext_required: bool) -> (b: ComponentsObjectBuilder)
        ensures
            b.header().id == object_id@,
            b.header().objecttype == Some(ObjectType::Model),
            b.header().thumbnail is None,
            b.header().partnumber is None,
            b.header().name is None,
            b.header().pid is None,
            b.header().pindex is None,
            b.header().uuid is None,
            b.production_required_of() == is_production_ext_required,
            b.entity_of().components_of() == Seq::<Component>::empty(),
            b.entity_of().known_ids() == all_existing_object_ids@,
    {
        ObjectBuilder {
            entity: ComponentsBuilder::new(all_existing_object_ids),
            object_id,
            objecttype: Some(ObjectType::Model),
            thumbnail: None,
            partnumber: None,
            name: None,
            pid: None,
            pindex: None,
            uuid: None,
            is_production_ext_required,
        }
    }

    fn build(self) -> (r: Result<Object, ComponentsObjectError>)
        ensures
            match components_check(self.entity_of().components_of(), self.entity_of().known_ids(), self.production_required_of()) {
                Some(e) => r == Err::<Object, ComponentsObjectError>(e),
                None => if self.production_required_of() && self.header().uuid is None {
                    r == Err::<Object, ComponentsObjectError>(ComponentsObjectError::ObjectUuidNotSet)
                } else {
                    r matches Ok(o) && (o == Object { components: o.components, ..self.header() })
                        && (o.components matches Some(c) && c.component@ == self.entity_of().components_of())
                },
            },
    {
        let components = match self.entity.build_components(self.is_production_ext_required) {
            Ok(c) => c,
            Err(e) => return Err(e),
        };
        if self.is_production_ext_required && self.uuid.is_none() {
            return Err(ComponentsObjectError::ObjectUuidNotSet);
        }
        Ok(Object {
            id: self.object_id.0,
            objecttype: self.objecttype,
            thumbnail: self.thumbnail,
            partnumber: self.partnumber,
            name: self.name,
            pid: self.pid,
            pindex: self.pindex,
            uuid: self.uuid,
            mesh: None,
            components: Some(components),
        })
    }
}

/// What a component list holds: the components of a composed object, none for a mesh object.
pub open spec fn object_components(o: Object) -> Seq<Component> {
    match o.components {
        Some(c) => c.component@,
        None => Seq::empty(),
    }
}

/// Each object's id is its position in the list plus one.
pub open spec fn ids_follow_positions(objs: Seq<Object>) -> bool {
    forall|i: int| 0 <= i < objs.len() ==> #[trigger] objs[i].id == i + 1
}

/// Every component refers to an object that comes before its own object:
/// with ids that follow the positions, to an id from one up to the position
/// of its object. No object can then be part of itself.
pub open spec fn components_refer_to_earlier_objects(objs: Seq<Object>) -> bool {
    forall|i: int, j: int|
        0 <= i < objs.len() && 0 <= j < object_components(objs[i]).len()
            ==> 1 <= #[trigger] object_components(objs[i])[j].objectid <= i
}

/// Every object is either a mesh or made of components, never both, never neither.
pub open spec fn each_object_is_mesh_or_composition(objs: Seq<Object>) -> bool {
    forall|i: int| 0 <= i < objs.len() ==> ((#[trigger] objs[i]).mesh is Some) != (objs[i].components is Some)
}

/// Every object and every component of every object has a UUID.
pub open spec fn objects_carry_uuids(objs: Seq<Object>) -> bool {
    &&& forall|i: int| 0 <= i < objs.len() ==> (#[trigger] objs[i]).uuid is Some
    &&& forall|i: int, j: int|
        0 <= i < objs.len() && 0 <= j < object_components(objs[i]).len()
            ==> (#[trigger] object_components(objs[i])[j]).uuid is Some
}

/// No component of any object has a path.
pub open spec fn components_have_no_paths(objs: Seq<Object>) -> bool {
    forall|i: int, j: int|
        0 <= i < objs.len() && 0 <= j < object_components(objs[i]).len()
            ==> (#[trigger] object_components(objs[i])[j]).path is None
}

/// No item has a path.
pub open spec fn items_have_no_paths(items: Seq<Item>) -> bool {
    forall|i: int| 0 <= i < items.len() ==> (#[trigger] items[i]).path is None
}

/// The build section of a model builder, as plain values.
pub struct BuildView {
    pub uuid: Option<Seq<char>>,
    pub items: Seq<Item>,
}

/// A model builder as plain values.
pub struct ModelBuilderView {
    pub unit: Option<Unit>,
    pub required: Seq<NamespaceView>,
    pub recommended: Seq<NamespaceView>,
    pub metadata: Seq<Metadata>,
    pub objects: Seq<Object>,
    pub build: Option<BuildView>,
    pub is_root: bool,
    pub next_object_id: usize,
    pub production: bool,
    pub beam_lattice: bool,
    pub beam_lattice_balls: bool,
}

/// Builder for constructing 3MF [`Model`]s with a fluent API.
pub struct ModelBuilder {
    unit: Option<Unit>,
    requiredextensions: Vec<XmlNamespace>,
    recommendedextensions: Vec<XmlNamespace>,
    metadata: Vec<Metadata>,
    resources: ResourcesBuilder,
    // in sub-models a build is not required
    build: Option<BuildBuilder>,
    // a root model requires a build; any other model may not have one
    is_root: bool,
    next_object_id: ObjectId,
    // the Production extension is required: UUIDs must be set
    is_production_ext_required: bool,
    is_beam_lattice_ext_required: bool,
    is_beam_lattice_balls_ext_required: bool,
}

impl View for ModelBuilder {
    type V = ModelBuilderView;

    closed spec fn view(&self) -> ModelBuilderView {
        ModelBuilderView {
            unit: self.unit,
            required: namespaces_view(self.requiredextensions@),
            recommended: namespaces_view(self.recommendedextensions@),
            metadata: self.metadata@,
            objects: self.resources.objects@,
            build: match self.build {
                Some(b) => Some(BuildView {
                    uuid: match b.uuid {
                        Some(u) => Some(u@),
                        None => None,
                    },
                    items: b.items@,
                }),
                None => None,
            },
            is_root: self.is_root,
            next_object_id: self.next_object_id.0,
            production: self.is_production_ext_required,
            beam_lattice: self.is_beam_lattice_ext_required,
            beam_lattice_balls: self.is_beam_lattice_balls_ext_required,
        }
    }
}

/// The consistency that a model builder keeps: object ids follow positions,
/// components refer to earlier objects, every object is a mesh or a
/// composition, with the Production extension objects and components carry
/// UUIDs, and without it no component or item has a path.
pub open spec fn builder_consistent(v: ModelBuilderView) -> bool {
    &&& v.next_object_id == v.objects.len() + 1
    &&& ids_follow_positions(v.objects)
    &&& components_refer_to_earlier_objects(v.objects)
    &&& each_object_is_mesh_or_composition(v.objects)
    &&& v.production ==> objects_carry_uuids(v.objects)
    &&& !v.production ==> components_have_no_paths(v.objects)
    &&& !v.production ==> (v.build matches Some(b) ==> items_have_no_paths(b.items))
}

impl ModelBuilder {
    /// The builder keeps its consistency.
    pub open spec fn wf(&self) -> bool {
        builder_consistent(self@)
    }

    /// Create a new ModelBuilder for a model in the given unit; a root model requires a build.
    pub fn new(unit: Unit, is_root: bool) -> (b: ModelBuilder)
        ensures
            b.wf(),
            b@ == (ModelBuilderView {
                unit: Some(unit),
                required: Seq::empty(),
                recommended: Seq::empty(),
                metadata: Seq::empty(),
                objects: Seq::empty(),
                build: None,
                is_root,
                next_object_id: 1,
                production: false,
                beam_lattice: false,
                beam_lattice_balls: false,
            }),
    {
        let b = ModelBuilder {
            unit: Some(unit),
            requiredextensions: Vec::new(),
            recommendedextensions: Vec::new(),
            metadata: Vec::new(),
            resources: ResourcesBuilder::new(),
            build: None,
            is_root,
            next_object_id: ObjectId(1),
            is_production_ext_required: false,
            is_beam_lattice_ext_required: false,
            is_beam_lattice_balls_ext_required: false,
        };
        assert(namespaces_view(b.requiredextensions@) == Seq::<NamespaceView>::empty());
        assert(namespaces_view(b.recommendedextensions@) == Seq::<NamespaceView>::empty());
        b
    }

    /// Set the unit of the model.
    pub fn unit(&mut self, unit: Unit) -> (r: &mut Self)
        requires
            old(self).wf(),
        ensures
            r.wf(),
            r@ == (ModelBuilderView { unit: Some(unit), ..old(self)@ }),
            *final(self) == *final(r),
    {
        self.unit = Some(unit);
        self
    }

    /// Make the model a root model, or not.
    pub fn make_root(&mut self, is_root: bool) -> (r: &mut Self)
        requires
            old(self).wf(),
        ensures
            r.wf(),
            r@ == (ModelBuilderView { is_root, ..old(self)@ }),
            *final(self) == *final(r),
    {
        self.is_root = is_root;
        self
    }
}

/// The error that making the Production extension required meets for one object.
pub open spec fn production_object_error(o: Object) -> Option<ProductionExtensionError> {
    if o.uuid is None {
        Some(ProductionExtensionError::ObjectUuidNotSet)
    } else if exists|j: int| 0 <= j < object_components(o).len() && (#[trigger] object_components(o)[j]).uuid is None {
        Some(ProductionExtensionError::ComponentUuidNotSet)
    } else {
        None
    }
}

/// The error that making the Production extension required meets for the build:
/// a build needs a UUID, and then each of its items does.
pub open spec fn production_build_error(build: Option<BuildView>) -> Option<ProductionExtensionError> {
    match build {
        Some(b) => if b.uuid is Some {
            if exists|k: int| 0 <= k < b.items.len() && (#[trigger] b.items[k]).uuid is None {
                Some(ProductionExtensionError::ItemUuidNotSet)
            } else {
                None
            }
        } else {
            Some(ProductionExtensionError::BuildUuidNotSet)
        },
        None => None,
    }
}

/// The error that making the Production extension required meets, checking
/// the objects from position `i` on: each object in turn, and with each
/// object that passes, the build.
pub open spec fn production_check_from(objs: Seq<Object>, build: Option<BuildView>, i: int) -> Option<ProductionExtensionError>
    decreases objs.len() - i,
{
    if i < 0 || i >= objs.len() {
        None
    } else if production_object_error(objs[i]) is Some {
        production_object_error(objs[i])
    } else if production_build_error(build) is Some {
        production_build_error(build)
    } else {
        production_check_from(objs, build, i + 1)
    }
}

/// When no error is met from position `i` on, every object from there on passes.
proof fn lemma_production_check_passes(objs: Seq<Object>, build: Option<BuildView>, i: int)
    requires
        0 <= i,
        production_check_from(objs, build, i) is None,
    ensures
        forall|k: int| i <= k < objs.len() ==> production_object_error(#[trigger] objs[k]) is None,
    decreases objs.len() - i,
{
    if i < objs.len() {
        lemma_production_check_passes(objs, build, i + 1);
    }
}

/// The required extensions of a model: those given, with the namespaces of
/// the extensions that the builder was told to require added when no
/// declaration of their URI is there yet.
pub open spec fn with_required_extensions(given: Seq<NamespaceView>, production: bool, beam_lattice: bool, balls: bool) -> Seq<NamespaceView> {
    let a = if production && !has_uri(given, PROD_NS@) {
        given.push((Some(PROD_PREFIX@), PROD_NS@))
    } else {
        given
    };
    let b = if beam_lattice && !has_uri(a, BEAM_LATTICE_NS@) {
        a.push((Some(BEAM_LATTICE_PREFIX@), BEAM_LATTICE_NS@))
    } else {
        a
    };
    if beam_lattice && balls && !has_uri(b, BEAM_LATTICE_BALLS_NS@) {
        b.push((Some(BEAM_LATTICE_BALLS_PREFIX@), BEAM_LATTICE_BALLS_NS@))
    } else {
        b
    }
}

/// The recommended extensions after a mesh is added: a mesh with triangle
/// sets adds the triangle sets namespace when every recommended namespace
/// already is that namespace.
pub open spec fn recommended_after_mesh(rec: Seq<NamespaceView>, mesh: Mesh) -> Seq<NamespaceView> {
    if mesh.trianglesets is Some && forall|i: int| 0 <= i < rec.len() ==> (#[trigger] rec[i]).1 == CORE_TRIANGLESET_NS@ {
        rec.push((Some(CORE_TRIANGLESET_PREFIX@), CORE_TRIANGLESET_NS@))
    } else {
        rec
    }
}

/// Whether some declaration of `v` has the URI `uri`.
fn contains_uri(v: &Vec<XmlNamespace>, uri: &str) -> (r: bool)
    ensures
        r == has_uri(namespaces_view(v@), uri@),
{
    let mut i: usize = 0;
    while i < v.len()
        invariant
            i <= v.len(),
            forall|k: int| 0 <= k < i ==> (#[trigger] v@[k]).uri@ != uri@,
        decreases v.len() - i,
    {
        if crate::text::str_equal(v[i].uri.as_str(), uri) {
            assert(namespaces_view(v@)[i as int].1 == uri@);
            return true;
        }
        i = i + 1;
    }
    assert forall|k: int| 0 <= k < v.len() implies (#[trigger] namespaces_view(v@)[k]).1 != uri@ by {
        assert(v@[k].uri@ != uri@);
    }
    false
}

/// A copy of a list of namespace declarations.
fn duplicate_namespaces(v: &Vec<XmlNamespace>) -> (r: Vec<XmlNamespace>)
    ensures
        namespaces_view(r@) == namespaces_view(v@),
{
    let mut r: Vec<XmlNamespace> = Vec::new();
    let mut i: usize = 0;
    while i < v.len()
        invariant
            i <= v.len(),
            namespaces_view(r@) == namespaces_view(v@).take(i as int),
        decreases v.len() - i,
    {
        let ghost before = r@;
        r.push(v[i].duplicate());
        assert(namespaces_view(r@) == namespaces_view(before).push(v@[i as int]@));
        assert(namespaces_view(v@).take(i + 1) == namespaces_view(v@).take(i as int).push(v@[i as int]@));
        i = i + 1;
    }
    assert(namespaces_view(v@).take(v.len() as int) == namespaces_view(v@));
    r
}

/// Push a declaration onto a list, as views.
proof fn lemma_push_view(v: Seq<XmlNamespace>, x: XmlNamespace)
    ensures
        namespaces_view(v.push(x)) == namespaces_view(v).push(x@),
{
    assert(namespaces_view(v.push(x)) =~= namespaces_view(v).push(x@));
}

/// Whether every component of the object has a UUID.
fn all_components_have_uuid(o: &Object) -> (r: bool)
    ensures
        r == !(exists|j: int| 0 <= j < object_components(*o).len() && (#[trigger] object_components(*o)[j]).uuid is None),
{
    match &o.components {
        Some(c) => {
            let mut j: usize = 0;
            while j < c.component.len()
                invariant
                    j <= c.component.len(),
                    object_components(*o) == c.component@,
                    forall|k: int| 0 <= k < j ==> (#[trigger] c.component@[k]).uuid is Some,
                decreases c.component.len() - j,
            {
                if c.component[j].uuid.is_none() {
                    assert(object_components(*o)[j as int].uuid is None);
                    return false;
                }
                j = j + 1;
            }
            true
        },
        None => true,
    }
}

/// Whether every item has a UUID.
fn all_items_have_uuid(items: &Vec<Item>) -> (r: bool)
    ensures
        r == !(exists|k: int| 0 <= k < items@.len() && (#[trigger] items@[k]).uuid is None),
{
    let mut k: usize = 0;
    while k < items.len()
        invariant
            k <= items.len(),
            forall|m: int| 0 <= m < k ==> (#[trigger] items@[m]).uuid is Some,
        decreases items.len() - k,
    {
        if items[k].uuid.is_none() {
            assert(items@[k as int].uuid is None);
            return false;
        }
        k = k + 1;
    }
    true
}

impl ModelBuilder {
    /// Require the Production extension. The objects, components and build
    /// items added so far must then carry UUIDs, and a build must have one:
    /// the objects are checked in order, and with each object that passes, the
    /// build; the first error met is returned and the builder is left as it was.
    pub fn make_production_extension_required(&mut self) -> (r: Result<&mut Self, ProductionExtensionError>)
        requires
            old(self).wf(),
        ensures
            match production_check_from(old(self)@.objects, old(self)@.build, 0) {
                Some(e) => r == Err::<&mut Self, ProductionExtensionError>(e) && *final(self) == *old(self),
                None => (r matches Ok(b) && b.wf() && b@ == (ModelBuilderView { production: true, ..old(self)@ })
                    && *final(self) == *final(b)),
            },
    {
        let ghost objs = self@.objects;
        let ghost bv = self@.build;
        let n = self.resources.objects.len();
        let mut i: usize = 0;
        while i < n
            invariant
                n == objs.len(),
                objs == self@.objects,
                bv == self@.build,
                i <= n,
                production_check_from(objs, bv, 0) == production_check_from(objs, bv, i as int),
            decreases n - i,
        {
            let o = &self.resources.objects[i];
            if o.uuid.is_none() {
                return Err(ProductionExtensionError::ObjectUuidNotSet);
            } else if !all_components_have_uuid(o) {
                return Err(ProductionExtensionError::ComponentUuidNotSet);
            }
            match &self.build {
                Some(build) => {
                    if build.uuid.is_some() {
                        if !all_items_have_uuid(&build.items) {
                            return Err(ProductionExtensionError::ItemUuidNotSet);
                        }
                    } else {
                        return Err(ProductionExtensionError::BuildUuidNotSet);
                    }
                },
                None => {},
            }
            i = i + 1;
        }
        proof {
            lemma_production_check_passes(objs, bv, 0);
            assert forall|k: int, j: int|
                0 <= k < objs.len() && 0 <= j < object_components(objs[k]).len()
                    implies (#[trigger] object_components(objs[k])[j]).uuid is Some by {
                assert(production_object_error(objs[k]) is None);
            }
        }
        self.is_production_ext_required = true;
        Ok(self)
    }

    /// Require the Beam Lattice extension, and with it the balls of beam
    /// lattices or not.
    pub fn make_beam_lattice_extension_required(&mut self, enable_beam_lattice_balls: bool) -> (r: &mut Self)
        requires
            old(self).wf(),
        ensures
            r.wf(),
            r@ == (ModelBuilderView { beam_lattice: true, beam_lattice_balls: enable_beam_lattice_balls, ..old(self)@ }),
            *final(self) == *final(r),
    {
        self.is_beam_lattice_ext_required = true;
        self.is_beam_lattice_balls_ext_required = enable_beam_lattice_balls;
        self
    }

    /// Add a required extension.
    pub fn add_required_extension(&mut self, extension: XmlNamespace) -> (r: &mut Self)
        requires
            old(self).wf(),
        ensures
            r.wf(),
            r@ == (ModelBuilderView { required: old(self)@.required.push(extension@), ..old(self)@ }),
            *final(self) == *final(r),
    {
        proof { lemma_push_view(self.requiredextensions@, extension); }
        self.requiredextensions.push(extension);
        self
    }

    /// Add a recommended extension.
    pub fn add_recommended_extension(&mut self, extension: XmlNamespace) -> (r: &mut Self)
        requires
            old(self).wf(),
        ensures
            r.wf(),
            r@ == (ModelBuilderView { recommended: old(self)@.recommended.push(extension@), ..old(self)@ }),
            *final(self) == *final(r),
    {
        proof { lemma_push_view(self.recommendedextensions@, extension); }
        self.recommendedextensions.push(extension);
        self
    }

    /// Add metadata to the model.
    pub fn add_metadata(&mut self, name: &str, value: Option<&str>) -> (r: &mut Self)
        requires
            old(self).wf(),
        ensures
            r.wf(),
            r@ == (ModelBuilderView { metadata: r@.metadata, ..old(self)@ }),
            r@.metadata.len() == old(self)@.metadata.len() + 1,
            r@.metadata.drop_last() == old(self)@.metadata,
            r@.metadata.last().name@ == name@,
            r@.metadata.last().preserve is None,
            crate::text::opt_view(r@.metadata.last().value) == (match value {
                Some(v) => Some(v@),
                None => None::<Seq<char>>,
            }),
            *final(self) == *final(r),
    {
        self.metadata.push(Metadata { name: name.to_owned(), preserve: None, value: crate::text::to_owned_opt(value) });
        assert(self.metadata@.drop_last() == old(self).metadata@);
        self
    }

    /// The required extensions of the model: those added, and the namespaces
    /// of the extensions that the builder was told to require.
    fn process_required_extensions(&self) -> (r: Vec<XmlNamespace>)
        ensures
            namespaces_view(r@) == with_required_extensions(
                self@.required,
                self@.production,
                self@.beam_lattice,
                self@.beam_lattice_balls,
            ),
    {
        let mut required_extensions = duplicate_namespaces(&self.requiredextensions);
        if self.is_production_ext_required {
            if !contains_uri(&required_extensions, PROD_NS) {
                let ns = XmlNamespace { prefix: Some(PROD_PREFIX.to_owned()), uri: PROD_NS.to_owned() };
                proof { lemma_push_view(required_extensions@, ns); }
                required_extensions.push(ns);
            }
        }
        if self.is_beam_lattice_ext_required {
            if !contains_uri(&required_extensions, BEAM_LATTICE_NS) {
                let ns = XmlNamespace { prefix: Some(BEAM_LATTICE_PREFIX.to_owned()), uri: BEAM_LATTICE_NS.to_owned() };
                proof { lemma_push_view(required_extensions@, ns); }
                required_extensions.push(ns);
            }
            if self.is_beam_lattice_balls_ext_required {
                if !contains_uri(&required_extensions, BEAM_LATTICE_BALLS_NS) {
                    let ns = XmlNamespace {
                        prefix: Some(BEAM_LATTICE_BALLS_PREFIX.to_owned()),
                        uri: BEAM_LATTICE_BALLS_NS.to_owned(),
                    };
                    proof { lemma_push_view(required_extensions@, ns); }
                    required_extensions.push(ns);
                }
            }
        }
        required_extensions
    }

    fn set_recommended_namespaces_for_mesh(&mut self, mesh: &Mesh)
        requires
            old(self).wf(),
        ensures
            final(self).wf(),
            final(self)@ == (ModelBuilderView { recommended: recommended_after_mesh(old(self)@.recommended, *mesh), ..old(self)@ }),
    {
        if mesh.trianglesets.is_some() {
            let mut all_triangle_sets = true;
            let mut i: usize = 0;
            while i < self.recommendedextensions.len()
                invariant
                    i <= self.recommendedextensions.len(),
                    all_triangle_sets == forall|k: int| 0 <= k < i ==> (#[trigger] self.recommendedextensions@[k]).uri@ == CORE_TRIANGLESET_NS@,
                decreases self.recommendedextensions.len() - i,
            {
                if !crate::text::str_equal(self.recommendedextensions[i].uri.as_str(), CORE_TRIANGLESET_NS) {
                    all_triangle_sets = false;
                }
                i = i + 1;
            }
            proof {
                let rec = namespaces_view(self.recommendedextensions@);
                assert(all_triangle_sets == forall|k: int| 0 <= k < rec.len() ==> (#[trigger] rec[k]).1 == CORE_TRIANGLESET_NS@) by {
                    if !all_triangle_sets {
                        let k = choose|k: int| 0 <= k < self.recommendedextensions@.len()
                            && (#[trigger] self.recommendedextensions@[k]).uri@ != CORE_TRIANGLESET_NS@;
                        assert(rec[k].1 != CORE_TRIANGLESET_NS@);
                    }
                }
            }
            if all_triangle_sets {
                let ns = XmlNamespace {
                    prefix: Some(CORE_TRIANGLESET_PREFIX.to_owned()),
                    uri: CORE_TRIANGLESET_NS.to_owned(),
                };
                proof { lemma_push_view(self.recommendedextensions@, ns); }
                self.recommendedextensions.push(ns);
            }
        }
    }
}

/// The object that joins a consistent builder's objects at position `i` keeps
/// the builder consistent when it is a mesh or composition with the given id,
/// refers only to earlier objects, and follows the Production rules.
proof fn lemma_push_object_consistent(v: ModelBuilderView, o: Object)
    requires
        builder_consistent(v),
        o.id == v.objects.len() + 1,
        (o.mesh is Some) != (o.components is Some),
        forall|j: int| 0 <= j < object_components(o).len() ==> 1 <= #[trigger] object_components(o)[j].objectid <= v.objects.len(),
        v.production ==> o.uuid is Some,
        v.production ==> forall|j: int| 0 <= j < object_components(o).len() ==> (#[trigger] object_components(o)[j]).uuid is Some,
        !v.production ==> forall|j: int| 0 <= j < object_components(o).len() ==> (#[trigger] object_components(o)[j]).path is None,
        v.next_object_id < usize::MAX,
    ensures
        builder_consistent(ModelBuilderView { objects: v.objects.push(o), next_object_id: (v.next_object_id + 1) as usize, ..v }),
{
    let objs = v.objects.push(o);
    assert forall|i: int| 0 <= i < objs.len() implies #[trigger] objs[i].id == i + 1 by {
        if i < v.objects.len() {
            assert(objs[i] == v.objects[i]);
        }
    }
    assert forall|i: int, j: int|
        0 <= i < objs.len() && 0 <= j < object_components(objs[i]).len()
            implies 1 <= #[trigger] object_components(objs[i])[j].objectid <= i by {
        if i < v.objects.len() {
            assert(objs[i] == v.objects[i]);
        }
    }
    assert forall|i: int| 0 <= i < objs.len() implies ((#[trigger] objs[i]).mesh is Some) != (objs[i].components is Some) by {
        if i < v.objects.len() {
            assert(objs[i] == v.objects[i]);
        }
    }
    if v.production {
        assert forall|i: int| 0 <= i < objs.len() implies (#[trigger] objs[i]).uuid is Some by {
            if i < v.objects.len() {
                assert(objs[i] == v.objects[i]);
            }
        }
        assert forall|i: int, j: int|
            0 <= i < objs.len() && 0 <= j < object_components(objs[i]).len()
                implies (#[trigger] object_components(objs[i])[j]).uuid is Some by {
            if i < v.objects.len() {
                assert(objs[i] == v.objects[i]);
            }
        }
    } else {
        assert forall|i: int, j: int|
            0 <= i < objs.len() && 0 <= j < object_components(objs[i]).len()
                implies (#[trigger] object_components(objs[i])[j]).path is None by {
            if i < v.objects.len() {
                assert(objs[i] == v.objects[i]);
            }
        }
    }
}

/// The ids `1` to `n`.
pub open spec fn ids_up_to(ids: Seq<ObjectId>, n: int) -> bool {
    &&& ids.len() == n
    &&& forall|k: int| 0 <= k < n ==> (#[trigger] ids[k])@ == k + 1
}

/// What a fresh object builder describes: the object with the id `id`, of
/// type model, with nothing else set.
pub open spec fn fresh_header(id: usize) -> Object {
    Object {
        id,
        objecttype: Some(ObjectType::Model),
        thumbnail: None,
        partnumber: None,
        name: None,
        pid: None,
        pindex: None,
        uuid: None,
        mesh: None,
        components: None,
    }
}

/// The builder that the closure of [`ModelBuilder::add_mesh_object`] is
/// handed: for the object `id`, with the Production setting of the model,
/// and no vertices or triangles yet.
pub open spec fn fresh_mesh_object_builder(b: MeshObjectBuilder, id: usize, production: bool) -> bool {
    &&& b.header() == fresh_header(id)
    &&& b.production_required_of() == production
    &&& b.entity_of().vertices_of().len() == 0
    &&& b.entity_of().triangles_of().len() == 0
}

/// The object `o` is the mesh object with the id `id` that the builder `b`
/// describes.
pub open spec fn is_mesh_object_of(o: Object, b: MeshObjectBuilder, id: usize) -> bool {
    &&& o == (Object { id, mesh: o.mesh, ..b.header() })
    &&& o.mesh matches Some(m)
    &&& m.vertices.vertex@ == b.entity_of().vertices_of()
    &&& m.triangles.triangle@ == b.entity_of().triangles_of()
    &&& m.trianglesets is None
    &&& m.beamlattice is None
}

/// The builder that the closure of [`ModelBuilder::add_components_object`]
/// is handed: for the object `id`, with the Production setting of the
/// model, and no components yet.
pub open spec fn fresh_components_object_builder(b: ComponentsObjectBuilder, id: usize, production: bool) -> bool {
    &&& b.header() == fresh_header(id)
    &&& b.production_required_of() == production
    &&& b.entity_of().components_of().len() == 0
}

/// The check that an object made of the components `comps` passes when the
/// objects with the ids `1` to `n` exist: as [`components_check`], with
/// each component referring to one of those ids.
pub open spec fn components_check_count(comps: Seq<Component>, n: int, production: bool) -> Option<ComponentsObjectError> {
    if production && exists|j: int| 0 <= j < comps.len() && (#[trigger] comps[j]).uuid is None {
        Some(ComponentsObjectError::ComponentUuidNotSet)
    } else if !production && exists|j: int| 0 <= j < comps.len() && (#[trigger] comps[j]).path is Some {
        Some(ComponentsObjectError::PathSetWithoutProductionExtension)
    } else if exists|j: int| 0 <= j < comps.len() && !(1 <= (#[trigger] comps[j]).objectid <= n) {
        Some(ComponentsObjectError::ObjectReferenceNotFoundForComponent)
    } else {
        None
    }
}

/// The check of components against a list of the ids `1` to `n` is the
/// check against the count `n`.
proof fn lemma_components_check_by_count(comps: Seq<Component>, ids: Seq<ObjectId>, n: int, production: bool)
    requires
        ids_up_to(ids, n),
    ensures
        components_check(comps, ids, production) == components_check_count(comps, n, production),
{
    assert forall|j: int| 0 <= j < comps.len() implies
        ids_contain(ids, (#[trigger] comps[j]).objectid) == (1 <= comps[j].objectid <= n) by {
        let id = comps[j].objectid;
        if 1 <= id <= n {
            assert(ids[id - 1]@ == id);
        }
        if ids_contain(ids, id) {
            let k = choose|k: int| 0 <= k < ids.len() && (#[trigger] ids[k])@ == id;
            assert(ids[k]@ == k + 1);
        }
    }
}

/// Why an object made of components fails to be added when `n` objects are
/// there: a component check fails, or with the Production extension the
/// object has no UUID.
pub open spec fn composed_object_failure(b: ComponentsObjectBuilder, n: int, production: bool) -> Option<ComponentsObjectError> {
    match components_check_count(b.entity_of().components_of(), n, production) {
        Some(e) => Some(e),
        None => if production && b.header().uuid is None {
            Some(ComponentsObjectError::ObjectUuidNotSet)
        } else {
            None
        },
    }
}

/// The object `o` is the object made of components with the id `id` that
/// the builder `b` describes.
pub open spec fn is_composed_object_of(o: Object, b: ComponentsObjectBuilder, id: usize) -> bool {
    &&& o == (Object { id, components: o.components, ..b.header() })
    &&& o.components matches Some(c)
    &&& c.component@ == b.entity_of().components_of()
}

impl ModelBuilder {
    /// Add an object that is a mesh, set up by `f`; returns the id it got.
    /// `f` is handed a builder for the next id; its error is returned as it
    /// is. Otherwise the object it set up is added, with that id; with the
    /// Production extension it needs a UUID. On an error the builder is left
    /// as it was.
    pub fn add_mesh_object<F>(&mut self, f: F) -> (r: Result<ObjectId, MeshObjectError>)
        where
            F: FnOnce(&mut MeshObjectBuilder) -> Result<(), MeshObjectError>,
        requires
            old(self).wf(),
            old(self)@.next_object_id < usize::MAX,
            forall|b: &mut MeshObjectBuilder| call_requires(f, (b,)),
        ensures
            final(self).wf(),
            r is Err ==> *final(self) == *old(self),
            r matches Err(e) ==> exists|b: &mut MeshObjectBuilder, res: Result<(), MeshObjectError>|
                #![trigger call_ensures(f, (b,), res)]
                fresh_mesh_object_builder(*b, old(self)@.next_object_id, old(self)@.production)
                && call_ensures(f, (b,), res)
                && match res {
                    Err(fe) => e == fe,
                    Ok(_) => old(self)@.production && (*final(b)).header().uuid is None
                        && e == MeshObjectError::ObjectUuidNotSet,
                },
            r matches Ok(id) ==> {
                &&& id@ == old(self)@.next_object_id
                &&& id@ == old(self)@.objects.len() + 1
                &&& final(self)@ == (ModelBuilderView {
                    objects: final(self)@.objects,
                    next_object_id: (old(self)@.next_object_id + 1) as usize,
                    ..old(self)@
                })
                &&& final(self)@.objects.drop_last() == old(self)@.objects
                &&& final(self)@.objects.len() == old(self)@.objects.len() + 1
                &&& final(self)@.objects.last().id == id@
                &&& final(self)@.objects.last().mesh is Some
                &&& final(self)@.objects.last().components is None
                &&& exists|b: &mut MeshObjectBuilder, res: Result<(), MeshObjectError>|
                    #![trigger call_ensures(f, (b,), res)]
                    fresh_mesh_object_builder(*b, old(self)@.next_object_id, old(self)@.production)
                    && call_ensures(f, (b,), res)
                    && res is Ok
                    && !(old(self)@.production && (*final(b)).header().uuid is None)
                    && is_mesh_object_of(final(self)@.objects.last(), *final(b), id@)
            },
    {
        let id = self.next_object_id;
        let mut obj_builder = MeshObjectBuilder::new(id, self.is_production_ext_required);
        match f(&mut obj_builder) {
            Ok(()) => {},
            Err(e) => return Err(e),
        }
        // `f` reaches the builder only through its public methods, none of
        // which changes the id or the Production setting.
        obj_builder.object_id = id;
        obj_builder.is_production_ext_required = self.is_production_ext_required;
        self.add_mesh_object_from_builder(obj_builder)
    }

    /// Add the object that `builder` describes, a mesh; returns the id it got.
    /// With the Production extension the object needs a UUID; on that error
    /// the builder is left as it was.
    pub fn add_mesh_object_from_builder(&mut self, builder: MeshObjectBuilder) -> (r: Result<ObjectId, MeshObjectError>)
        requires
            old(self).wf(),
            old(self)@.next_object_id < usize::MAX,
            builder.header().id == old(self)@.next_object_id,
            builder.production_required_of() == old(self)@.production,
        ensures
            final(self).wf(),
            r is Err <==> old(self)@.production && builder.header().uuid is None,
            r matches Err(e) ==> e == MeshObjectError::ObjectUuidNotSet && *final(self) == *old(self),
            r matches Ok(id) ==> {
                &&& id@ == old(self)@.next_object_id
                &&& id@ == old(self)@.objects.len() + 1
                &&& final(self)@ == (ModelBuilderView {
                    objects: final(self)@.objects,
                    next_object_id: (old(self)@.next_object_id + 1) as usize,
                    ..old(self)@
                })
                &&& final(self)@.objects.drop_last() == old(self)@.objects
                &&& final(self)@.objects.len() == old(self)@.objects.len() + 1
                &&& final(self)@.objects.last() == (Object { mesh: final(self)@.objects.last().mesh, ..builder.header() })
                &&& final(self)@.objects.last().mesh matches Some(m)
                &&& m.vertices.vertex@ == builder.entity_of().vertices_of()
                &&& m.triangles.triangle@ == builder.entity_of().triangles_of()
                &&& m.trianglesets is None
                &&& m.beamlattice is None
            },
    {
        let id = builder.object_id;
        let object = builder.build()?;
        match &object.mesh {
            Some(mesh) => {
                self.set_recommended_namespaces_for_mesh(mesh);
            },
            None => {},
        }
        proof {
            lemma_push_object_consistent(self@, object);
        }
        let ghost before = self.resources.objects@;
        self.resources.objects.push(object);
        self.next_object_id = ObjectId(id.0 + 1);
        assert(self.resources.objects@.drop_last() == before);
        Ok(id)
    }

    /// Add an object made of components, set up by `f`; returns the id it got.
    /// `f` is handed a builder for the next id; its error is returned as it
    /// is. Otherwise the components it set up must refer to objects added
    /// before, follow the Production rules, and with the Production extension
    /// the object needs a UUID. On an error the builder is left as it was.
    pub fn add_components_object<F>(&mut self, f: F) -> (r: Result<ObjectId, ComponentsObjectError>)
        where
            F: FnOnce(&mut ComponentsObjectBuilder) -> Result<(), ComponentsObjectError>,
        requires
            old(self).wf(),
            old(self)@.next_object_id < usize::MAX,
            forall|b: &mut ComponentsObjectBuilder| call_requires(f, (b,)),
        ensures
            final(self).wf(),
            r is Err ==> *final(self) == *old(self),
            r matches Err(e) ==> exists|b: &mut ComponentsObjectBuilder, res: Result<(), ComponentsObjectError>|
                #![trigger call_ensures(f, (b,), res)]
                fresh_components_object_builder(*b, old(self)@.next_object_id, old(self)@.production)
                && call_ensures(f, (b,), res)
                && match res {
                    Err(fe) => e == fe,
                    Ok(_) => composed_object_failure(*final(b), old(self)@.objects.len() as int, old(self)@.production)
                        == Some(e),
                },
            r matches Ok(id) ==> {
                &&& id@ == old(self)@.next_object_id
                &&& id@ == old(self)@.objects.len() + 1
                &&& final(self)@ == (ModelBuilderView {
                    objects: final(self)@.objects,
                    next_object_id: (old(self)@.next_object_id + 1) as usize,
                    ..old(self)@
                })
                &&& final(self)@.objects.drop_last() == old(self)@.objects
                &&& final(self)@.objects.len() == old(self)@.objects.len() + 1
                &&& final(self)@.objects.last().id == id@
                &&& final(self)@.objects.last().mesh is None
                &&& final(self)@.objects.last().components is Some
                &&& exists|b: &mut ComponentsObjectBuilder, res: Result<(), ComponentsObjectError>|
                    #![trigger call_ensures(f, (b,), res)]
                    fresh_components_object_builder(*b, old(self)@.next_object_id, old(self)@.production)
                    && call_ensures(f, (b,), res)
                    && res is Ok
                    && composed_object_failure(*final(b), old(self)@.objects.len() as int, old(self)@.production) is None
                    && is_composed_object_of(final(self)@.objects.last(), *final(b), id@)
            },
    {
        let id = self.next_object_id;
        let all_object_ids = self.object_ids();
        let mut obj_builder = ComponentsObjectBuilder::new(id, Vec::new(), self.is_production_ext_required);
        match f(&mut obj_builder) {
            Ok(()) => {},
            Err(e) => return Err(e),
        }
        // `f` reaches the builder only through its public methods, none of
        // which changes the id, the Production setting or the known objects.
        obj_builder.object_id = id;
        obj_builder.is_production_ext_required = self.is_production_ext_required;
        obj_builder.entity.all_existing_object_ids = all_object_ids;
        proof {
            lemma_components_check_by_count(
                obj_builder.entity_of().components_of(),
                obj_builder.entity_of().known_ids(),
                self@.objects.len() as int,
                self@.production,
            );
        }
        self.add_composed_part_object_from_builder(obj_builder)
    }

    /// The ids of the objects added so far.
    fn object_ids(&self) -> (ids: Vec<ObjectId>)
        requires
            self.wf(),
        ensures
            ids_up_to(ids@, self@.objects.len() as int),
    {
        let mut ids: Vec<ObjectId> = Vec::new();
        let mut i: usize = 0;
        while i < self.resources.objects.len()
            invariant
                self.wf(),
                i <= self.resources.objects.len(),
                ids_up_to(ids@, i as int),
            decreases self.resources.objects.len() - i,
        {
            assert(self@.objects[i as int].id == i + 1);
            ids.push(ObjectId(self.resources.objects[i].id));
            i = i + 1;
        }
        ids
    }

    /// Add the object that `builder` describes, made of components; returns
    /// the id it got. The components must refer to objects that the builder
    /// knows, and follow the Production rules; on an error the builder is left
    /// as it was.
    pub fn add_composed_part_object_from_builder(&mut self, builder: ComponentsObjectBuilder) -> (r: Result<ObjectId, ComponentsObjectError>)
        requires
            old(self).wf(),
            old(self)@.next_object_id < usize::MAX,
            builder.header().id == old(self)@.next_object_id,
            builder.production_required_of() == old(self)@.production,
            ids_up_to(builder.entity_of().known_ids(), old(self)@.objects.len() as int),
        ensures
            final(self).wf(),
            match components_check(builder.entity_of().components_of(), builder.entity_of().known_ids(), old(self)@.production) {
                Some(e) => r == Err::<ObjectId, ComponentsObjectError>(e),
                None => if old(self)@.production && builder.header().uuid is None {
                    r == Err::<ObjectId, ComponentsObjectError>(ComponentsObjectError::ObjectUuidNotSet)
                } else {
                    r is Ok
                },
            },
            r is Err ==> *final(self) == *old(self),
            r matches Ok(id) ==> {
                &&& id@ == old(self)@.next_object_id
                &&& id@ == old(self)@.objects.len() + 1
                &&& final(self)@ == (ModelBuilderView {
                    objects: old(self)@.objects.push(final(self)@.objects.last()),
                    next_object_id: (old(self)@.next_object_id + 1) as usize,
                    ..old(self)@
                })
                &&& final(self)@.objects.last() == (Object { components: final(self)@.objects.last().components, ..builder.header() })
                &&& final(self)@.objects.last().components matches Some(c)
                &&& c.component@ == builder.entity_of().components_of()
            },
    {
        let id = builder.object_id;
        let ghost comps = builder.entity_of().components_of();
        let ghost ids = builder.entity_of().known_ids();
        let object = builder.build()?;
        proof {
            assert(components_check(comps, ids, self@.production) is None);
            assert forall|j: int| 0 <= j < object_components(object).len()
                implies 1 <= #[trigger] object_components(object)[j].objectid <= self@.objects.len() by {
                assert(ids_contain(ids, comps[j].objectid));
            }
            if self@.production {
                assert forall|j: int| 0 <= j < object_components(object).len()
                    implies (#[trigger] object_components(object)[j]).uuid is Some by {
                    assert(comps[j].uuid is Some);
                }
            } else {
                assert forall|j: int| 0 <= j < object_components(object).len()
                    implies (#[trigger] object_components(object)[j]).path is None by {
                    assert(comps[j].path is None);
                }
            }
            lemma_push_object_consistent(self@, object);
        }
        self.resources.objects.push(object);
        self.next_object_id = ObjectId(id.0 + 1);
        Ok(id)
    }
}
/// An item for the object `id` with nothing else set.
pub open spec fn plain_item(id: usize) -> Item {
    Item { objectid: id, transform: None, partnumber: None, path: None, uuid: None }
}

/// The error that building the model meets, if any: a root model needs a
/// build, any other model may not have one, and with the Production extension
/// the build needs a UUID.
pub open spec fn model_build_error(v: ModelBuilderView) -> Option<ModelError> {
    if v.is_root && v.build is None {
        Some(ModelError::BuildItemNotSet)
    } else if !v.is_root && v.build is Some {
        Some(ModelError::BuildOnlyAllowedInRootModel)
    } else if v.production && (v.build matches Some(b) && b.uuid is None) {
        Some(ModelError::BuildError(BuildError::BuildUuidNotSet))
    } else {
        None
    }
}

/// The items of the build of a model builder; none without a build.
pub open spec fn build_items(v: ModelBuilderView) -> Seq<Item> {
    match v.build {
        Some(b) => b.items,
        None => Seq::empty(),
    }
}

/// What every model that the builder gives keeps: object ids follow
/// positions, components refer to earlier objects, every object is a mesh or
/// a composition; with the Production extension objects and components carry
/// UUIDs, without it no component or item has a path.
pub open spec fn model_consistent(m: Model, production: bool) -> bool {
    let objs = m.resources.object@;
    &&& ids_follow_positions(objs)
    &&& components_refer_to_earlier_objects(objs)
    &&& each_object_is_mesh_or_composition(objs)
    &&& production ==> objects_carry_uuids(objs)
    &&& !production ==> components_have_no_paths(objs) && items_have_no_paths(m.build.item@)
}

/// The model that a model builder gives when it builds without an error.
pub open spec fn model_of(v: ModelBuilderView, m: Model) -> bool {
    &&& m.unit == v.unit
    &&& crate::text::opt_view(m.requiredextensions) == extensions_definition(
        with_required_extensions(v.required, v.production, v.beam_lattice, v.beam_lattice_balls),
    )
    &&& crate::text::opt_view(m.recommendedextensions) == extensions_definition(v.recommended)
    &&& m.metadata@ == v.metadata
    &&& m.resources.object@ == v.objects
    &&& m.resources.basematerials@.len() == 0
    &&& m.build.uuid is None
    &&& m.build.item@ == build_items(v)
}

impl ModelBuilder {
    /// Give the model a build, with the given UUID or none, replacing any
    /// build given before. Only a root model may have a build, and with the
    /// Production extension the build needs a UUID; on an error the builder
    /// is left as it was.
    pub fn add_build(&mut self, uuid: Option<String>) -> (r: Result<&mut Self, ModelError>)
        requires
            old(self).wf(),
        ensures
            if !old(self)@.is_root {
                r == Err::<&mut Self, ModelError>(ModelError::BuildOnlyAllowedInRootModel) && *final(self) == *old(self)
            } else if old(self)@.production && uuid is None {
                r == Err::<&mut Self, ModelError>(ModelError::BuildError(BuildError::BuildUuidNotSet))
                    && *final(self) == *old(self)
            } else {
                r matches Ok(b) && b.wf() && b@ == (ModelBuilderView {
                    build: Some(BuildView { uuid: crate::text::opt_view(uuid), items: Seq::empty() }),
                    ..old(self)@
                }) && *final(self) == *final(b)
            },
    {
        if !self.is_root {
            return Err(ModelError::BuildOnlyAllowedInRootModel);
        }
        let mut build_builder = BuildBuilder::new();
        match uuid {
            Some(u) => {
                build_builder.uuid(u);
            },
            None => {},
        }
        match build_builder.can_build(self.is_production_ext_required) {
            Ok(()) => {},
            Err(e) => return Err(ModelError::BuildError(e)),
        }
        self.build = Some(build_builder);
        Ok(self)
    }

    /// Add a build item for the object `object_id`, with nothing else set.
    /// The model needs a build, and with the Production extension an item
    /// needs a UUID; on an error the builder is left as it was.
    pub fn add_build_item(&mut self, object_id: ObjectId) -> (r: Result<&mut Self, ModelError>)
        requires
            old(self).wf(),
        ensures
            match old(self)@.build {
                None => r == Err::<&mut Self, ModelError>(ModelError::BuildItemNotSet) && *final(self) == *old(self),
                Some(bv) => if old(self)@.production {
                    r == Err::<&mut Self, ModelError>(ModelError::ItemError(ItemError::ItemUuidNotSet))
                        && *final(self) == *old(self)
                } else {
                    r matches Ok(b) && b.wf() && b@ == (ModelBuilderView {
                        build: Some(BuildView { items: bv.items.push(plain_item(object_id@)), ..bv }),
                        ..old(self)@
                    }) && *final(self) == *final(b)
                },
            },
    {
        let mut build = match self.build.take() {
            Some(b) => b,
            None => return Err(ModelError::BuildItemNotSet),
        };
        let res = build.push_item(ItemBuilder::new(object_id), self.is_production_ext_required);
        self.build = Some(build);
        match res {
            Ok(()) => Ok(self),
            Err(e) => Err(ModelError::ItemError(e)),
        }
    }

    /// Add a build item for the object `object_id`, set up by `f`. The model
    /// needs a build; without the Production extension the item may not have
    /// a path, with it the item needs a UUID. On an error the builder is left
    /// as it was.
    pub fn add_build_item_advanced<F>(&mut self, object_id: ObjectId, f: F) -> (r: Result<&mut Self, ModelError>)
        where
            F: FnOnce(&mut ItemBuilder),
        requires
            old(self).wf(),
            forall|b: &mut ItemBuilder| call_requires(f, (b,)),
        ensures
            old(self)@.build is None ==> r == Err::<&mut Self, ModelError>(ModelError::BuildItemNotSet),
            r is Err ==> *final(self) == *old(self),
            r matches Ok(b) ==> b.wf() && *final(self) == *final(b),
            old(self)@.build matches Some(bv) ==> exists|b: &mut ItemBuilder, res: ()|
                #![trigger call_ensures(f, (b,), res)]
                (*b).item() == plain_item(object_id@)
                && call_ensures(f, (b,), res)
                && match item_check(Item { objectid: object_id@, ..(*final(b)).item() }, old(self)@.production) {
                    Some(e) => r == Err::<&mut Self, ModelError>(ModelError::ItemError(e)),
                    None => r matches Ok(m) && m@ == (ModelBuilderView {
                        build: Some(BuildView {
                            items: bv.items.push(Item { objectid: object_id@, ..(*final(b)).item() }),
                            ..bv
                        }),
                        ..old(self)@
                    }),
                },
    {
        let mut build = match self.build.take() {
            Some(b) => b,
            None => return Err(ModelError::BuildItemNotSet),
        };
        let res = build.add_build_item(object_id, self.is_production_ext_required, f);
        self.build = Some(build);
        match res {
            Ok(()) => Ok(self),
            Err(e) => Err(ModelError::ItemError(e)),
        }
    }

    /// Build the model. A root model needs a build and any other model may
    /// not have one; with the Production extension the build needs a UUID.
    /// The required extensions are those added, with the namespaces of the
    /// extensions the builder was told to require; each list becomes the
    /// prefixes of its distinct declarations. The build of the model carries
    /// no UUID.
    pub fn build(self) -> (r: Result<Model, ModelError>)
        requires
            self.wf(),
        ensures
            match model_build_error(self@) {
                Some(e) => r == Err::<Model, ModelError>(e),
                None => r matches Ok(m) && model_of(self@, m) && model_consistent(m, self@.production),
            },
    {
        let required_extensions = self.process_required_extensions();
        let requiredextensions = get_extensions_definition(required_extensions.as_slice());
        let recommendedextensions = get_extensions_definition(self.recommendedextensions.as_slice());
        if self.is_root && self.build.is_none() {
            return Err(ModelError::BuildItemNotSet);
        }
        if !self.is_root && self.build.is_some() {
            return Err(ModelError::BuildOnlyAllowedInRootModel);
        }
        let build = match self.build {
            Some(builder) => match builder.build(self.is_production_ext_required) {
                Ok(b) => b,
                Err(e) => return Err(ModelError::BuildError(e)),
            },
            None => Build { uuid: None, item: Vec::new() },
        };
        let resources = self.resources.build();
        Ok(Model {
            unit: self.unit,
            requiredextensions,
            recommendedextensions,
            metadata: self.metadata,
            resources,
            build,
        })
    }
}

impl Default for ModelBuilder {
    /// A builder for a root model in millimeters.
    fn default() -> (b: ModelBuilder)
        ensures
            b.wf(),
            b@ == (ModelBuilderView {
                unit: Some(Unit::Millimeter),
                required: Seq::empty(),
                recommended: Seq::empty(),
                metadata: Seq::empty(),
                objects: Seq::empty(),
                build: None,
                is_root: true,
                next_object_id: 1,
                production: false,
                beam_lattice: false,
                beam_lattice_balls: false,
            }),
    {
        ModelBuilder::new(Unit::Millimeter, true)
    }
}

/// Turning a number into an object id and back gives the number.
pub proof fn lemma_object_id_round_trip(n: usize)
    ensures
        <usize as vstd::std_specs::convert::FromSpec<ObjectId>>::from_spec(
            <ObjectId as vstd::std_specs::convert::FromSpec<usize>>::from_spec(n),
        ) == n,
{
}

/// The required extensions of a built model keep the declarations that were
/// added, in order and at the front, and declare each extension that the
/// builder was told to require; with none of them required they are exactly
/// the declarations added.
pub proof fn lemma_required_extensions_declared(given: Seq<NamespaceView>, production: bool, beam_lattice: bool, balls: bool)
    ensures
        ({
            let r = with_required_extensions(given, production, beam_lattice, balls);
            &&& given.len() <= r.len()
            &&& r.take(given.len() as int) == given
            &&& production ==> has_uri(r, PROD_NS@)
            &&& beam_lattice ==> has_uri(r, BEAM_LATTICE_NS@)
            &&& beam_lattice && balls ==> has_uri(r, BEAM_LATTICE_BALLS_NS@)
            &&& !production && !beam_lattice ==> r == given
        }),
{
    let a = if production && !has_uri(given, PROD_NS@) {
        given.push((Some(PROD_PREFIX@), PROD_NS@))
    } else {
        given
    };
    let b = if beam_lattice && !has_uri(a, BEAM_LATTICE_NS@) {
        a.push((Some(BEAM_LATTICE_PREFIX@), BEAM_LATTICE_NS@))
    } else {
        a
    };
    let r = with_required_extensions(given, production, beam_lattice, balls);
    if production && !has_uri(given, PROD_NS@) {
        assert(a[given.len() as int].1 == PROD_NS@);
    }
    assert forall|i: int| 0 <= i < a.len() implies #[trigger] b[i] == a[i] by {}
    assert forall|i: int| 0 <= i < b.len() implies #[trigger] r[i] == b[i] by {}
    if production {
        let k = choose|k: int| 0 <= k < a.len() && (#[trigger] a[k]).1 == PROD_NS@;
        assert(r[k].1 == PROD_NS@);
    }
    if beam_lattice {
        if !has_uri(a, BEAM_LATTICE_NS@) {
            assert(b[a.len() as int].1 == BEAM_LATTICE_NS@);
        }
        let k = choose|k: int| 0 <= k < b.len() && (#[trigger] b[k]).1 == BEAM_LATTICE_NS@;
        assert(r[k].1 == BEAM_LATTICE_NS@);
    }
    if beam_lattice && balls && !has_uri(b, BEAM_LATTICE_BALLS_NS@) {
        assert(r[b.len() as int].1 == BEAM_LATTICE_BALLS_NS@);
    }
    assert(r.take(given.len() as int) =~= given);
}

proof fn lemma_has_uri_push(v: Seq<NamespaceView>, x: NamespaceView, u: Seq<char>)
    ensures
        has_uri(v.push(x), u) <==> has_uri(v, u) || x.1 == u,
{
    if has_uri(v, u) {
        let k = choose|k: int| 0 <= k < v.len() && (#[trigger] v[k]).1 == u;
        assert(v.push(x)[k] == v[k]);
    }
    if x.1 == u {
        assert(v.push(x)[v.len() as int] == x);
    }
    if has_uri(v.push(x), u) && x.1 != u {
        let k = choose|k: int| 0 <= k < v.push(x).len() && (#[trigger] v.push(x)[k]).1 == u;
        assert(k < v.len());
        assert(v[k] == v.push(x)[k]);
    }
}

/// The declaration of an extension namespace with its usual prefix.
pub open spec fn extension_declaration(prefix: &'static str, uri: &'static str) -> NamespaceView {
    (Some(prefix@), uri@)
}

/// A namespace URI is declared among the required extensions of a built
/// model exactly when it was among those given or the builder was told to
/// require its extension: Production for the Production namespace, Beam
/// Lattice for its namespace, Beam Lattice with balls for the balls
/// namespace; any other URI is declared exactly when it was given. The
/// declarations given come first, unchanged, and each one added after them
/// is one of those three namespaces with its usual prefix, whose URI was not
/// given.
pub proof fn lemma_required_extensions_exactly(
    given: Seq<NamespaceView>,
    production: bool,
    beam_lattice: bool,
    balls: bool,
    u: Seq<char>,
)
    ensures
        ({
            let r = with_required_extensions(given, production, beam_lattice, balls);
            &&& r.take(given.len() as int) == given
            &&& has_uri(r, PROD_NS@) <==> has_uri(given, PROD_NS@) || production
            &&& has_uri(r, BEAM_LATTICE_NS@) <==> has_uri(given, BEAM_LATTICE_NS@) || beam_lattice
            &&& has_uri(r, BEAM_LATTICE_BALLS_NS@) <==> has_uri(given, BEAM_LATTICE_BALLS_NS@) || (
            beam_lattice && balls)
            &&& (u != PROD_NS@ && u != BEAM_LATTICE_NS@ && u != BEAM_LATTICE_BALLS_NS@) ==> (has_uri(r, u)
                <==> has_uri(given, u))
            &&& forall|k: int|
                given.len() <= k < r.len() ==> !has_uri(given, (#[trigger] r[k]).1) && (r[k]
                    == extension_declaration(PROD_PREFIX, PROD_NS) || r[k] == extension_declaration(
                    BEAM_LATTICE_PREFIX,
                    BEAM_LATTICE_NS,
                ) || r[k] == extension_declaration(BEAM_LATTICE_BALLS_PREFIX, BEAM_LATTICE_BALLS_NS))
        }),
{
    reveal_strlit("http://schemas.microsoft.com/3dmanufacturing/production/2015/06");
    reveal_strlit("http://schemas.microsoft.com/3dmanufacturing/beamlattice/2017/02");
    reveal_strlit("http://schemas.microsoft.com/3dmanufacturing/beamlattice/balls/2020/07");
    assert(PROD_NS@.len() == 63 && BEAM_LATTICE_NS@.len() == 64 && BEAM_LATTICE_BALLS_NS@.len() == 70);
    lemma_required_extensions_declared(given, production, beam_lattice, balls);
    let pd = extension_declaration(PROD_PREFIX, PROD_NS);
    let bd = extension_declaration(BEAM_LATTICE_PREFIX, BEAM_LATTICE_NS);
    let sd = extension_declaration(BEAM_LATTICE_BALLS_PREFIX, BEAM_LATTICE_BALLS_NS);
    let a = if production && !has_uri(given, PROD_NS@) {
        given.push(pd)
    } else {
        given
    };
    let b = if beam_lattice && !has_uri(a, BEAM_LATTICE_NS@) {
        a.push(bd)
    } else {
        a
    };
    let r = with_required_extensions(given, production, beam_lattice, balls);
    assert(r == if beam_lattice && balls && !has_uri(b, BEAM_LATTICE_BALLS_NS@) {
        b.push(sd)
    } else {
        b
    });
    let uris = seq![PROD_NS@, BEAM_LATTICE_NS@, BEAM_LATTICE_BALLS_NS@, u];
    assert forall|j: int| 0 <= j < 4 implies (has_uri(b, #[trigger] uris[j]) <==> has_uri(a, uris[j])
        || (b != a && uris[j] == BEAM_LATTICE_NS@)) && (has_uri(a, uris[j]) <==> has_uri(given, uris[j])
        || (a != given && uris[j] == PROD_NS@)) && (has_uri(r, uris[j]) <==> has_uri(b, uris[j]) || (r
        != b && uris[j] == BEAM_LATTICE_BALLS_NS@)) by {
        if a != given {
            lemma_has_uri_push(given, pd, uris[j]);
        }
        if b != a {
            lemma_has_uri_push(a, bd, uris[j]);
        }
        if r != b {
            lemma_has_uri_push(b, sd, uris[j]);
        }
    }
    assert(uris[0] == PROD_NS@ && uris[1] == BEAM_LATTICE_NS@ && uris[2] == BEAM_LATTICE_BALLS_NS@
        && uris[3] == u);
    assert forall|k: int| given.len() <= k < r.len() implies !has_uri(given, (#[trigger] r[k]).1) && (
    r[k] == pd || r[k] == bd || r[k] == sd) by {
        if a != given && k == given.len() {
            assert(r[k] == pd);
        } else if b != a && k == a.len() {
            assert(r[k] == b[k]);
            assert(!has_uri(a, BEAM_LATTICE_NS@));
            lemma_has_uri_push(given, pd, BEAM_LATTICE_NS@);
        } else {
            assert(r != b && k == b.len());
            assert(r[k] == sd);
            assert(!has_uri(b, BEAM_LATTICE_BALLS_NS@));
            if a != given {
                lemma_has_uri_push(given, pd, BEAM_LATTICE_BALLS_NS@);
            }
            if b != a {
                lemma_has_uri_push(a, bd, BEAM_LATTICE_BALLS_NS@);
            }
        }
    }
}

} // verus!
