use amrust_3mf::core_model::beamlattice::{Beam, BeamLattice, Beams};
use amrust_3mf::core_model::build::{Build, Item};
use amrust_3mf::core_model::component::{Component, Components};
use amrust_3mf::core_model::mesh::{Mesh, Triangles, Vertex, Vertices};
use amrust_3mf::core_model::model::{Model, Unit};
use amrust_3mf::core_model::object::{Object, ObjectType};
use amrust_3mf::core_model::resources::Resources;
use amrust_3mf::io::query::{
    get_composedpart_objects, get_composedpart_objects_from_model, get_item_by_uuid, get_items, get_items_by_objectid,
    get_items_from_model, get_items_from_model_ref, get_mesh_objects, get_mesh_objects_from_model,
    get_mesh_objects_from_model_ref, get_object_from_model, get_objects, get_objects_from_model,
    get_objects_from_model_ref, iter_models, ModelRef,
};
use amrust_3mf::io::ThreemfPackage;
use amrust_3mf::query as legacy;

fn mesh(beams: bool) -> Mesh {
    Mesh {
        vertices: Vertices { vertex: vec![Vertex { x: 0, y: 0, z: 0 }] },
        triangles: Triangles { triangle: vec![] },
        trianglesets: None,
        beamlattice: if beams { Some(BeamLattice { beams: Beams { beam: vec![Beam { v1: 0, v2: 0 }] } }) } else { None },
    }
}

fn object(id: usize, m: Option<Mesh>, c: Option<Components>) -> Object {
    Object {
        id,
        objecttype: if id == 1 { None } else { Some(ObjectType::Support) },
        thumbnail: None,
        partnumber: Some(format!("part{id}")),
        name: None,
        pid: None,
        pindex: None,
        uuid: None,
        mesh: m,
        components: c,
    }
}

fn item(objectid: usize, uuid: Option<&str>) -> Item {
    Item { objectid, transform: None, partnumber: Some("Pyramid".to_owned()), path: None, uuid: uuid.map(|u| u.to_owned()) }
}

fn model(objects: Vec<Object>, items: Vec<Item>) -> Model {
    Model {
        unit: Some(Unit::Millimeter),
        requiredextensions: None,
        recommendedextensions: None,
        metadata: vec![],
        resources: Resources { object: objects, basematerials: vec![] },
        build: Build { uuid: None, item: items },
    }
}

fn root_model() -> Model {
    let comps = Components {
        component: vec![
            Component { objectid: 1, transform: None, path: None, uuid: None },
            Component { objectid: 7, transform: None, path: Some("/3D/sub.model".to_owned()), uuid: Some("c".to_owned()) },
        ],
    };
    model(
        vec![object(1, Some(mesh(false)), None), object(2, Some(mesh(true)), None), object(4, None, Some(comps))],
        vec![item(1, Some("u1")), item(4, None)],
    )
}

fn package() -> ThreemfPackage {
    let mut p = ThreemfPackage::from(root_model());
    p.sub_models.insert("/3D/sub.model".to_owned(), model(vec![object(7, Some(mesh(true)), None)], vec![item(7, Some("u7")), item(1, None)]));
    p
}

#[test]
fn objects_of_a_model() {
    let m = root_model();
    assert_eq!(get_objects_from_model(&m).len(), 3);
    assert_eq!(get_object_from_model(2, &m).unwrap().object.id, 2);
    assert!(get_object_from_model(999, &m).is_none());
    let refs = get_objects_from_model_ref(ModelRef { model: &m, path: Some("test_path") });
    assert!(refs.iter().all(|r| r.path == Some("test_path")));
    assert_eq!(get_mesh_objects_from_model_ref(ModelRef { model: &m, path: None }).len(), 2);
    let meshes = get_mesh_objects_from_model(&m);
    assert_eq!(meshes.len(), 2);
    assert_eq!(meshes[0].id, 1);
    assert_eq!(meshes[0].object_type, ObjectType::Model);
    assert_eq!(meshes[1].object_type, ObjectType::Support);
    assert_eq!(meshes[1].part_number, Some("part2".to_owned()));
    assert!(meshes[1].mesh().beamlattice.is_some());
    let composed = get_composedpart_objects_from_model(&m);
    assert_eq!(composed.len(), 1);
    assert_eq!(composed[0].id, 4);
    let comps = composed[0].components();
    assert_eq!(comps.len(), 2);
    assert_eq!(comps[0].objectid, 1);
    assert_eq!(comps[0].path_to_look_for, None);
    assert_eq!(comps[1].path_to_look_for, Some("/3D/sub.model".to_owned()));
    assert_eq!(comps[1].uuid, Some("c".to_owned()));
}

#[test]
fn objects_of_a_package() {
    let p = package();
    let models = iter_models(&p);
    assert_eq!(models.len(), 2);
    assert!(models[0].path.is_none());
    assert_eq!(models[1].path, Some("/3D/sub.model"));
    assert_eq!(get_objects(&p).len(), 4);
    let meshes = get_mesh_objects(&p);
    assert_eq!(meshes.len(), 3);
    assert_eq!(meshes[2].origin_model_path, Some("/3D/sub.model"));
    assert_eq!(meshes.iter().filter(|m| m.mesh().beamlattice.is_some()).count(), 2);
    let composed = get_composedpart_objects(&p);
    assert_eq!(composed.len(), 1);
    assert_eq!(composed[0].origin_model_path, None);
}

#[test]
fn items_of_models_and_packages() {
    let m = root_model();
    let items = get_items_from_model(&m);
    assert_eq!(items.len(), 2);
    assert_eq!(items[0].objectid(), 1);
    assert!(items[0].origin_model_path.is_none());
    assert_eq!(items[0].partnumber(), Some("Pyramid"));
    assert!(items[0].path().is_none());
    assert!(items[0].transform().is_none());
    assert_eq!(items[0].uuid(), Some("u1"));
    let sub = get_items_from_model_ref(ModelRef { model: &m, path: Some("sub/model.model") });
    assert_eq!(sub[1].origin_model_path, Some("sub/model.model"));

    let p = package();
    assert_eq!(get_items(&p).len(), 4);
    let for_one = get_items_by_objectid(&p, 1);
    assert_eq!(for_one.len(), 2);
    assert!(for_one.iter().all(|i| i.objectid() == 1));
    assert_eq!(for_one[1].origin_model_path, Some("/3D/sub.model"));
    let found = get_item_by_uuid(&p, "u7").unwrap();
    assert_eq!(found.objectid(), 7);
    assert!(get_item_by_uuid(&p, "none").is_none());
}

#[test]
fn legacy_lookups() {
    let p = package();
    let (o, path) = legacy::get_object_ref_from_id(2, &p, &None, &None);
    assert_eq!(o.unwrap().id, 2);
    assert_eq!(path, None);
    let (o, path) = legacy::get_object_ref_from_id(7, &p, &Some("/3D/sub.model".to_owned()), &None);
    assert_eq!(o.unwrap().id, 7);
    assert_eq!(path, Some("/3D/sub.model".to_owned()));
    let (o, path) = legacy::get_object_ref_from_id(7, &p, &None, &Some("/3D/sub.model".to_owned()));
    assert_eq!(o.unwrap().id, 7);
    assert_eq!(path, Some("/3D/sub.model".to_owned()));
    let (o, path) = legacy::get_object_ref_from_id(7, &p, &Some("/3D/none.model".to_owned()), &None);
    assert!(o.is_none() && path.is_none());
    let (o, path) = legacy::get_object_ref_from_id(3, &p, &None, &None);
    assert!(o.is_none() && path.is_none());
    assert_eq!(legacy::get_object_ref_from_model(4, &p.root).unwrap().id, 4);
    assert_eq!(legacy::get_mesh_objects(&p).len(), 3);
    assert_eq!(legacy::get_mesh_objects_from_model(&p.root).len(), 2);
    assert_eq!(legacy::get_composedpart_objects(&p).len(), 1);
    assert_eq!(legacy::get_composedpart_objects_from_model(&p.root).len(), 1);
    assert_eq!(legacy::get_beam_lattice_objects(&p).len(), 2);
    assert_eq!(legacy::get_beam_lattice_objects_from_model(&p.root).len(), 1);
}
