use amrust_3mf::core_model::transform::Transform;
use amrust_3mf::io::builder::{
    BuildError, ComponentsObjectError, ItemError, MeshObjectError, ModelBuilder, ModelError, ObjectId, ObjectType,
    ProductionExtensionError, Unit,
};
use amrust_3mf::io::XmlNamespace;

fn at(x: f64, y: f64, z: f64) -> [u64; 3] {
    [x.to_bits(), y.to_bits(), z.to_bits()]
}

#[test]
fn test_model_builder_basic() {
    let mut builder = ModelBuilder::new(Unit::Millimeter, true);
    builder.unit(Unit::Millimeter);
    builder.add_metadata("Application", Some("Test App"));
    builder.add_build(None).unwrap();

    let cube_id = builder
        .add_mesh_object(|obj| {
            obj.name("Cube");
            obj.object_type(ObjectType::Model);
            obj.add_vertex(&at(0.0, 0.0, 0.0))
                .add_vertex(&at(10.0, 0.0, 0.0))
                .add_vertex(&at(10.0, 10.0, 0.0))
                .add_vertex(&at(0.0, 10.0, 0.0))
                .add_triangle(&[0, 1, 2])
                .add_triangle(&[0, 2, 3]);
            Ok(())
        })
        .unwrap();

    builder.add_build_item(cube_id).unwrap();

    let model = builder.build().unwrap();

    assert_eq!(model.unit, Some(Unit::Millimeter));
    assert_eq!(model.metadata.len(), 1);
    assert_eq!(model.metadata[0].name, "Application");
    assert_eq!(model.resources.object.len(), 1);
    assert_eq!(model.resources.object[0].name, Some("Cube".to_owned()));
    assert_eq!(model.build.item.len(), 1);
    assert_eq!(model.build.item[0].objectid, 1);
}

#[test]
fn test_object_id_assignment() {
    let mut builder = ModelBuilder::new(Unit::Millimeter, false);

    let id1 = builder
        .add_mesh_object(|obj| {
            obj.name("Obj1");
            Ok(())
        })
        .unwrap();
    let id2 = builder
        .add_mesh_object(|obj| {
            obj.name("Obj2");
            Ok(())
        })
        .unwrap();

    assert_eq!(usize::from(id1), 1);
    assert_eq!(usize::from(id2), 2);

    let model = builder.build().unwrap();
    assert_eq!(model.resources.object.len(), 2);
    assert_eq!(model.resources.object[0].id, 1);
    assert_eq!(model.resources.object[1].id, 2);
}

#[test]
fn test_multiple_passes() {
    let mut builder = ModelBuilder::new(Unit::Millimeter, true);

    builder.unit(Unit::Centimeter);
    let obj1_id = builder
        .add_mesh_object(|obj| {
            obj.name("First");
            Ok(())
        })
        .unwrap();

    builder.add_metadata("Pass", Some("Second"));
    let obj2_id = builder
        .add_mesh_object(|obj| {
            obj.name("Second");
            Ok(())
        })
        .unwrap();

    builder.add_build(None).unwrap();
    builder.add_build_item(obj1_id).unwrap();
    builder.add_build_item(obj2_id).unwrap();

    let model = builder.build().unwrap();
    assert_eq!(model.unit, Some(Unit::Centimeter));
    assert_eq!(model.metadata.len(), 1);
    assert_eq!(model.resources.object.len(), 2);
    assert_eq!(model.build.item.len(), 2);
}

#[test]
fn test_error_cases_for_build_in_model() {
    let mut builder = ModelBuilder::new(Unit::Millimeter, true);
    builder.add_mesh_object(|_obj| Ok(())).unwrap();
    assert!(matches!(builder.build(), Err(ModelError::BuildItemNotSet)));

    let mut builder = ModelBuilder::new(Unit::Millimeter, false);
    assert!(matches!(builder.add_build(None), Err(ModelError::BuildOnlyAllowedInRootModel)));
}

#[test]
fn test_production_ext_add_prod_ns_to_required_extensions() {
    let mut builder = ModelBuilder::new(Unit::Millimeter, true);
    builder.make_production_extension_required().unwrap();
    builder.add_build(Some("build-uuid".to_string())).unwrap();
    let obj_id = builder
        .add_mesh_object(|obj| {
            obj.uuid("obj-uuid");
            obj.name("test");
            Ok(())
        })
        .unwrap();
    builder
        .add_build_item_advanced(obj_id, |i| {
            i.uuid("item-uuid");
        })
        .unwrap();
    let model = builder.build().unwrap();
    assert_eq!(model.requiredextensions, Some("p ".to_string()));
}

#[test]
fn test_production_ext_requires_object_uuid() {
    let mut builder = ModelBuilder::new(Unit::Millimeter, true);
    builder.make_production_extension_required().unwrap();
    builder.add_build(Some("build-uuid".to_string())).unwrap();
    let obj_id = builder.add_mesh_object(|obj| {
        obj.name("test");
        Ok(())
    });
    assert!(matches!(obj_id, Err(MeshObjectError::ObjectUuidNotSet)));
}

#[test]
fn test_production_ext_requires_build_uuid() {
    let mut builder = ModelBuilder::new(Unit::Millimeter, true);
    builder.make_production_extension_required().unwrap();
    let result = builder.add_build(None);
    assert!(matches!(result, Err(ModelError::BuildError(BuildError::BuildUuidNotSet))));
}

#[test]
fn test_production_ext_requires_build_item_uuid() {
    let mut builder = ModelBuilder::new(Unit::Millimeter, true);
    builder.make_production_extension_required().unwrap();
    builder.add_build(Some("build-uuid".to_string())).unwrap();
    let obj_id = builder
        .add_mesh_object(|obj| {
            obj.name("test");
            obj.uuid("some-uuid");
            Ok(())
        })
        .unwrap();

    let err = builder.add_build_item(obj_id);
    assert!(matches!(err, Err(ModelError::ItemError(ItemError::ItemUuidNotSet))));
}

#[test]
fn test_production_ext_required_for_build_item_path() {
    let mut builder = ModelBuilder::new(Unit::Millimeter, true);
    builder.add_build(None).unwrap();
    let obj_id = builder.add_mesh_object(|_obj| Ok(())).unwrap();
    let result = builder.add_build_item_advanced(obj_id, |i| {
        i.path("some-path");
    });
    assert!(matches!(result, Err(ModelError::ItemError(ItemError::ItemPathSetWithoutProductionExtension))));
}

#[test]
fn test_production_ext_allows_path_on_component_and_build_item() {
    let mut builder = ModelBuilder::new(Unit::Millimeter, true);
    builder.make_production_extension_required().unwrap();

    let mesh_obj_id = builder
        .add_mesh_object(|obj| {
            obj.uuid("object-uuid");
            Ok(())
        })
        .unwrap();

    if let Err(err) = builder.add_components_object(|obj| {
        obj.uuid("obj-uuid");
        obj.add_component_advanced(mesh_obj_id, |c| {
            c.uuid("comp-uuid").path("comp-path");
        });
        Ok(())
    }) {
        panic!("{err:?}");
    }

    builder.add_build(Some("build-uuid".to_owned())).unwrap();
    if let Err(err) = builder.add_build_item_advanced(mesh_obj_id, |i| {
        i.uuid("some-uuid").path("some-path");
    }) {
        panic!("{err:?}");
    }
}

#[test]
fn test_extension_tests() {
    let mut builder = ModelBuilder::new(Unit::Millimeter, true);
    builder.add_required_extension(XmlNamespace {
        prefix: Some("test".to_string()),
        uri: "http://example.com/test".to_string(),
    });
    builder.add_recommended_extension(XmlNamespace {
        prefix: Some("rec".to_string()),
        uri: "http://example.com/rec".to_string(),
    });
    builder.add_build(None).unwrap();
    let model = builder.build().unwrap();
    assert_eq!(model.requiredextensions, Some("test ".to_string()));
    assert_eq!(model.recommendedextensions, Some("rec ".to_string()));
}

#[test]
fn test_build_item_advanced_tests() {
    let mut builder = ModelBuilder::new(Unit::Millimeter, true);
    let _ = builder.make_production_extension_required();
    let obj_id = builder
        .add_mesh_object(|obj| {
            obj.name("test").uuid("obj-uuid");
            Ok(())
        })
        .unwrap();
    builder.add_build(Some("build-uuid".to_owned())).unwrap();

    let values = [1.0f64, 0.0, 0.0, 1.0, 0.0, 0.0, 1.0, 0.0, 0.0, 1.0, 0.0, 0.0];
    let transform = Transform(values.map(f64::to_bits));
    builder
        .add_build_item_advanced(obj_id, |i| {
            i.transform(transform.clone()).partnumber("part").path("path").uuid("uuid");
        })
        .unwrap();

    let model = builder.build().unwrap();
    let item = &model.build.item[0];
    assert_eq!(item.objectid, 1);
    assert_eq!(item.transform, Some(transform));
    assert_eq!(item.partnumber, Some("part".to_string()));
    assert_eq!(item.path, Some("path".to_string()));
    assert_eq!(item.uuid, Some("uuid".to_string()));
}

#[test]
fn test_object_builder_tests() {
    let mut builder = ModelBuilder::new(Unit::Millimeter, true);
    let obj_id = builder
        .add_mesh_object(|obj| {
            obj.object_type(ObjectType::Support);
            obj.name("support obj");
            obj.part_number("part123");
            obj.uuid("obj-uuid");
            Ok(())
        })
        .unwrap();
    builder.add_build(None).unwrap();
    builder.add_build_item(obj_id).unwrap();
    let model = builder.build().unwrap();
    let obj = &model.resources.object[0];
    assert_eq!(obj.objecttype, Some(ObjectType::Support));
    assert_eq!(obj.name, Some("support obj".to_string()));
    assert_eq!(obj.partnumber, Some("part123".to_string()));
    assert_eq!(obj.uuid, Some("obj-uuid".to_string()));
}

#[test]
fn test_add_mesh_object() {
    let mut builder = ModelBuilder::new(Unit::Millimeter, true);
    let obj_id = builder
        .add_mesh_object(|obj| {
            obj.add_vertices(&[at(0.0, 0.0, 0.0), at(1.0, 0.0, 0.0), at(0.0, 1.0, 0.0)]);
            let flat: Vec<u64> = [0.0f64, 0.0, 1.0, 1.0, 1.0, 0.0].iter().map(|v| v.to_bits()).collect();
            obj.add_vertices_flat(&flat);
            obj.add_triangles(&[[0, 1, 2]]);
            obj.add_triangles_flat(&[0, 2, 3, 1, 3, 4]);
            Ok(())
        })
        .unwrap();
    builder.add_build(None).unwrap();
    builder.add_build_item(obj_id).unwrap();
    let model = builder.build().unwrap();
    let mesh = model.resources.object[0].mesh.as_ref().unwrap();
    assert_eq!(mesh.vertices.vertex.len(), 5);
    assert_eq!(mesh.triangles.triangle.len(), 3);
}

#[test]
fn test_add_composed_part_object() {
    let mut builder = ModelBuilder::new(Unit::Millimeter, true);
    let obj1_id = builder
        .add_mesh_object(|obj| {
            obj.name("obj1");
            Ok(())
        })
        .unwrap();
    let obj2_id = builder
        .add_components_object(|obj| {
            obj.add_component(obj1_id);
            Ok(())
        })
        .unwrap();
    builder.add_build(None).unwrap();
    builder.add_build_item(obj2_id).unwrap();
    let model = builder.build().unwrap();
    let obj = &model.resources.object[1];
    assert!(obj.components.is_some());
    let comp = &obj.components.as_ref().unwrap().component[0];
    assert_eq!(comp.objectid, obj1_id.into());
}

#[test]
fn test_add_composed_part_object_errors_without_production_extension() {
    let mut builder = ModelBuilder::new(Unit::Millimeter, true);
    let obj1_id = builder
        .add_mesh_object(|obj| {
            obj.name("obj1");
            Ok(())
        })
        .unwrap();
    let _obj2_id = builder
        .add_components_object(|obj| {
            obj.add_component(obj1_id);
            Ok(())
        })
        .unwrap();

    let result = builder.add_components_object(|obj| {
        obj.add_component(ObjectId::from(999));
        Ok(())
    });
    assert!(matches!(result, Err(ComponentsObjectError::ObjectReferenceNotFoundForComponent)));

    let result = builder.add_components_object(|obj| {
        obj.add_component_advanced(obj1_id, |c| {
            c.path("some-path");
        });
        Ok(())
    });
    assert!(matches!(result, Err(ComponentsObjectError::PathSetWithoutProductionExtension)));
}

#[test]
fn test_add_composed_part_object_errors_with_production_extension() {
    let mut builder = ModelBuilder::new(Unit::Millimeter, true);
    builder.make_production_extension_required().unwrap();
    let obj1_id = builder
        .add_mesh_object(|obj| {
            obj.name("obj1");
            obj.uuid("some-mesh-uuid");
            Ok(())
        })
        .unwrap();

    let result = builder.add_components_object(|obj| {
        obj.add_component_advanced(obj1_id, |c| {
            c.uuid("some-component-uuid").path("some-component-path");
        });
        Ok(())
    });
    assert!(matches!(result, Err(ComponentsObjectError::ObjectUuidNotSet)));

    let result = builder.add_components_object(|obj| {
        obj.uuid("some-obj-uuid");
        obj.add_component_advanced(obj1_id, |c| {
            c.path("some-component-path");
        });
        Ok(())
    });
    assert!(matches!(result, Err(ComponentsObjectError::ComponentUuidNotSet)));
}

#[test]
fn test_root_nonroot_tests() {
    let mut builder = ModelBuilder::new(Unit::Millimeter, false);
    assert!(matches!(builder.add_build(None), Err(ModelError::BuildOnlyAllowedInRootModel)));

    let mut builder = ModelBuilder::new(Unit::Millimeter, true);
    builder.add_mesh_object(|_obj| Ok(())).unwrap();
    assert!(matches!(builder.build(), Err(ModelError::BuildItemNotSet)));

    let mut builder = ModelBuilder::new(Unit::Millimeter, true);
    builder.make_root(false);
    builder.add_mesh_object(|_obj| Ok(())).unwrap();
    let model = builder.build().unwrap();
    assert!(model.build.item.is_empty());
}

#[test]
fn test_metadata_tests() {
    let mut builder = ModelBuilder::new(Unit::Millimeter, true);
    builder.add_metadata("key1", Some("value1"));
    builder.add_metadata("key2", None);
    builder.add_metadata("key3", Some("value3"));
    builder.add_build(None).unwrap();
    let model = builder.build().unwrap();
    assert_eq!(model.metadata.len(), 3);
    assert_eq!(model.metadata[0].name, "key1");
    assert_eq!(model.metadata[0].value, Some("value1".to_string()));
    assert_eq!(model.metadata[1].name, "key2");
    assert_eq!(model.metadata[1].value, None);
    assert_eq!(model.metadata[2].name, "key3");
    assert_eq!(model.metadata[2].value, Some("value3".to_string()));
}

#[test]
fn test_object_id_tests() {
    let id: ObjectId = 42.into();
    assert_eq!(usize::from(id), 42);
    let usize_id: usize = id.into();
    assert_eq!(usize_id, 42);
}

// Further scenarios and edge cases.

#[test]
fn error_leaves_builder_unchanged_and_ids_continue() {
    let mut builder = ModelBuilder::new(Unit::Millimeter, true);
    builder.make_production_extension_required().unwrap();
    let first = builder
        .add_mesh_object(|obj| {
            obj.uuid("a");
            Ok(())
        })
        .unwrap();
    assert!(builder.add_mesh_object(|_obj| Ok(())).is_err());
    let second = builder
        .add_mesh_object(|obj| {
            obj.uuid("b");
            Ok(())
        })
        .unwrap();
    assert_eq!(usize::from(first), 1);
    assert_eq!(usize::from(second), 2);
    builder.add_build(Some("build".to_owned())).unwrap();
    let model = builder.build().unwrap();
    assert_eq!(model.resources.object.len(), 2);
    assert_eq!(model.build.uuid, None);
}

#[test]
fn closure_error_is_returned_and_nothing_added() {
    let mut builder = ModelBuilder::new(Unit::Millimeter, false);
    let r = builder.add_mesh_object(|_obj| Err(MeshObjectError::ObjectUuidNotSet));
    assert!(matches!(r, Err(MeshObjectError::ObjectUuidNotSet)));
    let id = builder.add_mesh_object(|_obj| Ok(())).unwrap();
    assert_eq!(usize::from(id), 1);
}

#[test]
fn component_may_not_refer_to_itself() {
    let mut builder = ModelBuilder::new(Unit::Millimeter, false);
    let r = builder.add_components_object(|obj| {
        obj.add_component(ObjectId::from(1));
        Ok(())
    });
    assert!(matches!(r, Err(ComponentsObjectError::ObjectReferenceNotFoundForComponent)));
}

#[test]
fn production_checks_existing_objects() {
    let mut builder = ModelBuilder::new(Unit::Millimeter, true);
    builder.add_mesh_object(|_obj| Ok(())).unwrap();
    assert!(matches!(builder.make_production_extension_required(), Err(ProductionExtensionError::ObjectUuidNotSet)));

    let mut builder = ModelBuilder::new(Unit::Millimeter, true);
    builder
        .add_mesh_object(|obj| {
            obj.uuid("u");
            Ok(())
        })
        .unwrap();
    builder.add_build(None).unwrap();
    assert!(matches!(builder.make_production_extension_required(), Err(ProductionExtensionError::BuildUuidNotSet)));

    let mut builder = ModelBuilder::new(Unit::Millimeter, true);
    let id = builder
        .add_mesh_object(|obj| {
            obj.uuid("u");
            Ok(())
        })
        .unwrap();
    builder.add_components_object(|obj| {
        obj.uuid("c");
        obj.add_component(id);
        Ok(())
    })
    .unwrap();
    assert!(matches!(builder.make_production_extension_required(), Err(ProductionExtensionError::ComponentUuidNotSet)));

    let mut builder = ModelBuilder::new(Unit::Millimeter, true);
    let id = builder
        .add_mesh_object(|obj| {
            obj.uuid("u");
            Ok(())
        })
        .unwrap();
    builder.add_build(Some("b".to_owned())).unwrap();
    builder.add_build_item(id).unwrap();
    assert!(matches!(builder.make_production_extension_required(), Err(ProductionExtensionError::ItemUuidNotSet)));
}

#[test]
fn beam_lattice_and_production_declared_once() {
    let mut builder = ModelBuilder::default();
    builder.make_production_extension_required().unwrap();
    builder.make_beam_lattice_extension_required(true);
    builder.add_required_extension(XmlNamespace {
        prefix: Some("p".to_string()),
        uri: amrust_3mf::threemf_namespaces::PROD_NS.to_string(),
    });
    builder.add_required_extension(XmlNamespace {
        prefix: Some("p".to_string()),
        uri: amrust_3mf::threemf_namespaces::PROD_NS.to_string(),
    });
    builder.add_build(Some("b".to_owned())).unwrap();
    let model = builder.build().unwrap();
    assert_eq!(model.requiredextensions, Some("p b b2 ".to_string()));
    assert_eq!(model.recommendedextensions, None);
}

#[test]
fn production_required_without_build_uuid_fails_at_build() {
    let mut builder = ModelBuilder::new(Unit::Inch, true);
    builder.add_build(None).unwrap();
    builder.make_production_extension_required().unwrap();
    assert!(matches!(builder.build(), Err(ModelError::BuildError(BuildError::BuildUuidNotSet))));
}

#[test]
fn build_item_without_build_fails() {
    let mut builder = ModelBuilder::new(Unit::Inch, true);
    let id = builder.add_mesh_object(|_obj| Ok(())).unwrap();
    assert!(matches!(builder.add_build_item(id), Err(ModelError::BuildItemNotSet)));
    assert!(matches!(builder.add_build_item_advanced(id, |_i| {}), Err(ModelError::BuildItemNotSet)));
}

#[test]
fn flat_lists_ignore_a_short_tail() {
    let mut builder = ModelBuilder::new(Unit::Meter, false);
    builder
        .add_mesh_object(|obj| {
            obj.add_vertices_flat(&[1, 2, 3, 4, 5]);
            obj.add_triangles_flat(&[0, 0, 0, 1]);
            Ok(())
        })
        .unwrap();
    let model = builder.build().unwrap();
    let mesh = model.resources.object[0].mesh.as_ref().unwrap();
    assert_eq!(mesh.vertices.vertex.len(), 1);
    assert_eq!((mesh.vertices.vertex[0].x, mesh.vertices.vertex[0].y, mesh.vertices.vertex[0].z), (1, 2, 3));
    assert_eq!(mesh.triangles.triangle.len(), 1);
}
