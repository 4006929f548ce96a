use amrust_3mf::core_model::build::{Build, Item};
use amrust_3mf::core_model::model::{Model, Unit};
use amrust_3mf::core_model::resources::Resources;
use amrust_3mf::io::builder::ModelBuilder;
use amrust_3mf::io::content_types::{ContentTypes, DefaultContentTypeEnum, DefaultContentTypes};
use amrust_3mf::io::error::{decode_thumbnail, thumbnail_from_load, Error};
use amrust_3mf::io::package::{PartData, ThreemfPackageProcessor};
use amrust_3mf::io::path_map::PathMap;
use amrust_3mf::io::reading::{
    find_root_model_path, is_sub_model_path, model_paths, read_steps, refers_to_part, relationship_file_path,
    root_relationships_filename, thumbnail_paths, unknown_part_paths, CachePolicy, PartKind, ReadKind,
};
use amrust_3mf::io::relationship::{Relationship, RelationshipType, Relationships};
use amrust_3mf::io::unpacked::ThreemfUnpackedProcessor;
use amrust_3mf::io::ThreemfPackage;

fn empty_model() -> Model {
    Model {
        unit: Some(Unit::Millimeter),
        requiredextensions: None,
        recommendedextensions: None,
        metadata: vec![],
        resources: Resources { object: vec![], basematerials: vec![] },
        build: Build { uuid: None, item: vec![] },
    }
}

fn rel(id: &str, target: &str, t: RelationshipType) -> Relationship {
    Relationship { id: id.to_owned(), target: target.to_owned(), relationship_type: t }
}

fn png_bytes() -> Vec<u8> {
    let img = image::DynamicImage::new_rgb8(3, 2);
    let mut buf = std::io::Cursor::new(Vec::new());
    img.write_to(&mut buf, image::ImageFormat::Png).unwrap();
    buf.into_inner()
}

#[test]
fn package_from_model_refers_to_its_root() {
    let package = ThreemfPackage::from(empty_model());
    assert_eq!(package.root, empty_model());
    assert_eq!(package.sub_models.len(), 0);
    assert_eq!(package.relationships.len(), 1);
    let rels = package.relationships.get("_rels/.rels").unwrap();
    assert_eq!(rels.relationships, vec![rel("rel0", "3D/3dmodel.model", RelationshipType::Model)]);
    assert_eq!(package.content_types.defaults.len(), 2);
    assert_eq!(package.content_types.defaults[0].extension, "model");
    assert_eq!(package.content_types.defaults[1].content_type, DefaultContentTypeEnum::Relationship);
}

#[test]
fn write_plan_of_a_package_from_a_model() {
    let package = ThreemfPackage::from(empty_model());
    let plan = package.write_plan().unwrap();
    assert_eq!(plan.len(), 3);
    assert_eq!(plan[0].filename, "[Content_Types].xml");
    assert!(matches!(plan[0].data, PartData::ContentTypes(_)));
    assert_eq!(plan[1].filename, "_rels/.rels");
    assert!(matches!(plan[1].data, PartData::Relationships(_)));
    assert_eq!(plan[2].filename, "3D/3dmodel.model");
    match &plan[2].data {
        PartData::Model(m) => assert_eq!(**m, empty_model()),
        _ => panic!("expected the root model"),
    }
}

fn package_with(rels_path: &str, rels: Vec<Relationship>) -> ThreemfPackage {
    let mut package = ThreemfPackage::from(empty_model());
    package.relationships.insert(rels_path.to_owned(), Relationships { relationships: rels });
    package
}

#[test]
fn write_plan_reports_the_first_missing_target() {
    let package = package_with(
        "/3D/_rels/3dmodel.model.rels",
        vec![
            rel("a", "/3D/missing.model", RelationshipType::Model),
            rel("b", "/Thumbnails/t.png", RelationshipType::Thumbnail),
        ],
    );
    match package.write_plan() {
        Err(Error::WriteError(m)) => assert_eq!(m, "No model found for relationship target /3D/missing.model"),
        _ => panic!("expected a write error"),
    }
    let package = package_with("/x/_rels/a.rels", vec![rel("b", "/Thumbnails/t.png", RelationshipType::Thumbnail)]);
    match package.write_plan() {
        Err(Error::WriteError(m)) => assert_eq!(m, "No thumbnail image found for relationship target /Thumbnails/t.png"),
        _ => panic!("expected a write error"),
    }
    let package = package_with("/x/_rels/a.rels", vec![rel("c", "/Metadata/a.txt", RelationshipType::Unknown("text".to_owned()))]);
    match package.write_plan() {
        Err(Error::WriteError(m)) => assert_eq!(m, "No data found for relationship target /Metadata/a.txt"),
        _ => panic!("expected a write error"),
    }
}

#[test]
fn write_plan_with_parts_of_every_kind() {
    let mut package = package_with(
        "/3D/_rels/3dmodel.model.rels",
        vec![
            rel("a", "/3D/sub.model", RelationshipType::Model),
            rel("b", "/Thumbnails/t.png", RelationshipType::Thumbnail),
            rel("c", "/Metadata/a.txt", RelationshipType::Unknown("text".to_owned())),
        ],
    );
    package.sub_models.insert("/3D/sub.model".to_owned(), empty_model());
    package.thumbnails.insert("/Thumbnails/t.png".to_owned(), image::load_from_memory(&png_bytes()).unwrap());
    package.unknown_parts.insert("/Metadata/a.txt".to_owned(), vec![1, 2, 3]);
    let plan = package.write_plan().unwrap();
    let names: Vec<&str> = plan.iter().map(|e| e.filename.as_str()).collect();
    assert_eq!(
        names,
        vec![
            "[Content_Types].xml",
            "_rels/.rels",
            "3D/3dmodel.model",
            "/3D/_rels/3dmodel.model.rels",
            "3D/sub.model",
            "Thumbnails/t.png",
            "Metadata/a.txt",
        ]
    );
    match &plan[5].data {
        PartData::Image(bytes) => {
            assert_eq!(&bytes[..8], &[0x89, b'P', b'N', b'G', 0x0d, 0x0a, 0x1a, 0x0a]);
            let back = image::load_from_memory(bytes).unwrap();
            assert_eq!((back.width(), back.height()), (3, 2));
        }
        _ => panic!("expected an encoded thumbnail"),
    }
    match &plan[6].data {
        PartData::Bytes(b) => assert_eq!(**b, vec![1, 2, 3]),
        _ => panic!("expected bytes"),
    }
}

#[test]
fn processor_collects_the_parts() {
    let mut p = ThreemfPackageProcessor::new(ContentTypes {
        defaults: vec![DefaultContentTypes { extension: "rels".to_owned(), content_type: DefaultContentTypeEnum::Relationship }],
    });
    assert!(!p.has_root());
    p.process_model("/3D/3dmodel.model", empty_model(), true);
    let mut sub = empty_model();
    sub.unit = Some(Unit::Inch);
    p.process_model("/3D/sub.model", sub, false);
    p.process_thumbnail("/t.png", &png_bytes()).unwrap();
    assert!(matches!(p.process_thumbnail("/bad.png", &[1, 2, 3]), Err(Error::ImageReadError(_))));
    p.process_unknown("/m.txt", "text", &[9, 8]);
    let mut rels = PathMap::new();
    rels.insert("_rels/.rels".to_owned(), Relationships { relationships: vec![] });
    p.set_relationships(rels);
    assert!(p.has_root());
    let package = p.into_threemf_package();
    assert_eq!(package.root, empty_model());
    assert_eq!(package.sub_models.get("/3D/sub.model").unwrap().unit, Some(Unit::Inch));
    assert_eq!(package.thumbnails.len(), 1);
    assert!(package.thumbnails.get("/bad.png").is_none());
    assert_eq!(package.unknown_parts.get("/m.txt"), Some(&vec![9, 8]));
    assert_eq!(package.relationships.len(), 1);
}

#[test]
fn reading_decisions() {
    assert_eq!(root_relationships_filename("rels"), "_rels/.rels");
    assert_eq!(root_relationships_filename("xml"), "_rels/.xml");

    let root_rels = Relationships {
        relationships: vec![
            rel("t", "/Thumbnails/a.png", RelationshipType::Thumbnail),
            rel("m", "/3D/3dmodel.model", RelationshipType::Model),
            rel("n", "/3D/other.model", RelationshipType::Model),
        ],
    };
    assert_eq!(find_root_model_path(&root_rels).unwrap(), "/3D/3dmodel.model");
    match find_root_model_path(&Relationships { relationships: vec![] }) {
        Err(Error::ReadError(m)) => assert_eq!(m, "Root model relationship not found"),
        _ => panic!("expected a read error"),
    }

    assert_eq!(relationship_file_path(true, Some("3D/_rels/3dmodel.model.rels"), true, "rels", "_rels/.rels", false).unwrap(), Some("/3D/_rels/3dmodel.model.rels".to_owned()));
    assert_eq!(relationship_file_path(true, Some("_rels/.rels"), true, "rels", "_rels/.rels", false).unwrap(), None);
    assert_eq!(relationship_file_path(true, Some("3D/3dmodel.model"), true, "rels", "_rels/.rels", false).unwrap(), None);
    assert_eq!(relationship_file_path(false, Some("3D/_rels/a.rels"), true, "rels", "_rels/.rels", false).unwrap(), None);
    assert_eq!(relationship_file_path(true, None, true, "rels", "_rels/.rels", false).unwrap(), None);
    assert!(matches!(relationship_file_path(true, Some("3D/_rels/x.rels"), false, "rels", "_rels/.rels", false), Err(Error::ReadError(_))));
    match relationship_file_path(true, Some("3D/_rels/x.rels"), false, "rels", "_rels/.rels", false) {
        Err(Error::ReadError(m)) => assert_eq!(m, "Failed to read relationship file path"),
        _ => panic!("expected a read error"),
    }
    match relationship_file_path(true, Some("3D/_rels/x.rels"), false, "rels", "_rels/.rels", true) {
        Err(Error::ReadError(m)) => assert_eq!(m, "Failed to read the relationship file path"),
        _ => panic!("expected a read error"),
    }
    assert_eq!(
        relationship_file_path(true, Some("3D/_rels/a.rels"), true, "rels", "_rels/.rels", true).unwrap(),
        Some("/3D/_rels/a.rels".to_owned())
    );
}

#[test]
fn relationship_paths_by_kind() {
    let mut rels: PathMap<Relationships> = PathMap::new();
    rels.insert(
        "_rels/.rels".to_owned(),
        Relationships {
            relationships: vec![
                rel("m", "/3D/3dmodel.model", RelationshipType::Model),
                rel("t", "/Thumbnails/a.png", RelationshipType::Thumbnail),
            ],
        },
    );
    rels.insert(
        "/3D/_rels/3dmodel.model.rels".to_owned(),
        Relationships {
            relationships: vec![
                rel("s", "/3D/sub.model", RelationshipType::Model),
                rel("u", "/Metadata/x.txt", RelationshipType::Unknown("text".to_owned())),
            ],
        },
    );
    assert_eq!(model_paths(&rels), vec!["/3D/3dmodel.model".to_owned(), "/3D/sub.model".to_owned()]);
    assert_eq!(thumbnail_paths(&rels), vec!["/Thumbnails/a.png".to_owned()]);
    assert_eq!(unknown_part_paths(&rels), vec!["/Metadata/x.txt".to_owned()]);
    assert!(refers_to_part(&rels, "/3D/sub.model", PartKind::Model));
    assert!(!refers_to_part(&rels, "/3D/sub.model", PartKind::Thumbnail));
    assert!(is_sub_model_path(&rels, "/3D/3dmodel.model", "/3D/sub.model"));
    assert!(!is_sub_model_path(&rels, "/3D/3dmodel.model", "/3D/3dmodel.model"));
    assert!(!is_sub_model_path(&rels, "/3D/3dmodel.model", "/Thumbnails/a.png"));

    let steps = read_steps(&rels, "/3D/3dmodel.model");
    assert_eq!(steps.len(), 4);
    assert_eq!(steps[0].zip_name, "3D/3dmodel.model");
    assert_eq!(steps[0].kind, ReadKind::Model { is_root: true });
    assert_eq!(steps[1].kind, ReadKind::Thumbnail);
    assert_eq!(steps[2].kind, ReadKind::Model { is_root: false });
    assert_eq!(steps[3].target, "/Metadata/x.txt");
    assert_eq!(steps[3].kind, ReadKind::Unknown("text".to_owned()));
    assert_eq!(CachePolicy::default(), CachePolicy::NoCache);
}

#[test]
fn unpacked_processor_promotes_the_root_model() {
    let mut rels = PathMap::new();
    rels.insert("_rels/.rels".to_owned(), "<Relationships/>".to_owned());
    let mut p = ThreemfUnpackedProcessor::new("<Types/>".to_owned(), rels);
    p.process_model("/3D/3dmodel.model", "<model/>".to_owned(), false);
    p.process_model("/3D/sub.model", "<model id='s'/>".to_owned(), false);
    p.process_thumbnail("/t.png", &[1, 2]);
    p.process_unknown("/u.bin", "bin", &[3]);
    p.promote_root("/3D/3dmodel.model");
    let u = p.into_threemf_unpacked();
    assert_eq!(u.root, "<model/>");
    assert_eq!(u.sub_models.len(), 1);
    assert!(u.sub_models.contains_key("/3D/sub.model"));
    assert_eq!(u.thumbnails.get("/t.png"), Some(&vec![1, 2]));
    assert_eq!(u.unknown_parts.get("/u.bin"), Some(&vec![3]));
    assert_eq!(u.content_types, "<Types/>");
    assert_eq!(u.relationships.get("_rels/.rels"), Some(&"<Relationships/>".to_owned()));
}

#[test]
fn model_built_then_packaged() {
    let mut builder = ModelBuilder::new(Unit::Millimeter, true);
    let id = builder.add_mesh_object(|_o| Ok(())).unwrap();
    builder.add_build(None).unwrap();
    builder.add_build_item(id).unwrap();
    let model = builder.build().unwrap();
    let package = ThreemfPackage::from(model);
    assert_eq!(package.root.build.item, vec![Item { objectid: 1, transform: None, partnumber: None, path: None, uuid: None }]);
}

#[test]
fn written_parts_are_read_back_under_the_same_names() {
    let mut package = package_with(
        "/3D/_rels/3dmodel.model.rels",
        vec![
            rel("a", "/3D/sub.model", RelationshipType::Model),
            rel("c", "/Metadata/a.txt", RelationshipType::Unknown("text".to_owned())),
        ],
    );
    package.sub_models.insert("/3D/sub.model".to_owned(), empty_model());
    package.unknown_parts.insert("/Metadata/a.txt".to_owned(), vec![7]);
    let plan = package.write_plan().unwrap();
    let steps = read_steps(&package.relationships, "3D/3dmodel.model");
    let written: Vec<&str> = plan
        .iter()
        .filter(|e| !matches!(e.data, PartData::ContentTypes(_) | PartData::Relationships(_)))
        .map(|e| e.filename.as_str())
        .collect();
    let read: Vec<&str> = steps.iter().map(|s| s.zip_name.as_str()).collect();
    assert_eq!(written, read);
    assert_eq!(steps[0].kind, ReadKind::Model { is_root: true });
    assert_eq!(steps[1].kind, ReadKind::Model { is_root: false });
}

#[test]
fn decode_thumbnail_decodes_png_and_refuses_other_bytes() {
    let img = decode_thumbnail(&png_bytes()).unwrap();
    assert_eq!(img, image::load_from_memory(&png_bytes()).unwrap());
    assert!(matches!(decode_thumbnail(&[1, 2, 3]), Err(Error::ImageReadError(_))));
    assert!(matches!(decode_thumbnail(&[]), Err(Error::ImageReadError(_))));
}

#[test]
fn keep_thumbnail_keeps_what_the_load_gave() {
    let mut p = ThreemfPackageProcessor::new(ContentTypes { defaults: vec![] });
    p.process_model("/3D/3dmodel.model", empty_model(), true);
    let good = image::load_from_memory(&png_bytes());
    assert!(p.keep_thumbnail("/t.png", good).is_ok());
    let bad = image::load_from_memory(&[1, 2, 3]);
    assert!(matches!(p.keep_thumbnail("/bad.png", bad), Err(Error::ImageReadError(_))));
    let package = p.into_threemf_package();
    assert_eq!(package.thumbnails.len(), 1);
    assert_eq!(package.thumbnails.get("/t.png"), Some(&image::load_from_memory(&png_bytes()).unwrap()));
    assert!(package.thumbnails.get("/bad.png").is_none());
}

#[test]
fn thumbnail_from_load_passes_the_image_and_wraps_the_error() {
    let img = thumbnail_from_load(image::load_from_memory(&png_bytes())).unwrap();
    assert_eq!(img, image::DynamicImage::new_rgb8(3, 2));
    assert!(matches!(thumbnail_from_load(image::load_from_memory(&[0u8; 4])), Err(Error::ImageReadError(_))));
}
