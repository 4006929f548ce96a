use amrust_3mf::core_model::mesh::{Triangle, Triangles};
use amrust_3mf::core_model::model::Unit;
use amrust_3mf::core_model::object::ObjectType;
use amrust_3mf::io::content_types::{
    determine_relationships_extension, ContentTypes, DefaultContentTypeEnum, DefaultContentTypes, JPEG_NS, MODEL_NS,
    PNG_NS, RELATIONSHIP_NS,
};
use amrust_3mf::io::namespaces::get_extensions_definition;
use amrust_3mf::io::path_map::PathMap;
use amrust_3mf::io::relationship::{RelationshipType, MODEL_RELATIONSHIP_TYPE, THUMBNAIL_RELATIONSHIP_TYPE};
use amrust_3mf::io::thumbnail::{convert_triangles_to_indices, convert_triangles_to_wireframe_indices};
use amrust_3mf::io::XmlNamespace;
use amrust_3mf::text::parse_usize;
use amrust_3mf::threemf_namespaces::{ThreemfNamespace, CORE_NS, PROD_NS};

#[test]
fn content_type_names_are_read_and_written_back() {
    for name in [RELATIONSHIP_NS, MODEL_NS, PNG_NS, JPEG_NS, "//some//unknown//content"] {
        let t = DefaultContentTypeEnum::from(name.to_owned());
        assert_eq!(t.content_type_str(), name);
    }
    assert_eq!(DefaultContentTypeEnum::from(RELATIONSHIP_NS.to_owned()), DefaultContentTypeEnum::Relationship);
    assert_eq!(DefaultContentTypeEnum::from(MODEL_NS.to_owned()), DefaultContentTypeEnum::Model);
    assert_eq!(DefaultContentTypeEnum::from(PNG_NS.to_owned()), DefaultContentTypeEnum::ImagePng);
    assert_eq!(DefaultContentTypeEnum::from(JPEG_NS.to_owned()), DefaultContentTypeEnum::ImageJPEG);
    assert_eq!(
        DefaultContentTypeEnum::from("some/unknown/content".to_owned()),
        DefaultContentTypeEnum::Unknown("some/unknown/content".to_owned())
    );
}

fn default(ext: &str, t: DefaultContentTypeEnum) -> DefaultContentTypes {
    DefaultContentTypes { extension: ext.to_owned(), content_type: t }
}

#[test]
fn relationships_extension_is_the_first_declared_or_rels() {
    let none = ContentTypes { defaults: vec![default("model", DefaultContentTypeEnum::Model)] };
    assert_eq!(determine_relationships_extension(&none), "rels");
    let two = ContentTypes {
        defaults: vec![
            default("model", DefaultContentTypeEnum::Model),
            default("xml", DefaultContentTypeEnum::Relationship),
            default("rels", DefaultContentTypeEnum::Relationship),
        ],
    };
    assert_eq!(determine_relationships_extension(&two), "xml");
}

#[test]
fn relationship_types_are_read_and_written_back() {
    assert_eq!(RelationshipType::from(MODEL_RELATIONSHIP_TYPE.to_owned()), RelationshipType::Model);
    assert_eq!(RelationshipType::from(THUMBNAIL_RELATIONSHIP_TYPE.to_owned()), RelationshipType::Thumbnail);
    let other = RelationshipType::from("Metadata/text".to_owned());
    assert_eq!(other, RelationshipType::Unknown("Metadata/text".to_owned()));
    assert_eq!(other.type_str(), "Metadata/text");
    assert_eq!(RelationshipType::Model.type_str(), MODEL_RELATIONSHIP_TYPE);
}

#[test]
fn path_map_reads_what_was_written() {
    let mut m: PathMap<u32> = PathMap::new();
    assert_eq!(m.len(), 0);
    assert_eq!(m.insert("/a".to_owned(), 1), None);
    assert_eq!(m.insert("/b".to_owned(), 2), None);
    assert_eq!(m.get("/a"), Some(&1));
    assert_eq!(m.insert("/a".to_owned(), 3), Some(1));
    assert_eq!(m.get("/a"), Some(&3));
    assert_eq!(m.get("/b"), Some(&2));
    assert_eq!(m.len(), 2);
    assert_eq!(m.entry_at(0), ("/a", &3));
    assert_eq!(m.entry_at(1), ("/b", &2));
    assert!(m.contains_key("/b"));
    assert!(!m.contains_key("/c"));
    assert_eq!(m.get("/c"), None);
    assert_eq!(m.remove("/a"), Some(3));
    assert_eq!(m.remove("/a"), None);
    assert_eq!(m.len(), 1);
    assert_eq!(m.entry_at(0), ("/b", &2));
}

#[test]
fn extensions_definition_lists_each_declaration_once() {
    assert_eq!(get_extensions_definition(&[]), None);
    let p = XmlNamespace { prefix: Some("p".to_owned()), uri: PROD_NS.to_owned() };
    let core = XmlNamespace { prefix: None, uri: CORE_NS.to_owned() };
    let b = XmlNamespace { prefix: Some("b".to_owned()), uri: "http://beam".to_owned() };
    assert_eq!(get_extensions_definition(&[p.clone(), core.clone(), p.clone(), b.clone()]), Some("p b ".to_owned()));
    assert_eq!(get_extensions_definition(&[core]), Some("".to_owned()));
}

#[test]
fn threemf_namespaces_declare_themselves() {
    assert_eq!(ThreemfNamespace::Core.prefix(), None);
    assert_eq!(ThreemfNamespace::Prod.prefix(), Some("p"));
    assert_eq!(ThreemfNamespace::BeamLattice.prefix(), Some("b"));
    assert_eq!(ThreemfNamespace::CoreTriangleSet.prefix(), Some("t"));
    assert_eq!(ThreemfNamespace::Prod.uri(), PROD_NS);
    assert_eq!(
        ThreemfNamespace::Core.xmlns_declaration(),
        r#" xmlns="http://schemas.microsoft.com/3dmanufacturing/core/2015/02""#
    );
    assert_eq!(
        ThreemfNamespace::Prod.xmlns_declaration(),
        r#" xmlns:p="http://schemas.microsoft.com/3dmanufacturing/production/2015/06""#
    );
}

#[test]
fn unit_and_object_type_names() {
    for u in [Unit::Micron, Unit::Millimeter, Unit::Centimeter, Unit::Inch, Unit::Foot, Unit::Meter] {
        assert_eq!(Unit::from(u.name().to_owned()), u);
    }
    assert_eq!(Unit::from("CENTIMETER".to_owned()), Unit::Centimeter);
    assert_eq!(Unit::from("parsec".to_owned()), Unit::Millimeter);
    assert_eq!(Unit::default(), Unit::Millimeter);
    for t in [ObjectType::Model, ObjectType::Support, ObjectType::SolidSupport, ObjectType::Surface, ObjectType::Other] {
        assert_eq!(ObjectType::from(t.name().to_owned()), t);
    }
    assert_eq!(ObjectType::from("SolidSupport".to_owned()), ObjectType::SolidSupport);
    assert_eq!(ObjectType::from("nothing".to_owned()), ObjectType::Model);
}

#[test]
fn parse_usize_reads_decimal_like_str_parse() {
    for s in ["0", "+5", "007", "18446744073709551615", "", "+", "-1", "1 ", " 1", "1a", "18446744073709551616", "-0"] {
        assert_eq!(parse_usize(s), s.parse::<usize>().ok(), "{s}");
    }
    assert_eq!(parse_usize("+42"), Some(42));
}

fn attrs(list: &[(&str, &str)]) -> Vec<(String, String)> {
    list.iter().map(|(a, b)| (a.to_string(), b.to_string())).collect()
}

#[test]
fn triangle_from_attributes_reads_indices_and_properties() {
    let t = Triangle::from_attributes(&attrs(&[("v1", "1"), ("v2", "2"), ("v3", "3"), ("p1", "4"), ("pid", "7")]));
    assert_eq!(t, Triangle { v1: 1, v2: 2, v3: 3, p1: Some(4), p2: None, p3: None, pid: Some(7) });
    let t = Triangle::from_attributes(&attrs(&[("v1", "x"), ("p2", "y"), ("other", "5"), ("v3", "9"), ("v3", "10")]));
    assert_eq!(t, Triangle { v1: 0, v2: 0, v3: 10, p1: None, p2: None, p3: None, pid: None });
    let t = Triangle::from_attributes(&attrs(&[("p3", "2"), ("p3", "bad")]));
    assert_eq!(t.p3, Some(2));
}

#[test]
fn thumbnail_index_buffers() {
    let tris = Triangles {
        triangle: vec![
            Triangle { v1: 0, v2: 1, v3: 2, p1: None, p2: None, p3: None, pid: None },
            Triangle { v1: 2, v2: 3, v3: (1usize << 32) + 5, p1: None, p2: None, p3: None, pid: None },
        ],
    };
    let idx = convert_triangles_to_indices(&tris);
    assert_eq!(idx, vec![0, 1, 2, 2, 3, 5]);
    let wire = convert_triangles_to_wireframe_indices(&idx);
    assert_eq!(wire, vec![0, 1, 1, 2, 2, 0, 2, 3, 3, 5, 5, 2]);
}
