use amrust_3mf::threemf_namespaces::ThreemfNamespace;
use amrust_3mf::io::parse_xmlns_attributes;
use amrust_3mf::io::utils::try_strip_leading_slash;

#[test]
fn test_parse_xmlns_attributes_simple() {
    let xml = r#"<model xmlns="http://schemas.microsoft.com/3dmanufacturing/core/2015/02" unit="millimeter">"#;
    let attrs = parse_xmlns_attributes(xml);
    assert_eq!(
        attrs,
        vec![(
            "xmlns".to_string(),
            "http://schemas.microsoft.com/3dmanufacturing/core/2015/02".to_string()
        )]
    );
}

#[test]
fn test_parse_xmlns_attributes_prefixed() {
    let xml = r#"<model xmlns="http://core" xmlns:p="http://prod" xmlns:b="http://beam">"#;
    let attrs = parse_xmlns_attributes(xml);
    assert_eq!(
        attrs,
        vec![
            ("xmlns".to_string(), "http://core".to_string()),
            ("xmlns:p".to_string(), "http://prod".to_string()),
            ("xmlns:b".to_string(), "http://beam".to_string()),
        ]
    );
}

#[test]
fn test_parse_xmlns_attributes_empty() {
    let xml = r#"<model unit="millimeter">"#;
    let attrs = parse_xmlns_attributes(xml);
    assert_eq!(attrs, Vec::<(String, String)>::new());
}

#[test]
fn test_parse_xmlns_attributes_mixed() {
    let xml = r#"<model xmlns="http://core" unit="millimeter" xmlns:p="http://prod" requiredextensions="ext">"#;
    let attrs = parse_xmlns_attributes(xml);
    assert_eq!(
        attrs,
        vec![
            ("xmlns".to_string(), "http://core".to_string()),
            ("xmlns:p".to_string(), "http://prod".to_string()),
        ]
    );
}

#[test]
fn parse_xmlns_prefix_takes_digits_dots_and_unicode_letters() {
    let xml = r#"<model xmlns:b2_x-y.z="http://balls" xmlns:é="http://accent">"#;
    let attrs = parse_xmlns_attributes(xml);
    assert_eq!(
        attrs,
        vec![
            ("xmlns:b2_x-y.z".to_string(), "http://balls".to_string()),
            ("xmlns:é".to_string(), "http://accent".to_string()),
        ]
    );
}

#[test]
fn parse_xmlns_balls_prefix() {
    let attrs = parse_xmlns_attributes(r#"<model xmlns:b2="http://balls">"#);
    assert_eq!(attrs, vec![("xmlns:b2".to_string(), "http://balls".to_string())]);
}

#[test]
fn parse_xmlns_prefix_stops_at_other_characters() {
    let attrs = parse_xmlns_attributes(r#"<model xmlns:a+b="http://x">"#);
    assert_eq!(attrs, Vec::<(String, String)>::new());
}

#[test]
fn parse_xmlns_prefix_of_letters_dashes_and_underscores() {
    let xml = r#"<model xmlns:ab_c-d="http://x">"#;
    let attrs = parse_xmlns_attributes(xml);
    assert_eq!(attrs, vec![("xmlns:ab_c-d".to_string(), "http://x".to_string())]);
}

#[test]
fn parse_xmlns_unterminated_value_runs_to_the_end() {
    let xml = r#"<model xmlns="http://open"#;
    let attrs = parse_xmlns_attributes(xml);
    assert_eq!(attrs, vec![("xmlns".to_string(), "http://open".to_string())]);
}

#[test]
fn parse_xmlns_without_quote_or_equals_is_skipped() {
    assert_eq!(parse_xmlns_attributes(r#"<m xmlns=http://a xmlns:q "b">"#), Vec::<(String, String)>::new());
    assert_eq!(parse_xmlns_attributes("xmlnx xml xmlns"), Vec::<(String, String)>::new());
}

#[test]
fn parse_xmlns_needs_a_name_of_its_own() {
    assert_eq!(parse_xmlns_attributes(r#"xxmlns="u""#), Vec::<(String, String)>::new());
    assert_eq!(parse_xmlns_attributes(r#"<a data-xmlns="v">"#), Vec::<(String, String)>::new());
    assert_eq!(parse_xmlns_attributes(r#"<a data-xmlns="v" xmlns="w">"#), vec![("xmlns".to_string(), "w".to_string())]);
    assert_eq!(
        parse_xmlns_attributes("<a\n\txmlns:p=\"u\"\rxmlns=\"v\">"),
        vec![("xmlns:p".to_string(), "u".to_string()), ("xmlns".to_string(), "v".to_string())]
    );
    assert_eq!(parse_xmlns_attributes(r#"xmlns="first""#), vec![("xmlns".to_string(), "first".to_string())]);
}

#[test]
fn strip_leading_slash_only_once() {
    assert_eq!(try_strip_leading_slash("/3D/3dmodel.model"), "3D/3dmodel.model");
    assert_eq!(try_strip_leading_slash("3D/3dmodel.model"), "3D/3dmodel.model");
    assert_eq!(try_strip_leading_slash("//a"), "/a");
    assert_eq!(try_strip_leading_slash(""), "");
}

#[test]
fn parse_xmlns_reads_back_each_namespace_declaration() {
    for ns in [
        ThreemfNamespace::Core,
        ThreemfNamespace::Prod,
        ThreemfNamespace::BeamLattice,
        ThreemfNamespace::CoreTriangleSet,
    ] {
        let name = match ns.prefix() {
            Some(p) => format!("xmlns:{p}"),
            None => "xmlns".to_string(),
        };
        assert_eq!(parse_xmlns_attributes(&ns.xmlns_declaration()), vec![(name, ns.uri().to_string())]);
    }
}

#[test]
fn parse_xmlns_skips_quoted_attribute_values() {
    assert_eq!(parse_xmlns_attributes(r#"<m a="b xmlns:p=" c="d">"#), Vec::<(String, String)>::new());
    assert_eq!(parse_xmlns_attributes(r#"<m a='b xmlns="u"' c="d">"#), Vec::<(String, String)>::new());
    assert_eq!(
        parse_xmlns_attributes(r#"<m a="x y" xmlns="u" b='it"s' xmlns:q="v">"#),
        vec![("xmlns".to_string(), "u".to_string()), ("xmlns:q".to_string(), "v".to_string())]
    );
    assert_eq!(parse_xmlns_attributes(r#"<m a="open xmlns="u">"#), Vec::<(String, String)>::new());
}
