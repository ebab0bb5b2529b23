use nanograph::catalog::build_catalog;
use nanograph::schema::ast::SchemaDecl;
use nanograph::schema::parser::{parse_schema, parse_schema_diagnostic, syntax_diagnostic_at};

fn refusal(source: &str) -> String {
    parse_schema(source).unwrap_err().to_string()
}

#[test]
fn media_uris_are_plain_strings() {
    let plain = "node Photo { mime: String  uri: String? @media_uri(\"mime\") }\n";
    assert!(parse_schema(plain).is_ok());
    for kind in vec!["enum(a, b)", "I32"] {
        let source =
            format!("node Photo {{ mime: String  uri: {} @media_uri(\"mime\") }}\n", kind);
        assert!(refusal(&source).contains("@media_uri is only supported on"), "{}", kind);
    }
    let list = "node Photo { mime: String  uri: [String] @media_uri(\"mime\") }\n";
    assert!(refusal(list).contains("@media_uri is not supported on list property Photo.uri"));
    let own = "node Photo { uri: String @media_uri(\"uri\") }\n";
    assert!(parse_schema(own).is_err());
    let absent = "node Photo { uri: String @media_uri(\"mime\") }\n";
    assert!(parse_schema(absent).is_err());
}

#[test]
fn keys_are_single_values_of_one_property() {
    assert!(parse_schema("node A { a: String @key }\n").is_ok());
    assert!(parse_schema("node A { a: String @key  b: String @key }\n").is_err());
    assert!(parse_schema("node A { a: [String] @key }\n").is_err());
}

#[test]
fn syntax_errors_have_a_place_and_others_have_none() {
    let broken = parse_schema_diagnostic("node A {").unwrap_err();
    assert!(broken.span.is_some());
    let refused = parse_schema_diagnostic("node A { a: [String] @key }\n").unwrap_err();
    assert!(refused.span.is_none());
}

#[test]
fn declarations_reach_the_catalog() {
    let schema = parse_schema("node A { a: String }\nedge Knows: A -> A\n").unwrap();
    assert_eq!(schema.declarations.len(), 2);
    assert!(matches!(&schema.declarations[1], SchemaDecl::Edge(e) if e.name == "Knows"));
    let catalog = build_catalog(&schema).unwrap();
    assert!(catalog.node_types.contains_key("A"));
    assert_eq!(catalog.lookup_edge_by_name("Knows").map(|e| e.to_type.clone()), Some("A".to_string()));
    assert_eq!(catalog.lookup_edge_by_name("knows").map(|e| e.from_type.clone()), Some("A".to_string()));
    let dangling = parse_schema("node A { a: String }\nedge Knows: A -> B\n").unwrap();
    assert!(build_catalog(&dangling).is_err());
}

#[test]
fn syntax_errors_are_rendered_with_their_line() {
    let broken = parse_schema_diagnostic("node A {\n  a: String\n").unwrap_err();
    let span = broken.span.as_ref().unwrap();
    assert_eq!((span.start, span.end), (21, 21));
    assert!(broken.message.contains(" --> 3:1"), "{}", broken.message);
    assert!(broken.message.ends_with("= unexpected end of schema"), "{}", broken.message);

    let odd = parse_schema_diagnostic("node A { a: ? }").unwrap_err();
    assert_eq!(
        odd.message,
        " --> 1:13\n  |\n1 | node A { a: ? }\n  |             ^---\n  |\n  = unexpected character '?'"
    );

    let plain = syntax_diagnostic_at("m".to_string(), 7, None);
    assert_eq!(plain.message, "m");
    assert_eq!(plain.span.as_ref().map(|s| (s.start, s.end)), Some((7, 7)));
    let rendered = syntax_diagnostic_at("m".to_string(), 7, Some("r".to_string()));
    assert_eq!(rendered.message, "r");
}
