use nanograph::catalog::build_catalog;
use nanograph::schema::ast::{EdgeDecl, NodeDecl, PropDecl, SchemaDecl, SchemaFile};
use nanograph::schema::parser::parse_schema;
use nanograph::types::{PropType, ScalarType};

fn test_schema() -> &'static str {
    r#"
node Person {
    name: String
    age: I32?
}
node Company {
    name: String
}
edge Knows: Person -> Person {
    since: Date?
}
edge WorksAt: Person -> Company {
    title: String?
}
"#
}

#[test]
fn test_build_catalog() {
    let schema = parse_schema(test_schema()).unwrap();
    let catalog = build_catalog(&schema).unwrap();
    assert_eq!(catalog.node_types.len(), 2);
    assert_eq!(catalog.edge_types.len(), 2);
    assert!(catalog.node_types.contains_key("Person"));
    assert!(catalog.node_types.contains_key("Company"));
}

#[test]
fn test_edge_lookup() {
    let schema = parse_schema(test_schema()).unwrap();
    let catalog = build_catalog(&schema).unwrap();
    let edge = catalog.lookup_edge_by_name("knows").unwrap();
    assert_eq!(edge.from_type, "Person");
    assert_eq!(edge.to_type, "Person");
}

#[test]
fn test_node_arrow_schema() {
    let schema = parse_schema(test_schema()).unwrap();
    let catalog = build_catalog(&schema).unwrap();
    let person = catalog.node_types.get("Person").unwrap();
    assert_eq!(person.arrow_schema.fields().len(), 3); // id, name, age
}

#[test]
fn test_duplicate_node_error() {
    let input = r#"
node Person { name: String }
node Person { age: I32 }
"#;
    let schema = parse_schema(input).unwrap();
    assert!(build_catalog(&schema).is_err());
}

#[test]
fn test_bad_edge_endpoint() {
    let input = r#"
node Person { name: String }
edge Knows: Person -> Alien
"#;
    let schema = parse_schema(input).unwrap();
    assert!(build_catalog(&schema).is_err());
}

#[test]
fn test_edge_lookup_handles_non_ascii_leading_character() {
    let schema = SchemaFile {
        declarations: vec![
            SchemaDecl::Node(NodeDecl {
                name: "Person".to_string(),
                annotations: vec![],
                parent: None,
                properties: vec![PropDecl {
                    name: "name".to_string(),
                    prop_type: PropType::scalar(ScalarType::String, false),
                    annotations: vec![],
                }],
            }),
            SchemaDecl::Edge(EdgeDecl {
                name: "Édges".to_string(),
                from_type: "Person".to_string(),
                to_type: "Person".to_string(),
                annotations: vec![],
                properties: vec![],
            }),
        ],
    };
    let catalog = build_catalog(&schema).unwrap();
    assert!(catalog.lookup_edge_by_name("édges").is_some());
}
