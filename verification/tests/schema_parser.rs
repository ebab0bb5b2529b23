use nanograph::schema::ast::SchemaDecl;
use nanograph::schema::parser::{parse_schema, parse_schema_diagnostic};
use nanograph::types::ScalarType;

#[test]
fn test_parse_basic_schema() {
    let input = r#"
node Person {
    name: String
    age: I32?
}

node Company {
    name: String
}

edge Knows: Person -> Person {
    since: Date?
}

edge WorksAt: Person -> Company {
    title: String?
}
"#;
    let schema = parse_schema(input).unwrap();
    assert_eq!(schema.declarations.len(), 4);

    // Check Person node
    match &schema.declarations[0] {
        SchemaDecl::Node(n) => {
            assert_eq!(n.name, "Person");
            assert!(n.annotations.is_empty());
            assert!(n.parent.is_none());
            assert_eq!(n.properties.len(), 2);
            assert_eq!(n.properties[0].name, "name");
            assert!(!n.properties[0].prop_type.nullable);
            assert_eq!(n.properties[1].name, "age");
            assert!(n.properties[1].prop_type.nullable);
        }
        _ => panic!("expected Node"),
    }

    // Check Knows edge
    match &schema.declarations[2] {
        SchemaDecl::Edge(e) => {
            assert_eq!(e.name, "Knows");
            assert_eq!(e.from_type, "Person");
            assert_eq!(e.to_type, "Person");
            assert!(e.annotations.is_empty());
            assert_eq!(e.properties.len(), 1);
        }
        _ => panic!("expected Edge"),
    }
}

#[test]
fn test_parse_inheritance() {
    let input = r#"
node Person {
    name: String
}
node Employee : Person {
    employee_id: String
}
"#;
    let schema = parse_schema(input).unwrap();
    match &schema.declarations[1] {
        SchemaDecl::Node(n) => {
            assert_eq!(n.name, "Employee");
            assert_eq!(n.parent.as_deref(), Some("Person"));
        }
        _ => panic!("expected Node"),
    }
}

#[test]
fn test_parse_annotation() {
    let input = r#"
node Person {
    name: String @unique
    id: U64 @key
    handle: String @index
}
"#;
    let schema = parse_schema(input).unwrap();
    match &schema.declarations[0] {
        SchemaDecl::Node(n) => {
            assert_eq!(n.properties[0].annotations.len(), 1);
            assert_eq!(n.properties[0].annotations[0].name, "unique");
            assert_eq!(n.properties[1].annotations[0].name, "key");
            assert_eq!(n.properties[2].annotations[0].name, "index");
        }
        _ => panic!("expected Node"),
    }
}

#[test]
fn test_parse_embed_annotation_identifier_arg() {
    let input = r#"
node Doc {
    title: String
    embedding: Vector(3) @embed(title)
}
"#;
    let schema = parse_schema(input).unwrap();
    match &schema.declarations[0] {
        SchemaDecl::Node(n) => {
            assert_eq!(n.properties[1].annotations.len(), 1);
            assert_eq!(n.properties[1].annotations[0].name, "embed");
            assert_eq!(
                n.properties[1].annotations[0].value.as_deref(),
                Some("title")
            );
        }
        _ => panic!("expected Node"),
    }
}

#[test]
fn test_parse_edge_no_body() {
    let input = "edge WorksAt: Person -> Company\n";
    let schema = parse_schema(input).unwrap();
    match &schema.declarations[0] {
        SchemaDecl::Edge(e) => {
            assert_eq!(e.name, "WorksAt");
            assert!(e.annotations.is_empty());
            assert!(e.properties.is_empty());
        }
        _ => panic!("expected Edge"),
    }
}

#[test]
fn test_parse_type_rename_annotation() {
    let input = r#"
node Account @rename_from("User") {
    full_name: String @rename_from("name")
}

edge ConnectedTo: Account -> Account @rename_from("Knows")
"#;
    let schema = parse_schema(input).unwrap();
    match &schema.declarations[0] {
        SchemaDecl::Node(n) => {
            assert_eq!(n.name, "Account");
            assert_eq!(n.annotations.len(), 1);
            assert_eq!(n.annotations[0].name, "rename_from");
            assert_eq!(n.annotations[0].value.as_deref(), Some("User"));
            assert_eq!(n.properties[0].annotations[0].name, "rename_from");
            assert_eq!(
                n.properties[0].annotations[0].value.as_deref(),
                Some("name")
            );
        }
        _ => panic!("expected Node"),
    }
    match &schema.declarations[1] {
        SchemaDecl::Edge(e) => {
            assert_eq!(e.name, "ConnectedTo");
            assert_eq!(e.annotations.len(), 1);
            assert_eq!(e.annotations[0].name, "rename_from");
            assert_eq!(e.annotations[0].value.as_deref(), Some("Knows"));
        }
        _ => panic!("expected Edge"),
    }
}

#[test]
fn test_reject_multiple_node_keys() {
    let input = r#"
node Person {
    id: U64 @key
    ext_id: String @key
}
"#;
    let err = parse_schema(input).unwrap_err();
    assert!(err.to_string().contains("multiple @key properties"));
}

#[test]
fn test_reject_unique_with_value() {
    let input = r#"
node Person {
    email: String @unique("x")
}
"#;
    let err = parse_schema(input).unwrap_err();
    assert!(err.to_string().contains("@unique"));
    assert!(err.to_string().contains("does not accept a value"));
}

#[test]
fn test_reject_index_with_value() {
    let input = r#"
node Person {
    email: String @index("x")
}
"#;
    let err = parse_schema(input).unwrap_err();
    assert!(err.to_string().contains("@index"));
    assert!(err.to_string().contains("does not accept a value"));
}

#[test]
fn test_reject_unique_on_node_annotation() {
    let input = r#"
node Person @unique {
    email: String
}
"#;
    let err = parse_schema(input).unwrap_err();
    assert!(
        err.to_string()
            .contains("only supported on node properties")
    );
}

#[test]
fn test_reject_index_on_node_annotation() {
    let input = r#"
node Person @index {
    email: String
}
"#;
    let err = parse_schema(input).unwrap_err();
    assert!(
        err.to_string()
            .contains("only supported on node properties")
    );
}

#[test]
fn test_reject_unique_on_edge_property() {
    let input = r#"
node Person { name: String }
edge Knows: Person -> Person {
    weight: I32 @unique
}
"#;
    let err = parse_schema(input).unwrap_err();
    assert!(err.to_string().contains("edge properties"));
}

#[test]
fn test_reject_index_on_edge_property() {
    let input = r#"
node Person { name: String }
edge Knows: Person -> Person {
    weight: I32 @index
}
"#;
    let err = parse_schema(input).unwrap_err();
    assert!(err.to_string().contains("edge properties"));
}

#[test]
fn test_reject_embed_without_source_property() {
    let input = r#"
node Doc {
    title: String
    embedding: Vector(3) @embed
}
"#;
    let err = parse_schema(input).unwrap_err();
    assert!(err.to_string().contains("requires a source property name"));
}

#[test]
fn test_reject_embed_on_non_vector_property() {
    let input = r#"
node Doc {
    title: String @embed(title)
}
"#;
    let err = parse_schema(input).unwrap_err();
    assert!(
        err.to_string()
            .contains("only supported on vector properties")
    );
}

#[test]
fn test_reject_embed_unknown_source_property() {
    let input = r#"
node Doc {
    title: String
    embedding: Vector(3) @embed(body)
}
"#;
    let err = parse_schema(input).unwrap_err();
    assert!(
        err.to_string()
            .contains("references unknown source property")
    );
}

#[test]
fn test_reject_embed_source_not_string() {
    let input = r#"
node Doc {
    body: I32
    embedding: Vector(3) @embed(body)
}
"#;
    let err = parse_schema(input).unwrap_err();
    assert!(err.to_string().contains("must be String"));
}

#[test]
fn test_reject_embed_on_edge_property() {
    let input = r#"
node Doc { title: String }
edge Linked: Doc -> Doc {
    embedding: Vector(3) @embed(title)
}
"#;
    let err = parse_schema(input).unwrap_err();
    assert!(err.to_string().contains("edge properties"));
}

#[test]
fn test_parse_enum_and_list_types() {
    let input = r#"
node Ticket {
    status: enum(open, closed, blocked)
    tags: [String]
}
"#;
    let schema = parse_schema(input).unwrap();
    match &schema.declarations[0] {
        SchemaDecl::Node(n) => {
            let status = &n.properties[0].prop_type;
            assert!(status.is_enum());
            assert!(!status.list);
            assert_eq!(
                status.enum_values.as_ref().unwrap(),
                &vec![
                    "blocked".to_string(),
                    "closed".to_string(),
                    "open".to_string()
                ]
            );

            let tags = &n.properties[1].prop_type;
            assert!(tags.list);
            assert!(!tags.is_enum());
            assert_eq!(tags.scalar, ScalarType::String);
        }
        _ => panic!("expected Node"),
    }
}

#[test]
fn test_reject_duplicate_enum_values() {
    let input = r#"
node Ticket {
    status: enum(open, closed, open)
}
"#;
    let err = parse_schema(input).unwrap_err();
    assert!(err.to_string().contains("duplicate values"));
}

#[test]
fn test_parse_description_and_instruction_annotations() {
    let input = r#"
node Task @description("Tracked work item") @instruction("Prefer querying by slug") {
    slug: String @key @description("Stable external identifier")
}
edge DependsOn: Task -> Task @description("Hard dependency") @instruction("Use only for blockers")
"#;
    let schema = parse_schema(input).unwrap();
    match &schema.declarations[0] {
        SchemaDecl::Node(node) => {
            assert_eq!(
                node.annotations
                    .iter()
                    .find(|ann| ann.name == "description")
                    .and_then(|ann| ann.value.as_deref()),
                Some("Tracked work item")
            );
            assert_eq!(
                node.annotations
                    .iter()
                    .find(|ann| ann.name == "instruction")
                    .and_then(|ann| ann.value.as_deref()),
                Some("Prefer querying by slug")
            );
            assert_eq!(
                node.properties[0]
                    .annotations
                    .iter()
                    .find(|ann| ann.name == "description")
                    .and_then(|ann| ann.value.as_deref()),
                Some("Stable external identifier")
            );
        }
        _ => panic!("expected node"),
    }
    match &schema.declarations[1] {
        SchemaDecl::Edge(edge) => {
            assert_eq!(
                edge.annotations
                    .iter()
                    .find(|ann| ann.name == "description")
                    .and_then(|ann| ann.value.as_deref()),
                Some("Hard dependency")
            );
            assert_eq!(
                edge.annotations
                    .iter()
                    .find(|ann| ann.name == "instruction")
                    .and_then(|ann| ann.value.as_deref()),
                Some("Use only for blockers")
            );
        }
        _ => panic!("expected edge"),
    }
}

#[test]
fn test_reject_duplicate_description_annotations() {
    let input = r#"
node Task @description("a") @description("b") {
    slug: String @key
}
"#;
    let err = parse_schema(input).unwrap_err();
    assert!(
        err.to_string()
            .contains("declares @description multiple times")
    );
}

#[test]
fn test_reject_instruction_on_property() {
    let input = r#"
node Task {
    slug: String @instruction("bad")
}
"#;
    let err = parse_schema(input).unwrap_err();
    assert!(
        err.to_string()
            .contains("@instruction is only supported on node and edge types")
    );
}

#[test]
fn test_reject_key_on_list_property() {
    let input = r#"
node Ticket {
    tags: [String] @key
}
"#;
    let err = parse_schema(input).unwrap_err();
    assert!(err.to_string().contains("list property"));
}

#[test]
fn test_parse_media_uri_annotation() {
    let input = r#"
node Photo {
    uri: String @media_uri(mime)
    mime: String?
}
"#;
    let schema = parse_schema(input).unwrap();
    match &schema.declarations[0] {
        SchemaDecl::Node(node) => {
            let uri_prop = &node.properties[0];
            assert_eq!(
                uri_prop
                    .annotations
                    .iter()
                    .find(|ann| ann.name == "media_uri")
                    .and_then(|ann| ann.value.as_deref()),
                Some("mime")
            );
        }
        _ => panic!("expected node"),
    }
}

#[test]
fn test_reject_media_uri_without_mime_sibling() {
    let input = r#"
node Photo {
    uri: String @media_uri(mime)
}
"#;
    let err = parse_schema(input).unwrap_err();
    assert!(
        err.to_string()
            .contains("references unknown mime property mime")
    );
}

#[test]
fn test_allow_embed_from_media_uri_property() {
    let input = r#"
node Photo {
    uri: String @media_uri(mime)
    mime: String?
    embedding: Vector(3) @embed(uri)
}
"#;
    assert!(parse_schema(input).is_ok());
}

#[test]
fn test_parse_vector_type() {
    let input = r#"
node Doc {
    embedding: Vector(3)
}
"#;
    let schema = parse_schema(input).unwrap();
    match &schema.declarations[0] {
        SchemaDecl::Node(n) => match n.properties[0].prop_type.scalar {
            ScalarType::Vector(dim) => assert_eq!(dim, 3),
            other => panic!("expected vector type, got {:?}", other),
        },
        _ => panic!("expected node"),
    }
}

#[test]
fn test_reject_zero_vector_dimension() {
    let input = r#"
node Doc {
    embedding: Vector(0)
}
"#;
    let err = parse_schema(input).unwrap_err();
    assert!(err.to_string().contains("Vector dimension"));
}

#[test]
fn test_reject_vector_dimension_larger_than_arrow_bound() {
    let input = r#"
node Doc {
    embedding: Vector(2147483648)
}
"#;
    let err = parse_schema(input).unwrap_err();
    assert!(err.to_string().contains("exceeds maximum supported"));
}

#[test]
fn test_parse_error() {
    let input = "node { }"; // missing type name
    assert!(parse_schema(input).is_err());
}

#[test]
fn test_parse_error_diagnostic_has_span() {
    let input = "node { }";
    let err = parse_schema_diagnostic(input).unwrap_err();
    assert!(err.span.is_some());
}
