use nanograph::cli::describe::{build_describe_payload, prop_type_string};
use nanograph::cli::describe_table::print_describe_table;
use nanograph::cli::export::{build_export_rows, export_key_token, node_property_index, ExportError};
use nanograph::cli::stripped::without_embeddings;
use nanograph::cli::version::{build_version_payload, print_version_table};
use nanograph::json::Json;
use nanograph::store::manifest::{DatasetEntry, GraphManifest};
use nanograph::store::schema_ir::{EdgeTypeDef, NodeTypeDef, PropDef, SchemaIr};
use nanograph::store::tables::{StoredColumn, StoredGraph, StoredTable};

fn s(text: &str) -> String {
    text.to_string()
}

fn value(j: &Json) -> serde_json::Value {
    match j {
        Json::Null => serde_json::Value::Null,
        Json::Bool(b) => serde_json::Value::Bool(*b),
        Json::Number(n) => serde_json::from_str(n).unwrap(),
        Json::Text(t) => serde_json::Value::String(t.clone()),
        Json::Array(v) => serde_json::Value::Array(v.iter().map(value).collect()),
        Json::Object(v) => {
            serde_json::Value::Object(v.iter().map(|(k, x)| (k.clone(), value(x))).collect())
        }
    }
}

fn prop(name: &str, scalar: &str, key: bool) -> PropDef {
    PropDef {
        name: s(name),
        prop_id: 1,
        scalar_type: s(scalar),
        list: false,
        nullable: false,
        enum_values: vec![],
        key,
        unique: false,
        index: false,
        embed_source: None,
        media_mime_prop: None,
        description: None,
    }
}

fn entry(kind: &str, label: &str, version: u64, rows: u64) -> DatasetEntry {
    DatasetEntry {
        type_id: 5,
        type_label: s(label),
        kind: s(kind),
        dataset_path: format!("{}s/{}", kind, label),
        dataset_version: version,
        row_count: rows,
        table_id: None,
    }
}

fn manifest() -> GraphManifest {
    GraphManifest {
        format_version: 3,
        db_version: 1,
        last_tx_id: s("manifest-1"),
        committed_at: s("now"),
        schema_ir_hash: s("hash"),
        schema_identity_version: 2,
        next_node_id: 10,
        next_edge_id: 11,
        next_type_id: 12,
        next_prop_id: 13,
        datasets: vec![entry("node", "Person", 4, 2), entry("edge", "Knows", 6, 1)],
    }
}

fn schema() -> SchemaIr {
    let mut embedding = prop("embedding", "Vector(3)", false);
    embedding.embed_source = Some(s("summary"));
    embedding.index = true;
    let mut key = prop("name", "String", true);
    key.description = Some(s("Stable external identifier"));
    let mut summary = prop("summary", "String", false);
    summary.unique = true;
    summary.nullable = true;
    SchemaIr {
        ir_version: 2,
        nodes: vec![NodeTypeDef {
            name: s("Person"),
            type_id: 7,
            description: Some(s("Someone")),
            instruction: Some(s("Query by name")),
            properties: vec![key, summary, embedding],
        }],
        edges: vec![EdgeTypeDef {
            name: s("Knows"),
            type_id: 8,
            src_type: s("Person"),
            dst_type: s("Person"),
            description: None,
            instruction: None,
            properties: vec![prop("since", "Date", false)],
        }],
    }
}

fn numbers(name: &str, values: Vec<u64>) -> StoredColumn {
    StoredColumn {
        name: s(name),
        cells: values.iter().map(|n| Json::Number(n.to_string())).collect(),
        numbers: Some(values),
    }
}

fn texts(name: &str, values: Vec<&str>) -> StoredColumn {
    StoredColumn {
        name: s(name),
        numbers: None,
        cells: values.iter().map(|t| Json::Text(s(t))).collect(),
    }
}

fn graph() -> StoredGraph {
    StoredGraph {
        nodes: vec![StoredTable {
            name: s("Person"),
            num_rows: 2,
            columns: vec![
                numbers("id", vec![1, 2]),
                texts("name", vec!["Alice", "Bob"]),
                texts("summary", vec!["Alpha", "Beta"]),
            ],
        }],
        edges: vec![StoredTable {
            name: s("Knows"),
            num_rows: 1,
            columns: vec![
                numbers("id", vec![30]),
                numbers("src", vec![1]),
                numbers("dst", vec![2]),
                texts("since", vec!["2020-01-01"]),
            ],
        }],
    }
}

#[test]
fn version_tells_of_the_database() {
    let m = manifest();
    let version = build_version_payload("1.0", Some(("db", &m)));
    let v = value(&version);
    assert_eq!(v["db"]["db_version"].as_u64(), Some(1));
    assert_eq!(v["db"]["dataset_count"].as_u64(), Some(2));
    assert_eq!(v["db"]["dataset_versions"].as_array().unwrap().len(), 2);
    assert_eq!(
        print_version_table(&version),
        vec![
            s("nanograph 1.0"),
            s("Database: db"),
            s("Manifest: format v3, db_version 1"),
            s("Last TX: manifest-1 @ now"),
            s("Schema hash: hash (identity v2)"),
            s("Next IDs: node=10 edge=11 type=12 prop=13"),
            s("Datasets: 2"),
            s("  - node Person: v4 (rows=2)"),
            s("  - edge Knows: v6 (rows=1)"),
        ]
    );
    let alone = build_version_payload("1.0", None);
    assert!(value(&alone).get("db").is_none());
    assert_eq!(print_version_table(&alone), vec![s("nanograph 1.0")]);
}

#[test]
fn descriptions_tell_of_types_and_keys() {
    let payload =
        build_describe_payload("db", "1.0", &schema(), &graph(), &manifest(), None).unwrap();
    let describe = value(&payload);
    assert_eq!(describe["nodes"].as_array().unwrap().len(), 1);
    assert_eq!(describe["edges"].as_array().unwrap().len(), 1);
    assert_eq!(describe["nodes"][0]["rows"].as_u64(), Some(2));
    assert_eq!(describe["edges"][0]["rows"].as_u64(), Some(1));
    assert_eq!(describe["nodes"][0]["key_property"].as_str(), Some("name"));
    assert_eq!(describe["nodes"][0]["dataset_version"].as_u64(), Some(4));
    assert_eq!(describe["edges"][0]["endpoint_keys"]["src"].as_str(), Some("name"));
    let embedding_prop = describe["nodes"][0]["properties"]
        .as_array()
        .unwrap()
        .iter()
        .find(|p| p["name"] == "embedding")
        .expect("embedding property present in describe payload");
    assert_eq!(embedding_prop["embed_source"].as_str(), Some("summary"));
    assert_eq!(describe["manifest"]["datasets"].as_u64(), Some(2));
    assert_eq!(describe["type_filter"], serde_json::Value::Null);
}

#[test]
fn describe_type_filter_keeps_one_type() {
    let task =
        build_describe_payload("db", "1.0", &schema(), &graph(), &manifest(), Some("Person"))
            .unwrap();
    let task = value(&task);
    assert_eq!(task["nodes"].as_array().unwrap().len(), 1);
    assert!(task["edges"].as_array().unwrap().is_empty());
    assert_eq!(task["nodes"][0]["description"].as_str(), Some("Someone"));
    assert_eq!(task["nodes"][0]["instruction"].as_str(), Some("Query by name"));
    assert_eq!(
        task["nodes"][0]["properties"][0]["description"].as_str(),
        Some("Stable external identifier")
    );
    assert_eq!(task["nodes"][0]["outgoing_edges"][0]["name"].as_str(), Some("Knows"));
    let edge =
        build_describe_payload("db", "1.0", &schema(), &graph(), &manifest(), Some("Knows"))
            .unwrap();
    let edge = value(&edge);
    assert!(edge["nodes"].as_array().unwrap().is_empty());
    assert_eq!(edge["edges"].as_array().unwrap().len(), 1);
    let err = build_describe_payload("db", "1.0", &schema(), &graph(), &manifest(), Some("Nope"))
        .unwrap_err();
    assert_eq!(err.to_string(), "type `Nope` not found in schema");
}

#[test]
fn descriptions_are_shown_as_text() {
    let payload =
        build_describe_payload("db", "1.0", &schema(), &graph(), &manifest(), None).unwrap();
    assert_eq!(
        print_describe_table(&payload),
        vec![
            s("Database: db"),
            s("Manifest: format v3, db_version 1"),
            s("Last TX: manifest-1 @ now"),
            s("Schema: ir_version 2, hash hash"),
            s(""),
            s("Node Types"),
            s("- Person (type_id=7, rows=2, dataset_version=4)"),
            s("  description: Someone"),
            s("  instruction: Query by name"),
            s("  key: name"),
            s("  unique: summary"),
            s("  outgoing: Knows -> Person"),
            s("  incoming: Knows <- Person"),
            s("  - name: String @key"),
            s("    description: Stable external identifier"),
            s("  - summary: String? @unique"),
            s("  - embedding: Vector(3) @index @embed(summary)"),
            s(""),
            s("Edge Types"),
            s("- Knows: Person -> Person (type_id=8, rows=1, dataset_version=6)"),
            s("  endpoint keys: name -> name"),
            s("  - since: Date"),
        ]
    );
}

#[test]
fn tables_that_are_not_there_show_a_dash() {
    let mut m = manifest();
    m.datasets = vec![];
    let empty = StoredGraph { nodes: vec![], edges: vec![] };
    let payload = build_describe_payload("db", "1.0", &schema(), &empty, &m, None).unwrap();
    let lines = print_describe_table(&payload);
    assert_eq!(lines[6], "- Person (type_id=7, rows=0, dataset_version=-)");
}

#[test]
fn property_types_are_written_as_in_a_schema() {
    let mut p = prop("status", "String", false);
    p.enum_values = vec![s("closed"), s("open")];
    assert_eq!(prop_type_string(&p), "enum(closed, open)");
    p.nullable = true;
    p.list = true;
    assert_eq!(prop_type_string(&p), "[enum(closed, open)]?");
    assert_eq!(prop_type_string(&prop("n", "I32", false)), "I32");
}

#[test]
fn exports_name_edge_ends_by_keys() {
    let rows = build_export_rows(&schema(), &graph(), false).unwrap();
    assert_eq!(rows.len(), 3);
    let rows: Vec<serde_json::Value> = rows.iter().map(value).collect();
    assert!(rows
        .iter()
        .any(|row| row["type"] == "Person" && row["data"]["name"] == "Alice"));
    let edge = rows.iter().find(|row| row["edge"] == "Knows").expect("edge row");
    assert_eq!(edge["from"].as_str(), Some("Alice"));
    assert_eq!(edge["to"].as_str(), Some("Bob"));
    assert_eq!(edge["data"]["since"], "2020-01-01");
    assert!(edge.get("id").is_none());
    assert!(edge.get("src").is_none());
    assert!(edge.get("dst").is_none());
    assert!(rows[0].get("id").is_none());
}

#[test]
fn exports_with_internal_fields_hold_identities() {
    let rows = build_export_rows(&schema(), &graph(), true).unwrap();
    let first = value(&rows[0]);
    assert_eq!(first["id"], 1);
    let edge = value(&rows[2]);
    assert_eq!(edge["id"], 30);
    assert_eq!(edge["src"], 1);
    assert_eq!(edge["dst"], 2);
}

#[test]
fn exports_keep_a_property_called_id() {
    let mut sch = schema();
    sch.nodes[0].properties = vec![prop("id", "String", true), prop("name", "String", false)];
    let mut g = graph();
    g.nodes[0].columns = vec![
        numbers("id", vec![1, 2]),
        texts("id", vec!["usr_01", "usr_02"]),
        texts("name", vec!["Alice", "Bob"]),
    ];
    assert_eq!(node_property_index(&g.nodes[0], "id"), Some(1));
    let rows = build_export_rows(&sch, &g, false).unwrap();
    let rows: Vec<serde_json::Value> = rows.iter().map(value).collect();
    assert_eq!(rows[0]["data"]["id"], "usr_01");
    assert_eq!(rows[1]["data"]["id"], "usr_02");
    assert_eq!(rows[2]["from"], "usr_01");
    assert_eq!(rows[2]["to"], "usr_02");
}

fn export_message(sch: &SchemaIr, g: &StoredGraph) -> String {
    match build_export_rows(sch, g, false) {
        Err(ExportError::Message(m)) => m,
        other => panic!("expected a message, got {:?}", other),
    }
}

#[test]
fn exports_that_cannot_be_made_say_why() {
    let mut g = graph();
    g.nodes[0].columns[0].numbers = None;
    assert_eq!(
        export_message(&schema(), &g),
        "node batch 'Person' missing UInt64 id column"
    );
    let mut g = graph();
    g.nodes[0].columns.remove(1);
    assert_eq!(
        export_message(&schema(), &g),
        "node batch 'Person' missing @key property 'name'"
    );
    let mut g = graph();
    g.nodes[0].columns[1].cells[1] = Json::Null;
    assert_eq!(export_message(&schema(), &g), "@key property name cannot be null");
    let mut g = graph();
    g.edges[0].columns.remove(0);
    assert_eq!(
        export_message(&schema(), &g),
        "edge batch 'Knows' missing UInt64 id column"
    );
    let mut g = graph();
    g.edges[0].columns[1].name = s("source");
    assert_eq!(
        export_message(&schema(), &g),
        "edge batch 'Knows' missing UInt64 src column"
    );
    let mut g = graph();
    g.edges[0].columns[2].numbers = None;
    assert_eq!(
        export_message(&schema(), &g),
        "edge batch 'Knows' missing UInt64 dst column"
    );
    let mut g = graph();
    g.edges[0].columns[1].numbers = Some(vec![9]);
    assert_eq!(
        export_message(&schema(), &g),
        "cannot export portable edge 'Knows': source Person node 9 is missing an @key token"
    );
    let mut g = graph();
    g.edges[0].columns[2].numbers = Some(vec![8]);
    assert_eq!(
        export_message(&schema(), &g),
        "cannot export portable edge 'Knows': destination Person node 8 is missing an @key token"
    );
}

#[test]
fn keys_are_rendered_as_texts() {
    assert_eq!(export_key_token(&Json::Text(s("k")), "p").unwrap(), "k");
    assert_eq!(export_key_token(&Json::Bool(true), "p").unwrap(), "true");
    assert_eq!(export_key_token(&Json::Number(s("42")), "p").unwrap(), "42");
    assert!(matches!(
        export_key_token(&Json::Array(vec![]), "p"),
        Err(ExportError::UnsupportedKey { property, .. }) if property == "p"
    ));
}

#[test]
fn keys_that_name_nothing_are_told_with_their_value() {
    let value = Json::Array(vec![
        Json::Null,
        Json::Bool(false),
        Json::Number(s("1.5")),
        Json::Text(s("a\"\\\n\u{1}\u{7f}\u{e9}")),
        Json::Object(vec![(s("k"), Json::Array(vec![])), (s("l"), Json::Bool(true))]),
    ]);
    let err = export_key_token(&value, "slug").unwrap_err();
    assert_eq!(
        err.to_string(),
        "unsupported @key export value for slug: \
         [null,false,1.5,\"a\\\"\\\\\\n\\u0001\u{7f}\u{e9}\",{\"k\":[],\"l\":true}]"
    );
    assert_eq!(
        export_key_token(&Json::Null, "slug").unwrap_err().to_string(),
        "@key property slug cannot be null"
    );
}

#[test]
fn compact_forms_are_those_of_serde_json() {
    for text in vec!["", "plain", "\t\r\n\u{8}\u{c}", "\"\\/", "\u{0}\u{1f}\u{20}", "\u{1f600}"] {
        let expected = serde_json::Value::String(s(text)).to_string();
        assert_eq!(Json::Text(s(text)).to_text(), expected);
    }
    assert_eq!(Json::Object(vec![]).to_text(), "{}");
    assert_eq!(Json::Array(vec![Json::Null, Json::Null]).to_text(), "[null,null]");
}

fn embedded_schema() -> SchemaIr {
    let mut ir = schema();
    let mut vector = prop("embedding", "Vector(3)", false);
    vector.embed_source = Some(s("summary"));
    ir.nodes[0].properties.push(vector);
    ir
}

fn embedded_graph() -> StoredGraph {
    let mut g = graph();
    g.nodes[0].columns.insert(2, texts("embedding", vec!["v1", "v2"]));
    g
}

#[test]
fn exports_can_leave_out_embeddings() {
    let ir = embedded_schema();
    let whole = build_export_rows(&ir, &embedded_graph(), false).unwrap();
    assert_eq!(value(&whole[0])["data"]["embedding"].as_str(), Some("v1"));
    let stripped = without_embeddings(&ir, embedded_graph());
    let names: Vec<&str> = stripped.nodes[0].columns.iter().map(|c| c.name.as_str()).collect();
    assert_eq!(names, vec!["id", "name", "summary"]);
    let rows = build_export_rows(&ir, &stripped, false).unwrap();
    assert_eq!(rows.len(), whole.len());
    assert!(value(&rows[0])["data"].get("embedding").is_none());
    assert_eq!(value(&rows[0])["data"]["summary"].as_str(), Some("Alpha"));
    assert_eq!(value(&rows[2]), value(&whole[2]));
}

#[test]
fn stripping_keeps_the_first_column_and_unknown_types() {
    let mut ir = embedded_schema();
    ir.nodes[0].properties[0].embed_source = Some(s("summary"));
    let first = ir.nodes[0].properties[0].name.clone();
    let mut g = embedded_graph();
    g.nodes[0].columns[0].name = first.clone();
    let stripped = without_embeddings(&ir, g);
    assert_eq!(stripped.nodes[0].columns[0].name, first);
    let mut other = embedded_graph();
    other.nodes[0].name = s("Ghost");
    assert_eq!(without_embeddings(&ir, other).nodes[0].columns.len(), 4);
}
