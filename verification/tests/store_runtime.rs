use nanograph::catalog::build_catalog;
use nanograph::error::NanoError;
use nanograph::json::{Json, Members};
use nanograph::schema::parser::parse_schema;
use nanograph::store::batch::{Batch, Column, ColumnData};
use nanograph::store::database::{Database, MutationSource};
use nanograph::store::embed::{
    embed_result, rebuild_targets, EmbedFollowUp, EmbedOptions, EmbedSpec, NodeRows, TypeEmbedSpecs,
};
use nanograph::store::indexing::{
    choose_ivf_partitions, choose_pq_sub_vectors, indexed_vector_properties, plan_scalar_indexes,
    plan_text_indexes, plan_vector_indexes, scalar_index_name, text_index_name, vector_index_name,
    IndexKind,
};
use nanograph::store::manifest::{DatasetEntry, GraphManifest};
use nanograph::store::metadata::{check_schema_hash, DatabaseMetadata};
use nanograph::store::runtime::{
    collect_edges, DatabaseRuntime, NodeLookup, QueryEmbeddingCache, TextSearchCache,
    VersionedCache,
};
use nanograph::store::schema_ir::{NodeTypeDef, PropDef, SchemaIr};
use nanograph::store::search::{
    build_native_text_query, plan_native_text_search, text_scores, tokenize_native_text_terms,
    NativeTextQuery,
    TextSearchKind,
};
use nanograph::store::storage_generation::StorageGeneration;
use nanograph::store::tables::{StoredColumn, StoredTable};
use nanograph::store::vectors::{fill_vectors, json_column, json_rows, replace_tables, requests_of_type};

fn s(text: &str) -> String {
    text.to_string()
}

fn prop(name: &str, scalar: &str, index: bool) -> PropDef {
    PropDef {
        name: s(name),
        prop_id: 1,
        scalar_type: s(scalar),
        list: false,
        nullable: false,
        enum_values: vec![],
        key: false,
        unique: false,
        index,
        embed_source: None,
        media_mime_prop: None,
        description: None,
    }
}

fn node() -> NodeTypeDef {
    NodeTypeDef {
        name: s("Doc"),
        type_id: 0xab,
        description: None,
        instruction: None,
        properties: vec![
            prop("slug", "String", true),
            prop("age", "I32", true),
            prop("body", "String", false),
            prop("embedding", "Vector(16)", true),
        ],
    }
}

#[test]
fn index_names_are_fixed() {
    assert_eq!(scalar_index_name(0xab, "slug"), "nano_000000ab_slug_btree_idx");
    assert_eq!(vector_index_name(1, "e"), "nano_00000001_e_ivfpq_idx");
    assert_eq!(text_index_name(u32::MAX, "t"), "nano_ffffffff_t_fts_idx");
}

#[test]
fn indexes_are_planned_by_type() {
    let scalar: Vec<String> = plan_scalar_indexes(&node()).iter().map(|b| b.property.clone()).collect();
    assert_eq!(scalar, vec![s("slug"), s("age")]);
    let text = plan_text_indexes(&node());
    assert_eq!(text.len(), 1);
    assert_eq!(text[0].index_name, "nano_000000ab_slug_fts_idx");
    assert_eq!(indexed_vector_properties(&node()), vec![(s("embedding"), 16)]);
    let many = plan_vector_indexes(&node(), 1000);
    assert_eq!(many.len(), 1);
    assert!(matches!(many[0].kind, IndexKind::IvfPq { .. }));
    let few = plan_vector_indexes(&node(), 10);
    assert!(matches!(few[0].kind, IndexKind::IvfFlat { .. }));
    assert!(plan_vector_indexes(&node(), 0).is_empty());
}

#[test]
fn partitions_grow_with_the_square_root() {
    assert_eq!(choose_ivf_partitions(0), 1);
    assert_eq!(choose_ivf_partitions(1024), 1);
    assert_eq!(choose_ivf_partitions(1025), 32);
    for rows in vec![1056usize, 1057, 1089, 10_000, 10_100, 10_101, 65_535, 65_792, 65_793, 1_000_000] {
        let expected = ((rows as f64).sqrt().round() as usize).clamp(1, 256);
        assert_eq!(choose_ivf_partitions(rows), expected);
    }
}

#[test]
fn sub_vectors_divide_the_dimension() {
    assert_eq!(choose_pq_sub_vectors(16), 16);
    assert_eq!(choose_pq_sub_vectors(1536), 32);
    assert_eq!(choose_pq_sub_vectors(100), 4);
    assert_eq!(choose_pq_sub_vectors(6), 2);
    assert_eq!(choose_pq_sub_vectors(7), 1);
    assert_eq!(choose_pq_sub_vectors(0), 1);
}

fn numbers(name: &str, values: Vec<u64>) -> Column {
    let n = values.len();
    Column { name: s(name), data: ColumnData::UInt64 { values, valid: vec![true; n] } }
}

#[test]
fn nodes_are_looked_up_by_identity() {
    let batch = Batch { num_rows: 3, columns: vec![numbers("id", vec![10, 20, 30])] };
    let lookup = NodeLookup::build("Doc", &batch).unwrap();
    assert_eq!(lookup.row(20), Some(1));
    assert_eq!(lookup.row(40), None);
    let none = Batch { num_rows: 0, columns: vec![] };
    assert!(NodeLookup::build("Doc", &none)
        .err()
        .unwrap()
        .to_string()
        .contains("node dataset Doc missing id column"));
    let untyped = Batch {
        num_rows: 1,
        columns: vec![Column { name: s("id"), data: ColumnData::Utf8(vec![s("x")]) }],
    };
    assert!(NodeLookup::build("Doc", &untyped)
        .err()
        .unwrap()
        .to_string()
        .contains("node dataset Doc id column is not UInt64"));
}

#[test]
fn edges_are_listed_both_ways() {
    let batch = Batch {
        num_rows: 2,
        columns: vec![
            numbers("id", vec![1, 2]),
            numbers("src", vec![10, 11]),
            numbers("dst", vec![20, 21]),
        ],
    };
    let lists = collect_edges(&vec![batch]).unwrap();
    assert_eq!(lists.out_edges.len(), 2);
    assert_eq!(lists.in_edges.len(), 2);
    let (a, b, e) = lists.out_edges[0];
    assert_eq!(lists.in_edges[0], (b, a, e));
    let partial = Batch { num_rows: 1, columns: vec![numbers("id", vec![1])] };
    assert!(collect_edges(&vec![partial]).is_err());
}

fn entry(kind: &str, label: &str, version: u64) -> DatasetEntry {
    DatasetEntry {
        type_id: 1,
        type_label: s(label),
        kind: s(kind),
        dataset_path: format!("{}s/x", kind),
        dataset_version: version,
        row_count: 3,
        table_id: None,
    }
}

fn manifest() -> GraphManifest {
    GraphManifest {
        format_version: 3,
        db_version: 1,
        last_tx_id: s("manifest-1"),
        committed_at: s("now"),
        schema_ir_hash: s("0123456789abcdef"),
        schema_identity_version: 1,
        next_node_id: 77,
        next_edge_id: 1,
        next_type_id: 1,
        next_prop_id: 1,
        datasets: vec![entry("node", "Doc", 5), entry("edge", "Links", 6)],
    }
}

#[test]
fn runtimes_know_their_tables() {
    let catalog = || {
        build_catalog(&parse_schema("node Doc { slug: String }\nedge Links: Doc -> Doc\n").unwrap())
            .unwrap()
    };
    let rt = DatabaseRuntime::from_metadata("/db", catalog(), &manifest());
    assert_eq!(rt.next_node_id(), 77);
    assert_eq!(rt.node_dataset_count(), 1);
    assert_eq!(rt.edge_dataset_count(), 1);
    assert_eq!(rt.node_dataset_version("Doc"), Some(5));
    assert_eq!(rt.edge_dataset_version("Links"), Some(6));
    assert_eq!(rt.node_dataset_path("Doc").map(String::as_str), Some("/db/nodes/x"));
    assert!(rt.edge_dataset_path("Doc").is_none());
    assert!(rt.native_text_scores("Doc").is_ok());
    assert!(rt
        .native_text_scores("Nope")
        .unwrap_err()
        .to_string()
        .contains("node dataset Nope is not available"));
    assert!(rt.catalog().node_types.contains_key("Doc"));
    let empty = DatabaseRuntime::empty(catalog());
    assert_eq!(empty.node_dataset_count(), 0);
}

#[test]
fn caches_keep_versions_and_searches_apart() {
    let catalog = build_catalog(&parse_schema("node Doc { slug: String }\n").unwrap()).unwrap();
    let rt = DatabaseRuntime::from_metadata("/db", catalog, &manifest());
    let old = rt.node_dataset_locator("Doc").unwrap();
    let mut m = manifest();
    m.datasets[0].dataset_version = 6;
    let catalog = build_catalog(&parse_schema("node Doc { slug: String }\n").unwrap()).unwrap();
    let later = DatabaseRuntime::from_metadata("/db", catalog, &m);
    let new = later.node_dataset_locator("Doc").unwrap();

    let mut cache = VersionedCache::new();
    cache.insert("Doc", old, 3);
    assert_eq!(cache.get("Doc", old), Some(3));
    assert_eq!(cache.get("Doc", new), None);
    cache.insert("Doc", old, 4);
    assert_eq!(cache.get("Doc", old), Some(4));

    let mut searches = TextSearchCache::new();
    searches.insert("Doc", old, "body", "q", TextSearchKind::Search, 1);
    searches.insert("Doc", old, "body", "q", TextSearchKind::Fuzzy { max_edits: Some(2) }, 2);
    assert_eq!(searches.get("Doc", old, "body", "q", TextSearchKind::Search), Some(1));
    assert_eq!(
        searches.get("Doc", old, "body", "q", TextSearchKind::Fuzzy { max_edits: Some(2) }),
        Some(2)
    );
    assert_eq!(
        searches.get("Doc", old, "body", "q", TextSearchKind::Fuzzy { max_edits: None }),
        None
    );
    assert_eq!(searches.get("Doc", new, "body", "q", TextSearchKind::Search), None);
    assert_eq!(searches.get("Doc", old, "body", "r", TextSearchKind::Search), None);

    let mut vectors = QueryEmbeddingCache::new();
    vectors.insert("m", s("hello"), 2, vec![1.0f32.to_bits(), 2.0f32.to_bits()]);
    assert_eq!(vectors.get("m", "hello", 2).map(|v| v.len()), Some(2));
    assert!(vectors.get("m", "hello", 3).is_none());
    vectors.insert("m", s("other"), 2, vec![7]);
    vectors.insert("m", s("hello"), 2, vec![8]);
    assert_eq!(vectors.get("m", "hello", 2), Some(&vec![8]));
    assert_eq!(vectors.get("m", "other", 2), Some(&vec![7]));
    assert!(vectors.get("n", "hello", 2).is_none());
}

#[test]
fn searches_are_built_from_words() {
    assert_eq!(
        tokenize_native_text_terms("Hello, World-2 \u{c9}t\u{e9}!"),
        vec![s("hello"), s("world"), s("2"), s("\u{c9}t\u{e9}")]
    );
    assert!(tokenize_native_text_terms(" ,.").is_empty());
    match build_native_text_query("body", "a b", TextSearchKind::Search) {
        Some(NativeTextQuery::AllTerms { column, terms, edits }) => {
            assert_eq!(column, "body");
            assert_eq!(terms, vec![s("a"), s("b")]);
            assert_eq!(edits, None);
        }
        other => panic!("expected all terms, got {:?}", other),
    }
    assert!(build_native_text_query("body", " ", TextSearchKind::Search).is_none());
    assert!(plan_native_text_search("body", "body", "?!", TextSearchKind::Search)
        .unwrap_err()
        .to_string()
        .contains("could not build native text query for property `body`"));
    assert!(plan_native_text_search("body", "body", "?!", TextSearchKind::Bm25).is_ok());
    assert!(matches!(
        build_native_text_query("body", "a", TextSearchKind::Fuzzy { max_edits: Some(1) }),
        Some(NativeTextQuery::AllTerms { edits: Some(Some(1)), .. })
    ));
    assert!(matches!(
        build_native_text_query("body", "a b", TextSearchKind::MatchText),
        Some(NativeTextQuery::Phrase { .. })
    ));
    assert!(matches!(
        build_native_text_query("body", "a b", TextSearchKind::Bm25),
        Some(NativeTextQuery::Match { .. })
    ));
}

#[test]
fn scores_come_with_their_rows() {
    let batch = Batch {
        num_rows: 2,
        columns: vec![
            numbers("id", vec![4, 5]),
            Column {
                name: s("_score"),
                data: ColumnData::Float32 {
                    bits: vec![1.5f32.to_bits(), 0.0f32.to_bits()],
                    valid: vec![true, false],
                },
            },
        ],
    };
    let scores = text_scores(&batch, "id").unwrap();
    assert_eq!(scores[0], (4, 1.5f32.to_bits()));
    assert!(text_scores(&batch, "other")
        .unwrap_err()
        .to_string()
        .contains("fts batch missing internal id column"));
    let bare = Batch { num_rows: 1, columns: vec![numbers("id", vec![4])] };
    assert!(text_scores(&bare, "id")
        .unwrap_err()
        .to_string()
        .contains("fts batch missing _score column"));
    let none = Batch { num_rows: 0, columns: vec![] };
    assert!(text_scores(&none, "id").unwrap().is_empty());
}

#[test]
fn metadata_check_the_schema_and_locate_tables() {
    assert!(check_schema_hash(&manifest(), "0123456789abcdef").is_ok());
    assert!(check_schema_hash(&manifest(), "fedcba9876543210")
        .unwrap_err()
        .to_string()
        .contains("(expected hash 01234567, got fedcba98)"));
    assert!(DatabaseMetadata::open("/db", Ok(None))
        .unwrap_err()
        .to_string()
        .contains("database /db uses legacy v3 storage"));
    assert!(DatabaseMetadata::open("/db", Ok(Some(StorageGeneration::NamespaceLineage))).is_ok());
    assert!(DatabaseMetadata::open("/db", Err(NanoError::Storage(s("x")))).is_err());
    let catalog = build_catalog(&parse_schema("node Doc { slug: String }\n").unwrap()).unwrap();
    let legacy = DatabaseMetadata::open_v3_legacy(
        s("/db"),
        SchemaIr { ir_version: 1, nodes: vec![node()], edges: vec![] },
        build_catalog(&parse_schema("node Doc { slug: String }\n").unwrap()).unwrap(),
        manifest(),
        "fedcba9876543210",
    );
    assert!(legacy.err().unwrap().to_string().contains("schema mismatch"));
    let ir = SchemaIr { ir_version: 1, nodes: vec![node()], edges: vec![] };
    let meta = DatabaseMetadata::open_namespace(s("/db"), ir, catalog, manifest(), "0123456789abcdef")
        .unwrap();
    assert_eq!(meta.path(), "/db");
    assert_eq!(meta.schema_ir().nodes.len(), 1);
    assert_eq!(meta.manifest().db_version, 1);
    assert_eq!(meta.dataset_entry("node", "Doc").map(|e| e.dataset_version), Some(5));
    let detected = Ok(Some(StorageGeneration::NamespaceLineage));
    let locator = meta.node_dataset_locator("Doc", &detected).unwrap();
    assert_eq!(locator.dataset_path, "/db/nodes/x");
    assert_eq!(locator.dataset_version, 5);
    assert!(locator.namespace_managed);
    assert!(meta.edge_dataset_locator("Doc", &detected).is_none());
}

fn doc(title: &str, embedding: Json) -> Json {
    let mut m = Members::new();
    m.push("title", Json::Text(s(title)));
    m.push("embedding", embedding);
    m.object()
}

fn options() -> EmbedOptions {
    EmbedOptions {
        node_type: None,
        property: None,
        only_null: false,
        limit: None,
        reindex: false,
        dry_run: false,
    }
}

fn specs() -> Vec<TypeEmbedSpecs> {
    vec![TypeEmbedSpecs {
        label: s("Doc"),
        specs: vec![EmbedSpec { target_prop: s("embedding"), source_prop: s("title"), dim: 16 }],
    }]
}

fn docs() -> Vec<NodeRows> {
    vec![NodeRows {
        label: s("Doc"),
        rows: vec![
            doc("a", Json::Null),
            doc("b", Json::Array(vec![])),
            doc("c", Json::Null),
        ],
    }]
}

fn embedding_db() -> Database {
    Database {
        path: s("/db"),
        schema_ir: SchemaIr { ir_version: 1, nodes: vec![node()], edges: vec![] },
    }
}

#[test]
fn embeddings_are_requested_row_by_row() {
    let db = embedding_db();
    let all = db.embed(&options(), &specs(), &docs()).unwrap();
    assert_eq!(all.requests.len(), 3);
    assert_eq!(all.rows_selected, 3);
    assert_eq!(all.requests[1].source_text, "b");
    assert_eq!(all.requests[1].dim, 16);

    let mut only_null = options();
    only_null.only_null = true;
    let missing = db.embed(&only_null, &specs(), &docs()).unwrap();
    let texts: Vec<String> = missing.requests.iter().map(|r| r.source_text.clone()).collect();
    assert_eq!(texts, vec![s("a"), s("c")]);

    let mut limited = options();
    limited.limit = Some(2);
    assert_eq!(db.embed(&limited, &specs(), &docs()).unwrap().rows_selected, 2);
}

#[test]
fn embedding_previews_write_nothing() {
    let db = embedding_db();
    let mut preview = options();
    preview.dry_run = true;
    let plan = db.embed(&preview, &specs(), &docs()).unwrap();
    assert!(matches!(plan.follow_up, EmbedFollowUp::Report(_) | EmbedFollowUp::Nothing));
    let result = embed_result(&plan, 0);
    assert!(result.dry_run);
    assert_eq!(result.node_types_considered, 1);
    assert_eq!(result.properties_selected, 1);
}

#[test]
fn embedding_requests_that_cannot_be_met_are_refused() {
    let db = embedding_db();
    let mut scoped = options();
    scoped.property = Some(s("embedding"));
    assert!(db
        .embed(&scoped, &specs(), &docs())
        .unwrap_err()
        .to_string()
        .contains("--property requires --type for `nanograph embed`"));
    scoped.node_type = Some(s("Doc"));
    scoped.property = Some(s("nope"));
    assert!(db
        .embed(&scoped, &specs(), &docs())
        .unwrap_err()
        .to_string()
        .contains("type Doc has no @embed property nope"));
    assert!(db
        .embed(&options(), &vec![], &docs())
        .unwrap_err()
        .to_string()
        .contains("schema has no @embed properties"));
    let mut rows = docs();
    rows[0].rows[0] = Json::Object(vec![]);
    assert!(db
        .embed(&options(), &specs(), &rows)
        .unwrap_err()
        .to_string()
        .contains("cannot embed Doc.embedding: source property title must be a String"));
}

#[test]
fn rebuilt_types_follow_the_schema() {
    let ir = SchemaIr { ir_version: 1, nodes: vec![node()], edges: vec![] };
    assert_eq!(
        rebuild_targets(&ir, &vec![s("Doc"), s("Gone")], &vec![s("Doc")]),
        vec![s("Doc")]
    );
    assert!(rebuild_targets(&ir, &vec![s("Doc")], &vec![]).is_empty());
}

fn vector(n: u32) -> Json {
    Json::Array(vec![Json::Number(n.to_string())])
}

fn held(row: &Json) -> String {
    row.at("embedding").to_text()
}

#[test]
fn generated_vectors_reach_their_rows() {
    let db = embedding_db();
    let mut only_null = options();
    only_null.only_null = true;
    let plan = db.embed(&only_null, &specs(), &docs()).unwrap();
    let made = vec![vec![vector(1), vector(3)]];
    let mutation = db.embed_mutation(&plan, &docs(), &made).unwrap();
    assert_eq!(mutation.op_summary, "embed");
    assert!(mutation.cdc_events.is_empty());
    match mutation.source {
        MutationSource::PreparedStorage { replaced } => {
            assert_eq!(replaced.len(), 1);
            assert_eq!(replaced[0].label, "Doc");
            let vectors: Vec<String> = replaced[0].rows.iter().map(held).collect();
            assert_eq!(vectors, vec![s("[1]"), s("[]"), s("[3]")]);
            assert_eq!(replaced[0].rows[2].at("title").text_or_empty(), "c");
        }
        other => panic!("expected prepared rows, got {:?}", other),
    }
}

#[test]
fn missing_vectors_leave_their_rows_as_they_were() {
    let plan = embedding_db().embed(&options(), &specs(), &docs()).unwrap();
    let replaced = replace_tables(&plan, &docs(), &vec![vec![vector(1)]]);
    let vectors: Vec<String> = replaced[0].rows.iter().map(held).collect();
    assert_eq!(vectors, vec![s("[1]"), s("[]"), s("null")]);
    let none = replace_tables(&plan, &docs(), &vec![]);
    assert_eq!(held(&none[0].rows[0]), "null");
}

#[test]
fn runs_that_fill_nothing_commit_nothing() {
    let db = embedding_db();
    let mut none = options();
    none.limit = Some(0);
    let plan = db.embed(&none, &specs(), &docs()).unwrap();
    assert!(db.embed_mutation(&plan, &docs(), &vec![]).is_none());
    assert!(replace_tables(&plan, &docs(), &vec![]).is_empty());
    let mut preview = options();
    preview.dry_run = true;
    let plan = db.embed(&preview, &specs(), &docs()).unwrap();
    assert!(db.embed_mutation(&plan, &docs(), &vec![]).is_none());
}

#[test]
fn requests_of_other_types_take_no_vectors() {
    let mut plan = embedding_db().embed(&options(), &specs(), &docs()).unwrap();
    plan.requests[0].type_index = 7;
    let own = requests_of_type(&plan.requests, 0);
    let texts: Vec<&str> = own.iter().map(|q| q.source_text.as_str()).collect();
    assert_eq!(texts, vec!["b", "c"]);
    let rows = docs().remove(0).rows;
    let filled = fill_vectors(rows, &plan.requests, 0, &vec![vector(1), vector(2)]);
    let vectors: Vec<String> = filled.iter().map(held).collect();
    assert_eq!(vectors, vec![s("null"), s("[1]"), s("[2]")]);
}

#[test]
fn rows_and_columns_turn_into_each_other() {
    let table = StoredTable {
        name: s("Doc"),
        num_rows: 2,
        columns: vec![
            StoredColumn {
                name: s("id"),
                numbers: Some(vec![4, 5]),
                cells: vec![Json::Number(s("4")), Json::Number(s("5"))],
            },
            StoredColumn {
                name: s("title"),
                numbers: None,
                cells: vec![Json::Text(s("a")), Json::Null],
            },
        ],
    };
    let rows = json_rows(&table);
    assert_eq!(rows[0].to_text(), "{\"id\":4,\"title\":\"a\"}");
    assert_eq!(Json::Array(json_column(&rows, "title")).to_text(), "[\"a\",null]");
    assert_eq!(Json::Array(json_column(&rows, "gone")).to_text(), "[null,null]");
}
