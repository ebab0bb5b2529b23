use nanograph::json::{Json, Members};
use nanograph::store::database::{effective_cdc_events, Database, LoadMode, MutationSource};
use nanograph::store::graph_log::{
    graph_change_records_from_batch, graph_change_records_to_batch, graph_commit_records_from_batch,
    graph_commit_records_to_batch, order_graph_commit_records, pinned_table_version,
    read_graph_change_records, stage_graph_change_records, stage_graph_commit_record, stage_table,
    staged_entry, StageStep,
};
use nanograph::store::batch::{Batch, Column, ColumnData};
use nanograph::store::graph_types::{
    GraphChangeRecord, GraphCommitRecord, GraphTableVersion, GraphTxId, GraphVersion,
};
use nanograph::store::lineage::{has_lineage_tables, merge_internal_entries};
use nanograph::store::location::{
    kept_dataset_path, local_path_at, manifest_dataset_path, namespace_location_to_local_path,
};
use nanograph::store::manifest::{DatasetEntry, GraphManifest};
use nanograph::store::persist::{
    build_append_batch_from_cdc, build_upsert_batch_from_cdc, collect_entity_changes,
    commit_manifest, dataset_entity_key, decide_write_step, deleted_ids_from_cdc_events,
    finalize_cdc_entries_for_manifest,
    plan_commit, schema_has_duplicate_field_names, IdentityCounters, TableSummary, WriteStep,
};
use nanograph::store::schema_ir::{EdgeTypeDef, NodeTypeDef, PropDef, SchemaIr};
use nanograph::store::snapshot::{
    latest_snapshot_manifest, publish_committed_graph_snapshot, read_committed_graph_snapshot,
    SnapshotStore,
};
use nanograph::store::storage_generation::{
    detect_storage_generation, read_storage_generation, storage_metadata, storage_metadata_path,
    MetadataFile, StorageGeneration, StorageMetadata,
};
use nanograph::store::txlog::CdcLogEntry;
use nanograph::error::NanoError;
use nanograph::store::uri::LocalPath;

fn s(text: &str) -> String {
    text.to_string()
}

fn event(op: &str, kind: &str, label: &str, payload: Json) -> CdcLogEntry {
    CdcLogEntry {
        tx_id: s("t"),
        db_version: 0,
        seq_in_tx: 0,
        op: s(op),
        entity_kind: s(kind),
        type_label: s(label),
        entity_key: s("k"),
        payload,
        committed_at: s(""),
    }
}

fn row(name: &str, age: &str) -> Json {
    let mut m = Members::new();
    m.push("name", Json::Text(s(name)));
    m.push("age", Json::Number(s(age)));
    m.object()
}

fn entry(kind: &str, label: &str, path: &str, version: u64, rows: u64) -> DatasetEntry {
    DatasetEntry {
        type_id: 1,
        type_label: s(label),
        kind: s(kind),
        dataset_path: s(path),
        dataset_version: version,
        row_count: rows,
        table_id: None,
    }
}

fn manifest(datasets: Vec<DatasetEntry>) -> GraphManifest {
    GraphManifest {
        format_version: 3,
        db_version: 4,
        last_tx_id: s("manifest-4"),
        committed_at: s("then"),
        schema_ir_hash: s("h"),
        schema_identity_version: 0,
        next_node_id: 1,
        next_edge_id: 1,
        next_type_id: 1,
        next_prop_id: 1,
        datasets,
    }
}

fn key_prop() -> PropDef {
    PropDef {
        name: s("name"),
        prop_id: 1,
        scalar_type: s("String"),
        list: false,
        nullable: false,
        enum_values: vec![],
        key: true,
        unique: false,
        index: false,
        embed_source: None,
        media_mime_prop: None,
        description: None,
    }
}

fn schema() -> SchemaIr {
    SchemaIr {
        ir_version: 1,
        nodes: vec![NodeTypeDef {
            name: s("Person"),
            type_id: 0xab,
            description: None,
            instruction: None,
            properties: vec![key_prop()],
        }],
        edges: vec![EdgeTypeDef {
            name: s("Knows"),
            type_id: 2,
            src_type: s("Person"),
            dst_type: s("Person"),
            description: None,
            instruction: None,
            properties: vec![],
        }],
    }
}

#[test]
fn changes_of_an_entity_are_collected() {
    let events = vec![
        event("insert", "node", "Person", Json::Null),
        event("insert", "node", "Other", Json::Null),
        event("update", "node", "Person", Json::Null),
    ];
    let key = dataset_entity_key("node", "Person");
    assert_eq!(key, "node:Person");
    let c = collect_entity_changes(&events, &key);
    assert!(c.changed);
    assert!(!c.only_inserts);
    assert!(c.only_upserts);
    assert!(!c.only_deletes);
    assert_eq!(c.inserts, vec![0]);
    assert_eq!(c.upserts, vec![0, 2]);
    assert!(c.deletes.is_empty());
}

#[test]
fn write_steps_follow_the_changes() {
    let name = s("name");
    let inserts = vec![event("insert", "node", "Person", Json::Null)];
    let updates = vec![event("update", "node", "Person", Json::Null)];
    let deletes = vec![event("delete", "node", "Person", Json::Null)];
    let prev = || Some(entry("node", "Person", "p", 9, 5));
    let key = "node:Person";
    assert!(matches!(
        decide_write_step("load:append", &inserts, key, None, false, Some(&name)),
        WriteStep::Overwrite
    ));
    assert!(matches!(
        decide_write_step("load:append", &vec![], key, prev(), false, Some(&name)),
        WriteStep::Keep(e) if e.dataset_version == 9
    ));
    assert!(matches!(
        decide_write_step("load:append", &inserts, key, prev(), false, None),
        WriteStep::Append { base_version: 9, events } if events == vec![0]
    ));
    assert!(matches!(
        decide_write_step("load:merge", &updates, key, prev(), false, Some(&name)),
        WriteStep::MergeUpsert { key_prop, pinned_version: 9, events }
            if key_prop == "name" && events == vec![0]
    ));
    assert!(matches!(
        decide_write_step("mutation:delete", &deletes, key, prev(), false, Some(&name)),
        WriteStep::Delete { pinned_version: 9, events } if events == vec![0]
    ));
    assert!(matches!(
        decide_write_step("load:merge", &updates, key, prev(), true, Some(&name)),
        WriteStep::Overwrite
    ));
    assert!(matches!(
        decide_write_step("load:overwrite", &updates, key, prev(), false, Some(&name)),
        WriteStep::Overwrite
    ));
}

#[test]
fn commits_keep_untouched_tables_and_count_on() {
    let previous = manifest(vec![entry("node", "Person", "nodes/x", 9, 5)]);
    let nodes = vec![TableSummary { label: s("Person"), row_count: 5, field_names: vec![s("id")] }];
    let edges = vec![TableSummary { label: s("Knows"), row_count: 1, field_names: vec![s("id")] }];
    let events = vec![event("insert", "edge", "Knows", Json::Null)];
    let plans = plan_commit(&schema(), &nodes, &edges, &previous, &events, "load:append");
    assert_eq!(plans.len(), 2);
    assert!(matches!(&plans[0].step, WriteStep::Keep(e) if e.dataset_version == 9));
    assert!(matches!(plans[1].step, WriteStep::Overwrite));
    assert_eq!(plans[1].dataset_path, "edges/00000002");
    let counters = IdentityCounters {
        next_node_id: 20,
        next_edge_id: 21,
        next_type_id: 22,
        next_prop_id: 23,
    };
    let next = commit_manifest(&previous, &plans, &vec![0, 7], counters, 3, s("h2"), s("now"));
    assert_eq!(next.db_version, 5);
    assert_eq!(next.last_tx_id, "manifest-5");
    assert_eq!(next.schema_identity_version, 1);
    assert_eq!(next.datasets.len(), 2);
    assert_eq!(next.datasets[0].dataset_version, 9);
    assert_eq!(next.datasets[1].dataset_version, 7);
    assert_eq!(next.next_edge_id, 21);
    let stamped = finalize_cdc_entries_for_manifest(&events, &next);
    assert_eq!(stamped[0].tx_id, "manifest-5");
    assert_eq!(stamped[0].db_version, 5);
    assert_eq!(stamped[0].seq_in_tx, 0);
    assert_eq!(stamped[0].committed_at, "now");
}

#[test]
fn rows_are_taken_from_events() {
    let mut payload = Members::new();
    payload.push("before", Json::Null);
    payload.push("after", row("Bob", "31"));
    let events = vec![
        event("insert", "node", "Person", row("Alice", "30")),
        event("update", "node", "Person", payload.object()),
        event("delete", "node", "Person", Json::Null),
        event("insert", "node", "Person", Json::Bool(true)),
    ];
    let names = vec![s("name"), s("missing")];
    let appended = build_append_batch_from_cdc(&names, &events, &vec![0]).unwrap().unwrap();
    assert_eq!(appended[0][0].as_str().map(String::as_str), Some("Alice"));
    assert!(appended[1][0].is_null());
    let upserted = build_upsert_batch_from_cdc(&names, &events, &vec![0, 1]).unwrap().unwrap();
    assert_eq!(upserted[0][1].as_str().map(String::as_str), Some("Bob"));
    assert!(build_append_batch_from_cdc(&names, &events, &vec![]).unwrap().is_none());
    assert!(build_upsert_batch_from_cdc(&names, &events, &vec![2])
        .unwrap_err()
        .to_string()
        .contains("unsupported CDC op 'delete' for upsert source"));
    assert!(build_append_batch_from_cdc(&names, &events, &vec![3])
        .unwrap_err()
        .to_string()
        .contains("CDC insert payload must be object for node Person"));
}

#[test]
fn field_names_that_occur_twice_are_noticed() {
    assert!(schema_has_duplicate_field_names(&vec![s("id"), s("name"), s("id")]));
    assert!(!schema_has_duplicate_field_names(&vec![s("id"), s("name")]));
}

#[test]
fn loads_are_planned() {
    let db = Database { path: s("db"), schema_ir: schema() };
    assert_eq!(db.default_load_mode(), LoadMode::Merge);
    let plan = db.load("rows");
    assert_eq!(plan.op_summary, "load:merge");
    assert!(matches!(
        plan.source,
        MutationSource::LoadString { mode: LoadMode::Merge, data_source } if data_source == "rows"
    ));
    let file = db.load_file_with_mode("d.jsonl", LoadMode::Append);
    assert_eq!(file.op_summary, "load:append");
    assert!(matches!(
        file.source,
        MutationSource::LoadFile { mode: LoadMode::Append, data_path } if data_path == "d.jsonl"
    ));
    assert!(matches!(
        db.load_file("d.jsonl").source,
        MutationSource::LoadFile { mode: LoadMode::Merge, .. }
    ));
    assert_eq!(db.apply_append_mutation("r", "mutation:insert").op_summary, "mutation:insert");
    assert!(matches!(
        db.apply_merge_mutation("r", "m").source,
        MutationSource::LoadString { mode: LoadMode::Merge, .. }
    ));
    let mut keyless = schema();
    keyless.nodes[0].properties[0].key = false;
    let db = Database { path: s("db"), schema_ir: keyless };
    assert_eq!(db.default_load_mode(), LoadMode::Overwrite);
}

#[test]
fn planned_events_go_before_found_ones() {
    let planned = vec![event("insert", "node", "A", Json::Null)];
    let found = vec![event("delete", "node", "B", Json::Null)];
    assert_eq!(effective_cdc_events(planned, vec![])[0].op, "insert");
    assert_eq!(effective_cdc_events(vec![], found)[0].op, "delete");
}

fn change(version: u64, seq: u32, payload: &str) -> GraphChangeRecord {
    GraphChangeRecord {
        tx_id: GraphTxId(s("tx")),
        graph_version: GraphVersion(version),
        seq_in_tx: seq,
        op: s("insert"),
        entity_kind: s("node"),
        type_label: s("Person"),
        entity_key: s("1"),
        payload: s(payload),
        rowid_if_known: if seq == 0 { None } else { Some(8) },
        committed_at: s("now"),
    }
}

#[test]
fn changes_survive_the_table() {
    let records = vec![change(2, 1, "{\"a\":1}"), change(1, 0, "null")];
    let batch = graph_change_records_to_batch(&records).unwrap();
    let back = graph_change_records_from_batch(&batch).unwrap();
    assert_eq!(back.len(), 2);
    assert_eq!(back[0].graph_version.value(), 2);
    assert_eq!(back[0].payload, "{\"a\":1}");
    assert_eq!(back[0].rowid_if_known, Some(8));
    assert_eq!(back[1].rowid_if_known, None);
    let ordered = read_graph_change_records(&vec![batch]).unwrap();
    assert_eq!(ordered[0].graph_version.value(), 1);
    assert_eq!(ordered[1].graph_version.value(), 2);
    assert!(graph_change_records_to_batch(&vec![]).is_none());
}

#[test]
fn change_payloads_are_rewritten_and_refused() {
    let loose = graph_change_records_to_batch(&vec![change(1, 0, "{ \"b\": 2 }")]).unwrap();
    assert_eq!(graph_change_records_from_batch(&loose).unwrap()[0].payload, "{\"b\":2}");
    let broken = graph_change_records_to_batch(&vec![change(1, 0, "{")]).unwrap();
    assert!(graph_change_records_from_batch(&broken)
        .unwrap_err()
        .to_string()
        .contains("parse graph change payload error: "));
    let empty = Batch { num_rows: 1, columns: vec![] };
    assert!(graph_change_records_from_batch(&empty).is_err());
}

fn commit(version: u64) -> GraphCommitRecord {
    GraphCommitRecord {
        tx_id: GraphTxId(s("tx")),
        graph_version: GraphVersion(version),
        table_versions: vec![GraphTableVersion::new("t", 3)],
        committed_at: s("now"),
        op_summary: s("load:merge"),
        schema_identity_version: 0,
        touched_tables: vec![],
        tx_props: vec![],
    }
}

#[test]
fn commits_survive_the_table() {
    let records = vec![commit(2), commit(1)];
    let batch =
        graph_commit_records_to_batch(&records, vec![s("[2]"), s("[1]")]).unwrap();
    let parsed = vec![
        Ok(vec![GraphTableVersion::new("t", 3)]),
        Ok(vec![GraphTableVersion::new("t", 3)]),
    ];
    let back = graph_commit_records_from_batch(&batch, parsed).unwrap();
    assert_eq!(back.len(), 2);
    assert_eq!(back[0].table_versions[0].version, 3);
    let ordered = order_graph_commit_records(back);
    assert_eq!(ordered[0].graph_version.value(), 1);
    let refused =
        graph_commit_records_from_batch(&batch, vec![Err(s("bad")), Err(s("bad"))]).unwrap_err();
    assert!(refused.to_string().contains("bad"));
}

#[test]
fn tables_are_staged_behind_the_pinned_version() {
    let mut log = entry("internal", "__graph_tx", "g/tx", 5, 9);
    log.table_id = Some(s("__graph_tx"));
    let m = manifest(vec![log]);
    let pinned = pinned_table_version(&m, "__graph_tx");
    assert_eq!(pinned.version, 5);
    assert_eq!(pinned_table_version(&m, "__other").version, 0);
    let e = staged_entry(&m, "__graph_tx", s("g/tx"), 6, 1);
    assert_eq!(e.row_count, 10);
    assert_eq!(e.dataset_version, 6);
    assert_eq!(e.kind, "internal");
    assert_eq!(e.effective_table_id(), "__graph_tx");
    let staged = stage_table("staged graph tx", "__graph_tx", e.copy(), Some(6)).unwrap();
    assert_eq!(staged.published_version, 6);
    assert!(stage_table("staged graph tx", "__graph_tx", e, None)
        .unwrap_err()
        .to_string()
        .contains("staged graph tx __graph_tx version 6 is not publishable"));
}

#[test]
fn internal_entries_replace_those_of_their_table() {
    let mut old = entry("internal", "__graph_tx", "g/tx", 5, 9);
    old.table_id = Some(s("__graph_tx"));
    let new = DatasetEntry::internal("__graph_tx", s("g/tx"), 6, 10);
    let merged =
        merge_internal_entries(vec![entry("node", "Person", "n", 1, 1), old], vec![new]);
    assert_eq!(merged.len(), 2);
    assert_eq!(merged[0].type_label, "Person");
    assert_eq!(merged[1].dataset_version, 6);
    assert!(has_lineage_tables(Ok(Some(StorageGeneration::NamespaceLineage))).unwrap());
    assert!(!has_lineage_tables(Ok(Some(StorageGeneration::V4Namespace))).unwrap());
    assert!(!has_lineage_tables(Ok(None)).unwrap());
    assert!(has_lineage_tables(Err(NanoError::Storage(s("unsupported"))))
        .unwrap_err()
        .to_string()
        .contains("unsupported"));
}

#[test]
fn locations_lead_to_local_paths() {
    assert_eq!(
        namespace_location_to_local_path("/tmp/a b", "file:///tmp/a%20b/t").unwrap().text,
        "/tmp/a b/t"
    );
    assert_eq!(namespace_location_to_local_path("/db", "/x/y").unwrap().text, "/x/y");
    let below = namespace_location_to_local_path("/db", "t").unwrap();
    assert_eq!(below.text, "/db/t");
    assert_eq!(below.bytes, b"/db/t".to_vec());
    let odd = namespace_location_to_local_path("/db", "file:///d/%FFx/t").unwrap();
    assert_eq!(odd.text, "/d/\u{fffd}x/t");
    assert_eq!(odd.bytes, b"/d/\xffx/t".to_vec());
    assert!(local_path_at("/db", "file://host/x", None).is_err());
    assert_eq!(manifest_dataset_path("/tmp/a b", "file:///tmp/a%20b/t", "f"), "t");
    assert_eq!(manifest_dataset_path("/db", "/elsewhere/t", "f"), "f");
    assert_eq!(kept_dataset_path("/db", &LocalPath::of_text(s("/db/n/x")), "f"), "n/x");
}

#[test]
fn storage_layouts_are_read_and_written() {
    assert_eq!(storage_metadata_path("/db"), "/db/storage.generation.json");
    let written = storage_metadata(StorageGeneration::NamespaceLineage);
    assert_eq!(
        read_storage_generation("/db", &MetadataFile::Found(written)).unwrap(),
        Some(StorageGeneration::NamespaceLineage)
    );
    assert_eq!(detect_storage_generation("/db", &MetadataFile::Missing).unwrap(), None);
    assert!(read_storage_generation("/db", &MetadataFile::Malformed(s("oops")))
        .unwrap_err()
        .to_string()
        .contains("parse storage metadata /db/storage.generation.json error: oops"));
    let foreign = StorageMetadata { version: 99, generation: StorageGeneration::V4Namespace };
    assert!(read_storage_generation("/db", &MetadataFile::Found(foreign))
        .unwrap_err()
        .to_string()
        .contains("unsupported storage metadata version 99"));
    assert!(StorageGeneration::V4Namespace.is_namespace_managed());
}

#[test]
fn snapshots_come_from_the_store_of_the_layout() {
    assert_eq!(
        read_committed_graph_snapshot(Ok(Some(StorageGeneration::V4Namespace))).unwrap(),
        SnapshotStore::Namespace
    );
    assert_eq!(read_committed_graph_snapshot(Ok(None)).unwrap(), SnapshotStore::Manifest);
    assert_eq!(
        publish_committed_graph_snapshot(Ok(Some(StorageGeneration::NamespaceLineage))).unwrap(),
        SnapshotStore::Namespace
    );
    assert!(publish_committed_graph_snapshot(Err(NanoError::Storage(s("x")))).is_err());
}

fn snapshots(versions: Vec<u64>, payloads: Vec<&str>) -> Batch {
    let n = versions.len();
    Batch {
        num_rows: n,
        columns: vec![
            Column {
                name: s("graph_version"),
                data: ColumnData::UInt64 { values: versions, valid: vec![true; n] },
            },
            Column {
                name: s("manifest_json"),
                data: ColumnData::Utf8(payloads.iter().map(|p| s(p)).collect()),
            },
        ],
    }
}

#[test]
fn the_latest_snapshot_counts() {
    let batches = vec![snapshots(vec![3, 1], vec!["three", "one"]), snapshots(vec![3, 2], vec!["later", "two"])];
    assert_eq!(latest_snapshot_manifest(&batches).unwrap(), "later");
    assert!(latest_snapshot_manifest(&vec![])
        .unwrap_err()
        .to_string()
        .contains("graph snapshot table is empty"));
    let untyped = Batch {
        num_rows: 1,
        columns: vec![Column { name: s("graph_version"), data: ColumnData::Other }],
    };
    assert!(latest_snapshot_manifest(&vec![untyped])
        .unwrap_err()
        .to_string()
        .contains("graph snapshot graph_version column is not UInt64"));
}

#[test]
fn staging_makes_a_missing_table_first() {
    let empty = manifest(vec![]);
    assert!(matches!(
        stage_graph_commit_record(&empty, commit(1), s("[]"), None),
        StageStep::EnsureTable
    ));
    let made = DatasetEntry::internal("__graph_tx", s("__graph_tx"), 1, 0);
    match stage_graph_commit_record(&empty, commit(1), s("[]"), Some(&made)) {
        StageStep::AppendAt { base, batch } => {
            assert_eq!(base.version, 1);
            assert_eq!(batch.num_rows, 1);
        }
        other => panic!("expected rows to append, got {:?}", other),
    }
    let mut log = entry("internal", "__graph_changes", "g/c", 5, 9);
    log.table_id = Some(s("__graph_changes"));
    let pinned = manifest(vec![log]);
    match stage_graph_change_records(&pinned, &vec![change(1, 0, "1"), change(1, 1, "2")], None) {
        Ok(StageStep::AppendAt { base, batch }) => {
            assert_eq!(base.version, 5);
            assert_eq!(batch.num_rows, 2);
        }
        other => panic!("expected rows to append, got {:?}", other),
    }
    assert!(stage_graph_change_records(&pinned, &vec![], None)
        .unwrap_err()
        .to_string()
        .contains("graph change append expected a batch"));
}

#[test]
fn deleted_rows_are_named_by_their_identity() {
    let mut gone = Members::new();
    gone.push("id", Json::Number(s("7")));
    let events = vec![
        event("insert", "node", "Person", Json::Null),
        event("delete", "node", "Person", gone.object()),
    ];
    assert_eq!(deleted_ids_from_cdc_events(&events, &vec![1]).unwrap(), vec![7]);
    assert!(deleted_ids_from_cdc_events(&events, &vec![1, 0])
        .unwrap_err()
        .to_string()
        .contains("CDC delete payload has no id for node Person"));
}

#[test]
fn changes_that_were_read_are_written_unchanged() {
    let loose = vec![change(1, 1, "{ \"b\": [1, true, \"x\"],\n \"a\": null }")];
    let batch = graph_change_records_to_batch(&loose).unwrap();
    let once = graph_change_records_from_batch(&batch).unwrap();
    let batch = graph_change_records_to_batch(&once).unwrap();
    let twice = graph_change_records_from_batch(&batch).unwrap();
    assert_eq!(once[0].payload, twice[0].payload);
    assert_ne!(once[0].payload, loose[0].payload);
    assert_eq!(once[0].rowid_if_known, Some(8));
    assert_eq!(once[0].entity_key, loose[0].entity_key);
}
