use nanograph::cli::check::{
    build_check_payload, check_result, print_check_lines, CheckVerdict, CheckedQuery,
};
use nanograph::cli::loading::{
    build_delete_payload, build_init_payload, build_load_payload, delete_line, init_lines,
    load_line, render_load_error, LoadErrorOutput,
};
use nanograph::cli::maintenance::{
    build_cleanup_payload, build_compact_payload, build_doctor_payload, build_materialize_payload,
    cleanup_line, compact_line, doctor_lines, doctor_result, materialize_line, CleanupResult,
    CompactResult, DoctorReport, MaterializeResult,
};
use nanograph::cli::migration::{
    migration_exit_code, migration_step_kind, render_migration_execution,
    render_schema_diff_report, schema_compatibility_label, MigrationOutput, MigrationPlan,
    MigrationSafety, MigrationStatus, MigrationStep, PlannedStep, SchemaCompatibility,
    SchemaDiffOutput, SchemaDiffReport, SchemaDiffStep,
};
use nanograph::cli::output::{
    describe_format, find_query, render_results, results_format, rows_format, OutputFormat,
    QueryDecl, RunOutput, TextRow, TextTable,
};
use nanograph::error::NanoError;
use nanograph::json::Json;
use nanograph::store::database::LoadMode;

fn s(text: &str) -> String {
    text.to_string()
}

fn value(j: &Json) -> serde_json::Value {
    match j {
        Json::Null => serde_json::Value::Null,
        Json::Bool(b) => serde_json::Value::Bool(*b),
        Json::Number(n) => serde_json::from_str(n).unwrap(),
        Json::Text(t) => serde_json::Value::String(t.clone()),
        Json::Array(v) => serde_json::Value::Array(v.iter().map(value).collect()),
        Json::Object(v) => {
            serde_json::Value::Object(v.iter().map(|(k, x)| (k.clone(), value(x))).collect())
        }
    }
}

fn compact_text(j: &Json) -> String {
    value(j).to_string()
}

#[test]
fn formats_are_resolved() {
    assert_eq!(describe_format(true, "table").unwrap(), OutputFormat::Json);
    assert_eq!(describe_format(false, "table").unwrap(), OutputFormat::Table);
    assert_eq!(
        describe_format(false, "csv").unwrap_err().to_string(),
        "unknown format: csv (supported: table, json)"
    );
    assert_eq!(rows_format(false, "jsonl").unwrap(), OutputFormat::Jsonl);
    assert_eq!(rows_format(true, "jsonl").unwrap(), OutputFormat::Json);
    assert_eq!(
        rows_format(false, "table").unwrap_err().to_string(),
        "unknown format: table (supported: jsonl, json)"
    );
    assert_eq!(results_format(false, "csv").unwrap(), OutputFormat::Csv);
    assert_eq!(
        results_format(false, "xml").unwrap_err().to_string(),
        "unknown format: xml"
    );
}

fn query() -> QueryDecl {
    QueryDecl {
        name: s("q"),
        description: Some(s("d")),
        instruction: None,
    }
}

fn tables() -> Vec<TextTable> {
    vec![TextTable {
        columns: vec![s("a"), s("b")],
        rows: vec![
            TextRow { cells: vec![s("1"), s("x")] },
            TextRow { cells: vec![s("2"), s("")] },
        ],
    }]
}

#[test]
fn results_are_rendered_in_every_format() {
    match render_results("csv", &query(), &tables(), Vec::new()).unwrap() {
        RunOutput::Lines(v) => assert_eq!(v, vec![s("a,b"), s("1,x"), s("2,")]),
        other => panic!("expected lines, got {:?}", other),
    }
    match render_results("jsonl", &query(), &tables(), Vec::new()).unwrap() {
        RunOutput::JsonLines(v) => {
            let texts: Vec<String> = v.iter().map(compact_text).collect();
            assert_eq!(
                texts,
                vec![
                    s("{\"description\":\"d\",\"instruction\":null,\"query_name\":\"q\"}"),
                    s("{\"a\":\"1\",\"b\":\"x\"}"),
                    s("{\"a\":\"2\",\"b\":\"\"}"),
                ]
            );
        }
        other => panic!("expected JSON lines, got {:?}", other),
    }
    let plain = QueryDecl { name: s("add"), description: None, instruction: None };
    match render_results("jsonl", &plain, &tables(), Vec::new()).unwrap() {
        RunOutput::JsonLines(v) => {
            assert_eq!(v.len(), 3);
            assert_eq!(
                compact_text(&v[0]),
                "{\"description\":null,\"instruction\":null,\"query_name\":\"add\"}"
            );
            assert_eq!(compact_text(&v[1]), "{\"a\":\"1\",\"b\":\"x\"}");
        }
        other => panic!("expected JSON lines, got {:?}", other),
    }
    match render_results("json", &query(), &tables(), vec![Json::Bool(true)]).unwrap() {
        RunOutput::Json(j) => assert_eq!(
            compact_text(&j),
            "{\"description\":\"d\",\"instruction\":null,\"query_name\":\"q\",\"rows\":[true]}"
        ),
        other => panic!("expected JSON, got {:?}", other),
    }
    assert!(matches!(
        render_results("table", &query(), &tables(), Vec::new()).unwrap(),
        RunOutput::Frame
    ));
    match render_results("table", &query(), &Vec::new(), Vec::new()).unwrap() {
        RunOutput::Lines(v) => assert_eq!(v, vec![s("(empty result)")]),
        other => panic!("expected lines, got {:?}", other),
    }
    assert_eq!(
        render_results("x", &query(), &tables(), Vec::new()).unwrap_err().to_string(),
        "unknown format: x"
    );
}

#[test]
fn queries_are_found_by_name() {
    let queries = vec![query(), QueryDecl { name: s("r"), description: None, instruction: None }];
    assert_eq!(find_query(&queries, "r").unwrap(), 1);
    assert_eq!(
        find_query(&queries, "x").unwrap_err().to_string(),
        "query `x` not found"
    );
}

#[test]
fn migration_plans_are_shown() {
    let plan = MigrationPlan {
        db_path: s("db"),
        old_schema_hash: s("h1"),
        new_schema_hash: s("h2"),
        steps: vec![PlannedStep {
            step: MigrationStep::AddProperty,
            safety: MigrationSafety::Safe,
            reason: s("new property"),
        }],
        warnings: vec![s("careful")],
        blocked: vec![],
    };
    match render_migration_execution(MigrationStatus::Applied, &plan, "table").unwrap() {
        MigrationOutput::Table(v) => assert_eq!(
            v,
            vec![
                s("Migration Plan"),
                s("  DB: db"),
                s("  Old schema hash: h1"),
                s("  New schema hash: h2"),
                s(""),
                format!("{:<10} {:<24} DETAIL", "SAFETY", "STEP"),
                format!("{:<10} {:<24} {}", "safe", "AddProperty", "new property"),
                s(""),
                s("Warnings:"),
                s("- careful"),
            ]
        ),
        other => panic!("expected a table, got {:?}", other),
    }
    assert!(matches!(
        render_migration_execution(MigrationStatus::Blocked, &plan, "json").unwrap(),
        MigrationOutput::Json("blocked")
    ));
    assert_eq!(
        render_migration_execution(MigrationStatus::Applied, &plan, "xml")
            .unwrap_err()
            .to_string(),
        "unknown format: xml"
    );
    assert_eq!(migration_exit_code(MigrationStatus::Applied), 0);
    assert_eq!(migration_exit_code(MigrationStatus::NeedsConfirmation), 2);
    assert_eq!(migration_exit_code(MigrationStatus::Blocked), 3);
    assert_eq!(migration_step_kind(MigrationStep::RebindEdgeEndpoints), "RebindEdgeEndpoints");
}

#[test]
fn plans_without_steps_say_so() {
    let plan = MigrationPlan {
        db_path: s("db"),
        old_schema_hash: s("h"),
        new_schema_hash: s("h"),
        steps: vec![],
        warnings: vec![],
        blocked: vec![s("no")],
    };
    match render_migration_execution(MigrationStatus::Applied, &plan, "table").unwrap() {
        MigrationOutput::Table(v) => {
            assert_eq!(v[5], "No migration steps.");
            assert_eq!(v[7], "Blocked:");
            assert_eq!(v[8], "- no");
        }
        other => panic!("expected a table, got {:?}", other),
    }
}

#[test]
fn schema_differences_are_shown() {
    let mut report = SchemaDiffReport {
        old_schema_hash: s("h1"),
        new_schema_hash: s("h2"),
        compatibility: SchemaCompatibility::Breaking,
        has_breaking: true,
        steps: vec![SchemaDiffStep {
            step: MigrationStep::DropProperty,
            classification: SchemaCompatibility::Breaking,
            reason: s("gone"),
            remediation: Some(s("keep it")),
        }],
        warnings: vec![],
        blocked: vec![],
    };
    match render_schema_diff_report(&report, "table").unwrap() {
        SchemaDiffOutput::Table(v) => assert_eq!(
            v,
            vec![
                s("Schema Diff"),
                s("  Old schema hash: h1"),
                s("  New schema hash: h2"),
                s("  Compatibility: breaking"),
                s("  Has breaking: true"),
                s(""),
                format!("{:<28} {:<30} DETAIL", "CLASSIFICATION", "STEP"),
                format!("{:<28} {:<30} {}", "breaking", "DropProperty", "gone"),
                s("  remediation: keep it"),
            ]
        ),
        other => panic!("expected a table, got {:?}", other),
    }
    report.steps = vec![];
    match render_schema_diff_report(&report, "table").unwrap() {
        SchemaDiffOutput::Table(v) => assert_eq!(v[6], "No schema changes."),
        other => panic!("expected a table, got {:?}", other),
    }
    assert!(matches!(
        render_schema_diff_report(&report, "json").unwrap(),
        SchemaDiffOutput::Json
    ));
    assert_eq!(
        render_schema_diff_report(&report, "x").unwrap_err().to_string(),
        "unknown format: x (supported: table, json)"
    );
    assert_eq!(
        schema_compatibility_label(SchemaCompatibility::CompatibleWithConfirmation),
        "compatible_with_confirmation"
    );
}

#[test]
fn checks_are_reported() {
    let queries = vec![
        CheckedQuery { name: s("a"), has_mutation: false, verdict: CheckVerdict::Read },
        CheckedQuery { name: s("b"), has_mutation: true, verdict: CheckVerdict::Mutation },
        CheckedQuery { name: s("c"), has_mutation: true, verdict: CheckVerdict::Failed(s("bad")) },
    ];
    assert_eq!(
        print_check_lines(&queries),
        vec![
            s("OK: query `a` (read)"),
            s("OK: query `b` (mutation)"),
            s("ERROR: query `c`: bad"),
            s("Check complete: 3 queries processed"),
        ]
    );
    let payload = value(&build_check_payload("q.gq", &queries));
    assert_eq!(payload["status"], "error");
    assert_eq!(payload["errors"], 1);
    assert_eq!(payload["queries_processed"], 3);
    assert_eq!(payload["results"][0]["kind"], "read");
    assert_eq!(payload["results"][2]["kind"], "mutation");
    assert_eq!(payload["results"][2]["error"], "bad");
    assert_eq!(
        check_result(&queries).unwrap_err().to_string(),
        "1 query(s) failed typecheck"
    );
    assert!(check_result(&Vec::new()).is_ok());
    let empty = value(&build_check_payload("q.gq", &Vec::new()));
    assert_eq!(empty["status"], "ok");
}

#[test]
fn maintenance_is_reported() {
    let c = CompactResult {
        datasets_considered: 4,
        datasets_compacted: 3,
        fragments_removed: 9,
        fragments_added: 3,
        files_removed: 8,
        files_added: 2,
        manifest_committed: true,
    };
    assert_eq!(
        compact_line("db", c),
        "Compaction complete for db (datasets compacted: 3, fragments -9 +3, files -8 +2, manifest committed: true)"
    );
    let cj = value(&build_compact_payload("db", c));
    assert_eq!(cj["datasets_considered"], 4);
    assert_eq!(cj["manifest_committed"], true);

    let k = CleanupResult {
        tx_rows_removed: 1,
        tx_rows_kept: 2,
        cdc_rows_removed: 3,
        cdc_rows_kept: 4,
        datasets_cleaned: 5,
        dataset_old_versions_removed: 6,
        dataset_bytes_removed: 7,
    };
    assert_eq!(
        cleanup_line("db", k),
        "Cleanup complete for db (tx removed 1, cdc removed 3, datasets cleaned 5, old versions removed 6, bytes removed 7)"
    );
    let kj = value(&build_cleanup_payload("db", k));
    assert_eq!(kj["cdc_rows_kept"], 4);
    assert_eq!(kj["dataset_bytes_removed"], 7);

    let mut m = MaterializeResult {
        source_rows: 10,
        previously_materialized_rows: 4,
        new_rows_since_last_run: 6,
        materialized_rows: 10,
        dataset_written: true,
        skipped_by_threshold: false,
        dataset_version: Some(3),
    };
    assert_eq!(
        materialize_line("db", 5, m),
        "CDC analytics materialized for db (rows 10, dataset written true, version Some(3))"
    );
    m.dataset_version = None;
    assert_eq!(
        materialize_line("db", 5, m),
        "CDC analytics materialized for db (rows 10, dataset written true, version None)"
    );
    m.skipped_by_threshold = true;
    assert_eq!(
        materialize_line("db", 50, m),
        "CDC analytics materialization skipped for db (new rows 6, threshold 50)"
    );
    let mj = value(&build_materialize_payload("db", m));
    assert_eq!(mj["dataset_version"], serde_json::Value::Null);
    assert_eq!(mj["skipped_by_threshold"], true);
}

#[test]
fn health_is_reported() {
    let mut d = DoctorReport {
        healthy: true,
        manifest_db_version: 7,
        datasets_checked: 2,
        tx_rows: 3,
        cdc_rows: 4,
        issues: vec![],
        warnings: vec![s("old")],
    };
    assert_eq!(
        doctor_lines("db", &d),
        vec![
            s("Doctor OK for db (db_version 7, datasets checked 2, tx rows 3, cdc rows 4)"),
            s("WARN: old"),
        ]
    );
    assert!(doctor_result(&d).is_ok());
    d.healthy = false;
    d.issues = vec![s("broken"), s("lost")];
    assert_eq!(
        doctor_lines("db", &d),
        vec![
            s("Doctor found issues for db (db_version 7, datasets checked 2, tx rows 3, cdc rows 4)"),
            s("ISSUE: broken"),
            s("ISSUE: lost"),
            s("WARN: old"),
        ]
    );
    assert_eq!(
        doctor_result(&d).unwrap_err().to_string(),
        "doctor detected 2 issue(s)"
    );
    let j = value(&build_doctor_payload("db", &d));
    assert_eq!(j["status"], "error");
    assert_eq!(j["issues"][1], "lost");
    assert_eq!(j["tx_rows"], 3);
}

#[test]
fn loading_is_reported() {
    assert_eq!(load_line("db"), "Loaded data into db");
    let j = value(&build_load_payload("db", "d.jsonl", LoadMode::Merge));
    assert_eq!(j["mode"], "merge");
    assert_eq!(j["data_path"], "d.jsonl");
    assert_eq!(
        init_lines("db", &vec![s("a"), s("b")]),
        vec![s("Initialized database at db"), s("Generated a"), s("Generated b")]
    );
    let i = value(&build_init_payload("db", "s.pg", &vec![s("a")]));
    assert_eq!(i["generated_files"][0], "a");
    assert_eq!(
        delete_line("db", 2, 3),
        "Deleted 2 node(s) and 3 edge(s) in db"
    );
    let d = value(&build_delete_payload("db", "Person", 2, 3));
    assert_eq!(d["type_name"], "Person");
    assert_eq!(d["deleted_edges"], 3);
}

#[test]
fn unique_violations_are_explained() {
    let err = NanoError::UniqueConstraint {
        type_label: s("Person"),
        property: s("email"),
        value: s("a@b"),
        first_row: 1,
        second_row: 4,
    };
    match render_load_error("db", &err, false) {
        LoadErrorOutput::Lines(v) => assert_eq!(
            v,
            vec![
                s("Load failed for db."),
                s("Unique constraint violation: Person.email has duplicate value 'a@b'."),
                s("Conflicting rows in loaded dataset: 1 and 4."),
            ]
        ),
        other => panic!("expected lines, got {:?}", other),
    }
    match render_load_error("db", &err, true) {
        LoadErrorOutput::Json(j) => {
            let v = value(&j);
            assert_eq!(v["error_kind"], "unique_constraint");
            assert_eq!(v["second_row"], 4);
        }
        other => panic!("expected JSON, got {:?}", other),
    }
    assert!(matches!(
        render_load_error("db", &NanoError::Storage(s("x")), false),
        LoadErrorOutput::Nothing
    ));
}
