//! What the commands that keep a database in order report.

use crate::cli::error::CliError;
use crate::cli::lines::{bool_str, bool_text, push_line};
use crate::json::{json_number, json_string, json_strings, texts, unsigned, Json, JsonModel, Members};
use crate::text::{cat2, cat3, decimal, decimal_u64, views};
use vstd::prelude::*;

verus! {

// ---------------------------------------------------------------------------
// Compaction

/// What a compaction did.
#[derive(Debug, Clone, Copy)]
pub struct CompactResult {
    pub datasets_considered: usize,
    pub datasets_compacted: usize,
    pub fragments_removed: usize,
    pub fragments_added: usize,
    pub files_removed: usize,
    pub files_added: usize,
    pub manifest_committed: bool,
}

/// What is told of a compaction.
pub open spec fn compact_payload(db_path: Seq<char>, c: CompactResult) -> JsonModel {
    JsonModel::Object(
        seq![
            ("status"@, JsonModel::Text("ok"@)),
            ("db_path"@, JsonModel::Text(db_path)),
            ("datasets_considered"@, unsigned(c.datasets_considered as nat)),
            ("datasets_compacted"@, unsigned(c.datasets_compacted as nat)),
            ("fragments_removed"@, unsigned(c.fragments_removed as nat)),
            ("fragments_added"@, unsigned(c.fragments_added as nat)),
            ("files_removed"@, unsigned(c.files_removed as nat)),
            ("files_added"@, unsigned(c.files_added as nat)),
            ("manifest_committed"@, JsonModel::Bool(c.manifest_committed)),
        ],
    )
}

pub fn build_compact_payload(db_path: &str, c: CompactResult) -> (r: Json)
    ensures
        r@ == compact_payload(db_path@, c),
{
    let mut m = Members::new();
    m.push("status", json_string("ok"));
    m.push("db_path", json_string(db_path));
    m.push("datasets_considered", json_number(c.datasets_considered as u64));
    m.push("datasets_compacted", json_number(c.datasets_compacted as u64));
    m.push("fragments_removed", json_number(c.fragments_removed as u64));
    m.push("fragments_added", json_number(c.fragments_added as u64));
    m.push("files_removed", json_number(c.files_removed as u64));
    m.push("files_added", json_number(c.files_added as u64));
    m.push("manifest_committed", Json::Bool(c.manifest_committed));
    assert(m@ =~= compact_payload(db_path@, c)->Object_0);
    m.object()
}

/// The line on a compaction.
pub open spec fn compact_text(db_path: Seq<char>, c: CompactResult) -> Seq<char> {
    "Compaction complete for "@ + db_path + " (datasets compacted: "@ + decimal(
        c.datasets_compacted as nat,
    ) + ", fragments -"@ + decimal(c.fragments_removed as nat) + " +"@ + decimal(
        c.fragments_added as nat,
    ) + ", files -"@ + decimal(c.files_removed as nat) + " +"@ + decimal(c.files_added as nat)
        + ", manifest committed: "@ + bool_text(c.manifest_committed) + ")"@
}

pub fn compact_line(db_path: &str, c: CompactResult) -> (r: String)
    ensures
        r@ == compact_text(db_path@, c),
{
    let mut s = cat3("Compaction complete for ", db_path, " (datasets compacted: ");
    s.append(decimal_u64(c.datasets_compacted as u64).as_str());
    s.append(", fragments -");
    s.append(decimal_u64(c.fragments_removed as u64).as_str());
    s.append(" +");
    s.append(decimal_u64(c.fragments_added as u64).as_str());
    s.append(", files -");
    s.append(decimal_u64(c.files_removed as u64).as_str());
    s.append(" +");
    s.append(decimal_u64(c.files_added as u64).as_str());
    s.append(", manifest committed: ");
    s.append(bool_str(c.manifest_committed));
    s.append(")");
    s
}

// ---------------------------------------------------------------------------
// Cleanup

/// What a cleanup did.
#[derive(Debug, Clone, Copy)]
pub struct CleanupResult {
    pub tx_rows_removed: usize,
    pub tx_rows_kept: usize,
    pub cdc_rows_removed: usize,
    pub cdc_rows_kept: usize,
    pub datasets_cleaned: usize,
    pub dataset_old_versions_removed: u64,
    pub dataset_bytes_removed: u64,
}

/// What is told of a cleanup.
pub open spec fn cleanup_payload(db_path: Seq<char>, c: CleanupResult) -> JsonModel {
    JsonModel::Object(
        seq![
            ("status"@, JsonModel::Text("ok"@)),
            ("db_path"@, JsonModel::Text(db_path)),
            ("tx_rows_removed"@, unsigned(c.tx_rows_removed as nat)),
            ("tx_rows_kept"@, unsigned(c.tx_rows_kept as nat)),
            ("cdc_rows_removed"@, unsigned(c.cdc_rows_removed as nat)),
            ("cdc_rows_kept"@, unsigned(c.cdc_rows_kept as nat)),
            ("datasets_cleaned"@, unsigned(c.datasets_cleaned as nat)),
            ("dataset_old_versions_removed"@, unsigned(c.dataset_old_versions_removed as nat)),
            ("dataset_bytes_removed"@, unsigned(c.dataset_bytes_removed as nat)),
        ],
    )
}

pub fn build_cleanup_payload(db_path: &str, c: CleanupResult) -> (r: Json)
    ensures
        r@ == cleanup_payload(db_path@, c),
{
    let mut m = Members::new();
    m.push("status", json_string("ok"));
    m.push("db_path", json_string(db_path));
    m.push("tx_rows_removed", json_number(c.tx_rows_removed as u64));
    m.push("tx_rows_kept", json_number(c.tx_rows_kept as u64));
    m.push("cdc_rows_removed", json_number(c.cdc_rows_removed as u64));
    m.push("cdc_rows_kept", json_number(c.cdc_rows_kept as u64));
    m.push("datasets_cleaned", json_number(c.datasets_cleaned as u64));
    m.push("dataset_old_versions_removed", json_number(c.dataset_old_versions_removed));
    m.push("dataset_bytes_removed", json_number(c.dataset_bytes_removed));
    assert(m@ =~= cleanup_payload(db_path@, c)->Object_0);
    m.object()
}

/// The line on a cleanup.
pub open spec fn cleanup_text(db_path: Seq<char>, c: CleanupResult) -> Seq<char> {
    "Cleanup complete for "@ + db_path + " (tx removed "@ + decimal(c.tx_rows_removed as nat)
        + ", cdc removed "@ + decimal(c.cdc_rows_removed as nat) + ", datasets cleaned "@ + decimal(
        c.datasets_cleaned as nat,
    ) + ", old versions removed "@ + decimal(c.dataset_old_versions_removed as nat)
        + ", bytes removed "@ + decimal(c.dataset_bytes_removed as nat) + ")"@
}

pub fn cleanup_line(db_path: &str, c: CleanupResult) -> (r: String)
    ensures
        r@ == cleanup_text(db_path@, c),
{
    let mut s = cat3("Cleanup complete for ", db_path, " (tx removed ");
    s.append(decimal_u64(c.tx_rows_removed as u64).as_str());
    s.append(", cdc removed ");
    s.append(decimal_u64(c.cdc_rows_removed as u64).as_str());
    s.append(", datasets cleaned ");
    s.append(decimal_u64(c.datasets_cleaned as u64).as_str());
    s.append(", old versions removed ");
    s.append(decimal_u64(c.dataset_old_versions_removed).as_str());
    s.append(", bytes removed ");
    s.append(decimal_u64(c.dataset_bytes_removed).as_str());
    s.append(")");
    s
}

// ---------------------------------------------------------------------------
// Materialized changes

/// What became of the table of changes.
#[derive(Debug, Clone, Copy)]
pub struct MaterializeResult {
    pub source_rows: usize,
    pub previously_materialized_rows: usize,
    pub new_rows_since_last_run: usize,
    pub materialized_rows: usize,
    pub dataset_written: bool,
    pub skipped_by_threshold: bool,
    pub dataset_version: Option<u64>,
}

/// A version, or null.
pub open spec fn optional_number(n: Option<u64>) -> JsonModel {
    match n {
        Some(v) => unsigned(v as nat),
        None => JsonModel::Null,
    }
}

/// What is told of the table of changes.
pub open spec fn materialize_payload(db_path: Seq<char>, c: MaterializeResult) -> JsonModel {
    JsonModel::Object(
        seq![
            ("status"@, JsonModel::Text("ok"@)),
            ("db_path"@, JsonModel::Text(db_path)),
            ("source_rows"@, unsigned(c.source_rows as nat)),
            ("previously_materialized_rows"@, unsigned(c.previously_materialized_rows as nat)),
            ("new_rows_since_last_run"@, unsigned(c.new_rows_since_last_run as nat)),
            ("materialized_rows"@, unsigned(c.materialized_rows as nat)),
            ("dataset_written"@, JsonModel::Bool(c.dataset_written)),
            ("skipped_by_threshold"@, JsonModel::Bool(c.skipped_by_threshold)),
            ("dataset_version"@, optional_number(c.dataset_version)),
        ],
    )
}

pub fn build_materialize_payload(db_path: &str, c: MaterializeResult) -> (r: Json)
    ensures
        r@ == materialize_payload(db_path@, c),
{
    let version = match c.dataset_version {
        Some(v) => json_number(v),
        None => Json::Null,
    };
    let mut m = Members::new();
    m.push("status", json_string("ok"));
    m.push("db_path", json_string(db_path));
    m.push("source_rows", json_number(c.source_rows as u64));
    m.push("previously_materialized_rows", json_number(c.previously_materialized_rows as u64));
    m.push("new_rows_since_last_run", json_number(c.new_rows_since_last_run as u64));
    m.push("materialized_rows", json_number(c.materialized_rows as u64));
    m.push("dataset_written", Json::Bool(c.dataset_written));
    m.push("skipped_by_threshold", Json::Bool(c.skipped_by_threshold));
    m.push("dataset_version", version);
    assert(m@ =~= materialize_payload(db_path@, c)->Object_0);
    m.object()
}

/// An optional number as it is shown.
pub open spec fn option_text(n: Option<u64>) -> Seq<char> {
    match n {
        Some(v) => "Some("@ + decimal(v as nat) + ")"@,
        None => "None"@,
    }
}

/// The line on the table of changes.
pub open spec fn materialize_text(db_path: Seq<char>, min_new_rows: usize, c: MaterializeResult) -> Seq<
    char,
> {
    if c.skipped_by_threshold {
        "CDC analytics materialization skipped for "@ + db_path + " (new rows "@ + decimal(
            c.new_rows_since_last_run as nat,
        ) + ", threshold "@ + decimal(min_new_rows as nat) + ")"@
    } else {
        "CDC analytics materialized for "@ + db_path + " (rows "@ + decimal(
            c.materialized_rows as nat,
        ) + ", dataset written "@ + bool_text(c.dataset_written) + ", version "@ + option_text(
            c.dataset_version,
        ) + ")"@
    }
}

pub fn materialize_line(db_path: &str, min_new_rows: usize, c: MaterializeResult) -> (r: String)
    ensures
        r@ == materialize_text(db_path@, min_new_rows, c),
{
    if c.skipped_by_threshold {
        let mut s = cat3("CDC analytics materialization skipped for ", db_path, " (new rows ");
        s.append(decimal_u64(c.new_rows_since_last_run as u64).as_str());
        s.append(", threshold ");
        s.append(decimal_u64(min_new_rows as u64).as_str());
        s.append(")");
        s
    } else {
        let version = match c.dataset_version {
            Some(v) => cat3("Some(", &decimal_u64(v), ")"),
            None => "None".to_owned(),
        };
        let mut s = cat3("CDC analytics materialized for ", db_path, " (rows ");
        s.append(decimal_u64(c.materialized_rows as u64).as_str());
        s.append(", dataset written ");
        s.append(bool_str(c.dataset_written));
        s.append(", version ");
        s.append(&version);
        s.append(")");
        s
    }
}

// ---------------------------------------------------------------------------
// Health

/// What an examination of a database found.
#[derive(Debug)]
pub struct DoctorReport {
    pub healthy: bool,
    pub manifest_db_version: u64,
    pub datasets_checked: usize,
    pub tx_rows: usize,
    pub cdc_rows: usize,
    pub issues: Vec<String>,
    pub warnings: Vec<String>,
}

/// The mathematical value of a `DoctorReport`.
pub struct DoctorModel {
    pub healthy: bool,
    pub manifest_db_version: u64,
    pub datasets_checked: nat,
    pub tx_rows: nat,
    pub cdc_rows: nat,
    pub issues: Seq<Seq<char>>,
    pub warnings: Seq<Seq<char>>,
}

impl View for DoctorReport {
    type V = DoctorModel;

    open spec fn view(&self) -> DoctorModel {
        DoctorModel {
            healthy: self.healthy,
            manifest_db_version: self.manifest_db_version,
            datasets_checked: self.datasets_checked as nat,
            tx_rows: self.tx_rows as nat,
            cdc_rows: self.cdc_rows as nat,
            issues: views(self.issues@),
            warnings: views(self.warnings@),
        }
    }
}

/// What is told of an examination.
pub open spec fn doctor_payload(db_path: Seq<char>, d: DoctorModel) -> JsonModel {
    JsonModel::Object(
        seq![
            (
                "status"@,
                JsonModel::Text(
                    if d.healthy {
                        "ok"@
                    } else {
                        "error"@
                    },
                ),
            ),
            ("db_path"@, JsonModel::Text(db_path)),
            ("healthy"@, JsonModel::Bool(d.healthy)),
            ("manifest_db_version"@, unsigned(d.manifest_db_version as nat)),
            ("datasets_checked"@, unsigned(d.datasets_checked)),
            ("tx_rows"@, unsigned(d.tx_rows)),
            ("cdc_rows"@, unsigned(d.cdc_rows)),
            ("issues"@, texts(d.issues)),
            ("warnings"@, texts(d.warnings)),
        ],
    )
}

pub fn build_doctor_payload(db_path: &str, d: &DoctorReport) -> (r: Json)
    ensures
        r@ == doctor_payload(db_path@, d@),
{
    let mut m = Members::new();
    m.push(
        "status",
        json_string(
            if d.healthy {
                "ok"
            } else {
                "error"
            },
        ),
    );
    m.push("db_path", json_string(db_path));
    m.push("healthy", Json::Bool(d.healthy));
    m.push("manifest_db_version", json_number(d.manifest_db_version));
    m.push("datasets_checked", json_number(d.datasets_checked as u64));
    m.push("tx_rows", json_number(d.tx_rows as u64));
    m.push("cdc_rows", json_number(d.cdc_rows as u64));
    m.push("issues", json_strings(&d.issues));
    m.push("warnings", json_strings(&d.warnings));
    assert(m@ =~= doctor_payload(db_path@, d@)->Object_0);
    m.object()
}

/// The lines, and behind them one for each item from `i` on, under a label.
pub open spec fn with_labelled(
    acc: Seq<Seq<char>>,
    label: Seq<char>,
    items: Seq<Seq<char>>,
    i: int,
) -> Seq<Seq<char>>
    decreases items.len() - i,
{
    if i < 0 || i >= items.len() {
        acc
    } else {
        with_labelled(acc.push(label + items[i]), label, items, i + 1)
    }
}

/// The lines on an examination. Issues are shown of a database that is not healthy,
/// warnings of every one.
pub open spec fn doctor_text(db_path: Seq<char>, d: DoctorModel) -> Seq<Seq<char>> {
    let counts = db_path + " (db_version "@ + decimal(d.manifest_db_version as nat)
        + ", datasets checked "@ + decimal(d.datasets_checked) + ", tx rows "@ + decimal(d.tx_rows)
        + ", cdc rows "@ + decimal(d.cdc_rows) + ")"@;
    let none: Seq<Seq<char>> = Seq::empty();
    let head = if d.healthy {
        none.push("Doctor OK for "@ + counts)
    } else {
        with_labelled(none.push("Doctor found issues for "@ + counts), "ISSUE: "@, d.issues, 0)
    };
    with_labelled(head, "WARN: "@, d.warnings, 0)
}

fn push_labelled(out: &mut Vec<String>, label: &str, items: &Vec<String>)
    ensures
        views(final(out)@) == with_labelled(views(old(out)@), label@, views(items@), 0),
{
    let ghost before = views(out@);
    let mut i: usize = 0;
    while i < items.len()
        invariant
            i <= items@.len(),
            with_labelled(before, label@, views(items@), 0) == with_labelled(
                views(out@),
                label@,
                views(items@),
                i as int,
            ),
        decreases items@.len() - i,
    {
        assert(views(items@)[i as int] == items@[i as int]@);
        push_line(out, cat2(label, &items[i]));
        i = i + 1;
    }
}

pub fn doctor_lines(db_path: &str, d: &DoctorReport) -> (r: Vec<String>)
    ensures
        views(r@) == doctor_text(db_path@, d@),
{
    let mut counts = cat3(db_path, " (db_version ", &decimal_u64(d.manifest_db_version));
    counts.append(", datasets checked ");
    counts.append(decimal_u64(d.datasets_checked as u64).as_str());
    counts.append(", tx rows ");
    counts.append(decimal_u64(d.tx_rows as u64).as_str());
    counts.append(", cdc rows ");
    counts.append(decimal_u64(d.cdc_rows as u64).as_str());
    counts.append(")");
    let mut out: Vec<String> = Vec::new();
    assert(views(out@) =~= Seq::<Seq<char>>::empty());
    if d.healthy {
        push_line(&mut out, cat2("Doctor OK for ", &counts));
    } else {
        push_line(&mut out, cat2("Doctor found issues for ", &counts));
        push_labelled(&mut out, "ISSUE: ", &d.issues);
    }
    push_labelled(&mut out, "WARN: ", &d.warnings);
    out
}

/// Whether an examination ends well: with a healthy database.
pub fn doctor_result(d: &DoctorReport) -> (r: Result<(), CliError>)
    ensures
        match r {
            Ok(()) => d@.healthy,
            Err(e) => !d@.healthy && e@ == "doctor detected "@ + decimal(d@.issues.len())
                + " issue(s)"@,
        },
{
    assert(d@.issues.len() == d.issues@.len());
    if d.healthy {
        Ok(())
    } else {
        Err(
            CliError::new(
                cat3("doctor detected ", &decimal_u64(d.issues.len() as u64), " issue(s)"),
            ),
        )
    }
}

} // verus!
