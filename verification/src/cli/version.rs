//! The version of the program and of a database.

use crate::cli::lines::{push_line, show_number};
use crate::json::{items_of, json_array, json_at, json_get, json_number, json_string, number_or_zero, text_or_empty, unsigned, Json, JsonModel, Members};
use crate::store::manifest::{DatasetEntry, DatasetEntryModel, GraphManifest, ManifestModel};
use crate::text::{cat2, cat4, cat5, decimal, views};
use vstd::prelude::*;

verus! {

/// What is told of a table.
pub open spec fn dataset_version_payload(e: DatasetEntryModel) -> JsonModel {
    JsonModel::Object(
        seq![
            ("kind"@, JsonModel::Text(e.kind)),
            ("type_name"@, JsonModel::Text(e.type_label)),
            ("type_id"@, unsigned(e.type_id as nat)),
            ("dataset_path"@, JsonModel::Text(e.dataset_path)),
            ("dataset_version"@, unsigned(e.dataset_version as nat)),
            ("row_count"@, unsigned(e.row_count as nat)),
        ],
    )
}

/// What is told of a database.
pub open spec fn database_version_payload(path: Seq<char>, m: ManifestModel) -> JsonModel {
    JsonModel::Object(
        seq![
            ("path"@, JsonModel::Text(path)),
            ("format_version"@, unsigned(m.format_version as nat)),
            ("db_version"@, unsigned(m.db_version as nat)),
            ("last_tx_id"@, JsonModel::Text(m.last_tx_id)),
            ("committed_at"@, JsonModel::Text(m.committed_at)),
            ("schema_ir_hash"@, JsonModel::Text(m.schema_ir_hash)),
            ("schema_identity_version"@, unsigned(m.schema_identity_version as nat)),
            ("next_node_id"@, unsigned(m.next_node_id as nat)),
            ("next_edge_id"@, unsigned(m.next_edge_id as nat)),
            ("next_type_id"@, unsigned(m.next_type_id as nat)),
            ("next_prop_id"@, unsigned(m.next_prop_id as nat)),
            ("dataset_count"@, unsigned(m.datasets.len())),
            (
                "dataset_versions"@,
                JsonModel::Array(
                    Seq::new(m.datasets.len(), |i: int| dataset_version_payload(m.datasets[i])),
                ),
            ),
        ],
    )
}

/// What is told of the program, and of a database where one is given.
pub open spec fn program_version_payload(
    binary_version: Seq<char>,
    db: Option<(Seq<char>, ManifestModel)>,
) -> JsonModel {
    match db {
        Some((path, m)) => JsonModel::Object(
            seq![
                ("binary_version"@, JsonModel::Text(binary_version)),
                ("db"@, database_version_payload(path, m)),
            ],
        ),
        None => JsonModel::Object(seq![("binary_version"@, JsonModel::Text(binary_version))]),
    }
}

fn tell_dataset(e: &DatasetEntry) -> (r: Json)
    ensures
        r@ == dataset_version_payload(e@),
{
    let mut m = Members::new();
    m.push("kind", json_string(&e.kind));
    m.push("type_name", json_string(&e.type_label));
    m.push("type_id", json_number(e.type_id as u64));
    m.push("dataset_path", json_string(&e.dataset_path));
    m.push("dataset_version", json_number(e.dataset_version));
    m.push("row_count", json_number(e.row_count));
    assert(m@ =~= dataset_version_payload(e@)->Object_0);
    m.object()
}

fn tell_datasets(v: &Vec<DatasetEntry>) -> (r: Json)
    ensures
        r@ == JsonModel::Array(
            Seq::new(v@.len(), |i: int| dataset_version_payload(views(v@)[i])),
        ),
{
    let mut out: Vec<Json> = Vec::new();
    let mut i: usize = 0;
    while i < v.len()
        invariant
            i <= v@.len(),
            out@.len() == i,
            forall|k: int| 0 <= k < i ==> (#[trigger] out@[k])@ == dataset_version_payload(v@[k]@),
        decreases v@.len() - i,
    {
        out.push(tell_dataset(&v[i]));
        i = i + 1;
    }
    let r = json_array(out);
    assert(r@->Array_0 =~= Seq::new(v@.len(), |i: int| dataset_version_payload(views(v@)[i])));
    r
}

fn tell_database(path: &str, m: &GraphManifest) -> (r: Json)
    ensures
        r@ == database_version_payload(path@, m@),
{
    let mut o = Members::new();
    o.push("path", json_string(path));
    o.push("format_version", json_number(m.format_version as u64));
    o.push("db_version", json_number(m.db_version));
    o.push("last_tx_id", json_string(&m.last_tx_id));
    o.push("committed_at", json_string(&m.committed_at));
    o.push("schema_ir_hash", json_string(&m.schema_ir_hash));
    o.push("schema_identity_version", json_number(m.schema_identity_version as u64));
    o.push("next_node_id", json_number(m.next_node_id));
    o.push("next_edge_id", json_number(m.next_edge_id));
    o.push("next_type_id", json_number(m.next_type_id as u64));
    o.push("next_prop_id", json_number(m.next_prop_id as u64));
    o.push("dataset_count", json_number(m.datasets.len() as u64));
    o.push("dataset_versions", tell_datasets(&m.datasets));
    assert(o@ =~= database_version_payload(path@, m@)->Object_0);
    o.object()
}

/// The path and the manifest of a database.
pub open spec fn database_view(db: Option<(&str, &GraphManifest)>) -> Option<
    (Seq<char>, ManifestModel),
> {
    match db {
        Some((path, m)) => Some((path@, m@)),
        None => None,
    }
}

/// What is told of the program, and of a database where one is given.
pub fn build_version_payload(binary_version: &str, db: Option<(&str, &GraphManifest)>) -> (r: Json)
    ensures
        r@ == program_version_payload(binary_version@, database_view(db)),
{
    let mut m = Members::new();
    m.push("binary_version", json_string(binary_version));
    match db {
        Some((path, manifest)) => {
            m.push("db", tell_database(path, manifest));
        },
        None => {},
    }
    assert(m@ =~= program_version_payload(binary_version@, database_view(db))->Object_0);
    m.object()
}

// ---------------------------------------------------------------------------
// As text

/// The line of a table.
pub open spec fn dataset_line(entry: JsonModel) -> Seq<char> {
    "  - "@ + text_or_empty(json_at(entry, "kind"@)) + " "@ + text_or_empty(
        json_at(entry, "type_name"@),
    ) + ": v"@ + decimal(number_or_zero(json_at(entry, "dataset_version"@))) + " (rows="@ + decimal(
        number_or_zero(json_at(entry, "row_count"@)),
    ) + ")"@
}

/// The lines of a database.
pub open spec fn database_lines(db: JsonModel) -> Seq<Seq<char>> {
    let entries = items_of(json_at(db, "dataset_versions"@));
    Seq::<Seq<char>>::empty().push("Database: "@ + text_or_empty(json_at(db, "path"@))).push(
        "Manifest: format v"@ + decimal(number_or_zero(json_at(db, "format_version"@)))
            + ", db_version "@ + decimal(number_or_zero(json_at(db, "db_version"@))),
    ).push(
        "Last TX: "@ + text_or_empty(json_at(db, "last_tx_id"@)) + " @ "@ + text_or_empty(
            json_at(db, "committed_at"@),
        ),
    ).push(
        "Schema hash: "@ + text_or_empty(json_at(db, "schema_ir_hash"@)) + " (identity v"@
            + decimal(number_or_zero(json_at(db, "schema_identity_version"@))) + ")"@,
    ).push(
        "Next IDs: node="@ + decimal(number_or_zero(json_at(db, "next_node_id"@))) + " edge="@
            + decimal(number_or_zero(json_at(db, "next_edge_id"@))) + " type="@ + decimal(
            number_or_zero(json_at(db, "next_type_id"@)),
        ) + " prop="@ + decimal(number_or_zero(json_at(db, "next_prop_id"@))),
    ).push("Datasets: "@ + decimal(number_or_zero(json_at(db, "dataset_count"@)))) + Seq::new(
        entries.len(),
        |i: int| dataset_line(entries[i]),
    )
}

/// The lines of a version payload.
pub open spec fn version_lines(payload: JsonModel) -> Seq<Seq<char>> {
    let first = Seq::<Seq<char>>::empty().push(
        "nanograph "@ + text_or_empty(json_at(payload, "binary_version"@)),
    );
    match json_get(payload, "db"@) {
        Some(db) => first + database_lines(db),
        None => first,
    }
}

fn show_dataset(entry: &Json) -> (r: String)
    ensures
        r@ == dataset_line(entry@),
{
    let mut line = cat5(
        "  - ",
        &entry.at("kind").text_or_empty(),
        " ",
        &entry.at("type_name").text_or_empty(),
        ": v",
    );
    line.append(show_number(entry.at("dataset_version")).as_str());
    line.append(" (rows=");
    line.append(show_number(entry.at("row_count")).as_str());
    line.append(")");
    line
}

/// The lines of a version payload.
pub fn print_version_table(payload: &Json) -> (r: Vec<String>)
    ensures
        views(r@) == version_lines(payload@),
{
    let mut out: Vec<String> = Vec::new();
    assert(views(out@) =~= Seq::<Seq<char>>::empty());
    push_line(&mut out, cat2("nanograph ", &payload.at("binary_version").text_or_empty()));
    let ghost first = views(out@);
    match payload.get("db") {
        None => {},
        Some(db) => {
            push_line(&mut out, cat2("Database: ", &db.at("path").text_or_empty()));
            push_line(
                &mut out,
                cat4(
                    "Manifest: format v",
                    &show_number(db.at("format_version")),
                    ", db_version ",
                    &show_number(db.at("db_version")),
                ),
            );
            push_line(
                &mut out,
                cat4(
                    "Last TX: ",
                    &db.at("last_tx_id").text_or_empty(),
                    " @ ",
                    &db.at("committed_at").text_or_empty(),
                ),
            );
            push_line(
                &mut out,
                cat5(
                    "Schema hash: ",
                    &db.at("schema_ir_hash").text_or_empty(),
                    " (identity v",
                    &show_number(db.at("schema_identity_version")),
                    ")",
                ),
            );
            let mut ids = cat4(
                "Next IDs: node=",
                &show_number(db.at("next_node_id")),
                " edge=",
                &show_number(db.at("next_edge_id")),
            );
            ids.append(" type=");
            ids.append(show_number(db.at("next_type_id")).as_str());
            ids.append(" prop=");
            ids.append(show_number(db.at("next_prop_id")).as_str());
            push_line(&mut out, ids);
            push_line(&mut out, cat2("Datasets: ", &show_number(db.at("dataset_count"))));
            let ghost entries = items_of(json_at(db@, "dataset_versions"@));
            let ghost expected = database_lines(db@);
            assert(views(out@) =~= first + expected.take(6));
            match db.at("dataset_versions").as_array() {
                Some(v) => {
                    let mut i: usize = 0;
                    assert(views(v@).len() == v@.len());
                    while i < v.len()
                        invariant
                            i <= v@.len(),
                            entries == views(v@),
                            expected.len() == 6 + entries.len(),
                            forall|k: int|
                                0 <= k < entries.len() ==> expected[6 + k] == dataset_line(
                                    #[trigger] entries[k],
                                ),
                            views(out@) == first + expected.take(6 + i),
                        decreases v@.len() - i,
                    {
                        assert(entries[i as int] == v@[i as int]@);
                        let line = show_dataset(&v[i]);
                        assert(first + expected.take(6 + i + 1) =~= (first + expected.take(
                            6 + i,
                        )).push(line@));
                        push_line(&mut out, line);
                        i = i + 1;
                    }
                },
                None => {},
            }
            assert(expected.take(expected.len() as int) =~= expected);
        },
    }
    out
}

} // verus!
