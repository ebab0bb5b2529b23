//! What the commands that make, fill and empty a database report.

use crate::cli::lines::push_line;
use crate::error::{ErrorModel, NanoError};
use crate::json::{json_number, json_string, json_strings, texts, unsigned, Json, JsonModel, Members};
use crate::store::database::{mode_label, LoadMode};
use crate::text::{cat2, cat3, cat5, cat7, decimal, decimal_u64, views};
use vstd::prelude::*;

verus! {

/// What is told of a new database.
pub open spec fn init_payload(db_path: Seq<char>, schema_path: Seq<char>, generated: Seq<Seq<char>>) -> JsonModel {
    JsonModel::Object(
        seq![
            ("status"@, JsonModel::Text("ok"@)),
            ("db_path"@, JsonModel::Text(db_path)),
            ("schema_path"@, JsonModel::Text(schema_path)),
            ("generated_files"@, texts(generated)),
        ],
    )
}

pub fn build_init_payload(db_path: &str, schema_path: &str, generated: &Vec<String>) -> (r: Json)
    ensures
        r@ == init_payload(db_path@, schema_path@, views(generated@)),
{
    let mut m = Members::new();
    m.push("status", json_string("ok"));
    m.push("db_path", json_string(db_path));
    m.push("schema_path", json_string(schema_path));
    m.push("generated_files", json_strings(generated));
    assert(m@ =~= init_payload(db_path@, schema_path@, views(generated@))->Object_0);
    m.object()
}

/// The lines, and behind them one for each file from `i` on.
pub open spec fn with_generated(acc: Seq<Seq<char>>, files: Seq<Seq<char>>, i: int) -> Seq<Seq<char>>
    decreases files.len() - i,
{
    if i < 0 || i >= files.len() {
        acc
    } else {
        with_generated(acc.push("Generated "@ + files[i]), files, i + 1)
    }
}

/// The lines on a new database.
pub fn init_lines(db_path: &str, generated: &Vec<String>) -> (r: Vec<String>)
    ensures
        views(r@) == with_generated(
            Seq::<Seq<char>>::empty().push("Initialized database at "@ + db_path@),
            views(generated@),
            0,
        ),
{
    let mut out: Vec<String> = Vec::new();
    assert(views(out@) =~= Seq::<Seq<char>>::empty());
    push_line(&mut out, cat2("Initialized database at ", db_path));
    let ghost before = views(out@);
    let mut i: usize = 0;
    while i < generated.len()
        invariant
            i <= generated@.len(),
            with_generated(before, views(generated@), 0) == with_generated(
                views(out@),
                views(generated@),
                i as int,
            ),
        decreases generated@.len() - i,
    {
        assert(views(generated@)[i as int] == generated@[i as int]@);
        push_line(&mut out, cat2("Generated ", &generated[i]));
        i = i + 1;
    }
    out
}

/// What is told of a load.
pub open spec fn load_payload(db_path: Seq<char>, data_path: Seq<char>, mode: LoadMode) -> JsonModel {
    JsonModel::Object(
        seq![
            ("status"@, JsonModel::Text("ok"@)),
            ("db_path"@, JsonModel::Text(db_path)),
            ("data_path"@, JsonModel::Text(data_path)),
            ("mode"@, JsonModel::Text(mode_label(mode))),
        ],
    )
}

pub fn build_load_payload(db_path: &str, data_path: &str, mode: LoadMode) -> (r: Json)
    ensures
        r@ == load_payload(db_path@, data_path@, mode),
{
    let mut m = Members::new();
    m.push("status", json_string("ok"));
    m.push("db_path", json_string(db_path));
    m.push("data_path", json_string(data_path));
    m.push("mode", json_string(mode.label()));
    assert(m@ =~= load_payload(db_path@, data_path@, mode)->Object_0);
    m.object()
}

/// The line on a load.
pub fn load_line(db_path: &str) -> (r: String)
    ensures
        r@ == "Loaded data into "@ + db_path@,
{
    cat2("Loaded data into ", db_path)
}

/// What is told of a load that would have put one value twice where it may stand once.
pub open spec fn load_error_payload(
    db_path: Seq<char>,
    label: Seq<char>,
    property: Seq<char>,
    value: Seq<char>,
    first_row: nat,
    second_row: nat,
) -> JsonModel {
    JsonModel::Object(
        seq![
            ("status"@, JsonModel::Text("error"@)),
            ("error_kind"@, JsonModel::Text("unique_constraint"@)),
            ("db_path"@, JsonModel::Text(db_path)),
            ("type_name"@, JsonModel::Text(label)),
            ("property"@, JsonModel::Text(property)),
            ("value"@, JsonModel::Text(value)),
            ("first_row"@, unsigned(first_row)),
            ("second_row"@, unsigned(second_row)),
        ],
    )
}

/// The lines on such a load.
pub open spec fn load_error_lines(
    db_path: Seq<char>,
    label: Seq<char>,
    property: Seq<char>,
    value: Seq<char>,
    first_row: nat,
    second_row: nat,
) -> Seq<Seq<char>> {
    Seq::<Seq<char>>::empty().push("Load failed for "@ + db_path + "."@).push(
        "Unique constraint violation: "@ + label + "."@ + property + " has duplicate value '"@
            + value + "'."@,
    ).push(
        "Conflicting rows in loaded dataset: "@ + decimal(first_row) + " and "@ + decimal(
            second_row,
        ) + "."@,
    )
}

/// What a load that failed reports besides its error.
#[derive(Debug)]
pub enum LoadErrorOutput {
    /// Nothing.
    Nothing,
    /// As JSON.
    Json(Json),
    /// As lines.
    Lines(Vec<String>),
}

/// What a load that failed reports: which value stands twice, if that is why it failed.
pub fn render_load_error(db_path: &str, err: &NanoError, json: bool) -> (r: LoadErrorOutput)
    ensures
        match err@ {
            ErrorModel::UniqueConstraint { type_label, property, value, first_row, second_row } => if json {
                r matches LoadErrorOutput::Json(j) && j@ == load_error_payload(
                    db_path@,
                    type_label,
                    property,
                    value,
                    first_row as nat,
                    second_row as nat,
                )
            } else {
                r matches LoadErrorOutput::Lines(v) && views(v@) == load_error_lines(
                    db_path@,
                    type_label,
                    property,
                    value,
                    first_row as nat,
                    second_row as nat,
                )
            },
            _ => r is Nothing,
        },
{
    match err {
        NanoError::UniqueConstraint { type_label, property, value, first_row, second_row } => {
            if json {
                let mut m = Members::new();
                m.push("status", json_string("error"));
                m.push("error_kind", json_string("unique_constraint"));
                m.push("db_path", json_string(db_path));
                m.push("type_name", json_string(type_label));
                m.push("property", json_string(property));
                m.push("value", json_string(value));
                m.push("first_row", json_number(*first_row));
                m.push("second_row", json_number(*second_row));
                assert(m@ =~= load_error_payload(
                    db_path@,
                    type_label@,
                    property@,
                    value@,
                    *first_row as nat,
                    *second_row as nat,
                )->Object_0);
                LoadErrorOutput::Json(m.object())
            } else {
                let mut out: Vec<String> = Vec::new();
                assert(views(out@) =~= Seq::<Seq<char>>::empty());
                push_line(&mut out, cat3("Load failed for ", db_path, "."));
                push_line(
                    &mut out,
                    cat7(
                        "Unique constraint violation: ",
                        type_label,
                        ".",
                        property,
                        " has duplicate value '",
                        value,
                        "'.",
                    ),
                );
                push_line(
                    &mut out,
                    cat5(
                        "Conflicting rows in loaded dataset: ",
                        &decimal_u64(*first_row),
                        " and ",
                        &decimal_u64(*second_row),
                        ".",
                    ),
                );
                LoadErrorOutput::Lines(out)
            }
        },
        _ => LoadErrorOutput::Nothing,
    }
}

/// What is told of a deletion.
pub open spec fn delete_payload(db_path: Seq<char>, label: Seq<char>, nodes: nat, edges: nat) -> JsonModel {
    JsonModel::Object(
        seq![
            ("status"@, JsonModel::Text("ok"@)),
            ("db_path"@, JsonModel::Text(db_path)),
            ("type_name"@, JsonModel::Text(label)),
            ("deleted_nodes"@, unsigned(nodes)),
            ("deleted_edges"@, unsigned(edges)),
        ],
    )
}

pub fn build_delete_payload(
    db_path: &str,
    label: &str,
    deleted_nodes: usize,
    deleted_edges: usize,
) -> (r: Json)
    ensures
        r@ == delete_payload(db_path@, label@, deleted_nodes as nat, deleted_edges as nat),
{
    let mut m = Members::new();
    m.push("status", json_string("ok"));
    m.push("db_path", json_string(db_path));
    m.push("type_name", json_string(label));
    m.push("deleted_nodes", json_number(deleted_nodes as u64));
    m.push("deleted_edges", json_number(deleted_edges as u64));
    assert(m@ =~= delete_payload(
        db_path@,
        label@,
        deleted_nodes as nat,
        deleted_edges as nat,
    )->Object_0);
    m.object()
}

/// The line on a deletion.
pub fn delete_line(db_path: &str, deleted_nodes: usize, deleted_edges: usize) -> (r: String)
    ensures
        r@ == "Deleted "@ + decimal(deleted_nodes as nat) + " node(s) and "@ + decimal(
            deleted_edges as nat,
        ) + " edge(s) in "@ + db_path@,
{
    let mut s = cat5(
        "Deleted ",
        &decimal_u64(deleted_nodes as u64),
        " node(s) and ",
        &decimal_u64(deleted_edges as u64),
        " edge(s) in ",
    );
    s.append(db_path);
    s
}

} // verus!
