//! The format of output, and the results of a query.

use crate::cli::error::CliError;
use crate::cli::lines::{join, join_of, push_line};
use crate::json::{json_array, json_optional, json_string, optional_text, with_member, Json, JsonModel, Members};
use crate::text::{cat2, cat3, lemma_views_push, opt_view, same, views};
use vstd::prelude::*;

verus! {

// ---------------------------------------------------------------------------
// Formats

/// A format of output.
#[derive(Debug, Clone, Copy, PartialEq, Eq, Structural)]
pub enum OutputFormat {
    Table,
    Csv,
    Jsonl,
    Json,
}

/// The format that counts: the flag for JSON goes before any other.
pub open spec fn effective_format(json: bool, format: Seq<char>) -> Seq<char> {
    if json {
        "json"@
    } else {
        format
    }
}

fn effective<'a>(json: bool, format: &'a str) -> (r: &'a str)
    ensures
        r@ == effective_format(json, format@),
{
    if json {
        "json"
    } else {
        format
    }
}

/// The format of a description: a table or JSON.
pub fn describe_format(json: bool, format: &str) -> (r: Result<OutputFormat, CliError>)
    ensures
        ({
            let f = effective_format(json, format@);
            match r {
                Ok(OutputFormat::Json) => f == "json"@,
                Ok(OutputFormat::Table) => f == "table"@ && f != "json"@,
                Ok(_) => false,
                Err(e) => f != "json"@ && f != "table"@ && e@ == "unknown format: "@ + f
                    + " (supported: table, json)"@,
            }
        }),
{
    let f = effective(json, format);
    if same(f, "json") {
        Ok(OutputFormat::Json)
    } else if same(f, "table") {
        Ok(OutputFormat::Table)
    } else {
        Err(CliError::new(cat3("unknown format: ", f, " (supported: table, json)")))
    }
}

/// The format of rows of JSON: one to a line, or all of them in an array.
pub fn rows_format(json: bool, format: &str) -> (r: Result<OutputFormat, CliError>)
    ensures
        ({
            let f = effective_format(json, format@);
            match r {
                Ok(OutputFormat::Jsonl) => f == "jsonl"@,
                Ok(OutputFormat::Json) => f == "json"@ && f != "jsonl"@,
                Ok(_) => false,
                Err(e) => f != "json"@ && f != "jsonl"@ && e@ == "unknown format: "@ + f
                    + " (supported: jsonl, json)"@,
            }
        }),
{
    let f = effective(json, format);
    if same(f, "jsonl") {
        Ok(OutputFormat::Jsonl)
    } else if same(f, "json") {
        Ok(OutputFormat::Json)
    } else {
        Err(CliError::new(cat3("unknown format: ", f, " (supported: jsonl, json)")))
    }
}

/// The format of the results of a query.
pub open spec fn named_format(f: Seq<char>) -> Option<OutputFormat> {
    if f == "table"@ {
        Some(OutputFormat::Table)
    } else if f == "csv"@ {
        Some(OutputFormat::Csv)
    } else if f == "jsonl"@ {
        Some(OutputFormat::Jsonl)
    } else if f == "json"@ {
        Some(OutputFormat::Json)
    } else {
        None
    }
}

/// The format of the results of a query.
pub fn results_format(json: bool, format: &str) -> (r: Result<OutputFormat, CliError>)
    ensures
        ({
            let f = effective_format(json, format@);
            match r {
                Ok(o) => named_format(f) == Some(o),
                Err(e) => named_format(f) is None && e@ == "unknown format: "@ + f,
            }
        }),
{
    let f = effective(json, format);
    if same(f, "table") {
        Ok(OutputFormat::Table)
    } else if same(f, "csv") {
        Ok(OutputFormat::Csv)
    } else if same(f, "jsonl") {
        Ok(OutputFormat::Jsonl)
    } else if same(f, "json") {
        Ok(OutputFormat::Json)
    } else {
        Err(CliError::new(cat2("unknown format: ", f)))
    }
}

// ---------------------------------------------------------------------------
// Queries

/// A query of a file, and what its author says of it.
#[derive(Debug)]
pub struct QueryDecl {
    pub name: String,
    pub description: Option<String>,
    pub instruction: Option<String>,
}

/// The mathematical value of a `QueryDecl`.
pub struct QueryModel {
    pub name: Seq<char>,
    pub description: Option<Seq<char>>,
    pub instruction: Option<Seq<char>>,
}

impl View for QueryDecl {
    type V = QueryModel;

    open spec fn view(&self) -> QueryModel {
        QueryModel {
            name: self.name@,
            description: opt_view(self.description),
            instruction: opt_view(self.instruction),
        }
    }
}

/// The position from `i` on of the query of a name.
pub open spec fn query_position(queries: Seq<QueryModel>, name: Seq<char>, i: int) -> Option<int>
    decreases queries.len() - i,
{
    if i < 0 || i >= queries.len() {
        None
    } else if queries[i].name == name {
        Some(i)
    } else {
        query_position(queries, name, i + 1)
    }
}

/// The position of the query of a name.
pub fn find_query(queries: &Vec<QueryDecl>, name: &str) -> (r: Result<usize, CliError>)
    ensures
        match r {
            Ok(i) => query_position(views(queries@), name@, 0) == Some(i as int) && i
                < queries@.len(),
            Err(e) => query_position(views(queries@), name@, 0) is None && e@ == "query `"@ + name@
                + "` not found"@,
        },
{
    let mut i: usize = 0;
    while i < queries.len()
        invariant
            i <= queries@.len(),
            query_position(views(queries@), name@, 0) == query_position(
                views(queries@),
                name@,
                i as int,
            ),
        decreases queries@.len() - i,
    {
        assert(views(queries@)[i as int] == queries@[i as int]@);
        if same(&queries[i].name, name) {
            return Ok(i);
        }
        i = i + 1;
    }
    Err(CliError::new(cat3("query `", name, "` not found")))
}

/// The lines that tell of a query.
pub open spec fn preamble_lines(q: QueryModel) -> Seq<Seq<char>> {
    let a = Seq::<Seq<char>>::empty().push("Query: "@ + q.name);
    let b = match q.description {
        Some(d) => a.push("Description: "@ + d),
        None => a,
    };
    match q.instruction {
        Some(i) => b.push("Instruction: "@ + i),
        None => b,
    }
}

/// Whether the author of a query says anything of it.
pub open spec fn has_metadata(q: QueryModel) -> bool {
    q.description is Some || q.instruction is Some
}

/// What is printed before the results of a query: what its author says of it, where a
/// person reads the output and there is anything said.
pub open spec fn preamble(q: QueryModel, format: Seq<char>, json: bool) -> Option<Seq<char>> {
    if json || format != "table"@ || !has_metadata(q) {
        None
    } else {
        Some(join_of(preamble_lines(q), "\n"@) + "\n\n"@)
    }
}

/// What is printed before the results of a query.
pub fn query_execution_preamble(query: &QueryDecl, format: &str, json: bool) -> (r: Option<String>)
    ensures
        opt_view(r) == preamble(query@, format@, json),
{
    if json || !same(format, "table") {
        return None;
    }
    if query.description.is_none() && query.instruction.is_none() {
        return None;
    }
    let mut lines: Vec<String> = Vec::new();
    assert(views(lines@) =~= Seq::<Seq<char>>::empty());
    push_line(&mut lines, cat2("Query: ", &query.name));
    if let Some(description) = &query.description {
        push_line(&mut lines, cat2("Description: ", description));
    }
    if let Some(instruction) = &query.instruction {
        push_line(&mut lines, cat2("Instruction: ", instruction));
    }
    Some(cat2(&join(&lines, "\n"), "\n\n"))
}

// ---------------------------------------------------------------------------
// Results

/// Rows of texts under the names of their columns.
#[derive(Debug)]
pub struct TextTable {
    pub columns: Vec<String>,
    pub rows: Vec<TextRow>,
}

/// A row of texts.
#[derive(Debug)]
pub struct TextRow {
    pub cells: Vec<String>,
}

/// The mathematical value of a `TextTable`.
pub struct TextTableModel {
    pub columns: Seq<Seq<char>>,
    pub rows: Seq<Seq<Seq<char>>>,
}

impl View for TextRow {
    type V = Seq<Seq<char>>;

    open spec fn view(&self) -> Seq<Seq<char>> {
        views(self.cells@)
    }
}

impl View for TextTable {
    type V = TextTableModel;

    open spec fn view(&self) -> TextTableModel {
        TextTableModel { columns: views(self.columns@), rows: views(self.rows@) }
    }
}

/// Whether every row of a table has a cell for every column.
pub open spec fn text_table_ok(t: TextTableModel) -> bool {
    forall|i: int| 0 <= i < t.rows.len() ==> (#[trigger] t.rows[i]).len() == t.columns.len()
}

/// The lines, and behind them those of the rows from `i` on, with commas between cells.
pub open spec fn with_csv_rows(acc: Seq<Seq<char>>, rows: Seq<Seq<Seq<char>>>, i: int) -> Seq<
    Seq<char>,
>
    decreases rows.len() - i,
{
    if i < 0 || i >= rows.len() {
        acc
    } else {
        with_csv_rows(acc.push(join_of(rows[i], ","@)), rows, i + 1)
    }
}

/// The lines, and behind them those of the tables from `i` on: each has a line for the
/// names of its columns and one for each row.
pub open spec fn with_csv(acc: Seq<Seq<char>>, tables: Seq<TextTableModel>, i: int) -> Seq<Seq<char>>
    decreases tables.len() - i,
{
    if i < 0 || i >= tables.len() {
        acc
    } else {
        with_csv(
            with_csv_rows(acc.push(join_of(tables[i].columns, ","@)), tables[i].rows, 0),
            tables,
            i + 1,
        )
    }
}

fn push_csv(out: &mut Vec<String>, table: &TextTable)
    ensures
        views(final(out)@) == with_csv_rows(
            views(old(out)@).push(join_of(table@.columns, ","@)),
            table@.rows,
            0,
        ),
{
    push_line(out, join(&table.columns, ","));
    let ghost before = views(out@);
    let mut i: usize = 0;
    while i < table.rows.len()
        invariant
            i <= table.rows@.len(),
            with_csv_rows(before, table@.rows, 0) == with_csv_rows(
                views(out@),
                table@.rows,
                i as int,
            ),
        decreases table.rows@.len() - i,
    {
        assert(table@.rows[i as int] == table.rows@[i as int]@);
        push_line(out, join(&table.rows[i].cells, ","));
        i = i + 1;
    }
}

/// The lines of tables with commas between cells.
pub fn print_csv(tables: &Vec<TextTable>) -> (r: Vec<String>)
    ensures
        views(r@) == with_csv(Seq::empty(), views(tables@), 0),
{
    let mut out: Vec<String> = Vec::new();
    let mut i: usize = 0;
    assert(views(out@) =~= Seq::<Seq<char>>::empty());
    while i < tables.len()
        invariant
            i <= tables@.len(),
            with_csv(Seq::empty(), views(tables@), 0) == with_csv(
                views(out@),
                views(tables@),
                i as int,
            ),
        decreases tables@.len() - i,
    {
        assert(views(tables@)[i as int] == tables@[i as int]@);
        push_csv(&mut out, &tables[i]);
        i = i + 1;
    }
    out
}

/// The first `n` cells of a row by the names of their columns.
pub open spec fn row_members(columns: Seq<Seq<char>>, row: Seq<Seq<char>>, n: int) -> Seq<
    (Seq<char>, JsonModel),
>
    decreases n,
{
    if n <= 0 || n > columns.len() {
        Seq::empty()
    } else {
        with_member(row_members(columns, row, n - 1), columns[n - 1], JsonModel::Text(row[n - 1]))
    }
}

/// A row as JSON.
pub open spec fn row_object(columns: Seq<Seq<char>>, row: Seq<Seq<char>>) -> JsonModel {
    JsonModel::Object(row_members(columns, row, columns.len() as int))
}

/// The rows so far, and behind them those of a table from `i` on.
pub open spec fn with_row_objects(acc: Seq<JsonModel>, t: TextTableModel, i: int) -> Seq<JsonModel>
    decreases t.rows.len() - i,
{
    if i < 0 || i >= t.rows.len() {
        acc
    } else {
        with_row_objects(acc.push(row_object(t.columns, t.rows[i])), t, i + 1)
    }
}

/// The rows so far, and behind them those of the tables from `i` on.
pub open spec fn with_tables(acc: Seq<JsonModel>, tables: Seq<TextTableModel>, i: int) -> Seq<JsonModel>
    decreases tables.len() - i,
{
    if i < 0 || i >= tables.len() {
        acc
    } else {
        with_tables(with_row_objects(acc, tables[i], 0), tables, i + 1)
    }
}

/// What is told of a query as JSON.
pub open spec fn query_members(q: QueryModel) -> Seq<(Seq<char>, JsonModel)> {
    Seq::<(Seq<char>, JsonModel)>::empty().push(("query_name"@, JsonModel::Text(q.name))).push(
        ("description"@, optional_text(q.description)),
    ).push(("instruction"@, optional_text(q.instruction)))
}

fn tell_query(query: &QueryDecl) -> (r: Members)
    ensures
        r@ == query_members(query@),
{
    let mut m = Members::new();
    m.push("query_name", json_string(&query.name));
    m.push("description", json_optional(&query.description));
    m.push("instruction", json_optional(&query.instruction));
    m
}

fn make_row(columns: &Vec<String>, row: &TextRow) -> (r: Json)
    requires
        row.cells@.len() == columns@.len(),
    ensures
        r@ == row_object(views(columns@), row@),
{
    let mut m = Members::new();
    let mut i: usize = 0;
    while i < columns.len()
        invariant
            i <= columns@.len(),
            row.cells@.len() == columns@.len(),
            m@ == row_members(views(columns@), row@, i as int),
        decreases columns@.len() - i,
    {
        assert(views(columns@)[i as int] == columns@[i as int]@);
        assert(row@[i as int] == row.cells@[i as int]@);
        m.set(&columns[i], json_string(&row.cells[i]));
        i = i + 1;
    }
    m.object()
}

fn push_rows(out: &mut Vec<Json>, table: &TextTable)
    requires
        text_table_ok(table@),
    ensures
        views(final(out)@) == with_row_objects(views(old(out)@), table@, 0),
{
    let ghost before = views(out@);
    let mut i: usize = 0;
    while i < table.rows.len()
        invariant
            i <= table.rows@.len(),
            text_table_ok(table@),
            with_row_objects(before, table@, 0) == with_row_objects(views(out@), table@, i as int),
        decreases table.rows@.len() - i,
    {
        assert(table@.rows[i as int] == table.rows@[i as int]@);
        assert(table@.rows[i as int].len() == table@.columns.len());
        let row = make_row(&table.columns, &table.rows[i]);
        proof {
            lemma_views_push(out@, row);
        }
        out.push(row);
        i = i + 1;
    }
}

/// The records of a query and its results: one that tells of the query, then one for each
/// row, its cells as texts.
pub fn print_jsonl(query: &QueryDecl, tables: &Vec<TextTable>) -> (r: Vec<Json>)
    requires
        forall|i: int| 0 <= i < tables@.len() ==> text_table_ok((#[trigger] tables@[i])@),
    ensures
        views(r@) == with_tables(
            Seq::<JsonModel>::empty().push(JsonModel::Object(query_members(query@))),
            views(tables@),
            0,
        ),
{
    let mut out: Vec<Json> = Vec::new();
    assert(views(out@) =~= Seq::<JsonModel>::empty());
    let header = tell_query(query).object();
    proof {
        lemma_views_push(out@, header);
    }
    out.push(header);
    let ghost before = views(out@);
    let mut i: usize = 0;
    while i < tables.len()
        invariant
            i <= tables@.len(),
            forall|i: int| 0 <= i < tables@.len() ==> text_table_ok((#[trigger] tables@[i])@),
            with_tables(before, views(tables@), 0) == with_tables(
                views(out@),
                views(tables@),
                i as int,
            ),
        decreases tables@.len() - i,
    {
        assert(views(tables@)[i as int] == tables@[i as int]@);
        push_rows(&mut out, &tables[i]);
        i = i + 1;
    }
    out
}

/// A query and its results as one JSON object.
pub fn print_json(query: &QueryDecl, rows: Vec<Json>) -> (r: Json)
    ensures
        r@ == JsonModel::Object(
            query_members(query@).push(("rows"@, JsonModel::Array(views(rows@)))),
        ),
{
    let mut m = tell_query(query);
    m.push("rows", json_array(rows));
    m.object()
}

/// The results of a query as they are printed.
#[derive(Debug)]
pub enum RunOutput {
    /// Lines of text.
    Lines(Vec<String>),
    /// A table with a frame, which the caller draws.
    Frame,
    /// One JSON value to a line.
    JsonLines(Vec<Json>),
    /// One JSON value.
    Json(Json),
}

/// Shows the results of a query in a format: the same results as tables of texts and as
/// JSON rows.
pub fn render_results(
    format: &str,
    query: &QueryDecl,
    tables: &Vec<TextTable>,
    rows: Vec<Json>,
) -> (r: Result<RunOutput, CliError>)
    requires
        forall|i: int| 0 <= i < tables@.len() ==> text_table_ok((#[trigger] tables@[i])@),
    ensures
        match named_format(format@) {
            None => r matches Err(e) && e@ == "unknown format: "@ + format@,
            Some(OutputFormat::Table) => if tables@.len() == 0 {
                r matches Ok(RunOutput::Lines(v)) && views(v@) == Seq::<Seq<char>>::empty().push(
                    "(empty result)"@,
                )
            } else {
                r matches Ok(RunOutput::Frame)
            },
            Some(OutputFormat::Csv) => r matches Ok(RunOutput::Lines(v)) && views(v@) == with_csv(
                Seq::empty(),
                views(tables@),
                0,
            ),
            Some(OutputFormat::Jsonl) => r matches Ok(RunOutput::JsonLines(v)) && views(v@)
                == with_tables(
                Seq::<JsonModel>::empty().push(JsonModel::Object(query_members(query@))),
                views(tables@),
                0,
            ),
            Some(OutputFormat::Json) => r matches Ok(RunOutput::Json(j)) && j@ == JsonModel::Object(
                query_members(query@).push(("rows"@, JsonModel::Array(views(rows@)))),
            ),
        },
{
    match results_format(false, format) {
        Err(e) => Err(e),
        Ok(OutputFormat::Table) => {
            if tables.len() == 0 {
                let mut out: Vec<String> = Vec::new();
                assert(views(out@) =~= Seq::<Seq<char>>::empty());
                push_line(&mut out, "(empty result)".to_owned());
                Ok(RunOutput::Lines(out))
            } else {
                Ok(RunOutput::Frame)
            }
        },
        Ok(OutputFormat::Csv) => Ok(RunOutput::Lines(print_csv(tables))),
        Ok(OutputFormat::Jsonl) => Ok(RunOutput::JsonLines(print_jsonl(query, tables))),
        Ok(OutputFormat::Json) => Ok(RunOutput::Json(print_json(query, rows))),
    }
}

} // verus!
