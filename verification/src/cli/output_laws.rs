//! What is printed: each part in its place, nothing left out.

use crate::cli::changes::{changes_window, in_window};
use crate::cli::check::{check_lines, CheckModel, VerdictModel};
use crate::cli::diagnostic::marked_bytes;
use crate::cli::lines::{bool_text, join_first, join_of, padded};
use crate::cli::loading::{load_error_lines, with_generated};
use crate::cli::maintenance::{cleanup_text, compact_text, doctor_text, materialize_text, with_labelled, CleanupResult, CompactResult, DoctorModel, MaterializeResult};
use crate::cli::migration::{columns, compatibility_text, diff_lines, plan_lines, safety_text, status_text, step_text, with_bullets, with_diff_steps, with_items, with_steps, MigrationPlanModel, MigrationSafety, MigrationStatus, MigrationStep, PlannedStepModel, SchemaCompatibility, SchemaDiffModel, SchemaDiffStepModel};
use crate::cli::output::{effective_format, named_format, preamble, preamble_lines, query_members, query_position, row_members, row_object, with_csv, with_csv_rows, with_row_objects, with_tables, OutputFormat, QueryModel, TextTableModel};
use crate::cli::payload_laws::{law_told_database_is_the_committed_one, law_told_tables_are_their_own, law_versions_are_told};
use crate::cli::version::{program_version_payload, version_lines};
use crate::error::SourceSpan;
use crate::json::{lemma_member_kept, lemma_member_set, member, number_or_zero, JsonModel};
use crate::store::manifest::ManifestModel;
use crate::strings::{has_prefix, has_suffix};
use crate::text::{decimal, law_decimals_are_read_back};
use vstd::prelude::*;

verus! {

// ---------------------------------------------------------------------------
// Lines

/// Whether a text holds another.
pub open spec fn holds(s: Seq<char>, w: Seq<char>) -> bool {
    exists|i: int| 0 <= i && i + w.len() <= s.len() && #[trigger] s.subrange(i, i + w.len() as int) == w
}

proof fn lemma_holds(s: Seq<char>, before: Seq<char>, w: Seq<char>, behind: Seq<char>)
    requires
        s == before + w + behind,
    ensures
        holds(s, w),
{
    let i = before.len() as int;
    assert(s.subrange(i, i + w.len() as int) =~= w);
}

proof fn lemma_join_of_prefix(parts: Seq<Seq<char>>, separator: Seq<char>, n: int, m: int)
    requires
        0 <= n <= m <= parts.len(),
    ensures
        join_first(parts.take(m), separator, n) == join_first(parts, separator, n),
    decreases n,
{
    if n > 1 {
        lemma_join_of_prefix(parts, separator, n - 1, m);
    }
}

/// One part joined is that part, and what two lists make up is what each of them makes up,
/// with the separator between them.
pub proof fn law_parts_are_joined(a: Seq<Seq<char>>, b: Seq<Seq<char>>, separator: Seq<char>)
    ensures
        join_of(Seq::empty(), separator) == Seq::<char>::empty(),
        a.len() == 1 ==> join_of(a, separator) == a[0],
        a.len() > 0 && b.len() > 0 ==> join_of(a + b, separator) == join_of(a, separator) + separator
            + join_of(b, separator),
    decreases b.len(),
{
    if a.len() > 0 && b.len() > 0 {
        let c = a + b;
        let n = c.len() as int;
        lemma_join_of_prefix(c, separator, n - 1, n - 1);
        assert(c.take(n - 1) =~= a + b.drop_last());
        assert(c[n - 1] == b.last());
        if b.len() == 1 {
            assert(a + b.drop_last() =~= a);
            assert(join_of(c, separator) =~= join_of(a, separator) + separator + join_of(
                b,
                separator,
            ));
        } else {
            law_parts_are_joined(a, b.drop_last(), separator);
            lemma_join_of_prefix(b, separator, b.len() - 1, b.len() - 1);
            assert(b.take(b.len() - 1) =~= b.drop_last());
            assert(join_of(c, separator) =~= join_of(a, separator) + separator + join_of(
                b,
                separator,
            ));
        }
    }
}

/// A padded text starts with the text, is as wide as asked for where the text is not wider,
/// and has only blanks behind it.
pub proof fn law_padding_is_blank(s: Seq<char>, width: nat)
    ensures
        padded(s, width).len() == (if s.len() >= width {
            s.len()
        } else {
            width
        }),
        has_prefix(padded(s, width), s),
        forall|i: int| s.len() <= i < padded(s, width).len() ==> #[trigger] padded(s, width)[i] == ' ',
    decreases width - s.len(),
{
    if s.len() < width {
        law_padding_is_blank(s.push(' '), width);
        let p = padded(s, width);
        assert(p.take(s.len() as int + 1) == s.push(' '));
        assert(p.take(s.len() as int) =~= s.push(' ').take(s.len() as int));
        assert(s.push(' ').take(s.len() as int) =~= s);
        assert(p.take(s.len() as int + 1)[s.len() as int] == p[s.len() as int]);
    } else {
        assert(s.take(s.len() as int) =~= s);
    }
}

/// Truth values are written `true` and `false`.
pub proof fn law_truth_is_written(b: bool)
    ensures
        bool_text(b) == "true"@ <==> b,
        bool_text(b) == "false"@ <==> !b,
{
    reveal_strlit("true");
    reveal_strlit("false");
    assert("true"@.len() == 4 && "false"@.len() == 5);
}

// ---------------------------------------------------------------------------
// Results

/// The names of the formats stand for their formats, and no other name for any. The switch
/// for JSON counts more than the name.
pub proof fn law_formats_have_their_names(f: Seq<char>)
    ensures
        named_format(f) == Some(OutputFormat::Table) <==> f == "table"@,
        named_format(f) == Some(OutputFormat::Csv) <==> f == "csv"@,
        named_format(f) == Some(OutputFormat::Jsonl) <==> f == "jsonl"@,
        named_format(f) == Some(OutputFormat::Json) <==> f == "json"@,
        named_format(f) is Some <==> f == "table"@ || f == "csv"@ || f == "jsonl"@ || f == "json"@,
        named_format(effective_format(true, f)) == Some(OutputFormat::Json),
        effective_format(false, f) == f,
{
    reveal_strlit("table");
    reveal_strlit("csv");
    reveal_strlit("jsonl");
    reveal_strlit("json");
    assert("table"@.len() == 5 && "table"@[0] == 't');
    assert("jsonl"@.len() == 5 && "jsonl"@[0] == 'j');
    assert("csv"@.len() == 3 && "json"@.len() == 4);
}

/// A query is found by its name, the first of that name, and by no other.
pub proof fn law_queries_are_found_by_name(queries: Seq<QueryModel>, name: Seq<char>, from: int)
    requires
        0 <= from <= queries.len(),
    ensures
        match query_position(queries, name, from) {
            Some(i) => from <= i < queries.len() && queries[i].name == name && forall|j: int|
                from <= j < i ==> (#[trigger] queries[j]).name != name,
            None => forall|j: int|
                from <= j < queries.len() ==> (#[trigger] queries[j]).name != name,
        },
    decreases queries.len() - from,
{
    if from < queries.len() && queries[from].name != name {
        law_queries_are_found_by_name(queries, name, from + 1);
    }
}

/// A result is introduced only in a table, and only where the query says something of
/// itself. The introduction starts with the name of the query, then what the query says:
/// its description before its instruction, and an empty line.
pub proof fn law_introductions_say_what_the_query_says(q: QueryModel, format: Seq<char>, json: bool)
    ensures
        preamble(q, format, json) is Some <==> !json && format == "table"@ && (q.description is Some
            || q.instruction is Some),
        q.description is Some && q.instruction is None && preamble(q, format, json) is Some
            ==> preamble(q, format, json)->Some_0 == "Query: "@ + q.name + "\n"@ + "Description: "@
            + q.description->Some_0 + "\n\n"@,
        q.description is None && q.instruction is Some && preamble(q, format, json) is Some
            ==> preamble(q, format, json)->Some_0 == "Query: "@ + q.name + "\n"@ + "Instruction: "@
            + q.instruction->Some_0 + "\n\n"@,
        q.description is Some && q.instruction is Some && preamble(q, format, json) is Some
            ==> preamble(q, format, json)->Some_0 == "Query: "@ + q.name + "\n"@ + "Description: "@
            + q.description->Some_0 + "\n"@ + "Instruction: "@ + q.instruction->Some_0 + "\n\n"@,
{
    reveal_with_fuel(join_first, 4);
    let lines = preamble_lines(q);
    if q.description is Some && q.instruction is Some {
        assert(lines.len() == 3);
        assert(join_of(lines, "\n"@) + "\n\n"@ =~= "Query: "@ + q.name + "\n"@ + "Description: "@
            + q.description->Some_0 + "\n"@ + "Instruction: "@ + q.instruction->Some_0 + "\n\n"@);
    } else if q.description is Some {
        assert(lines.len() == 2);
        assert(join_of(lines, "\n"@) + "\n\n"@ =~= "Query: "@ + q.name + "\n"@ + "Description: "@
            + q.description->Some_0 + "\n\n"@);
    } else if q.instruction is Some {
        assert(lines.len() == 2);
        assert(join_of(lines, "\n"@) + "\n\n"@ =~= "Query: "@ + q.name + "\n"@ + "Instruction: "@
            + q.instruction->Some_0 + "\n\n"@);
    }
}

proof fn lemma_csv_rows(acc: Seq<Seq<char>>, rows: Seq<Seq<Seq<char>>>, i: int)
    requires
        0 <= i <= rows.len(),
    ensures
        with_csv_rows(acc, rows, i) == acc + Seq::new(
            (rows.len() - i) as nat,
            |k: int| join_of(rows[i + k], ","@),
        ),
    decreases rows.len() - i,
{
    let rest = Seq::new((rows.len() - i) as nat, |k: int| join_of(rows[i + k], ","@));
    if i < rows.len() {
        lemma_csv_rows(acc.push(join_of(rows[i], ","@)), rows, i + 1);
        let less = Seq::new((rows.len() - i - 1) as nat, |k: int| join_of(rows[i + 1 + k], ","@));
        assert(rest =~= seq![join_of(rows[i], ","@)] + less);
        assert(acc + rest =~= acc.push(join_of(rows[i], ","@)) + less);
    } else {
        assert(acc + rest =~= acc);
    }
}

/// A table is written as the names of its columns and then its rows, each in one line.
pub proof fn law_tables_are_written_row_by_row(t: TextTableModel)
    ensures
        with_csv(Seq::empty(), seq![t], 0) == seq![join_of(t.columns, ","@)] + Seq::new(
            t.rows.len(),
            |k: int| join_of(t.rows[k], ","@),
        ),
{
    reveal_with_fuel(with_csv, 2);
    lemma_csv_rows(Seq::<Seq<char>>::empty().push(join_of(t.columns, ","@)), t.rows, 0);
    assert(Seq::<Seq<char>>::empty().push(join_of(t.columns, ","@)) =~= seq![
        join_of(t.columns, ","@),
    ]);
    assert(Seq::new((t.rows.len() - 0) as nat, |k: int| join_of(t.rows[0 + k], ","@)) =~= Seq::new(
        t.rows.len(),
        |k: int| join_of(t.rows[k], ","@),
    ));
}

proof fn lemma_csv_behind(acc: Seq<Seq<char>>, tables: Seq<TextTableModel>, i: int)
    requires
        0 <= i <= tables.len(),
    ensures
        with_csv(acc, tables, i) == acc + with_csv(Seq::empty(), tables.skip(i), 0),
    decreases tables.len() - i,
{
    let rest = tables.skip(i);
    if i < tables.len() {
        let t = tables[i];
        let head = join_of(t.columns, ","@);
        let none: Seq<Seq<char>> = Seq::empty();
        let rows = Seq::new((t.rows.len() - 0) as nat, |k: int| join_of(t.rows[0 + k], ","@));
        lemma_csv_rows(acc.push(head), t.rows, 0);
        lemma_csv_rows(none.push(head), t.rows, 0);
        lemma_csv_behind(acc.push(head) + rows, tables, i + 1);
        lemma_csv_behind(none.push(head) + rows, rest, 1);
        assert(rest.skip(1) =~= tables.skip(i + 1));
        assert(rest[0] == t);
        let tail = with_csv(none, tables.skip(i + 1), 0);
        assert((acc.push(head) + rows) + tail =~= acc + ((none.push(head) + rows) + tail));
    } else {
        assert(acc + with_csv(Seq::empty(), rest, 0) =~= acc);
    }
}

/// The tables of a result are written one behind the other.
pub proof fn law_written_tables_follow_each_other(a: Seq<TextTableModel>, b: Seq<TextTableModel>)
    ensures
        with_csv(Seq::empty(), a + b, 0) == with_csv(Seq::empty(), a, 0) + with_csv(
            Seq::empty(),
            b,
            0,
        ),
    decreases a.len(),
{
    let none: Seq<Seq<char>> = Seq::empty();
    if a.len() == 0 {
        assert(a + b =~= b);
        assert(none + with_csv(none, b, 0) =~= with_csv(none, b, 0));
    } else {
        let t = a[0];
        let head = join_of(t.columns, ","@);
        let first = with_csv_rows(none.push(head), t.rows, 0);
        lemma_csv_behind(first, a + b, 1);
        lemma_csv_behind(first, a, 1);
        assert((a + b)[0] == t);
        assert((a + b).skip(1) =~= a.skip(1) + b);
        law_written_tables_follow_each_other(a.skip(1), b);
        let (x, y) = (with_csv(none, a.skip(1), 0), with_csv(none, b, 0));
        assert(first + (x + y) =~= (first + x) + y);
    }
}

/// A row as an object has under the name of each column the text in that column, of two
/// columns of a name the later, and under no other name anything.
pub proof fn law_rows_have_their_columns(names: Seq<Seq<char>>, row: Seq<Seq<char>>, n: int, name: Seq<char>)
    requires
        0 <= n <= names.len() == row.len(),
    ensures
        forall|k: int|
            0 <= k < n && #[trigger] names[k] == name && (forall|j: int|
                k < j < n ==> #[trigger] names[j] != name) ==> member(
                row_members(names, row, n),
                name,
                0,
            ) == Some(JsonModel::Text(row[k])),
        (forall|k: int| 0 <= k < n ==> #[trigger] names[k] != name) ==> member(
            row_members(names, row, n),
            name,
            0,
        ) is None,
    decreases n,
{
    if n > 0 {
        law_rows_have_their_columns(names, row, n - 1, name);
        let before = row_members(names, row, n - 1);
        let value = JsonModel::Text(row[n - 1]);
        if names[n - 1] == name {
            lemma_member_set(before, name, value);
        } else {
            lemma_member_kept(before, names[n - 1], value, name);
        }
        assert forall|k: int|
            0 <= k < n && #[trigger] names[k] == name && (forall|j: int|
                k < j < n ==> #[trigger] names[j] != name) implies member(
            row_members(names, row, n),
            name,
            0,
        ) == Some(JsonModel::Text(row[k])) by {
            if k < n - 1 {
                assert(names[n - 1] != name);
            }
        }
    }
}

proof fn lemma_row_objects(acc: Seq<JsonModel>, t: TextTableModel, i: int)
    requires
        0 <= i <= t.rows.len(),
    ensures
        with_row_objects(acc, t, i) == acc + Seq::new(
            (t.rows.len() - i) as nat,
            |k: int| row_object(t.columns, t.rows[i + k]),
        ),
    decreases t.rows.len() - i,
{
    let rest = Seq::new((t.rows.len() - i) as nat, |k: int| row_object(t.columns, t.rows[i + k]));
    if i < t.rows.len() {
        let one = row_object(t.columns, t.rows[i]);
        lemma_row_objects(acc.push(one), t, i + 1);
        let less = Seq::new(
            (t.rows.len() - i - 1) as nat,
            |k: int| row_object(t.columns, t.rows[i + 1 + k]),
        );
        assert(rest =~= seq![one] + less);
        assert(acc + rest =~= acc.push(one) + less);
    } else {
        assert(acc + rest =~= acc);
    }
}

/// The rows of a result follow what stands before them, one object for each, in order.
pub proof fn law_every_row_is_told(acc: Seq<JsonModel>, t: TextTableModel, k: int)
    requires
        0 <= k < t.rows.len(),
    ensures
        with_tables(acc, seq![t], 0).len() == acc.len() + t.rows.len(),
        with_tables(acc, seq![t], 0)[acc.len() + k] == row_object(t.columns, t.rows[k]),
        with_tables(acc, seq![t], 0).take(acc.len() as int) == acc,
{
    reveal_with_fuel(with_tables, 2);
    lemma_row_objects(acc, t, 0);
    assert(with_tables(acc, seq![t], 0) == with_row_objects(acc, t, 0));
    assert(with_tables(acc, seq![t], 0).take(acc.len() as int) =~= acc);
}

/// The rows of several tables follow each other.
pub proof fn law_told_tables_follow_each_other(
    acc: Seq<JsonModel>,
    a: Seq<TextTableModel>,
    b: Seq<TextTableModel>,
    i: int,
)
    requires
        0 <= i <= a.len(),
    ensures
        with_tables(acc, a + b, i) == with_tables(with_tables(acc, a, i), b, 0),
    decreases a.len() - i,
{
    if i < a.len() {
        assert((a + b)[i] == a[i]);
        law_told_tables_follow_each_other(with_row_objects(acc, a[i], 0), a, b, i + 1);
    } else {
        lemma_tables_behind(acc, a, b, 0);
    }
}

proof fn lemma_tables_behind(acc: Seq<JsonModel>, a: Seq<TextTableModel>, b: Seq<TextTableModel>, i: int)
    requires
        0 <= i <= b.len(),
    ensures
        with_tables(acc, a + b, a.len() + i) == with_tables(acc, b, i),
    decreases b.len() - i,
{
    if i < b.len() {
        assert((a + b)[a.len() + i] == b[i]);
        lemma_tables_behind(with_row_objects(acc, b[i], 0), a, b, i + 1);
    }
}

/// A query is told by its name, its description and its instruction.
pub proof fn law_queries_are_told(q: QueryModel, rows: Seq<JsonModel>)
    ensures
        member(query_members(q), "query_name"@, 0) == Some(JsonModel::Text(q.name)),
        member(query_members(q), "description"@, 0) == Some(
            match q.description {
                Some(d) => JsonModel::Text(d),
                None => JsonModel::Null,
            },
        ),
        member(query_members(q), "instruction"@, 0) == Some(
            match q.instruction {
                Some(i) => JsonModel::Text(i),
                None => JsonModel::Null,
            },
        ),
        member(query_members(q).push(("rows"@, JsonModel::Array(rows))), "rows"@, 0) == Some(
            JsonModel::Array(rows),
        ),
{
    reveal_strlit("query_name");
    reveal_strlit("description");
    reveal_strlit("instruction");
    reveal_strlit("rows");
    assert("query_name"@.len() == 10 && "rows"@.len() == 4);
    assert("description"@.len() == 11 && "description"@[0] == 'd');
    assert("instruction"@.len() == 11 && "instruction"@[0] == 'i');
    let o = query_members(q);
    assert(o[0].0 == "query_name"@ && o[1].0 == "description"@ && o[2].0 == "instruction"@);
    let p = o.push(("rows"@, JsonModel::Array(rows)));
    assert(p[0] == o[0] && p[1] == o[1] && p[2] == o[2] && p[3].0 == "rows"@);
    reveal_with_fuel(member, 5);
}

// ---------------------------------------------------------------------------
// Changes

/// Without a bound every version is shown. One bound of a range without the other, a range
/// beside a starting point, and a range that ends before it starts are refused.
pub proof fn law_windows_need_both_ends(since: u64, from: u64, to: u64, version: u64)
    ensures
        changes_window(None, None, None) matches Ok(w) && (version > 0 ==> in_window(w, version)),
        changes_window(None, Some(from), None) is Err,
        changes_window(None, None, Some(to)) is Err,
        changes_window(Some(since), Some(from), Some(to)) is Err,
        changes_window(Some(since), Some(from), None) is Err,
        changes_window(Some(since), None, Some(to)) is Err,
        changes_window(None, Some(from), Some(to)) is Err <==> to < from,
{
}

// ---------------------------------------------------------------------------
// Migrations

/// The outcomes of a migration have their own names.
pub proof fn law_outcomes_have_their_names(s: MigrationStatus)
    ensures
        status_text(s) == "applied"@ <==> s == MigrationStatus::Applied,
        status_text(s) == "needs_confirmation"@ <==> s == MigrationStatus::NeedsConfirmation,
        status_text(s) == "blocked"@ <==> s == MigrationStatus::Blocked,
{
    reveal_strlit("applied");
    reveal_strlit("needs_confirmation");
    reveal_strlit("blocked");
    assert("applied"@.len() == 7 && "applied"@[0] == 'a');
    assert("needs_confirmation"@.len() == 18);
    assert("blocked"@.len() == 7 && "blocked"@[0] == 'b');
}

/// The risks of the steps of a migration have their own names.
pub proof fn law_risks_have_their_names(s: MigrationSafety)
    ensures
        safety_text(s) == "safe"@ <==> s == MigrationSafety::Safe,
        safety_text(s) == "confirm"@ <==> s == MigrationSafety::Confirm,
        safety_text(s) == "blocked"@ <==> s == MigrationSafety::Blocked,
{
    reveal_strlit("safe");
    reveal_strlit("confirm");
    reveal_strlit("blocked");
    assert("safe"@.len() == 4);
    assert("confirm"@.len() == 7 && "confirm"@[0] == 'c');
    assert("blocked"@.len() == 7 && "blocked"@[0] == 'b');
}

/// The steps of a migration have their own names.
pub proof fn law_steps_have_their_names(s: MigrationStep)
    ensures
        step_text(s) == "AddNodeType"@ <==> s == MigrationStep::AddNodeType,
        step_text(s) == "AddEdgeType"@ <==> s == MigrationStep::AddEdgeType,
        step_text(s) == "DropNodeType"@ <==> s == MigrationStep::DropNodeType,
        step_text(s) == "DropEdgeType"@ <==> s == MigrationStep::DropEdgeType,
        step_text(s) == "RenameType"@ <==> s == MigrationStep::RenameType,
        step_text(s) == "AddProperty"@ <==> s == MigrationStep::AddProperty,
        step_text(s) == "DropProperty"@ <==> s == MigrationStep::DropProperty,
        step_text(s) == "RenameProperty"@ <==> s == MigrationStep::RenameProperty,
        step_text(s) == "AlterPropertyType"@ <==> s == MigrationStep::AlterPropertyType,
        step_text(s) == "AlterPropertyNullability"@ <==> s
            == MigrationStep::AlterPropertyNullability,
        step_text(s) == "AlterPropertyKey"@ <==> s == MigrationStep::AlterPropertyKey,
        step_text(s) == "AlterPropertyUnique"@ <==> s == MigrationStep::AlterPropertyUnique,
        step_text(s) == "AlterPropertyIndex"@ <==> s == MigrationStep::AlterPropertyIndex,
        step_text(s) == "AlterPropertyEnumValues"@ <==> s == MigrationStep::AlterPropertyEnumValues,
        step_text(s) == "AlterMetadata"@ <==> s == MigrationStep::AlterMetadata,
        step_text(s) == "RebindEdgeEndpoints"@ <==> s == MigrationStep::RebindEdgeEndpoints,
{
    reveal_strlit("AddNodeType");
    reveal_strlit("AddEdgeType");
    reveal_strlit("DropNodeType");
    reveal_strlit("DropEdgeType");
    reveal_strlit("RenameType");
    reveal_strlit("AddProperty");
    reveal_strlit("DropProperty");
    reveal_strlit("RenameProperty");
    reveal_strlit("AlterPropertyType");
    reveal_strlit("AlterPropertyNullability");
    reveal_strlit("AlterPropertyKey");
    reveal_strlit("AlterPropertyUnique");
    reveal_strlit("AlterPropertyIndex");
    reveal_strlit("AlterPropertyEnumValues");
    reveal_strlit("AlterMetadata");
    reveal_strlit("RebindEdgeEndpoints");
    assert("AddNodeType"@.len() == 11 && "AddNodeType"@[3] == 'N');
    assert("AddEdgeType"@.len() == 11 && "AddEdgeType"@[3] == 'E');
    assert("DropNodeType"@.len() == 12 && "DropNodeType"@[4] == 'N');
    assert("DropEdgeType"@.len() == 12 && "DropEdgeType"@[4] == 'E');
    assert("RenameType"@.len() == 10);
    assert("AddProperty"@.len() == 11 && "AddProperty"@[3] == 'P');
    assert("DropProperty"@.len() == 12 && "DropProperty"@[4] == 'P');
    assert("RenameProperty"@.len() == 14);
    assert("AlterPropertyType"@.len() == 17);
    assert("AlterPropertyNullability"@.len() == 24);
    assert("AlterPropertyKey"@.len() == 16);
    assert("AlterPropertyUnique"@.len() == 19 && "AlterPropertyUnique"@[0] == 'A');
    assert("AlterPropertyIndex"@.len() == 18);
    assert("AlterPropertyEnumValues"@.len() == 23);
    assert("AlterMetadata"@.len() == 13);
    assert("RebindEdgeEndpoints"@.len() == 19 && "RebindEdgeEndpoints"@[0] == 'R');
}

/// What a change of the schema means for those who use it has its own name.
pub proof fn law_compatibilities_have_their_names(c: SchemaCompatibility)
    ensures
        compatibility_text(c) == "additive"@ <==> c == SchemaCompatibility::Additive,
        compatibility_text(c) == "compatible_with_confirmation"@ <==> c
            == SchemaCompatibility::CompatibleWithConfirmation,
        compatibility_text(c) == "breaking"@ <==> c == SchemaCompatibility::Breaking,
        compatibility_text(c) == "blocked"@ <==> c == SchemaCompatibility::Blocked,
{
    reveal_strlit("additive");
    reveal_strlit("compatible_with_confirmation");
    reveal_strlit("breaking");
    reveal_strlit("blocked");
    assert("additive"@.len() == 8 && "additive"@[0] == 'a');
    assert("compatible_with_confirmation"@.len() == 28);
    assert("breaking"@.len() == 8 && "breaking"@[0] == 'b');
    assert("blocked"@.len() == 7);
}

/// A line of three columns starts with the first, which is as wide as asked for, holds the
/// second behind a blank, and ends with the third.
pub proof fn law_columns_stand_in_order(a: Seq<char>, wide_a: nat, b: Seq<char>, wide_b: nat, c: Seq<char>)
    requires
        a.len() <= wide_a,
        b.len() <= wide_b,
    ensures
        columns(a, wide_a, b, wide_b, c).len() == wide_a + wide_b + 2 + c.len(),
        columns(a, wide_a, b, wide_b, c).subrange(0, a.len() as int) == a,
        columns(a, wide_a, b, wide_b, c).subrange(wide_a as int + 1, wide_a as int + 1 + b.len()) == b,
        columns(a, wide_a, b, wide_b, c).skip((wide_a + wide_b + 2) as int) == c,
{
    reveal_strlit(" ");
    law_padding_is_blank(a, wide_a);
    law_padding_is_blank(b, wide_b);
    let s = columns(a, wide_a, b, wide_b, c);
    let (pa, pb) = (padded(a, wide_a), padded(b, wide_b));
    assert(s.subrange(0, a.len() as int) =~= pa.take(a.len() as int));
    assert(s.subrange(wide_a as int + 1, wide_a as int + 1 + b.len()) =~= pb.take(b.len() as int));
    assert(s.skip((wide_a + wide_b + 2) as int) =~= c);
}

proof fn lemma_steps(acc: Seq<Seq<char>>, steps: Seq<PlannedStepModel>, i: int, k: int)
    requires
        0 <= i <= k < steps.len(),
    ensures
        with_steps(acc, steps, i).len() == acc.len() + steps.len() - i,
        with_steps(acc, steps, i)[acc.len() + k - i] == columns(
            safety_text(steps[k].safety),
            10,
            step_text(steps[k].step),
            24,
            steps[k].reason,
        ),
        forall|j: int| 0 <= j < acc.len() ==> #[trigger] with_steps(acc, steps, i)[j] == acc[j],
    decreases steps.len() - i,
{
    let line = columns(
        safety_text(steps[i].safety),
        10,
        step_text(steps[i].step),
        24,
        steps[i].reason,
    );
    let more = acc.push(line);
    if i + 1 < steps.len() {
        lemma_steps(
            more,
            steps,
            i + 1,
            if i < k {
                k
            } else {
                i + 1
            },
        );
        assert(with_steps(acc, steps, i) == with_steps(more, steps, i + 1));
        assert(more[acc.len() as int] == line);
        assert forall|j: int| 0 <= j < acc.len() implies #[trigger] with_steps(acc, steps, i)[j]
            == acc[j] by {
            assert(more[j] == acc[j]);
        }
    } else {
        assert(with_steps(more, steps, i + 1) == more);
    }
}

proof fn lemma_bullets(acc: Seq<Seq<char>>, items: Seq<Seq<char>>, i: int)
    requires
        0 <= i <= items.len(),
    ensures
        with_bullets(acc, items, i) == acc + Seq::new(
            (items.len() - i) as nat,
            |k: int| "- "@ + items[i + k],
        ),
    decreases items.len() - i,
{
    let rest = Seq::new((items.len() - i) as nat, |k: int| "- "@ + items[i + k]);
    if i < items.len() {
        let more = acc.push("- "@ + items[i]);
        lemma_bullets(more, items, i + 1);
        let less = Seq::new((items.len() - i - 1) as nat, |k: int| "- "@ + items[i + 1 + k]);
        assert(rest =~= seq!["- "@ + items[i]] + less);
        assert(acc + rest =~= more + less);
    } else {
        assert(acc + rest =~= acc);
    }
}

/// Items follow an empty line and their heading, one line each; without items nothing
/// follows.
pub proof fn law_items_stand_below_their_heading(
    acc: Seq<Seq<char>>,
    heading: Seq<char>,
    items: Seq<Seq<char>>,
    k: int,
)
    ensures
        items.len() == 0 ==> with_items(acc, heading, items) == acc,
        items.len() > 0 ==> with_items(acc, heading, items).len() == acc.len() + 2 + items.len(),
        items.len() > 0 ==> with_items(acc, heading, items)[acc.len() as int] == Seq::<char>::empty(),
        items.len() > 0 ==> with_items(acc, heading, items)[acc.len() as int + 1] == heading,
        0 <= k < items.len() ==> with_items(acc, heading, items)[acc.len() + 2 + k] == "- "@
            + items[k],
        forall|j: int| 0 <= j < acc.len() ==> #[trigger] with_items(acc, heading, items)[j] == acc[j],
{
    if items.len() > 0 {
        lemma_bullets(acc.push(Seq::empty()).push(heading), items, 0);
    }
}

/// The plan of a migration tells the database, the old schema before the new one, and every
/// step in order with its risk, its name and its reason. Warnings and reasons to stop come
/// behind the steps, under their own headings.
pub proof fn law_every_planned_step_is_listed(plan: MigrationPlanModel, k: int)
    ensures
        plan_lines(plan).len() >= 6,
        plan_lines(plan)[1] == "  DB: "@ + plan.db_path,
        plan_lines(plan)[2] == "  Old schema hash: "@ + plan.old_schema_hash,
        plan_lines(plan)[3] == "  New schema hash: "@ + plan.new_schema_hash,
        plan.steps.len() == 0 ==> plan_lines(plan)[5] == "No migration steps."@,
        0 <= k < plan.steps.len() ==> plan_lines(plan).len() >= 6 + plan.steps.len(),
        0 <= k < plan.steps.len() ==> plan_lines(plan)[6 + k] == columns(
            safety_text(plan.steps[k].safety),
            10,
            step_text(plan.steps[k].step),
            24,
            plan.steps[k].reason,
        ),
        plan.steps.len() == 0 && 0 <= k < plan.warnings.len() ==> plan_lines(plan)[7] == "Warnings:"@
            && plan_lines(plan)[8 + k] == "- "@ + plan.warnings[k],
        plan.steps.len() == 0 && plan.warnings.len() == 0 && 0 <= k < plan.blocked.len()
            ==> plan_lines(plan)[7] == "Blocked:"@ && plan_lines(plan)[8 + k] == "- "@
            + plan.blocked[k],
        plan_lines(plan).len() == 6 + plan.steps.len() + (if plan.warnings.len() == 0 {
            0
        } else {
            2 + plan.warnings.len()
        }) + (if plan.blocked.len() == 0 {
            0
        } else {
            2 + plan.blocked.len()
        }),
{
    let head = Seq::<Seq<char>>::empty().push("Migration Plan"@).push(
        "  DB: "@ + plan.db_path,
    ).push("  Old schema hash: "@ + plan.old_schema_hash).push(
        "  New schema hash: "@ + plan.new_schema_hash,
    ).push(Seq::empty());
    let title = head.push(columns("SAFETY"@, 10, "STEP"@, 24, "DETAIL"@));
    let body = if plan.steps.len() == 0 {
        head.push("No migration steps."@)
    } else {
        with_steps(title, plan.steps, 0)
    };
    if plan.steps.len() > 0 {
        lemma_steps(
            title,
            plan.steps,
            0,
            if 0 <= k < plan.steps.len() {
                k
            } else {
                0
            },
        );
        assert(body[1] == title[1] && body[2] == title[2] && body[3] == title[3]);
    }
    let warned = with_items(body, "Warnings:"@, plan.warnings);
    law_items_stand_below_their_heading(body, "Warnings:"@, plan.warnings, k);
    law_items_stand_below_their_heading(warned, "Blocked:"@, plan.blocked, k);
    let all = plan_lines(plan);
    assert(all == with_items(warned, "Blocked:"@, plan.blocked));
    assert(all[1] == warned[1] && warned[1] == body[1]);
    assert(all[2] == warned[2] && warned[2] == body[2]);
    assert(all[3] == warned[3] && warned[3] == body[3]);
    assert(all[5] == warned[5] && warned[5] == body[5]);
    if 0 <= k < plan.steps.len() {
        assert(all[6 + k] == warned[6 + k] && warned[6 + k] == body[6 + k]);
    }
    if plan.steps.len() == 0 && 0 <= k < plan.warnings.len() {
        assert(all[7] == warned[7] && all[8 + k] == warned[8 + k]);
    }
}

proof fn lemma_diff_steps(acc: Seq<Seq<char>>, steps: Seq<SchemaDiffStepModel>, i: int)
    requires
        0 <= i <= steps.len(),
    ensures
        with_diff_steps(acc, steps, i).len() >= acc.len() + steps.len() - i,
        forall|j: int| 0 <= j < acc.len() ==> #[trigger] with_diff_steps(acc, steps, i)[j] == acc[j],
        i < steps.len() ==> with_diff_steps(acc, steps, i)[acc.len() as int] == columns(
            compatibility_text(steps[i].classification),
            28,
            step_text(steps[i].step),
            30,
            steps[i].reason,
        ),
        i < steps.len() && steps[i].remediation is Some ==> with_diff_steps(acc, steps, i).len()
            >= acc.len() + 2,
        i < steps.len() && steps[i].remediation is Some ==> with_diff_steps(
            acc,
            steps,
            i,
        )[acc.len() as int + 1] == "  remediation: "@ + steps[i].remediation->Some_0,
    decreases steps.len() - i,
{
    if i < steps.len() {
        let line = columns(
            compatibility_text(steps[i].classification),
            28,
            step_text(steps[i].step),
            30,
            steps[i].reason,
        );
        let more = acc.push(line);
        let told = match steps[i].remediation {
            Some(r) => more.push("  remediation: "@ + r),
            None => more,
        };
        lemma_diff_steps(told, steps, i + 1);
        let all = with_diff_steps(acc, steps, i);
        assert(all == with_diff_steps(told, steps, i + 1));
        assert(told[acc.len() as int] == line);
        assert(all[acc.len() as int] == told[acc.len() as int]);
        if steps[i].remediation is Some {
            assert(all[acc.len() as int + 1] == told[acc.len() as int + 1]);
        }
        assert forall|j: int| 0 <= j < acc.len() implies #[trigger] all[j] == acc[j] by {
            assert(told[j] == acc[j]);
        }
    }
}

/// Whether a step of a comparison stands in some lines from position `q` on, with what can be
/// done about it where something can.
pub open spec fn tells_step(lines: Seq<Seq<char>>, q: int, step: SchemaDiffStepModel) -> bool {
    &&& 0 <= q < lines.len()
    &&& lines[q] == columns(
        compatibility_text(step.classification),
        28,
        step_text(step.step),
        30,
        step.reason,
    )
    &&& step.remediation matches Some(r) ==> q + 1 < lines.len() && lines[q + 1]
        == "  remediation: "@ + r
}

/// Every step of a comparison is told behind the lines before it, with what it means and
/// what can be done about it.
pub proof fn law_every_difference_is_told(
    acc: Seq<Seq<char>>,
    steps: Seq<SchemaDiffStepModel>,
    i: int,
    k: int,
)
    requires
        0 <= i <= k < steps.len(),
    ensures
        exists|q: int|
            q >= acc.len() + k - i && #[trigger] tells_step(
                with_diff_steps(acc, steps, i),
                q,
                steps[k],
            ),
    decreases k - i,
{
    lemma_diff_steps(acc, steps, i);
    if i == k {
        assert(tells_step(with_diff_steps(acc, steps, i), acc.len() as int, steps[k]));
    } else {
        let more = acc.push(
            columns(
                compatibility_text(steps[i].classification),
                28,
                step_text(steps[i].step),
                30,
                steps[i].reason,
            ),
        );
        let told = match steps[i].remediation {
            Some(r) => more.push("  remediation: "@ + r),
            None => more,
        };
        law_every_difference_is_told(told, steps, i + 1, k);
        let q = choose|q: int|
            q >= told.len() + k - (i + 1) && #[trigger] tells_step(
                with_diff_steps(told, steps, i + 1),
                q,
                steps[k],
            );
        assert(tells_step(with_diff_steps(acc, steps, i), q, steps[k]));
    }
}

/// The comparison of two schemas tells the old one before the new one, what the change means
/// and whether it breaks something, and starts the list of steps with the first, behind which
/// stands what can be done about it.
pub proof fn law_differences_are_told(report: SchemaDiffModel)
    ensures
        diff_lines(report).len() >= 7,
        diff_lines(report)[1] == "  Old schema hash: "@ + report.old_schema_hash,
        diff_lines(report)[2] == "  New schema hash: "@ + report.new_schema_hash,
        diff_lines(report)[3] == "  Compatibility: "@ + compatibility_text(report.compatibility),
        diff_lines(report)[4] == "  Has breaking: "@ + (if report.has_breaking {
            "true"@
        } else {
            "false"@
        }),
        report.steps.len() == 0 ==> diff_lines(report)[6] == "No schema changes."@,
        report.steps.len() > 0 ==> diff_lines(report).len() >= 7 + report.steps.len(),
        report.steps.len() > 0 ==> diff_lines(report)[7] == columns(
            compatibility_text(report.steps[0].classification),
            28,
            step_text(report.steps[0].step),
            30,
            report.steps[0].reason,
        ),
        report.steps.len() > 0 && report.steps[0].remediation is Some ==> diff_lines(report)[8]
            == "  remediation: "@ + report.steps[0].remediation->Some_0,
{
    let head = Seq::<Seq<char>>::empty().push("Schema Diff"@).push(
        "  Old schema hash: "@ + report.old_schema_hash,
    ).push("  New schema hash: "@ + report.new_schema_hash).push(
        "  Compatibility: "@ + compatibility_text(report.compatibility),
    ).push("  Has breaking: "@ + bool_text(report.has_breaking)).push(Seq::empty());
    let title = head.push(columns("CLASSIFICATION"@, 28, "STEP"@, 30, "DETAIL"@));
    let body = if report.steps.len() == 0 {
        head.push("No schema changes."@)
    } else {
        with_diff_steps(title, report.steps, 0)
    };
    if report.steps.len() > 0 {
        lemma_diff_steps(title, report.steps, 0);
        assert(body[1] == title[1] && body[2] == title[2] && body[3] == title[3] && body[4]
            == title[4]);
    }
    let warned = with_items(body, "Warnings:"@, report.warnings);
    law_items_stand_below_their_heading(body, "Warnings:"@, report.warnings, 0);
    law_items_stand_below_their_heading(warned, "Blocked:"@, report.blocked, 0);
    let all = diff_lines(report);
    assert(all == with_items(warned, "Blocked:"@, report.blocked));
    assert(all[1] == warned[1] && warned[1] == body[1]);
    assert(all[2] == warned[2] && warned[2] == body[2]);
    assert(all[3] == warned[3] && warned[3] == body[3]);
    assert(all[4] == warned[4] && warned[4] == body[4]);
    assert(all[6] == warned[6] && warned[6] == body[6]);
    if report.steps.len() > 0 {
        assert(all[7] == warned[7] && warned[7] == body[7]);
        if report.steps[0].remediation is Some {
            assert(all[8] == warned[8] && warned[8] == body[8]);
        }
    }
}

// ---------------------------------------------------------------------------
// Maintenance

/// The line of a compaction tells what was removed behind a minus and what was added behind
/// a plus, of fragments and of files.
pub proof fn law_compaction_lines_tell_their_counts(db_path: Seq<char>, c: CompactResult)
    ensures
        has_prefix(compact_text(db_path, c), "Compaction complete for "@ + db_path),
        holds(compact_text(db_path, c), "(datasets compacted: "@ + decimal(c.datasets_compacted as nat)),
        holds(
            compact_text(db_path, c),
            ", fragments -"@ + decimal(c.fragments_removed as nat) + " +"@ + decimal(
                c.fragments_added as nat,
            ),
        ),
        holds(
            compact_text(db_path, c),
            ", files -"@ + decimal(c.files_removed as nat) + " +"@ + decimal(c.files_added as nat),
        ),
{
    let s = compact_text(db_path, c);
    let start = "Compaction complete for "@ + db_path;
    let sets = "(datasets compacted: "@ + decimal(c.datasets_compacted as nat);
    let fragments = ", fragments -"@ + decimal(c.fragments_removed as nat) + " +"@ + decimal(
        c.fragments_added as nat,
    );
    let files = ", files -"@ + decimal(c.files_removed as nat) + " +"@ + decimal(
        c.files_added as nat,
    );
    let end = ", manifest committed: "@ + bool_text(c.manifest_committed) + ")"@;
    reveal_strlit(" (datasets compacted: ");
    reveal_strlit("(datasets compacted: ");
    reveal_strlit(" ");
    assert(" (datasets compacted: "@ =~= " "@ + "(datasets compacted: "@);
    assert(s =~= start + " "@ + sets + fragments + files + end);
    assert(s.take(start.len() as int) =~= start);
    assert(s =~= (start + " "@) + sets + (fragments + files + end));
    lemma_holds(s, start + " "@, sets, fragments + files + end);
    assert(s =~= (start + " "@ + sets) + fragments + (files + end));
    lemma_holds(s, start + " "@ + sets, fragments, files + end);
    lemma_holds(s, start + " "@ + sets + fragments, files, end);
}

/// The line of a cleanup tells what was removed of transactions, of changes and of tables.
pub proof fn law_cleanup_lines_tell_their_counts(db_path: Seq<char>, c: CleanupResult)
    ensures
        has_prefix(cleanup_text(db_path, c), "Cleanup complete for "@ + db_path),
        holds(cleanup_text(db_path, c), "(tx removed "@ + decimal(c.tx_rows_removed as nat)),
        holds(cleanup_text(db_path, c), ", cdc removed "@ + decimal(c.cdc_rows_removed as nat)),
        holds(cleanup_text(db_path, c), ", datasets cleaned "@ + decimal(c.datasets_cleaned as nat)),
        holds(
            cleanup_text(db_path, c),
            ", old versions removed "@ + decimal(c.dataset_old_versions_removed as nat),
        ),
        holds(
            cleanup_text(db_path, c),
            ", bytes removed "@ + decimal(c.dataset_bytes_removed as nat),
        ),
{
    let s = cleanup_text(db_path, c);
    let start = "Cleanup complete for "@ + db_path;
    let tx = "(tx removed "@ + decimal(c.tx_rows_removed as nat);
    let cdc = ", cdc removed "@ + decimal(c.cdc_rows_removed as nat);
    let sets = ", datasets cleaned "@ + decimal(c.datasets_cleaned as nat);
    let old_versions = ", old versions removed "@ + decimal(c.dataset_old_versions_removed as nat);
    let bytes = ", bytes removed "@ + decimal(c.dataset_bytes_removed as nat);
    reveal_strlit(" (tx removed ");
    reveal_strlit("(tx removed ");
    reveal_strlit(" ");
    assert(" (tx removed "@ =~= " "@ + "(tx removed "@);
    assert(s =~= start + " "@ + tx + cdc + sets + old_versions + bytes + ")"@);
    assert(s.take(start.len() as int) =~= start);
    assert(s =~= (start + " "@) + tx + (cdc + sets + old_versions + bytes + ")"@));
    lemma_holds(s, start + " "@, tx, cdc + sets + old_versions + bytes + ")"@);
    assert(s =~= (start + " "@ + tx) + cdc + (sets + old_versions + bytes + ")"@));
    lemma_holds(s, start + " "@ + tx, cdc, sets + old_versions + bytes + ")"@);
    assert(s =~= (start + " "@ + tx + cdc) + sets + (old_versions + bytes + ")"@));
    lemma_holds(s, start + " "@ + tx + cdc, sets, old_versions + bytes + ")"@);
    assert(s =~= (start + " "@ + tx + cdc + sets) + old_versions + (bytes + ")"@));
    lemma_holds(s, start + " "@ + tx + cdc + sets, old_versions, bytes + ")"@);
    lemma_holds(s, start + " "@ + tx + cdc + sets + old_versions, bytes, ")"@);
}

/// A copy that was not made for want of new rows tells how many there are and how many it
/// takes; one that was made tells its rows.
pub proof fn law_materialization_lines_tell_what_was_done(
    db_path: Seq<char>,
    min_new_rows: usize,
    c: MaterializeResult,
)
    ensures
        c.skipped_by_threshold ==> materialize_text(db_path, min_new_rows, c)
            == "CDC analytics materialization skipped for "@ + db_path + " (new rows "@ + decimal(
            c.new_rows_since_last_run as nat,
        ) + ", threshold "@ + decimal(min_new_rows as nat) + ")"@,
        !c.skipped_by_threshold ==> has_prefix(
            materialize_text(db_path, min_new_rows, c),
            "CDC analytics materialized for "@ + db_path + " (rows "@ + decimal(
                c.materialized_rows as nat,
            ),
        ),
        !c.skipped_by_threshold ==> has_suffix(
            materialize_text(db_path, min_new_rows, c),
            ", version "@ + (match c.dataset_version {
                Some(v) => "Some("@ + decimal(v as nat) + ")"@,
                None => "None"@,
            }) + ")"@,
        ),
{
    if !c.skipped_by_threshold {
        let s = materialize_text(db_path, min_new_rows, c);
        let start = "CDC analytics materialized for "@ + db_path + " (rows "@ + decimal(
            c.materialized_rows as nat,
        );
        let version = match c.dataset_version {
            Some(v) => "Some("@ + decimal(v as nat) + ")"@,
            None => "None"@,
        };
        let end = ", version "@ + version + ")"@;
        let mid = ", dataset written "@ + bool_text(c.dataset_written);
        assert(s =~= start + mid + end);
        assert(s.take(start.len() as int) =~= start);
        assert(s.skip(s.len() - end.len()) =~= end);
    }
}

proof fn lemma_labelled(acc: Seq<Seq<char>>, label: Seq<char>, items: Seq<Seq<char>>, i: int)
    requires
        0 <= i <= items.len(),
    ensures
        with_labelled(acc, label, items, i) == acc + Seq::new(
            (items.len() - i) as nat,
            |k: int| label + items[i + k],
        ),
    decreases items.len() - i,
{
    let rest = Seq::new((items.len() - i) as nat, |k: int| label + items[i + k]);
    if i < items.len() {
        let more = acc.push(label + items[i]);
        lemma_labelled(more, label, items, i + 1);
        let less = Seq::new((items.len() - i - 1) as nat, |k: int| label + items[i + 1 + k]);
        assert(rest =~= seq![label + items[i]] + less);
        assert(acc + rest =~= more + less);
    } else {
        assert(acc + rest =~= acc);
    }
}

/// An examination that found the database unsound lists every issue in order; every warning
/// is listed either way, behind the issues.
pub proof fn law_every_issue_is_listed(db_path: Seq<char>, d: DoctorModel, k: int)
    ensures
        d.healthy ==> doctor_text(db_path, d).len() == 1 + d.warnings.len(),
        d.healthy ==> has_prefix(doctor_text(db_path, d)[0], "Doctor OK for "@ + db_path),
        d.healthy && 0 <= k < d.warnings.len() ==> doctor_text(db_path, d)[1 + k] == "WARN: "@
            + d.warnings[k],
        !d.healthy ==> doctor_text(db_path, d).len() == 1 + d.issues.len() + d.warnings.len(),
        !d.healthy ==> has_prefix(doctor_text(db_path, d)[0], "Doctor found issues for "@ + db_path),
        !d.healthy && 0 <= k < d.issues.len() ==> doctor_text(db_path, d)[1 + k] == "ISSUE: "@
            + d.issues[k],
        !d.healthy && 0 <= k < d.warnings.len() ==> doctor_text(db_path, d)[1 + d.issues.len() + k]
            == "WARN: "@ + d.warnings[k],
{
    let numbers = " (db_version "@ + decimal(d.manifest_db_version as nat) + ", datasets checked "@
        + decimal(d.datasets_checked) + ", tx rows "@ + decimal(d.tx_rows) + ", cdc rows "@
        + decimal(d.cdc_rows) + ")"@;
    let counts = db_path + " (db_version "@ + decimal(d.manifest_db_version as nat)
        + ", datasets checked "@ + decimal(d.datasets_checked) + ", tx rows "@ + decimal(d.tx_rows)
        + ", cdc rows "@ + decimal(d.cdc_rows) + ")"@;
    assert(counts =~= db_path + numbers);
    let none: Seq<Seq<char>> = Seq::empty();
    let sound = "Doctor OK for "@ + counts;
    let unsound = "Doctor found issues for "@ + counts;
    assert(sound.take(("Doctor OK for "@ + db_path).len() as int) =~= "Doctor OK for "@ + db_path);
    assert(unsound.take(("Doctor found issues for "@ + db_path).len() as int)
        =~= "Doctor found issues for "@ + db_path);
    lemma_labelled(none.push(unsound), "ISSUE: "@, d.issues, 0);
    let head = if d.healthy {
        none.push(sound)
    } else {
        with_labelled(none.push(unsound), "ISSUE: "@, d.issues, 0)
    };
    lemma_labelled(head, "WARN: "@, d.warnings, 0);
    assert(doctor_text(db_path, d) == with_labelled(head, "WARN: "@, d.warnings, 0));
}

// ---------------------------------------------------------------------------
// Versions

proof fn lemma_number(n: nat)
    requires
        n <= u64::MAX,
    ensures
        number_or_zero(JsonModel::Number(decimal(n))) == n,
{
    law_decimals_are_read_back(n, u64::MAX as int);
}

/// The table of versions prints what the database holds: each version, each of the next
/// identities in its place, and every table with its version and its rows.
pub proof fn law_printed_versions_are_those_of_the_database(
    binary_version: Seq<char>,
    path: Seq<char>,
    m: ManifestModel,
    k: int,
)
    requires
        m.datasets.len() <= u64::MAX,
    ensures
        ({
            let v = version_lines(program_version_payload(binary_version, Some((path, m))));
            &&& v.len() == 7 + m.datasets.len()
            &&& v[0] == "nanograph "@ + binary_version
            &&& v[1] == "Database: "@ + path
            &&& v[2] == "Manifest: format v"@ + decimal(m.format_version as nat) + ", db_version "@
                + decimal(m.db_version as nat)
            &&& v[3] == "Last TX: "@ + m.last_tx_id + " @ "@ + m.committed_at
            &&& v[4] == "Schema hash: "@ + m.schema_ir_hash + " (identity v"@ + decimal(
                m.schema_identity_version as nat,
            ) + ")"@
            &&& v[5] == "Next IDs: node="@ + decimal(m.next_node_id as nat) + " edge="@ + decimal(
                m.next_edge_id as nat,
            ) + " type="@ + decimal(m.next_type_id as nat) + " prop="@ + decimal(
                m.next_prop_id as nat,
            )
            &&& v[6] == "Datasets: "@ + decimal(m.datasets.len())
            &&& 0 <= k < m.datasets.len() ==> v[7 + k] == "  - "@ + m.datasets[k].kind + " "@
                + m.datasets[k].type_label + ": v"@ + decimal(m.datasets[k].dataset_version as nat)
                + " (rows="@ + decimal(m.datasets[k].row_count as nat) + ")"@
        }),
{
    law_versions_are_told(binary_version, path, m);
    law_told_database_is_the_committed_one(path, m);
    lemma_number(m.format_version as nat);
    lemma_number(m.db_version as nat);
    lemma_number(m.schema_identity_version as nat);
    lemma_number(m.next_node_id as nat);
    lemma_number(m.next_edge_id as nat);
    lemma_number(m.next_type_id as nat);
    lemma_number(m.next_prop_id as nat);
    lemma_number(m.datasets.len());
    if 0 <= k < m.datasets.len() {
        law_told_tables_are_their_own(m.datasets[k]);
        lemma_number(m.datasets[k].dataset_version as nat);
        lemma_number(m.datasets[k].row_count as nat);
    }
}

// ---------------------------------------------------------------------------
// Faults

/// A fault without a place marks the first byte of a text, and nothing in an empty one; a
/// place behind the end marks the last byte, and an empty place one byte.
pub proof fn law_faults_mark_a_byte(start: usize, end: usize, len: int)
    requires
        0 <= len,
    ensures
        len == 0 ==> marked_bytes(None, len) == (0int, 0int),
        len > 0 ==> marked_bytes(None, len) == (0int, 1int),
        len > 0 && start >= len ==> marked_bytes(Some(SourceSpan { start, end }), len) == (
            len - 1,
            len,
        ),
        start < len && end <= start ==> marked_bytes(Some(SourceSpan { start, end }), len) == (
            start as int,
            start + 1,
        ),
        start < len && end > len ==> marked_bytes(Some(SourceSpan { start, end }), len) == (
            start as int,
            len,
        ),
{
}

// ---------------------------------------------------------------------------
// Checks and loads

/// Every query that was checked has its line, in order: sound with what it is, or wrong with
/// the reason. The last line tells how many there were.
pub proof fn law_every_check_has_its_line(queries: Seq<CheckModel>, i: int)
    ensures
        check_lines(queries).len() == queries.len() + 1,
        check_lines(queries).last() == "Check complete: "@ + decimal(queries.len())
            + " queries processed"@,
        0 <= i < queries.len() ==> check_lines(queries)[i] == (match queries[i].verdict {
            VerdictModel::Read => "OK: query `"@ + queries[i].name + "` (read)"@,
            VerdictModel::Mutation => "OK: query `"@ + queries[i].name + "` (mutation)"@,
            VerdictModel::Failed(m) => "ERROR: query `"@ + queries[i].name + "`: "@ + m,
        }),
{
}

/// Every file that was made has its line behind the lines before it, in order.
pub proof fn law_every_made_file_has_its_line(acc: Seq<Seq<char>>, files: Seq<Seq<char>>, i: int, k: int)
    requires
        0 <= i <= files.len(),
    ensures
        with_generated(acc, files, i).len() == acc.len() + files.len() - i,
        forall|j: int| 0 <= j < acc.len() ==> #[trigger] with_generated(acc, files, i)[j] == acc[j],
        i <= k < files.len() ==> with_generated(acc, files, i)[acc.len() + k - i] == "Generated "@
            + files[k],
    decreases files.len() - i,
{
    if i < files.len() {
        let more = acc.push("Generated "@ + files[i]);
        law_every_made_file_has_its_line(more, files, i + 1, k);
        let all = with_generated(acc, files, i);
        assert forall|j: int| 0 <= j < acc.len() implies #[trigger] all[j] == acc[j] by {
            assert(more[j] == acc[j]);
        }
        if k == i {
            assert(all[acc.len() as int] == more[acc.len() as int]);
        }
    }
}

/// A conflict of unique values is printed with the database, the property and its value, and
/// both rows in order.
pub proof fn law_conflicts_are_printed(
    db_path: Seq<char>,
    label: Seq<char>,
    property: Seq<char>,
    value: Seq<char>,
    first_row: nat,
    second_row: nat,
)
    ensures
        ({
            let lines = load_error_lines(db_path, label, property, value, first_row, second_row);
            &&& lines.len() == 3
            &&& lines[0] == "Load failed for "@ + db_path + "."@
            &&& lines[1] == "Unique constraint violation: "@ + label + "."@ + property
                + " has duplicate value '"@ + value + "'."@
            &&& lines[2] == "Conflicting rows in loaded dataset: "@ + decimal(first_row) + " and "@
                + decimal(second_row) + "."@
        }),
{
}

} // verus!
