//! What an answer owes: a value where one is expected, and then that value; an error where one
//! is expected, and then of its own kind and with its own message.

use crate::cli::dotenv::{dotenv_entries, load_report, DotenvFile, DotenvLoadStats, EnvironmentModel};
use crate::error::{ErrorModel, NanoError};
use crate::json::{Json, JsonModel};
use crate::path::joined;
use crate::plan::bindings::{finds_variable, VariableSource, VariableSourceModel};
use crate::schema::grammar::{agrees, agrees_end, agrees_list};
use crate::schema::parser::{means, means_list};
use crate::schema::validate::reports;
use crate::store::batch::BatchModel;
use crate::store::graph_log::{stages, yields_list, StageStep};
use crate::store::graph_types::TableVersionModel;
use crate::store::location::yields_path;
use crate::store::media::{is_text_of, yields_step, yields_text, MediaStep, MediaStepModel};
use crate::store::metadata::{entry_for, DatabaseMetadata, DatasetLocator};
use crate::store::persist::yields_columns;
use crate::store::storage_generation::{yields_generation, StorageGeneration};
use crate::store::uri::{LocalPath, LocalPathModel};
use crate::text::views;
use vstd::prelude::*;

verus! {

/// A reader that agrees with the grammar ends where the grammar ends, with what stands there,
/// or fails where the grammar fails; never behind the end of the text.
pub proof fn law_readers_end_where_the_grammar_ends<T: View>(
    r: Result<(T, usize), usize>,
    m: Result<(T::V, int), int>,
    len: nat,
)
    requires
        agrees(r, m, len),
    ensures
        r is Ok <==> m is Ok,
        m matches Ok(x) ==> r->Ok_0.0@ == x.0 && r->Ok_0.1 == x.1 && x.1 <= len,
        m matches Err(p) ==> r->Err_0 == p && p <= len,
{
}

/// A reader of a list that agrees with the grammar gives all of the list.
pub proof fn law_readers_of_lists_end_where_the_grammar_ends<T: View>(
    r: Result<(Vec<T>, usize), usize>,
    m: Result<(Seq<T::V>, int), int>,
    len: nat,
)
    requires
        agrees_list(r, m, len),
    ensures
        r is Ok <==> m is Ok,
        m matches Ok(x) ==> views(r->Ok_0.0@) == x.0 && r->Ok_0.0@.len() == x.0.len() && r->Ok_0.1
            == x.1 && x.1 <= len,
        m matches Err(p) ==> r->Err_0 == p && p <= len,
{
}

/// A reader of a mark ends behind the mark, or fails where the grammar fails.
pub proof fn law_marks_are_read(r: Result<usize, usize>, m: Result<int, int>, len: nat)
    requires
        agrees_end(r, m, len),
    ensures
        r is Ok <==> m is Ok,
        m matches Ok(e) ==> r->Ok_0 == e,
        m matches Err(p) ==> r->Err_0 == p,
{
}

/// What is read of a schema is what it means, and a refusal of it is a parse error with the
/// message of the rule that it breaks.
pub proof fn law_readings_are_the_meaning<T: View>(r: Result<T, NanoError>, m: Result<T::V, Seq<char>>)
    requires
        means(r, m),
    ensures
        r is Ok <==> m is Ok,
        m matches Ok(x) ==> r->Ok_0@ == x,
        m matches Err(text) ==> r->Err_0@ == ErrorModel::Parse(text),
{
}

/// A list that is read of a schema is all that it means.
pub proof fn law_readings_of_lists_are_the_meaning<T: View>(
    r: Result<Vec<T>, NanoError>,
    m: Result<Seq<T::V>, Seq<char>>,
)
    requires
        means_list(r, m),
    ensures
        r is Ok <==> m is Ok,
        m matches Ok(x) ==> views(r->Ok_0@) == x,
        m matches Err(text) ==> r->Err_0@ == ErrorModel::Parse(text),
{
}

/// A check passes exactly where nothing is wrong, and else tells what is.
pub proof fn law_checks_report_what_is_wrong(r: Result<(), NanoError>, e: Option<Seq<char>>)
    requires
        reports(r, e),
    ensures
        r is Ok <==> e is None,
        e matches Some(m) ==> r->Err_0@ == ErrorModel::Parse(m),
{
}

/// A list of records is all that was read, or the error that stopped it.
pub proof fn law_records_are_all_told<T: View>(
    r: Result<Vec<T>, NanoError>,
    m: Result<Seq<T::V>, ErrorModel>,
)
    requires
        yields_list(r, m),
    ensures
        r is Ok <==> m is Ok,
        m matches Ok(x) ==> views(r->Ok_0@) == x,
        m matches Err(e) ==> r->Err_0@ == e,
{
}

/// Columns are told where there are rows for them, all of them, or the error that refuses
/// them.
pub proof fn law_columns_are_all_told(
    r: Result<Option<Vec<Vec<Json>>>, NanoError>,
    m: Result<Option<Seq<Seq<JsonModel>>>, Seq<char>>,
)
    requires
        yields_columns(r, m),
    ensures
        r is Ok <==> m is Ok,
        m matches Ok(None) ==> r->Ok_0 is None,
        m matches Ok(Some(columns)) ==> (r->Ok_0 matches Some(v) && v@.len() == columns.len()
            && forall|c: int| 0 <= c < columns.len() ==> views((#[trigger] v@[c])@) == columns[c]),
        m matches Err(text) ==> r->Err_0@ == ErrorModel::Storage(text),
{
    if let Ok(Some(columns)) = m {
        let v = r->Ok_0->Some_0;
        assert(crate::store::persist::columns_view(v@) == columns);
        assert forall|c: int| 0 <= c < columns.len() implies views((#[trigger] v@[c])@)
            == columns[c] by {
            assert(crate::store::persist::columns_view(v@)[c] == views(v@[c]@));
        }
    }
}

/// A text is told where there is one, and is that text.
pub proof fn law_texts_are_told(r: Option<&'static str>, m: Option<Seq<char>>)
    requires
        is_text_of(r, m),
    ensures
        r is Some <==> m is Some,
        m matches Some(s) ==> r->Some_0@ == s,
{
}

/// A text or a step that belongs to media is the one expected, or a storage error with its
/// message.
pub proof fn law_media_answers_are_those_expected(
    r: Result<String, NanoError>,
    m: Result<Seq<char>, Seq<char>>,
    s: Result<MediaStep, NanoError>,
    n: Result<MediaStepModel, Seq<char>>,
)
    ensures
        yields_text(r, m) ==> (r is Ok <==> m is Ok),
        yields_text(r, m) && m is Ok ==> r->Ok_0@ == m->Ok_0,
        yields_text(r, m) && m is Err ==> r->Err_0@ == ErrorModel::Storage(m->Err_0),
        yields_step(s, n) ==> (s is Ok <==> n is Ok),
        yields_step(s, n) && n is Ok ==> s->Ok_0@ == n->Ok_0,
        yields_step(s, n) && n is Err ==> s->Err_0@ == ErrorModel::Storage(n->Err_0),
{
}

/// A place is the one expected, or an error of the storage engine with its message; a layout
/// is the one expected, or a storage error.
pub proof fn law_places_and_layouts_are_those_expected(
    r: Result<LocalPath, NanoError>,
    m: Result<LocalPathModel, Seq<char>>,
    g: Result<Option<StorageGeneration>, NanoError>,
    n: Result<Option<StorageGeneration>, Seq<char>>,
)
    ensures
        yields_path(r, m) ==> (r is Ok <==> m is Ok),
        yields_path(r, m) && m is Ok ==> r->Ok_0@ == m->Ok_0,
        yields_path(r, m) && m is Err ==> r->Err_0@ == ErrorModel::Lance(m->Err_0),
        yields_generation(g, n) ==> (g is Ok <==> n is Ok),
        yields_generation(g, n) && n is Ok ==> g->Ok_0 == n->Ok_0,
        yields_generation(g, n) && n is Err ==> g->Err_0@ == ErrorModel::Storage(n->Err_0),
{
}

/// A variable is found where it is expected, or an execution error tells that it is not.
pub proof fn law_variables_are_found_as_expected(
    r: Result<VariableSource, NanoError>,
    m: Result<VariableSourceModel, Seq<char>>,
)
    requires
        finds_variable(r, m),
    ensures
        r is Ok <==> m is Ok,
        m matches Ok(s) ==> r->Ok_0@ == s,
        m matches Err(text) ==> r->Err_0@ == ErrorModel::Execution(text),
{
}

/// A file of settings that is missing is passed over in silence, one that cannot be read is
/// an error, and of one that was read every entry is counted, as set or as left.
pub proof fn law_loaded_settings_are_counted(
    r: Result<Option<DotenvLoadStats>, String>,
    env: EnvironmentModel,
    path: Seq<char>,
    file: DotenvFile,
)
    requires
        load_report(r, env, path, file),
    ensures
        file is Missing <==> r is Ok && r->Ok_0 is None,
        file matches DotenvFile::Unreadable(e) ==> r is Err && r->Err_0@ == e@,
        file matches DotenvFile::Source(s) ==> (r is Ok <==> dotenv_entries(path, s@) is Ok),
        file matches DotenvFile::Source(s) ==> (dotenv_entries(path, s@) matches Ok(entries)
            ==> r->Ok_0->Some_0.loaded + r->Ok_0->Some_0.skipped_existing == entries.len()),
        file matches DotenvFile::Source(s) ==> (dotenv_entries(path, s@) matches Err(e)
            ==> r->Err_0@ == e),
{
}

/// A table is found exactly where the last commit has one of its kind and type, at the place
/// of that one, and is managed where the database has a layout.
pub proof fn law_tables_are_found_as_committed(
    m: DatabaseMetadata,
    kind: Seq<char>,
    label: Seq<char>,
    detected: Result<Option<StorageGeneration>, NanoError>,
    r: Option<DatasetLocator>,
)
    requires
        m.locates(kind, label, detected, r),
    ensures
        ({
            let n = m.manifest@.datasets.len() as int;
            let entry = entry_for(m.manifest@.datasets, kind, label, n);
            &&& r is Some <==> entry is Some
            &&& entry matches Some(e) ==> r->Some_0@.dataset_version == e.dataset_version
                && r->Some_0@.row_count == e.row_count && r->Some_0@.db_path == m.path@
                && r->Some_0@.dataset_path == joined(m.path@, e.dataset_path)
            &&& entry is Some ==> (r->Some_0@.namespace_managed <==> detected is Ok
                && detected->Ok_0 is Some)
        }),
{
}

/// Rows of the history are appended exactly where there is a version to append them to, all
/// of them and to that version; else their table is made first.
pub proof fn law_rows_are_staged_behind_their_base(
    r: StageStep,
    base: Option<TableVersionModel>,
    batch: BatchModel,
)
    requires
        stages(r, base, batch),
    ensures
        r is EnsureTable <==> base is None,
        r matches StageStep::AppendAt { base: b, batch: rows } ==> base == Some(b@) && rows@ == batch,
{
}

} // verus!
