//! What holds of the tables that keep the history of a graph.

use crate::json::json_rewritten;
use crate::sort::{in_rank_order, law_sorting_orders_and_keeps, stably_sorted};
use crate::store::batch::{column_named, BatchModel, ColumnModel};
use crate::store::graph_log::{change_at, change_batch, change_columns, changes_of, changes_up_to, commit_at, commit_batch, commit_columns, commits_of, commits_up_to, entry_of_table, pinned_version, stage_base, staged_rows, ChangeColumns, CommitColumns};
use crate::store::graph_types::{ChangeModel, CommitModel, GraphChangeRecord, GraphCommitRecord, TableVersionModel};
use crate::store::manifest::{DatasetEntryModel, ManifestModel};
use vstd::prelude::*;

verus! {

/// The cell of a column of texts.
pub open spec fn text_cell(b: BatchModel, name: Seq<char>, r: int) -> Option<Seq<char>> {
    match column_named(b, name, 0) {
        Some(ColumnModel::Utf8(v)) => Some(v[r]),
        _ => None,
    }
}

/// The cell of a column of numbers.
pub open spec fn number_cell(b: BatchModel, name: Seq<char>, r: int) -> Option<u64> {
    match column_named(b, name, 0) {
        Some(ColumnModel::UInt64(v, _)) => Some(v[r]),
        _ => None,
    }
}

/// The cell of a column of small numbers.
pub open spec fn small_cell(b: BatchModel, name: Seq<char>, r: int) -> Option<u32> {
    match column_named(b, name, 0) {
        Some(ColumnModel::UInt32(v, _)) => Some(v[r]),
        _ => None,
    }
}

proof fn lemma_changes_up_to(c: ChangeColumns, n: int, k: int)
    requires
        0 <= k < n,
        changes_up_to(c, n) is Ok,
    ensures
        changes_up_to(c, n)->Ok_0.len() == n,
        change_at(c, k) == Ok::<ChangeModel, Seq<char>>(changes_up_to(c, n)->Ok_0[k]),
    decreases n,
{
    if k < n - 1 {
        lemma_changes_up_to(c, n - 1, k);
    } else if n - 1 > 0 {
        lemma_changes_up_to(c, n - 1, 0);
    }
}

/// Every change that is read is a row of its table, in order, and each of its parts is what
/// the column of that part holds in the row.
pub proof fn law_changes_are_read_from_their_columns(b: BatchModel, r: int)
    requires
        0 <= r < b.num_rows,
    ensures
        changes_of(b) matches Ok(records) ==> records.len() == b.num_rows && ({
            let x = records[r];
            &&& text_cell(b, "tx_id"@, r) == Some(x.tx_id)
            &&& number_cell(b, "db_version"@, r) == Some(x.graph_version)
            &&& small_cell(b, "seq_in_tx"@, r) == Some(x.seq_in_tx)
            &&& text_cell(b, "op"@, r) == Some(x.op)
            &&& text_cell(b, "entity_kind"@, r) == Some(x.entity_kind)
            &&& text_cell(b, "type_name"@, r) == Some(x.type_label)
            &&& text_cell(b, "entity_key"@, r) == Some(x.entity_key)
            &&& text_cell(b, "payload_json"@, r) matches Some(payload) && json_rewritten(payload)
                == Ok::<Seq<char>, Seq<char>>(x.payload)
            &&& text_cell(b, "committed_at"@, r) == Some(x.committed_at)
            &&& match column_named(b, "rowid_if_known"@, 0) {
                Some(ColumnModel::UInt64(v, known)) => x.rowid_if_known == (if known[r] {
                    Some(v[r])
                } else {
                    None
                }),
                _ => x.rowid_if_known is None,
            }
        }),
{
    if changes_of(b) is Ok {
        let c = change_columns(b)->Ok_0;
        lemma_changes_up_to(c, b.num_rows as int, r);
    }
}

/// Every change that is written is a row of its table, in order, and each column holds the
/// part of the change that it is named for.
pub proof fn law_changes_are_written_to_their_columns(changes: Seq<ChangeModel>, r: int)
    requires
        0 <= r < changes.len(),
    ensures
        ({
            let b = change_batch(changes);
            let x = changes[r];
            &&& b.num_rows == changes.len()
            &&& text_cell(b, "tx_id"@, r) == Some(x.tx_id)
            &&& number_cell(b, "db_version"@, r) == Some(x.graph_version)
            &&& small_cell(b, "seq_in_tx"@, r) == Some(x.seq_in_tx)
            &&& text_cell(b, "op"@, r) == Some(x.op)
            &&& text_cell(b, "entity_kind"@, r) == Some(x.entity_kind)
            &&& text_cell(b, "type_name"@, r) == Some(x.type_label)
            &&& text_cell(b, "entity_key"@, r) == Some(x.entity_key)
            &&& text_cell(b, "payload_json"@, r) == Some(x.payload)
            &&& text_cell(b, "committed_at"@, r) == Some(x.committed_at)
            &&& column_named(b, "rowid_if_known"@, 0) matches Some(ColumnModel::UInt64(v, known))
                && (x.rowid_if_known matches Some(id) ==> known[r] && v[r] == id) && (
            x.rowid_if_known is None ==> !known[r])
        }),
{
    let b = change_batch(changes);
    reveal_strlit("tx_id");
    reveal_strlit("db_version");
    reveal_strlit("seq_in_tx");
    reveal_strlit("op");
    reveal_strlit("entity_kind");
    reveal_strlit("type_name");
    reveal_strlit("entity_key");
    reveal_strlit("payload_json");
    reveal_strlit("rowid_if_known");
    reveal_strlit("committed_at");
    assert("entity_kind"@[7] != "entity_key"@[9] && "tx_id"@.len() == 5 && "db_version"@.len()
        == 10 && "seq_in_tx"@.len() == 9 && "op"@.len() == 2 && "entity_kind"@.len() == 11
        && "type_name"@.len() == 9 && "entity_key"@.len() == 10 && "payload_json"@.len() == 12
        && "rowid_if_known"@.len() == 14 && "committed_at"@.len() == 12);
    assert("seq_in_tx"@[0] == 's' && "type_name"@[0] == 't');
    assert("db_version"@[0] == 'd' && "entity_key"@[0] == 'e');
    assert("payload_json"@[0] == 'p' && "committed_at"@[0] == 'c');
    reveal_with_fuel(column_named, 11);
    assert(b.columns.len() == 10);
    assert(b.columns[0].0 == "tx_id"@ && b.columns[1].0 == "db_version"@ && b.columns[2].0
        == "seq_in_tx"@ && b.columns[3].0 == "op"@ && b.columns[4].0 == "entity_kind"@
        && b.columns[5].0 == "type_name"@ && b.columns[6].0 == "entity_key"@ && b.columns[7].0
        == "payload_json"@ && b.columns[8].0 == "rowid_if_known"@ && b.columns[9].0
        == "committed_at"@);
}

proof fn lemma_commits_up_to(
    c: CommitColumns,
    parsed: Seq<Result<Seq<TableVersionModel>, Seq<char>>>,
    n: int,
    k: int,
)
    requires
        0 <= k < n,
        commits_up_to(c, parsed, n) is Ok,
    ensures
        commits_up_to(c, parsed, n)->Ok_0.len() == n,
        commit_at(c, parsed, k) == Ok::<CommitModel, Seq<char>>(
            commits_up_to(c, parsed, n)->Ok_0[k],
        ),
    decreases n,
{
    if k < n - 1 {
        lemma_commits_up_to(c, parsed, n - 1, k);
    } else if n - 1 > 0 {
        lemma_commits_up_to(c, parsed, n - 1, 0);
    }
}

/// Every commit that is read is a row of its table, in order, and each of its parts is what
/// the column of that part holds in the row; the versions of its tables are what was read of
/// their column.
pub proof fn law_commits_are_read_from_their_columns(
    b: BatchModel,
    parsed: Seq<Result<Seq<TableVersionModel>, Seq<char>>>,
    r: int,
)
    requires
        0 <= r < b.num_rows,
    ensures
        commits_of(b, parsed) matches Ok(records) ==> records.len() == b.num_rows && ({
            let x = records[r];
            &&& text_cell(b, "tx_id"@, r) == Some(x.tx_id)
            &&& number_cell(b, "db_version"@, r) == Some(x.graph_version)
            &&& text_cell(b, "committed_at"@, r) == Some(x.committed_at)
            &&& text_cell(b, "op_summary"@, r) == Some(x.op_summary)
            &&& parsed[r] == Ok::<Seq<TableVersionModel>, Seq<char>>(x.table_versions)
        }),
{
    if commits_of(b, parsed) is Ok {
        let c = commit_columns(b)->Ok_0;
        lemma_commits_up_to(c, parsed, b.num_rows as int, r);
    }
}

/// Every commit that is written is a row of its table, and each column holds the part of the
/// commit that it is named for.
pub proof fn law_commits_are_written_to_their_columns(
    commits: Seq<CommitModel>,
    json: Seq<Seq<char>>,
    r: int,
)
    requires
        0 <= r < commits.len(),
        json.len() == commits.len(),
    ensures
        ({
            let b = commit_batch(commits, json);
            let x = commits[r];
            &&& b.num_rows == commits.len()
            &&& text_cell(b, "tx_id"@, r) == Some(x.tx_id)
            &&& number_cell(b, "db_version"@, r) == Some(x.graph_version)
            &&& text_cell(b, "table_versions_json"@, r) == Some(json[r])
            &&& text_cell(b, "committed_at"@, r) == Some(x.committed_at)
            &&& text_cell(b, "op_summary"@, r) == Some(x.op_summary)
        }),
{
    let b = commit_batch(commits, json);
    reveal_strlit("tx_id");
    reveal_strlit("db_version");
    reveal_strlit("table_versions_json");
    reveal_strlit("committed_at");
    reveal_strlit("op_summary");
    assert("tx_id"@.len() == 5 && "db_version"@.len() == 10 && "table_versions_json"@.len() == 19
        && "committed_at"@.len() == 12 && "op_summary"@.len() == 10);
    assert("db_version"@[0] == 'd' && "op_summary"@[0] == 'o');
    reveal_with_fuel(column_named, 6);
    assert(b.columns.len() == 5);
    assert(b.columns[0].0 == "tx_id"@ && b.columns[1].0 == "db_version"@ && b.columns[2].0
        == "table_versions_json"@ && b.columns[3].0 == "committed_at"@ && b.columns[4].0
        == "op_summary"@);
}

/// The history is told in the order in which it happened: an earlier version of the graph
/// comes before a later one, and of one version the changes come in the order of their
/// transaction. No change is lost and none is told twice.
pub proof fn law_changes_are_told_in_order(records: Seq<ChangeModel>, i: int, j: int)
    requires
        0 <= i < j < records.len(),
    ensures
        ({
            let told = stably_sorted::<GraphChangeRecord>(records);
            &&& told.len() == records.len()
            &&& told.to_multiset() == records.to_multiset()
            &&& told[i].graph_version <= told[j].graph_version
            &&& told[i].graph_version == told[j].graph_version ==> told[i].seq_in_tx
                <= told[j].seq_in_tx
        }),
{
    law_sorting_orders_and_keeps::<GraphChangeRecord>(records);
    assert(in_rank_order::<GraphChangeRecord>(stably_sorted::<GraphChangeRecord>(records)));
}

/// Commits are told in the order of their versions, and none is lost or told twice.
pub proof fn law_commits_are_told_in_order(records: Seq<CommitModel>, i: int, j: int)
    requires
        0 <= i < j < records.len(),
    ensures
        ({
            let told = stably_sorted::<GraphCommitRecord>(records);
            &&& told.len() == records.len()
            &&& told.to_multiset() == records.to_multiset()
            &&& told[i].graph_version <= told[j].graph_version
        }),
{
    law_sorting_orders_and_keeps::<GraphCommitRecord>(records);
    assert(in_rank_order::<GraphCommitRecord>(stably_sorted::<GraphCommitRecord>(records)));
}

/// The entry of a table of the history is the first of the manifest with its identity.
pub proof fn law_history_tables_are_found_by_identity(
    datasets: Seq<DatasetEntryModel>,
    table_id: Seq<char>,
    i: int,
)
    requires
        0 <= i,
    ensures
        match entry_of_table(datasets, table_id, i) {
            Some(e) => e.table_id == Some(table_id) && exists|k: int|
                i <= k < datasets.len() && #[trigger] datasets[k] == e && forall|j: int|
                    i <= j < k ==> (#[trigger] datasets[j]).table_id != Some(table_id),
            None => forall|j: int|
                i <= j < datasets.len() ==> (#[trigger] datasets[j]).table_id != Some(table_id),
        },
    decreases datasets.len() - i,
{
    if i < datasets.len() {
        if datasets[i].table_id == Some(table_id) {
            assert(datasets[i] == entry_of_table(datasets, table_id, i)->0);
        } else {
            law_history_tables_are_found_by_identity(datasets, table_id, i + 1);
        }
    }
}

/// The history grows from what was committed: rows are staged behind the version that the
/// manifest has of the table, or where it has none behind that of the table that was made for
/// them, and the table then has as many rows as before and those that were added.
pub proof fn law_history_grows_from_what_was_committed(
    m: ManifestModel,
    table_id: Seq<char>,
    made: Option<DatasetEntryModel>,
    added: nat,
)
    ensures
        entry_of_table(m.datasets, table_id, 0) matches Some(e) ==> {
            &&& pinned_version(m, table_id) == e.dataset_version
            &&& e.dataset_version > 0 ==> (stage_base(m, table_id, made) matches Some(v)
                && v.version == e.dataset_version && v.table_id == table_id)
            &&& e.row_count + added <= u64::MAX ==> staged_rows(m, table_id, added) == e.row_count
                + added
        },
        entry_of_table(m.datasets, table_id, 0) is None ==> {
            &&& pinned_version(m, table_id) == 0
            &&& made matches Some(e) ==> (stage_base(m, table_id, made) matches Some(v)
                && v.version == e.dataset_version && v.table_id == table_id)
            &&& made is None ==> stage_base(m, table_id, made) is None
            &&& added <= u64::MAX ==> staged_rows(m, table_id, added) == added
        },
        staged_rows(m, table_id, added) <= u64::MAX,
{
}

} // verus!
