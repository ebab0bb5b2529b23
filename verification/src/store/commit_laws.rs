//! What holds of every commit.

use crate::json::{json_at, json_get, json_u64, JsonModel};
use crate::store::manifest::{DatasetEntryModel, ManifestModel};
use crate::store::persist::{changed, commit_plan, committed_entry, committed_event, committed_manifest, dataset_plan, delete_class, deleted_ids, edge_plans, entity_key, event_columns, event_rows, insert_class, insert_row, law_picked_positions, node_plans, only, picked, row_cell, table_labeled, touches, upsert_class, upsert_row, write_step, DatasetPlanModel, IdentityCounters, TableSummaryModel, WriteStepModel};
use crate::store::schema_ir::{EdgeTypeDefModel, NodeTypeDefModel, SchemaIrModel};
use crate::store::txlog::CdcModel;
use crate::text::{decimal, hex_fixed, is_digit, read_digits};
use vstd::prelude::*;

verus! {

// ---------------------------------------------------------------------------
// The manifest

/// A committed manifest gives out no identity that the graph already uses: its counters are
/// those of the storage after the change, so an identity that is below a counter of the
/// storage is below that of the manifest, and the next one given out is none of them.
pub proof fn law_committed_identities_are_fresh(
    previous: ManifestModel,
    plans: Seq<DatasetPlanModel>,
    versions: Seq<u64>,
    counters: IdentityCounters,
    format_version: u32,
    schema_ir_hash: Seq<char>,
    committed_at: Seq<char>,
    used_nodes: Set<u64>,
    used_edges: Set<u64>,
)
    requires
        forall|id: u64| #[trigger] used_nodes.contains(id) ==> id < counters.next_node_id,
        forall|id: u64| #[trigger] used_edges.contains(id) ==> id < counters.next_edge_id,
    ensures
        ({
            let m = committed_manifest(
                previous,
                plans,
                versions,
                counters,
                format_version,
                schema_ir_hash,
                committed_at,
            );
            &&& m.next_node_id == counters.next_node_id
            &&& m.next_edge_id == counters.next_edge_id
            &&& m.next_type_id == counters.next_type_id
            &&& m.next_prop_id == counters.next_prop_id
            &&& forall|id: u64| #[trigger] used_nodes.contains(id) ==> id < m.next_node_id
            &&& forall|id: u64| #[trigger] used_edges.contains(id) ==> id < m.next_edge_id
            &&& !used_nodes.contains(m.next_node_id)
            &&& !used_edges.contains(m.next_edge_id)
        }),
{
}

/// A commit names itself and its schema: the manifest carries the format, the schema's hash
/// and the time that it was given, its transaction is named by its own version, and the
/// identity of the schema is that of before, which is one where there was none.
pub proof fn law_manifest_names_its_commit(
    previous: ManifestModel,
    plans: Seq<DatasetPlanModel>,
    versions: Seq<u64>,
    counters: IdentityCounters,
    format_version: u32,
    schema_ir_hash: Seq<char>,
    committed_at: Seq<char>,
)
    ensures
        ({
            let m = committed_manifest(
                previous,
                plans,
                versions,
                counters,
                format_version,
                schema_ir_hash,
                committed_at,
            );
            &&& m.format_version == format_version
            &&& m.schema_ir_hash == schema_ir_hash
            &&& m.committed_at == committed_at
            &&& m.last_tx_id == "manifest-"@ + decimal(m.db_version as nat)
            &&& previous.db_version < m.db_version || previous.db_version == m.db_version
                == u64::MAX
            &&& m.schema_identity_version > 0
            &&& previous.schema_identity_version > 0 ==> m.schema_identity_version
                == previous.schema_identity_version
            &&& previous.schema_identity_version == 0 ==> m.schema_identity_version == 1
        }),
{
}

/// Every planned table is in the manifest, in order and alone: one that was written with the
/// version that the write gave, under the type, the path and the number of rows of its plan,
/// and one that was kept with the entry it had.
pub proof fn law_planned_tables_are_committed(
    previous: ManifestModel,
    plans: Seq<DatasetPlanModel>,
    versions: Seq<u64>,
    counters: IdentityCounters,
    format_version: u32,
    schema_ir_hash: Seq<char>,
    committed_at: Seq<char>,
    i: int,
)
    requires
        versions.len() == plans.len(),
    ensures
        ({
            let m = committed_manifest(
                previous,
                plans,
                versions,
                counters,
                format_version,
                schema_ir_hash,
                committed_at,
            );
            &&& m.datasets.len() == plans.len()
            &&& 0 <= i < plans.len() ==> match plans[i].step {
                WriteStepModel::Keep(entry) => m.datasets[i] == entry,
                _ => m.datasets[i].dataset_version == versions[i] && m.datasets[i].type_id
                    == plans[i].type_id && m.datasets[i].type_label == plans[i].type_label
                    && m.datasets[i].kind == plans[i].kind && m.datasets[i].dataset_path
                    == plans[i].dataset_path && m.datasets[i].row_count == plans[i].row_count,
            }
        }),
{
}

// ---------------------------------------------------------------------------
// Which tables are planned

/// The committed entry of a type is an entry of the manifest under the type's kind and label,
/// with none of that kind and label behind it; there is none only where no entry has them.
pub proof fn law_committed_entry_is_the_last_of_its_type(
    datasets: Seq<DatasetEntryModel>,
    kind: Seq<char>,
    label: Seq<char>,
    n: int,
)
    requires
        0 <= n <= datasets.len(),
    ensures
        match committed_entry(datasets, entity_key(kind, label), n) {
            Some(e) => exists|k: int|
                0 <= k < n && e == #[trigger] datasets[k] && datasets[k].kind + ":"@
                    + datasets[k].type_label == kind + ":"@ + label && forall|j: int|
                    k < j < n ==> (#[trigger] datasets[j]).kind != kind || datasets[j].type_label
                        != label,
            None => forall|j: int|
                0 <= j < n ==> (#[trigger] datasets[j]).kind != kind || datasets[j].type_label
                    != label,
        },
    decreases n,
{
    if n > 0 {
        let last = datasets[n - 1];
        if entity_key(last.kind, last.type_label) == entity_key(kind, label) {
            assert(datasets[n - 1] == last);
        } else {
            law_committed_entry_is_the_last_of_its_type(datasets, kind, label, n - 1);
        }
    }
}

proof fn lemma_table_labeled(tables: Seq<TableSummaryModel>, label: Seq<char>, i: int)
    requires
        0 <= i,
    ensures
        match table_labeled(tables, label, i) {
            Some(t) => t.label == label && exists|k: int|
                i <= k < tables.len() && t == #[trigger] tables[k],
            None => forall|k: int| i <= k < tables.len() ==> (#[trigger] tables[k]).label != label,
        },
    decreases tables.len() - i,
{
    if i < tables.len() && tables[i].label != label {
        lemma_table_labeled(tables, label, i + 1);
    }
}

/// Whether a plan is that of a node type with one of the tables.
pub open spec fn plans_node(
    p: DatasetPlanModel,
    node: NodeTypeDefModel,
    tables: Seq<TableSummaryModel>,
) -> bool {
    &&& p.kind == "node"@
    &&& p.type_label == node.name
    &&& p.type_id == node.type_id
    &&& exists|t: int|
        0 <= t < tables.len() && (#[trigger] tables[t]).label == node.name && tables[t].row_count
            == p.row_count
}

/// Whether a plan is that of an edge type with one of the tables.
pub open spec fn plans_edge(
    p: DatasetPlanModel,
    edge: EdgeTypeDefModel,
    tables: Seq<TableSummaryModel>,
) -> bool {
    &&& p.kind == "edge"@
    &&& p.type_label == edge.name
    &&& p.type_id == edge.type_id
    &&& exists|t: int|
        0 <= t < tables.len() && (#[trigger] tables[t]).label == edge.name && tables[t].row_count
            == p.row_count
}

proof fn lemma_node_plans(
    nodes: Seq<NodeTypeDefModel>,
    tables: Seq<TableSummaryModel>,
    previous: ManifestModel,
    events: Seq<CdcModel>,
    op_summary: Seq<char>,
    n: int,
)
    requires
        0 <= n <= nodes.len(),
    ensures
        ({
            let plans = node_plans(nodes, tables, previous, events, op_summary, n);
            &&& forall|i: int|
                0 <= i < plans.len() ==> exists|k: int|
                    0 <= k < n && plans_node(#[trigger] plans[i], #[trigger] nodes[k], tables)
            &&& forall|k: int, t: int|
                0 <= k < n && 0 <= t < tables.len() && (#[trigger] tables[t]).label == (
                #[trigger] nodes[k]).name ==> exists|i: int|
                    0 <= i < plans.len() && plans_node(#[trigger] plans[i], nodes[k], tables)
        }),
    decreases n,
{
    if n > 0 {
        lemma_node_plans(nodes, tables, previous, events, op_summary, n - 1);
        let before = node_plans(nodes, tables, previous, events, op_summary, n - 1);
        let plans = node_plans(nodes, tables, previous, events, op_summary, n);
        lemma_table_labeled(tables, nodes[n - 1].name, 0);
        if let Some(table) = table_labeled(tables, nodes[n - 1].name, 0) {
            assert(plans_node(plans[plans.len() - 1], nodes[n - 1], tables));
        }
        assert forall|i: int| 0 <= i < plans.len() implies exists|k: int|
            0 <= k < n && plans_node(#[trigger] plans[i], #[trigger] nodes[k], tables) by {
            if i < before.len() {
                assert(plans[i] == before[i]);
                let k = choose|k: int|
                    0 <= k < n - 1 && plans_node(before[i], #[trigger] nodes[k], tables);
                assert(plans_node(plans[i], nodes[k], tables));
            } else {
                assert(plans_node(plans[i], nodes[n - 1], tables));
            }
        }
        assert forall|k: int, t: int|
            0 <= k < n && 0 <= t < tables.len() && (#[trigger] tables[t]).label == (
            #[trigger] nodes[k]).name implies exists|i: int|
            0 <= i < plans.len() && plans_node(#[trigger] plans[i], nodes[k], tables) by {
            if k < n - 1 {
                let i = choose|i: int|
                    0 <= i < before.len() && plans_node(#[trigger] before[i], nodes[k], tables);
                assert(plans[i] == before[i]);
            } else {
                assert(plans_node(plans[plans.len() - 1], nodes[k], tables));
            }
        }
    }
}

proof fn lemma_edge_plans(
    edges: Seq<EdgeTypeDefModel>,
    tables: Seq<TableSummaryModel>,
    previous: ManifestModel,
    events: Seq<CdcModel>,
    op_summary: Seq<char>,
    n: int,
)
    requires
        0 <= n <= edges.len(),
    ensures
        ({
            let plans = edge_plans(edges, tables, previous, events, op_summary, n);
            &&& forall|i: int|
                0 <= i < plans.len() ==> exists|k: int|
                    0 <= k < n && plans_edge(#[trigger] plans[i], #[trigger] edges[k], tables)
            &&& forall|k: int, t: int|
                0 <= k < n && 0 <= t < tables.len() && (#[trigger] tables[t]).label == (
                #[trigger] edges[k]).name ==> exists|i: int|
                    0 <= i < plans.len() && plans_edge(#[trigger] plans[i], edges[k], tables)
        }),
    decreases n,
{
    if n > 0 {
        lemma_edge_plans(edges, tables, previous, events, op_summary, n - 1);
        let before = edge_plans(edges, tables, previous, events, op_summary, n - 1);
        let plans = edge_plans(edges, tables, previous, events, op_summary, n);
        lemma_table_labeled(tables, edges[n - 1].name, 0);
        if let Some(table) = table_labeled(tables, edges[n - 1].name, 0) {
            assert(plans_edge(plans[plans.len() - 1], edges[n - 1], tables));
        }
        assert forall|i: int| 0 <= i < plans.len() implies exists|k: int|
            0 <= k < n && plans_edge(#[trigger] plans[i], #[trigger] edges[k], tables) by {
            if i < before.len() {
                assert(plans[i] == before[i]);
                let k = choose|k: int|
                    0 <= k < n - 1 && plans_edge(before[i], #[trigger] edges[k], tables);
                assert(plans_edge(plans[i], edges[k], tables));
            } else {
                assert(plans_edge(plans[i], edges[n - 1], tables));
            }
        }
        assert forall|k: int, t: int|
            0 <= k < n && 0 <= t < tables.len() && (#[trigger] tables[t]).label == (
            #[trigger] edges[k]).name implies exists|i: int|
            0 <= i < plans.len() && plans_edge(#[trigger] plans[i], edges[k], tables) by {
            if k < n - 1 {
                let i = choose|i: int|
                    0 <= i < before.len() && plans_edge(#[trigger] before[i], edges[k], tables);
                assert(plans[i] == before[i]);
            } else {
                assert(plans_edge(plans[plans.len() - 1], edges[k], tables));
            }
        }
    }
}

/// Every type of the schema that has a table is planned, node types as nodes and edge types
/// as edges, with its own identity and the number of rows of a table of its label; and
/// nothing else is planned.
pub proof fn law_exactly_the_types_with_tables_are_planned(
    schema: SchemaIrModel,
    node_tables: Seq<TableSummaryModel>,
    edge_tables: Seq<TableSummaryModel>,
    previous: ManifestModel,
    events: Seq<CdcModel>,
    op_summary: Seq<char>,
)
    ensures
        ({
            let plans = commit_plan(
                schema,
                node_tables,
                edge_tables,
                previous,
                events,
                op_summary,
            );
            &&& forall|i: int|
                0 <= i < plans.len() ==> (exists|k: int|
                    0 <= k < schema.nodes.len() && plans_node(
                        #[trigger] plans[i],
                        #[trigger] schema.nodes[k],
                        node_tables,
                    )) || (exists|k: int|
                    0 <= k < schema.edges.len() && plans_edge(
                        plans[i],
                        #[trigger] schema.edges[k],
                        edge_tables,
                    ))
            &&& forall|k: int, t: int|
                0 <= k < schema.nodes.len() && 0 <= t < node_tables.len() && (
                #[trigger] node_tables[t]).label == (#[trigger] schema.nodes[k]).name
                    ==> exists|i: int|
                    0 <= i < plans.len() && plans_node(
                        #[trigger] plans[i],
                        schema.nodes[k],
                        node_tables,
                    )
            &&& forall|k: int, t: int|
                0 <= k < schema.edges.len() && 0 <= t < edge_tables.len() && (
                #[trigger] edge_tables[t]).label == (#[trigger] schema.edges[k]).name
                    ==> exists|i: int|
                    0 <= i < plans.len() && plans_edge(
                        #[trigger] plans[i],
                        schema.edges[k],
                        edge_tables,
                    )
        }),
{
    let nn = schema.nodes.len() as int;
    let ne = schema.edges.len() as int;
    lemma_node_plans(schema.nodes, node_tables, previous, events, op_summary, nn);
    lemma_edge_plans(schema.edges, edge_tables, previous, events, op_summary, ne);
    let a = node_plans(schema.nodes, node_tables, previous, events, op_summary, nn);
    let b = edge_plans(schema.edges, edge_tables, previous, events, op_summary, ne);
    let plans = commit_plan(schema, node_tables, edge_tables, previous, events, op_summary);
    assert forall|i: int| 0 <= i < plans.len() implies (exists|k: int|
        0 <= k < schema.nodes.len() && plans_node(
            #[trigger] plans[i],
            #[trigger] schema.nodes[k],
            node_tables,
        )) || (exists|k: int|
        0 <= k < schema.edges.len() && plans_edge(
            plans[i],
            #[trigger] schema.edges[k],
            edge_tables,
        )) by {
        if i < a.len() {
            assert(plans[i] == a[i]);
        } else {
            assert(plans[i] == b[i - a.len()]);
        }
    }
    assert forall|k: int, t: int|
        0 <= k < schema.nodes.len() && 0 <= t < node_tables.len() && (
        #[trigger] node_tables[t]).label == (#[trigger] schema.nodes[k]).name implies exists|i: int|
        0 <= i < plans.len() && plans_node(
            #[trigger] plans[i],
            schema.nodes[k],
            node_tables,
        ) by {
        let i = choose|i: int|
            0 <= i < a.len() && plans_node(#[trigger] a[i], schema.nodes[k], node_tables);
        assert(plans[i] == a[i]);
    }
    assert forall|k: int, t: int|
        0 <= k < schema.edges.len() && 0 <= t < edge_tables.len() && (
        #[trigger] edge_tables[t]).label == (#[trigger] schema.edges[k]).name implies exists|i: int|
        0 <= i < plans.len() && plans_edge(
            #[trigger] plans[i],
            schema.edges[k],
            edge_tables,
        ) by {
        let i = choose|i: int|
            0 <= i < b.len() && plans_edge(#[trigger] b[i], schema.edges[k], edge_tables);
        assert(plans[a.len() + i] == b[i]);
    }
}

/// What is done with the tables of one kind does not depend on those of the other: a commit
/// is the plan of the nodes followed by that of the edges.
pub proof fn law_node_tables_come_first(
    schema: SchemaIrModel,
    node_tables: Seq<TableSummaryModel>,
    edge_tables: Seq<TableSummaryModel>,
    previous: ManifestModel,
    events: Seq<CdcModel>,
    op_summary: Seq<char>,
    i: int,
    j: int,
)
    requires
        0 <= i < j < commit_plan(
            schema,
            node_tables,
            edge_tables,
            previous,
            events,
            op_summary,
        ).len(),
    ensures
        ({
            let plans = commit_plan(
                schema,
                node_tables,
                edge_tables,
                previous,
                events,
                op_summary,
            );
            plans[i].kind == "edge"@ ==> plans[j].kind == "edge"@
        }),
{
    let nn = schema.nodes.len() as int;
    let ne = schema.edges.len() as int;
    lemma_node_plans(schema.nodes, node_tables, previous, events, op_summary, nn);
    lemma_edge_plans(schema.edges, edge_tables, previous, events, op_summary, ne);
    let a = node_plans(schema.nodes, node_tables, previous, events, op_summary, nn);
    let b = edge_plans(schema.edges, edge_tables, previous, events, op_summary, ne);
    reveal_strlit("node");
    reveal_strlit("edge");
    assert("node"@[0] != "edge"@[0]);
    let plans = a + b;
    if i < a.len() {
        assert(plans[i] == a[i]);
    } else {
        assert(plans[j] == b[j - a.len()]);
    }
}

/// A new table goes to the directory of its kind under the identity of its type.
pub proof fn law_new_tables_have_their_own_place(
    kind: Seq<char>,
    dir: Seq<char>,
    label: Seq<char>,
    type_id: u32,
    key_prop: Option<Seq<char>>,
    table: TableSummaryModel,
    previous: ManifestModel,
    events: Seq<CdcModel>,
    op_summary: Seq<char>,
)
    requires
        forall|j: int|
            0 <= j < previous.datasets.len() ==> (#[trigger] previous.datasets[j]).kind + ":"@
                + previous.datasets[j].type_label != kind + ":"@ + label,
    ensures
        ({
            let p = dataset_plan(
                kind,
                dir,
                label,
                type_id,
                key_prop,
                table,
                previous,
                events,
                op_summary,
            );
            &&& p.step is Overwrite
            &&& p.dataset_path.len() == dir.len() + 8
            &&& p.dataset_path.take(dir.len() as int) == dir
            &&& p.kind == kind
            &&& p.type_label == label
            &&& p.type_id == type_id
            &&& p.row_count == table.row_count
        }),
{
    lemma_no_entry(previous.datasets, kind + ":"@ + label, previous.datasets.len() as int);
    lemma_hex_len(type_id as nat, 8);
    assert((dir + hex_fixed(type_id as nat, 8)).take(dir.len() as int) =~= dir);
}

proof fn lemma_no_entry(datasets: Seq<DatasetEntryModel>, key: Seq<char>, n: int)
    requires
        0 <= n <= datasets.len(),
        forall|j: int|
            0 <= j < datasets.len() ==> (#[trigger] datasets[j]).kind + ":"@
                + datasets[j].type_label != key,
    ensures
        committed_entry(datasets, key, n) is None,
    decreases n,
{
    if n > 0 {
        lemma_no_entry(datasets, key, n - 1);
        assert(datasets[n - 1].kind + ":"@ + datasets[n - 1].type_label != key);
    }
}

proof fn lemma_hex_len(n: nat, width: nat)
    ensures
        hex_fixed(n, width).len() == width,
    decreases width,
{
    if width > 0 {
        lemma_hex_len(n / 16, (width - 1) as nat);
    }
}

// ---------------------------------------------------------------------------
// How a table is written

/// Which step a table takes, by what its commit does: without a committed table all rows are
/// written; a table without an event is kept; one that a merging commit only inserts into and
/// updates is merged by its key; one that an appending commit only inserts into is appended
/// to; one that is only deleted from has rows taken out; every other one is written whole.
/// What builds on the committed table builds on the version that the manifest has of it.
pub proof fn law_steps_follow_the_change(
    op_summary: Seq<char>,
    events: Seq<CdcModel>,
    key: Seq<char>,
    previous: Option<DatasetEntryModel>,
    duplicate_fields: bool,
    key_prop: Option<Seq<char>>,
)
    ensures
        ({
            let step = write_step(op_summary, events, key, previous, duplicate_fields, key_prop);
            let touched = exists|i: int|
                0 <= i < events.len() && (#[trigger] events[i]).entity_kind + ":"@
                    + events[i].type_label == key;
            let inserts = forall|i: int|
                0 <= i < events.len() && (#[trigger] events[i]).entity_kind + ":"@
                    + events[i].type_label == key ==> events[i].op == "insert"@;
            let upserts = forall|i: int|
                0 <= i < events.len() && (#[trigger] events[i]).entity_kind + ":"@
                    + events[i].type_label == key ==> events[i].op == "insert"@ || events[i].op
                    == "update"@;
            let deletes = forall|i: int|
                0 <= i < events.len() && (#[trigger] events[i]).entity_kind + ":"@
                    + events[i].type_label == key ==> events[i].op == "delete"@;
            let merging = (op_summary == "load:merge"@ || op_summary == "mutation:update_node"@)
                && !duplicate_fields && key_prop is Some && upserts;
            let appending = op_summary == "load:append"@ && !duplicate_fields && inserts;
            match previous {
                None => step is Overwrite,
                Some(prev) => match step {
                    WriteStepModel::Keep(e) => !touched && e == prev,
                    WriteStepModel::MergeUpsert { key_prop: k, pinned_version, .. } => touched
                        && merging && key_prop == Some(k) && pinned_version
                        == prev.dataset_version,
                    WriteStepModel::Append { base_version, .. } => touched && !merging && appending
                        && base_version == prev.dataset_version,
                    WriteStepModel::Delete { pinned_version, .. } => touched && !merging
                        && !appending && deletes && pinned_version == prev.dataset_version,
                    WriteStepModel::Overwrite => touched && !merging && !appending && !deletes,
                },
            }
        }),
{
    let n = events.len();
    assert forall|i: int| 0 <= i < n implies (touches(#[trigger] events[i], key) <==> events[i].entity_kind
        + ":"@ + events[i].type_label == key) by {}
    if changed(events, key) {
        let i = choose|i: int| 0 <= i < events.len() && touches(#[trigger] events[i], key);
        assert(events[i].entity_kind + ":"@ + events[i].type_label == key);
    }
    assert(only(events, key, upsert_class()) <==> forall|i: int|
        0 <= i < events.len() && (#[trigger] events[i]).entity_kind + ":"@ + events[i].type_label
            == key ==> events[i].op == "insert"@ || events[i].op == "update"@);
    assert(only(events, key, insert_class()) <==> forall|i: int|
        0 <= i < events.len() && (#[trigger] events[i]).entity_kind + ":"@ + events[i].type_label
            == key ==> events[i].op == "insert"@);
    assert(only(events, key, delete_class()) <==> forall|i: int|
        0 <= i < events.len() && (#[trigger] events[i]).entity_kind + ":"@ + events[i].type_label
            == key ==> events[i].op == "delete"@);
}

/// A step that writes part of a table carries the events of its own table and no other, each
/// once and in order, and of its own operation: a merge inserts and updates, an append
/// inserts, a deletion deletes.
pub proof fn law_partial_writes_carry_their_own_events(
    op_summary: Seq<char>,
    events: Seq<CdcModel>,
    key: Seq<char>,
    previous: Option<DatasetEntryModel>,
    duplicate_fields: bool,
    key_prop: Option<Seq<char>>,
    i: int,
)
    requires
        events.len() <= usize::MAX,
    ensures
        match write_step(op_summary, events, key, previous, duplicate_fields, key_prop) {
            WriteStepModel::MergeUpsert { events: p, .. } => {
                &&& forall|a: int, b: int| 0 <= a < b < p.len() ==> p[a] < p[b]
                &&& 0 <= i < p.len() ==> p[i] < events.len() && events[p[i] as int].entity_kind
                    + ":"@ + events[p[i] as int].type_label == key && (events[p[i] as int].op
                    == "insert"@ || events[p[i] as int].op == "update"@)
            },
            WriteStepModel::Append { events: p, .. } => {
                &&& forall|a: int, b: int| 0 <= a < b < p.len() ==> p[a] < p[b]
                &&& 0 <= i < p.len() ==> p[i] < events.len() && events[p[i] as int].entity_kind
                    + ":"@ + events[p[i] as int].type_label == key && events[p[i] as int].op
                    == "insert"@
            },
            WriteStepModel::Delete { events: p, .. } => {
                &&& forall|a: int, b: int| 0 <= a < b < p.len() ==> p[a] < p[b]
                &&& 0 <= i < p.len() ==> p[i] < events.len() && events[p[i] as int].entity_kind
                    + ":"@ + events[p[i] as int].type_label == key && events[p[i] as int].op
                    == "delete"@
            },
            WriteStepModel::Keep(_) => true,
            WriteStepModel::Overwrite => true,
        },
{
    let n = events.len() as int;
    law_picked_positions(events, key, upsert_class(), n);
    law_picked_positions(events, key, insert_class(), n);
    law_picked_positions(events, key, delete_class(), n);
    lemma_picked_own(events, key, upsert_class(), n, i);
    lemma_picked_own(events, key, insert_class(), n, i);
    lemma_picked_own(events, key, delete_class(), n, i);
}

proof fn lemma_picked_own(
    events: Seq<CdcModel>,
    key: Seq<char>,
    class: spec_fn(Seq<char>) -> bool,
    n: int,
    i: int,
)
    requires
        0 <= n <= events.len() <= usize::MAX,
    ensures
        0 <= i < picked(events, key, class, n).len() ==> ({
            let e = events[picked(events, key, class, n)[i] as int];
            touches(e, key) && class(e.op)
        }),
    decreases n,
{
    let before = picked(events, key, class, n - 1);
    if n > 0 && i < before.len() {
        lemma_picked_own(events, key, class, n - 1, i);
    }
}

// ---------------------------------------------------------------------------
// The rows that events carry

proof fn lemma_event_rows(
    events: Seq<CdcModel>,
    positions: Seq<usize>,
    upsert: bool,
    n: int,
    k: int,
)
    requires
        0 <= k < n <= positions.len(),
        event_rows(events, positions, upsert, n) is Ok,
    ensures
        event_rows(events, positions, upsert, n)->Ok_0.len() == n,
        ({
            let e = events[positions[k] as int];
            let row = event_rows(events, positions, upsert, n)->Ok_0[k];
            &&& row is Object
            &&& !upsert || e.op == "insert"@ ==> row == e.payload
            &&& upsert && e.op != "insert"@ ==> e.op == "update"@ && json_get(
                e.payload,
                "after"@,
            ) == Some(row)
        }),
    decreases n,
{
    if n - 1 > k {
        lemma_event_rows(events, positions, upsert, n - 1, k);
    } else if n - 1 > 0 {
        lemma_event_rows(events, positions, upsert, n - 1, 0);
    }
}

/// The columns that are written hold a row for each picked event, in order: under each name
/// the value that the inserted row has, or that the row has after the update, and null where
/// the row has none.
pub proof fn law_written_columns_hold_the_rows_of_the_events(
    names: Seq<Seq<char>>,
    events: Seq<CdcModel>,
    positions: Seq<usize>,
    upsert: bool,
    c: int,
    k: int,
)
    requires
        0 <= c < names.len(),
        0 <= k < positions.len(),
    ensures
        event_columns(names, events, positions, upsert) matches Ok(written) ==> (
        written matches Some(columns) && columns.len() == names.len() && columns[c].len()
            == positions.len() && ({
            let e = events[positions[k] as int];
            &&& !upsert || e.op == "insert"@ ==> columns[c][k] == json_at(e.payload, names[c])
            &&& upsert && e.op == "update"@ ==> columns[c][k] == json_at(
                json_at(e.payload, "after"@),
                names[c],
            )
        })),
{
    let n = positions.len() as int;
    if event_rows(events, positions, upsert, n) is Ok {
        lemma_event_rows(events, positions, upsert, n, k);
        let rows = event_rows(events, positions, upsert, n)->Ok_0;
        reveal_strlit("insert");
        reveal_strlit("update");
        assert("insert"@[0] != "update"@[0]);
        assert(row_cell(rows[k], names[c]) == json_at(rows[k], names[c]));
    }
}

/// Rows are written exactly where every picked event carries one: an inserted object, or
/// where updates count the object after the update.
pub proof fn law_rows_are_refused_where_an_event_has_none(
    names: Seq<Seq<char>>,
    events: Seq<CdcModel>,
    positions: Seq<usize>,
    upsert: bool,
)
    ensures
        event_columns(names, events, positions, upsert) is Ok <==> forall|k: int|
            0 <= k < positions.len() ==> carries_row(
                events[#[trigger] positions[k] as int],
                upsert,
            ),
{
    lemma_rows_iff(events, positions, upsert, positions.len() as int);
}

/// Whether an event carries a row: an inserted object, or where updates count too the object
/// after the update.
pub open spec fn carries_row(e: CdcModel, upsert: bool) -> bool {
    if !upsert {
        e.payload is Object
    } else if e.op == "insert"@ {
        e.payload is Object
    } else {
        e.op == "update"@ && json_at(e.payload, "after"@) is Object
    }
}

proof fn lemma_rows_iff(events: Seq<CdcModel>, positions: Seq<usize>, upsert: bool, n: int)
    requires
        0 <= n <= positions.len(),
    ensures
        event_rows(events, positions, upsert, n) is Ok <==> forall|k: int|
            0 <= k < n ==> carries_row(events[#[trigger] positions[k] as int], upsert),
    decreases n,
{
    if n > 0 {
        lemma_rows_iff(events, positions, upsert, n - 1);
        let e = events[positions[n - 1] as int];
        assert(carries_row(e, upsert) <==> (if upsert {
            upsert_row(e) is Ok
        } else {
            insert_row(e) is Ok
        }));
    }
}

/// Every deleted row is named: where the identities of delete events are read there are as
/// many as there are picked events, and each is the number under `id` in the payload of its
/// event. They are read exactly where every picked event has such a number.
pub proof fn law_every_deleted_row_is_named(
    events: Seq<CdcModel>,
    positions: Seq<usize>,
    n: int,
)
    requires
        0 <= n <= positions.len(),
    ensures
        deleted_ids(events, positions, n) is Ok <==> forall|k: int|
            0 <= k < n ==> json_u64(
                json_at(events[#[trigger] positions[k] as int].payload, "id"@),
            ) is Some,
        deleted_ids(events, positions, n) matches Ok(ids) ==> ids.len() == n && forall|k: int|
            0 <= k < n ==> json_u64(
                json_at(events[#[trigger] positions[k] as int].payload, "id"@),
            ) == Some(ids[k] as int),
    decreases n,
{
    if n > 0 {
        law_every_deleted_row_is_named(events, positions, n - 1);
        let e = events[positions[n - 1] as int];
        let id = json_at(e.payload, "id"@);
        lemma_u64_fits(id);
    }
}

proof fn lemma_u64_fits(j: JsonModel)
    ensures
        json_u64(j) matches Some(v) ==> 0 <= v <= u64::MAX,
{
    if let JsonModel::Number(n) = j {
        lemma_read_bounds(n, 0, 0);
        lemma_read_bounds(n, 1, 0);
    }
}

proof fn lemma_read_bounds(s: Seq<char>, i: int, acc: int)
    requires
        0 <= i,
        0 <= acc <= u64::MAX,
    ensures
        read_digits(s, i, acc, false, 0, u64::MAX as int) matches Ok(v) ==> 0 <= v
            <= u64::MAX,
    decreases s.len() - i,
{
    if i < s.len() && is_digit(s[i]) {
        let next = acc * 10 + ((s[i] as int) - ('0' as int));
        if 0 <= next <= u64::MAX {
            lemma_read_bounds(s, i + 1, next);
        }
    }
}

// ---------------------------------------------------------------------------
// The log of a commit

/// An event is logged as what it was, under the transaction, the version and the time of its
/// commit, and events of one commit keep their order.
pub proof fn law_logged_events_are_those_of_the_commit(
    e: CdcModel,
    later: CdcModel,
    manifest: ManifestModel,
    i: int,
    j: int,
)
    requires
        0 <= i < j,
    ensures
        ({
            let x = committed_event(e, manifest, i);
            &&& x.op == e.op
            &&& x.entity_kind == e.entity_kind
            &&& x.type_label == e.type_label
            &&& x.entity_key == e.entity_key
            &&& x.payload == e.payload
            &&& x.tx_id == manifest.last_tx_id
            &&& x.db_version == manifest.db_version
            &&& x.committed_at == manifest.committed_at
            &&& j <= u32::MAX ==> x.seq_in_tx == i && x.seq_in_tx < committed_event(
                later,
                manifest,
                j,
            ).seq_in_tx
        }),
{
}

} // verus!
