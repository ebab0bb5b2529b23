//! The decisions of a commit: which tables are written, how, and what the manifest
//! then says.

use crate::error::{ErrorModel, NanoError};
use crate::json::{json_at, json_get, json_u64, Json, JsonModel};
use crate::store::commit_laws::law_every_deleted_row_is_named;
use crate::store::manifest::{DatasetEntry, DatasetEntryModel, GraphManifest, ManifestModel};
use crate::store::schema_ir::{key_prop_of, EdgeTypeDefModel, NodeTypeDefModel, SchemaIr, SchemaIrModel};
use crate::store::txlog::{CdcLogEntry, CdcModel};
use crate::text::{cat2, cat3, cat4, cat6, decimal, decimal_u64, hex_fixed, hex_padded, lemma_views_push, same, views};
use vstd::prelude::*;

verus! {

// ---------------------------------------------------------------------------
// Change events by entity

/// The name under which a commit keeps the changes of an entity type.
pub open spec fn entity_key(kind: Seq<char>, label: Seq<char>) -> Seq<char> {
    kind + ":"@ + label
}

/// The name under which a commit keeps the changes of an entity type.
pub fn dataset_entity_key(kind: &str, label: &str) -> (r: String)
    ensures
        r@ == entity_key(kind@, label@),
{
    cat3(kind, ":", label)
}

pub open spec fn touches(e: CdcModel, key: Seq<char>) -> bool {
    entity_key(e.entity_kind, e.type_label) == key
}

pub open spec fn is_insert(op: Seq<char>) -> bool {
    op == "insert"@
}

pub open spec fn is_upsert(op: Seq<char>) -> bool {
    op == "insert"@ || op == "update"@
}

pub open spec fn is_delete(op: Seq<char>) -> bool {
    op == "delete"@
}

/// Whether an event touches an entity type.
pub open spec fn changed(events: Seq<CdcModel>, key: Seq<char>) -> bool {
    exists|i: int| 0 <= i < events.len() && touches(#[trigger] events[i], key)
}

/// Whether every event that touches an entity type has an operation of a class.
pub open spec fn only(events: Seq<CdcModel>, key: Seq<char>, class: spec_fn(Seq<char>) -> bool) -> bool {
    forall|i: int|
        0 <= i < events.len() && touches(#[trigger] events[i], key) ==> class(events[i].op)
}

/// The positions, among the first `n`, of the events that touch an entity type with an
/// operation of a class.
pub open spec fn picked(
    events: Seq<CdcModel>,
    key: Seq<char>,
    class: spec_fn(Seq<char>) -> bool,
    n: int,
) -> Seq<usize>
    decreases n,
{
    if n <= 0 {
        Seq::empty()
    } else {
        let before = picked(events, key, class, n - 1);
        if touches(events[n - 1], key) && class(events[n - 1].op) {
            before.push((n - 1) as usize)
        } else {
            before
        }
    }
}

pub open spec fn insert_class() -> spec_fn(Seq<char>) -> bool {
    |op: Seq<char>| is_insert(op)
}

pub open spec fn upsert_class() -> spec_fn(Seq<char>) -> bool {
    |op: Seq<char>| is_upsert(op)
}

pub open spec fn delete_class() -> spec_fn(Seq<char>) -> bool {
    |op: Seq<char>| is_delete(op)
}

/// What the events of a commit do to one entity type.
pub struct EntityChanges {
    pub changed: bool,
    pub only_inserts: bool,
    pub only_upserts: bool,
    pub only_deletes: bool,
    pub inserts: Vec<usize>,
    pub upserts: Vec<usize>,
    pub deletes: Vec<usize>,
}

/// Whether a summary is the one of an entity type.
pub open spec fn summarizes(c: EntityChanges, events: Seq<CdcModel>, key: Seq<char>) -> bool {
    let n = events.len() as int;
    &&& c.changed == changed(events, key)
    &&& c.only_inserts == only(events, key, insert_class())
    &&& c.only_upserts == only(events, key, upsert_class())
    &&& c.only_deletes == only(events, key, delete_class())
    &&& c.inserts@ == picked(events, key, insert_class(), n)
    &&& c.upserts@ == picked(events, key, upsert_class(), n)
    &&& c.deletes@ == picked(events, key, delete_class(), n)
}

/// Summarizes what the events of a commit do to one entity type.
pub fn collect_entity_changes(events: &Vec<CdcLogEntry>, key: &str) -> (r: EntityChanges)
    ensures
        summarizes(r, views(events@), key@),
{
    let ghost all = views(events@);
    let mut c = EntityChanges {
        changed: false,
        only_inserts: true,
        only_upserts: true,
        only_deletes: true,
        inserts: Vec::new(),
        upserts: Vec::new(),
        deletes: Vec::new(),
    };
    let mut i: usize = 0;
    while i < events.len()
        invariant
            i <= events@.len(),
            all == views(events@),
            c.changed == exists|j: int| 0 <= j < i && touches(#[trigger] all[j], key@),
            c.only_inserts == forall|j: int|
                0 <= j < i && touches(#[trigger] all[j], key@) ==> is_insert(all[j].op),
            c.only_upserts == forall|j: int|
                0 <= j < i && touches(#[trigger] all[j], key@) ==> is_upsert(all[j].op),
            c.only_deletes == forall|j: int|
                0 <= j < i && touches(#[trigger] all[j], key@) ==> is_delete(all[j].op),
            c.inserts@ == picked(all, key@, insert_class(), i as int),
            c.upserts@ == picked(all, key@, upsert_class(), i as int),
            c.deletes@ == picked(all, key@, delete_class(), i as int),
        decreases events@.len() - i,
    {
        let e = &events[i];
        assert(all[i as int] == e@);
        let event_key = dataset_entity_key(&e.entity_kind, &e.type_label);
        if same(&event_key, key) {
            let insert = same(&e.op, "insert");
            let upsert = insert || same(&e.op, "update");
            let delete = same(&e.op, "delete");
            assert(touches(all[i as int], key@));
            c.changed = true;
            if insert {
                c.inserts.push(i);
            } else {
                c.only_inserts = false;
            }
            if upsert {
                c.upserts.push(i);
            } else {
                c.only_upserts = false;
            }
            if delete {
                c.deletes.push(i);
            } else {
                c.only_deletes = false;
            }
        }
        i = i + 1;
    }
    c
}

// ---------------------------------------------------------------------------
// How a table is written

/// How a table gets its next version.
#[derive(Debug)]
pub enum WriteStep {
    /// No event touches the type: the committed table stays.
    Keep(DatasetEntry),
    /// The rows of these events replace or join the rows of the pinned version by key.
    MergeUpsert { key_prop: String, pinned_version: u64, events: Vec<usize> },
    /// The rows of these events are appended.
    Append { base_version: u64, events: Vec<usize> },
    /// The rows that these events delete are taken out of the pinned version.
    Delete { pinned_version: u64, events: Vec<usize> },
    /// All rows are written.
    Overwrite,
}

/// The mathematical value of a `WriteStep`.
pub enum WriteStepModel {
    Keep(DatasetEntryModel),
    MergeUpsert { key_prop: Seq<char>, pinned_version: u64, events: Seq<usize> },
    Append { base_version: u64, events: Seq<usize> },
    Delete { pinned_version: u64, events: Seq<usize> },
    Overwrite,
}

impl View for WriteStep {
    type V = WriteStepModel;

    open spec fn view(&self) -> WriteStepModel {
        match *self {
            WriteStep::Keep(e) => WriteStepModel::Keep(e@),
            WriteStep::MergeUpsert { key_prop, pinned_version, events } =>
            WriteStepModel::MergeUpsert { key_prop: key_prop@, pinned_version, events: events@ },
            WriteStep::Append { base_version, events } => WriteStepModel::Append {
                base_version,
                events: events@,
            },
            WriteStep::Delete { pinned_version, events } => WriteStepModel::Delete {
                pinned_version,
                events: events@,
            },
            WriteStep::Overwrite => WriteStepModel::Overwrite,
        }
    }
}

/// A commit that only appends.
pub open spec fn is_append_commit(op_summary: Seq<char>) -> bool {
    op_summary == "load:append"@
}

/// A commit that merges by key.
pub open spec fn is_merge_commit(op_summary: Seq<char>) -> bool {
    op_summary == "load:merge"@ || op_summary == "mutation:update_node"@
}

/// How a table is written. `key_prop` is the key of a node type; edge types have none.
pub open spec fn write_step(
    op_summary: Seq<char>,
    events: Seq<CdcModel>,
    key: Seq<char>,
    previous: Option<DatasetEntryModel>,
    duplicate_fields: bool,
    key_prop: Option<Seq<char>>,
) -> WriteStepModel {
    let n = events.len() as int;
    match previous {
        None => WriteStepModel::Overwrite,
        Some(prev) => if !changed(events, key) {
            WriteStepModel::Keep(prev)
        } else if is_merge_commit(op_summary) && !duplicate_fields && key_prop is Some && only(
            events,
            key,
            upsert_class(),
        ) {
            WriteStepModel::MergeUpsert {
                key_prop: key_prop->0,
                pinned_version: prev.dataset_version,
                events: picked(events, key, upsert_class(), n),
            }
        } else if is_append_commit(op_summary) && !duplicate_fields && only(
            events,
            key,
            insert_class(),
        ) {
            WriteStepModel::Append {
                base_version: prev.dataset_version,
                events: picked(events, key, insert_class(), n),
            }
        } else if only(events, key, delete_class()) {
            WriteStepModel::Delete {
                pinned_version: prev.dataset_version,
                events: picked(events, key, delete_class(), n),
            }
        } else {
            WriteStepModel::Overwrite
        },
    }
}

/// Decides how a table is written.
pub fn decide_write_step(
    op_summary: &str,
    events: &Vec<CdcLogEntry>,
    key: &str,
    previous: Option<DatasetEntry>,
    duplicate_fields: bool,
    key_prop: Option<&String>,
) -> (r: WriteStep)
    ensures
        r@ == write_step(
            op_summary@,
            views(events@),
            key@,
            match previous {
                Some(e) => Some(e@),
                None => None,
            },
            duplicate_fields,
            match key_prop {
                Some(p) => Some(p@),
                None => None,
            },
        ),
{
    let changes = collect_entity_changes(events, key);
    let append_only_commit = same(op_summary, "load:append");
    let merge_commit = same(op_summary, "load:merge") || same(op_summary, "mutation:update_node");
    let prev = match previous {
        None => {
            return WriteStep::Overwrite;
        },
        Some(prev) => prev,
    };
    if !changes.changed {
        return WriteStep::Keep(prev);
    }
    if merge_commit && !duplicate_fields && changes.only_upserts {
        if let Some(key_prop) = key_prop {
            return WriteStep::MergeUpsert {
                key_prop: key_prop.clone(),
                pinned_version: prev.dataset_version,
                events: changes.upserts,
            };
        }
    }
    if append_only_commit && !duplicate_fields && changes.only_inserts {
        return WriteStep::Append { base_version: prev.dataset_version, events: changes.inserts };
    }
    if changes.only_deletes {
        return WriteStep::Delete { pinned_version: prev.dataset_version, events: changes.deletes };
    }
    WriteStep::Overwrite
}

// ---------------------------------------------------------------------------
// The plan of a commit

/// What the next state of the graph holds of one type.
#[derive(Debug)]
pub struct TableSummary {
    pub label: String,
    pub row_count: u64,
    /// The column names, in order.
    pub field_names: Vec<String>,
}

/// The mathematical value of a `TableSummary`.
pub struct TableSummaryModel {
    pub label: Seq<char>,
    pub row_count: u64,
    pub field_names: Seq<Seq<char>>,
}

impl View for TableSummary {
    type V = TableSummaryModel;

    open spec fn view(&self) -> TableSummaryModel {
        TableSummaryModel {
            label: self.label@,
            row_count: self.row_count,
            field_names: views(self.field_names@),
        }
    }
}

/// Whether two columns share a name.
pub open spec fn has_duplicate_names(names: Seq<Seq<char>>) -> bool {
    exists|i: int, j: int| 0 <= i < j < names.len() && #[trigger] names[i] == #[trigger] names[j]
}

/// Whether two columns share a name.
pub fn schema_has_duplicate_field_names(names: &Vec<String>) -> (r: bool)
    ensures
        r == has_duplicate_names(views(names@)),
{
    let ghost all = views(names@);
    let mut j: usize = 0;
    while j < names.len()
        invariant
            all == views(names@),
            j <= names@.len(),
            forall|a: int, b: int| 0 <= a < b < j ==> #[trigger] all[a] != #[trigger] all[b],
        decreases names@.len() - j,
    {
        let mut i: usize = 0;
        while i < j
            invariant
                all == views(names@),
                i <= j < names@.len(),
                forall|a: int| 0 <= a < i ==> #[trigger] all[a] != all[j as int],
            decreases j - i,
        {
            if same(&names[i], &names[j]) {
                assert(all[i as int] == all[j as int]);
                return true;
            }
            i = i + 1;
        }
        j = j + 1;
    }
    false
}

/// What a commit does with the table of one type.
#[derive(Debug)]
pub struct DatasetPlan {
    pub type_id: u32,
    pub type_label: String,
    pub kind: String,
    pub dataset_path: String,
    pub row_count: u64,
    pub step: WriteStep,
}

/// The mathematical value of a `DatasetPlan`.
pub struct DatasetPlanModel {
    pub type_id: u32,
    pub type_label: Seq<char>,
    pub kind: Seq<char>,
    pub dataset_path: Seq<char>,
    pub row_count: u64,
    pub step: WriteStepModel,
}

impl View for DatasetPlan {
    type V = DatasetPlanModel;

    open spec fn view(&self) -> DatasetPlanModel {
        DatasetPlanModel {
            type_id: self.type_id,
            type_label: self.type_label@,
            kind: self.kind@,
            dataset_path: self.dataset_path@,
            row_count: self.row_count,
            step: self.step@,
        }
    }
}

/// The committed table of an entity type: the last entry of the manifest under its key.
pub open spec fn committed_entry(datasets: Seq<DatasetEntryModel>, key: Seq<char>, n: int) -> Option<
    DatasetEntryModel,
>
    decreases n,
{
    if n <= 0 {
        None
    } else if entity_key(datasets[n - 1].kind, datasets[n - 1].type_label) == key {
        Some(datasets[n - 1])
    } else {
        committed_entry(datasets, key, n - 1)
    }
}

fn find_committed_entry(datasets: &Vec<DatasetEntry>, key: &str) -> (r: Option<DatasetEntry>)
    ensures
        match r {
            Some(e) => committed_entry(views(datasets@), key@, datasets@.len() as int) == Some(e@),
            None => committed_entry(views(datasets@), key@, datasets@.len() as int) is None,
        },
{
    let mut n: usize = datasets.len();
    while n > 0
        invariant
            n <= datasets@.len(),
            committed_entry(views(datasets@), key@, datasets@.len() as int) == committed_entry(
                views(datasets@),
                key@,
                n as int,
            ),
        decreases n,
    {
        let e = &datasets[n - 1];
        assert(views(datasets@)[n - 1] == e@);
        let k = dataset_entity_key(&e.kind, &e.type_label);
        if same(&k, key) {
            return Some(e.copy());
        }
        n = n - 1;
    }
    None
}

/// The path of a table: the committed one, else one made of the identity of the type.
pub open spec fn table_path(
    previous: Option<DatasetEntryModel>,
    dir: Seq<char>,
    type_id: u32,
) -> Seq<char> {
    match previous {
        Some(prev) => prev.dataset_path,
        None => dir + hex_fixed(type_id as nat, 8),
    }
}

/// What a commit does with the table of a type.
pub open spec fn dataset_plan(
    kind: Seq<char>,
    dir: Seq<char>,
    label: Seq<char>,
    type_id: u32,
    key_prop: Option<Seq<char>>,
    table: TableSummaryModel,
    previous: ManifestModel,
    events: Seq<CdcModel>,
    op_summary: Seq<char>,
) -> DatasetPlanModel {
    let key = entity_key(kind, label);
    let prev = committed_entry(previous.datasets, key, previous.datasets.len() as int);
    DatasetPlanModel {
        type_id,
        type_label: label,
        kind,
        dataset_path: table_path(prev, dir, type_id),
        row_count: table.row_count,
        step: write_step(
            op_summary,
            events,
            key,
            prev,
            has_duplicate_names(table.field_names),
            key_prop,
        ),
    }
}

/// The first table of a given label, from `i` on.
pub open spec fn table_labeled(tables: Seq<TableSummaryModel>, label: Seq<char>, i: int) -> Option<
    TableSummaryModel,
>
    decreases tables.len() - i,
{
    if i < 0 || i >= tables.len() {
        None
    } else if tables[i].label == label {
        Some(tables[i])
    } else {
        table_labeled(tables, label, i + 1)
    }
}

/// The plans of the first `n` node types that have a table.
pub open spec fn node_plans(
    nodes: Seq<NodeTypeDefModel>,
    tables: Seq<TableSummaryModel>,
    previous: ManifestModel,
    events: Seq<CdcModel>,
    op_summary: Seq<char>,
    n: int,
) -> Seq<DatasetPlanModel>
    decreases n,
{
    if n <= 0 {
        Seq::empty()
    } else {
        let before = node_plans(nodes, tables, previous, events, op_summary, n - 1);
        let node = nodes[n - 1];
        match table_labeled(tables, node.name, 0) {
            None => before,
            Some(table) => before.push(
                dataset_plan(
                    "node"@,
                    "nodes/"@,
                    node.name,
                    node.type_id,
                    key_prop_of(node),
                    table,
                    previous,
                    events,
                    op_summary,
                ),
            ),
        }
    }
}

/// The plans of the first `n` edge types that have a table.
pub open spec fn edge_plans(
    edges: Seq<EdgeTypeDefModel>,
    tables: Seq<TableSummaryModel>,
    previous: ManifestModel,
    events: Seq<CdcModel>,
    op_summary: Seq<char>,
    n: int,
) -> Seq<DatasetPlanModel>
    decreases n,
{
    if n <= 0 {
        Seq::empty()
    } else {
        let before = edge_plans(edges, tables, previous, events, op_summary, n - 1);
        let edge = edges[n - 1];
        match table_labeled(tables, edge.name, 0) {
            None => before,
            Some(table) => before.push(
                dataset_plan(
                    "edge"@,
                    "edges/"@,
                    edge.name,
                    edge.type_id,
                    None,
                    table,
                    previous,
                    events,
                    op_summary,
                ),
            ),
        }
    }
}

/// What a commit does with each table: first those of the nodes, then those of the edges,
/// in the order of the schema.
pub open spec fn commit_plan(
    schema: SchemaIrModel,
    node_tables: Seq<TableSummaryModel>,
    edge_tables: Seq<TableSummaryModel>,
    previous: ManifestModel,
    events: Seq<CdcModel>,
    op_summary: Seq<char>,
) -> Seq<DatasetPlanModel> {
    node_plans(
        schema.nodes,
        node_tables,
        previous,
        events,
        op_summary,
        schema.nodes.len() as int,
    ) + edge_plans(
        schema.edges,
        edge_tables,
        previous,
        events,
        op_summary,
        schema.edges.len() as int,
    )
}

fn find_table<'a>(tables: &'a Vec<TableSummary>, label: &str) -> (r: Option<&'a TableSummary>)
    ensures
        match r {
            Some(t) => table_labeled(views(tables@), label@, 0) == Some(t@),
            None => table_labeled(views(tables@), label@, 0) is None,
        },
{
    let mut i: usize = 0;
    while i < tables.len()
        invariant
            i <= tables@.len(),
            table_labeled(views(tables@), label@, 0) == table_labeled(
                views(tables@),
                label@,
                i as int,
            ),
        decreases tables@.len() - i,
    {
        assert(views(tables@)[i as int] == tables@[i as int]@);
        if same(&tables[i].label, label) {
            return Some(&tables[i]);
        }
        i = i + 1;
    }
    None
}

fn plan_dataset(
    kind: &str,
    dir: &str,
    label: &str,
    type_id: u32,
    key_prop: Option<&String>,
    table: &TableSummary,
    previous: &GraphManifest,
    events: &Vec<CdcLogEntry>,
    op_summary: &str,
) -> (r: DatasetPlan)
    ensures
        r@ == dataset_plan(
            kind@,
            dir@,
            label@,
            type_id,
            match key_prop {
                Some(p) => Some(p@),
                None => None,
            },
            table@,
            previous@,
            views(events@),
            op_summary@,
        ),
{
    let key = dataset_entity_key(kind, label);
    let prev = find_committed_entry(&previous.datasets, &key);
    let dataset_path = match &prev {
        Some(entry) => entry.dataset_path.clone(),
        None => cat2(dir, &hex_padded(type_id as u64, 8)),
    };
    let duplicates = schema_has_duplicate_field_names(&table.field_names);
    let step = decide_write_step(op_summary, events, &key, prev, duplicates, key_prop);
    DatasetPlan {
        type_id,
        type_label: label.to_owned(),
        kind: kind.to_owned(),
        dataset_path,
        row_count: table.row_count,
        step,
    }
}

/// Plans a commit: what is done with each table of the next state of the graph.
pub fn plan_commit(
    schema: &SchemaIr,
    node_tables: &Vec<TableSummary>,
    edge_tables: &Vec<TableSummary>,
    previous: &GraphManifest,
    events: &Vec<CdcLogEntry>,
    op_summary: &str,
) -> (r: Vec<DatasetPlan>)
    ensures
        views(r@) == commit_plan(
            schema@,
            views(node_tables@),
            views(edge_tables@),
            previous@,
            views(events@),
            op_summary@,
        ),
{
    let mut plans: Vec<DatasetPlan> = Vec::new();
    assert(views(plans@) =~= Seq::<DatasetPlanModel>::empty());
    let mut i: usize = 0;
    while i < schema.nodes.len()
        invariant
            i <= schema.nodes@.len(),
            views(plans@) == node_plans(
                schema@.nodes,
                views(node_tables@),
                previous@,
                views(events@),
                op_summary@,
                i as int,
            ),
        decreases schema.nodes@.len() - i,
    {
        let node = &schema.nodes[i];
        assert(schema@.nodes[i as int] == node@);
        if let Some(table) = find_table(node_tables, &node.name) {
            let plan = plan_dataset(
                "node",
                "nodes/",
                &node.name,
                node.type_id,
                node.key_prop(),
                table,
                previous,
                events,
                op_summary,
            );
            proof {
                lemma_views_push(plans@, plan);
            }
            plans.push(plan);
        }
        i = i + 1;
    }
    let ghost nodes_done = views(plans@);
    assert(nodes_done + Seq::<DatasetPlanModel>::empty() =~= nodes_done);
    let mut i: usize = 0;
    while i < schema.edges.len()
        invariant
            i <= schema.edges@.len(),
            views(plans@) == nodes_done + edge_plans(
                schema@.edges,
                views(edge_tables@),
                previous@,
                views(events@),
                op_summary@,
                i as int,
            ),
        decreases schema.edges@.len() - i,
    {
        let edge = &schema.edges[i];
        assert(schema@.edges[i as int] == edge@);
        if let Some(table) = find_table(edge_tables, &edge.name) {
            let plan = plan_dataset(
                "edge",
                "edges/",
                &edge.name,
                edge.type_id,
                None,
                table,
                previous,
                events,
                op_summary,
            );
            proof {
                lemma_views_push(plans@, plan);
                let before = edge_plans(
                    schema@.edges,
                    views(edge_tables@),
                    previous@,
                    views(events@),
                    op_summary@,
                    i as int,
                );
                assert((nodes_done + before).push(plan@) =~= nodes_done + before.push(plan@));
            }
            plans.push(plan);
        }
        i = i + 1;
    }
    plans
}

// ---------------------------------------------------------------------------
// The rows that events carry

/// The cell of a row under a name; null where the row has none.
pub open spec fn row_cell(row: JsonModel, name: Seq<char>) -> JsonModel {
    match json_get(row, name) {
        Some(v) => v,
        None => JsonModel::Null,
    }
}

/// The columns of some rows: what a row lacks is null.
pub open spec fn columns_of(rows: Seq<JsonModel>, names: Seq<Seq<char>>) -> Seq<Seq<JsonModel>> {
    Seq::new(
        names.len(),
        |c: int| Seq::new(rows.len(), |r: int| row_cell(rows[r], names[c])),
    )
}

/// The row that an insert event carries.
pub open spec fn insert_row(e: CdcModel) -> Result<JsonModel, Seq<char>> {
    if e.payload is Object {
        Ok(e.payload)
    } else {
        Err(
            "CDC insert payload must be object for "@ + e.entity_kind + " "@ + e.type_label,
        )
    }
}

/// The row that an insert or update event leaves behind.
pub open spec fn upsert_row(e: CdcModel) -> Result<JsonModel, Seq<char>> {
    if !is_upsert(e.op) {
        Err("unsupported CDC op '"@ + e.op + "' for upsert source"@)
    } else {
        let row = if is_insert(e.op) {
            Some(e.payload)
        } else {
            json_get(e.payload, "after"@)
        };
        if row matches Some(r) && r is Object {
            Ok(row->0)
        } else {
            Err(
                "CDC "@ + e.op + " payload missing object row for "@ + e.entity_kind + " "@
                    + e.type_label,
            )
        }
    }
}

/// The rows of the first `n` positions, or the message of the first event without a row.
pub open spec fn event_rows(
    events: Seq<CdcModel>,
    positions: Seq<usize>,
    upsert: bool,
    n: int,
) -> Result<Seq<JsonModel>, Seq<char>>
    decreases n,
{
    if n <= 0 {
        Ok(Seq::empty())
    } else {
        match event_rows(events, positions, upsert, n - 1) {
            Err(m) => Err(m),
            Ok(rows) => {
                let e = events[positions[n - 1] as int];
                let row = if upsert {
                    upsert_row(e)
                } else {
                    insert_row(e)
                };
                match row {
                    Err(m) => Err(m),
                    Ok(r) => Ok(rows.push(r)),
                }
            },
        }
    }
}

proof fn lemma_event_rows_refused(
    events: Seq<CdcModel>,
    positions: Seq<usize>,
    upsert: bool,
    n: int,
    k: int,
)
    requires
        0 <= k <= n,
        event_rows(events, positions, upsert, k) is Err,
    ensures
        event_rows(events, positions, upsert, n) == event_rows(events, positions, upsert, k),
    decreases n,
{
    if k < n {
        lemma_event_rows_refused(events, positions, upsert, n - 1, k);
    }
}

/// The columns of the rows of some events; none where there are no events.
pub open spec fn event_columns(
    names: Seq<Seq<char>>,
    events: Seq<CdcModel>,
    positions: Seq<usize>,
    upsert: bool,
) -> Result<Option<Seq<Seq<JsonModel>>>, Seq<char>> {
    if positions.len() == 0 {
        Ok(None)
    } else {
        match event_rows(events, positions, upsert, positions.len() as int) {
            Err(m) => Err(m),
            Ok(rows) => Ok(Some(columns_of(rows, names))),
        }
    }
}

/// The mathematical value of columns.
pub open spec fn columns_view(columns: Seq<Vec<Json>>) -> Seq<Seq<JsonModel>> {
    Seq::new(columns.len(), |c: int| views(columns[c]@))
}

/// Whether built columns are the expected ones, or the refusal is the expected one.
pub open spec fn yields_columns(
    r: Result<Option<Vec<Vec<Json>>>, NanoError>,
    expected: Result<Option<Seq<Seq<JsonModel>>>, Seq<char>>,
) -> bool {
    match r {
        Ok(None) => expected == Ok::<Option<Seq<Seq<JsonModel>>>, Seq<char>>(None),
        Ok(Some(columns)) => expected == Ok::<Option<Seq<Seq<JsonModel>>>, Seq<char>>(
            Some(columns_view(columns@)),
        ),
        Err(NanoError::Storage(m)) => expected == Err::<Option<Seq<Seq<JsonModel>>>, Seq<char>>(
            m@,
        ),
        Err(_) => false,
    }
}

fn insert_event_row(e: &CdcLogEntry) -> (r: Result<&Json, NanoError>)
    ensures
        match r {
            Ok(row) => insert_row(e@) == Ok::<JsonModel, Seq<char>>(row@),
            Err(NanoError::Storage(m)) => insert_row(e@) == Err::<JsonModel, Seq<char>>(m@),
            Err(_) => false,
        },
{
    if e.payload.is_object() {
        Ok(&e.payload)
    } else {
        Err(
            NanoError::Storage(
                cat4(
                    "CDC insert payload must be object for ",
                    &e.entity_kind,
                    " ",
                    &e.type_label,
                ),
            ),
        )
    }
}

fn upsert_event_row(e: &CdcLogEntry) -> (r: Result<&Json, NanoError>)
    ensures
        match r {
            Ok(row) => upsert_row(e@) == Ok::<JsonModel, Seq<char>>(row@),
            Err(NanoError::Storage(m)) => upsert_row(e@) == Err::<JsonModel, Seq<char>>(m@),
            Err(_) => false,
        },
{
    let row = if same(&e.op, "insert") {
        Some(&e.payload)
    } else if same(&e.op, "update") {
        e.payload.get("after")
    } else {
        return Err(
            NanoError::Storage(cat3("unsupported CDC op '", &e.op, "' for upsert source")),
        );
    };
    if let Some(row) = row {
        if row.is_object() {
            return Ok(row);
        }
    }
    Err(
        NanoError::Storage(
            cat6(
                "CDC ",
                &e.op,
                " payload missing object row for ",
                &e.entity_kind,
                " ",
                &e.type_label,
            ),
        ),
    )
}

fn build_column(rows: &Vec<&Json>, name: &str) -> (r: Vec<Json>)
    ensures
        views(r@) == Seq::new(rows@.len(), |i: int| row_cell(rows@[i]@, name@)),
{
    let ghost expected = Seq::new(rows@.len(), |i: int| row_cell(rows@[i]@, name@));
    let mut out: Vec<Json> = Vec::new();
    let mut i: usize = 0;
    assert(views(out@) =~= expected.take(0));
    while i < rows.len()
        invariant
            i <= rows@.len(),
            expected == Seq::new(rows@.len(), |i: int| row_cell(rows@[i]@, name@)),
            views(out@) == expected.take(i as int),
        decreases rows@.len() - i,
    {
        let cell = match rows[i].get(name) {
            Some(v) => v.copy(),
            None => Json::Null,
        };
        proof {
            lemma_views_push(out@, cell);
            assert(expected.take(i as int + 1) =~= expected.take(i as int).push(cell@));
        }
        out.push(cell);
        i = i + 1;
    }
    assert(expected.take(rows@.len() as int) =~= expected);
    out
}

fn build_event_columns(
    names: &Vec<String>,
    events: &Vec<CdcLogEntry>,
    positions: &Vec<usize>,
    upsert: bool,
) -> (r: Result<Option<Vec<Vec<Json>>>, NanoError>)
    requires
        forall|i: int| 0 <= i < positions@.len() ==> #[trigger] positions@[i] < events@.len(),
    ensures
        yields_columns(r, event_columns(views(names@), views(events@), positions@, upsert)),
{
    if positions.len() == 0 {
        return Ok(None);
    }
    let ghost all = views(events@);
    let mut rows: Vec<&Json> = Vec::new();
    let ghost mut models: Seq<JsonModel> = Seq::empty();
    let mut i: usize = 0;
    while i < positions.len()
        invariant
            i <= positions@.len(),
            all == views(events@),
            forall|i: int| 0 <= i < positions@.len() ==> #[trigger] positions@[i] < events@.len(),
            rows@.len() == i,
            models.len() == i,
            forall|k: int| 0 <= k < i ==> (#[trigger] rows@[k])@ == models[k],
            event_rows(all, positions@, upsert, i as int) == Ok::<Seq<JsonModel>, Seq<char>>(
                models,
            ),
        decreases positions@.len() - i,
    {
        let e = &events[positions[i]];
        assert(all[positions@[i as int] as int] == e@);
        let found = if upsert {
            upsert_event_row(e)
        } else {
            insert_event_row(e)
        };
        match found {
            Err(err) => {
                proof {
                    lemma_event_rows_refused(
                        all,
                        positions@,
                        upsert,
                        positions@.len() as int,
                        i as int + 1,
                    );
                }
                return Err(err);
            },
            Ok(row) => {
                proof {
                    models = models.push(row@);
                }
                rows.push(row);
            },
        }
        i = i + 1;
    }
    let ghost expected = columns_of(models, views(names@));
    let mut columns: Vec<Vec<Json>> = Vec::new();
    let mut c: usize = 0;
    while c < names.len()
        invariant
            c <= names@.len(),
            rows@.len() == models.len(),
            forall|k: int| 0 <= k < rows@.len() ==> (#[trigger] rows@[k])@ == models[k],
            expected == columns_of(models, views(names@)),
            columns@.len() == c,
            forall|k: int| 0 <= k < c ==> views((#[trigger] columns@[k])@) == expected[k],
        decreases names@.len() - c,
    {
        let column = build_column(&rows, &names[c]);
        assert(views(column@) =~= expected[c as int]);
        columns.push(column);
        c = c + 1;
    }
    assert(columns_view(columns@) =~= expected);
    Ok(Some(columns))
}

/// The columns of the rows that insert events append.
pub fn build_append_batch_from_cdc(
    names: &Vec<String>,
    events: &Vec<CdcLogEntry>,
    positions: &Vec<usize>,
) -> (r: Result<Option<Vec<Vec<Json>>>, NanoError>)
    requires
        forall|i: int| 0 <= i < positions@.len() ==> #[trigger] positions@[i] < events@.len(),
    ensures
        yields_columns(r, event_columns(views(names@), views(events@), positions@, false)),
{
    build_event_columns(names, events, positions, false)
}

/// The columns of the rows that insert and update events leave behind.
pub fn build_upsert_batch_from_cdc(
    names: &Vec<String>,
    events: &Vec<CdcLogEntry>,
    positions: &Vec<usize>,
) -> (r: Result<Option<Vec<Vec<Json>>>, NanoError>)
    requires
        forall|i: int| 0 <= i < positions@.len() ==> #[trigger] positions@[i] < events@.len(),
    ensures
        yields_columns(r, event_columns(views(names@), views(events@), positions@, true)),
{
    build_event_columns(names, events, positions, true)
}

/// The identities that the first `n` of the picked delete events name, or the message of the
/// first that names none.
pub open spec fn deleted_ids(events: Seq<CdcModel>, positions: Seq<usize>, n: int) -> Result<
    Seq<u64>,
    Seq<char>,
>
    decreases n,
{
    if n <= 0 {
        Ok(Seq::empty())
    } else {
        match deleted_ids(events, positions, n - 1) {
            Err(m) => Err(m),
            Ok(done) => {
                let e = events[positions[n - 1] as int];
                match json_u64(json_at(e.payload, "id"@)) {
                    Some(id) => Ok(done.push(id as u64)),
                    None => Err(
                        "CDC delete payload has no id for "@ + e.entity_kind + " "@ + e.type_label,
                    ),
                }
            },
        }
    }
}

proof fn lemma_deleted_refused(events: Seq<CdcModel>, positions: Seq<usize>, n: int, k: int)
    requires
        0 <= k <= n,
        deleted_ids(events, positions, k) is Err,
    ensures
        deleted_ids(events, positions, n) == deleted_ids(events, positions, k),
    decreases n,
{
    if k < n {
        lemma_deleted_refused(events, positions, n - 1, k);
    }
}

/// The identities that delete events name.
pub fn deleted_ids_from_cdc_events(events: &Vec<CdcLogEntry>, positions: &Vec<usize>) -> (r: Result<
    Vec<u64>,
    NanoError,
>)
    requires
        forall|i: int| 0 <= i < positions@.len() ==> #[trigger] positions@[i] < events@.len(),
    ensures
        match r {
            Ok(ids) => deleted_ids(views(events@), positions@, positions@.len() as int) == Ok::<
                Seq<u64>,
                Seq<char>,
            >(ids@),
            Err(e) => deleted_ids(views(events@), positions@, positions@.len() as int) matches Err(
                m,
            ) && e@ == ErrorModel::Storage(m),
        },
        r matches Ok(ids) ==> ids@.len() == positions@.len() && forall|k: int|
            0 <= k < positions@.len() ==> json_u64(
                json_at(events@[#[trigger] positions@[k] as int].payload@, "id"@),
            ) == Some(ids@[k] as int),
{
    proof {
        law_every_deleted_row_is_named(views(events@), positions@, positions@.len() as int);
    }
    let mut out: Vec<u64> = Vec::new();
    let n: usize = positions.len();
    let mut i: usize = 0;
    while i < n
        invariant
            n == positions@.len(),
            i <= n,
            forall|i: int| 0 <= i < positions@.len() ==> #[trigger] positions@[i] < events@.len(),
            deleted_ids(views(events@), positions@, i as int) == Ok::<Seq<u64>, Seq<char>>(out@),
        decreases n - i,
    {
        let p: usize = positions[i];
        let e = &events[p];
        assert(views(events@)[p as int] == e@);
        match e.payload.at("id").as_u64() {
            Some(id) => {
                out.push(id);
            },
            None => {
                proof {
                    lemma_deleted_refused(views(events@), positions@, n as int, i as int + 1);
                }
                return Err(
                    NanoError::Storage(
                        cat4(
                            "CDC delete payload has no id for ",
                            &e.entity_kind,
                            " ",
                            &e.type_label,
                        ),
                    ),
                );
            },
        }
        i = i + 1;
    }
    assert forall|k: int| 0 <= k < positions@.len() implies json_u64(
        json_at(events@[#[trigger] positions@[k] as int].payload@, "id"@),
    ) == Some(out@[k] as int) by {
        assert(views(events@)[positions@[k] as int] == events@[positions@[k] as int]@);
    }
    Ok(out)
}

// ---------------------------------------------------------------------------
// The committed manifest

/// The entry that a table has once its plan is carried out: `version` is what the write gave.
pub open spec fn planned_entry(plan: DatasetPlanModel, version: u64) -> DatasetEntryModel {
    match plan.step {
        WriteStepModel::Keep(entry) => entry,
        _ => DatasetEntryModel {
            type_id: plan.type_id,
            type_label: plan.type_label,
            kind: plan.kind,
            dataset_path: plan.dataset_path,
            dataset_version: version,
            row_count: plan.row_count,
            table_id: None,
        },
    }
}

/// The next identities that the graph and its schema give out.
#[derive(Debug, Clone, Copy)]
pub struct IdentityCounters {
    pub next_node_id: u64,
    pub next_edge_id: u64,
    pub next_type_id: u32,
    pub next_prop_id: u32,
}

/// The successor of a version, which the last version has not.
pub open spec fn next_version(v: u64) -> u64 {
    if v == u64::MAX {
        v
    } else {
        (v + 1) as u64
    }
}

/// The manifest of a commit.
pub open spec fn committed_manifest(
    previous: ManifestModel,
    plans: Seq<DatasetPlanModel>,
    versions: Seq<u64>,
    counters: IdentityCounters,
    format_version: u32,
    schema_ir_hash: Seq<char>,
    committed_at: Seq<char>,
) -> ManifestModel {
    ManifestModel {
        format_version,
        db_version: next_version(previous.db_version),
        last_tx_id: "manifest-"@ + decimal(next_version(previous.db_version) as nat),
        committed_at,
        schema_ir_hash,
        schema_identity_version: if previous.schema_identity_version == 0 {
            1
        } else {
            previous.schema_identity_version
        },
        next_node_id: counters.next_node_id,
        next_edge_id: counters.next_edge_id,
        next_type_id: counters.next_type_id,
        next_prop_id: counters.next_prop_id,
        datasets: Seq::new(plans.len(), |i: int| planned_entry(plans[i], versions[i])),
    }
}

/// Builds the manifest of a commit whose plans were carried out with the given versions.
pub fn commit_manifest(
    previous: &GraphManifest,
    plans: &Vec<DatasetPlan>,
    versions: &Vec<u64>,
    counters: IdentityCounters,
    format_version: u32,
    schema_ir_hash: String,
    committed_at: String,
) -> (r: GraphManifest)
    requires
        versions@.len() == plans@.len(),
    ensures
        r@ == committed_manifest(
            previous@,
            views(plans@),
            versions@,
            counters,
            format_version,
            schema_ir_hash@,
            committed_at@,
        ),
        r.next_node_id == counters.next_node_id,
        r.next_edge_id == counters.next_edge_id,
        r.next_type_id == counters.next_type_id,
        r.next_prop_id == counters.next_prop_id,
        r.format_version == format_version,
        r.schema_ir_hash@ == schema_ir_hash@,
        r.committed_at@ == committed_at@,
        previous.db_version < u64::MAX ==> r.db_version == previous.db_version + 1,
        r.datasets@.len() == plans@.len(),
        forall|i: int|
            0 <= i < plans@.len() ==> match (#[trigger] plans@[i]).step {
                WriteStep::Keep(entry) => r.datasets@[i]@ == entry@,
                _ => r.datasets@[i].dataset_version == versions@[i] && r.datasets@[i].type_id
                    == plans@[i].type_id && r.datasets@[i].type_label@ == plans@[i].type_label@
                    && r.datasets@[i].kind@ == plans@[i].kind@ && r.datasets@[i].dataset_path@
                    == plans@[i].dataset_path@ && r.datasets@[i].row_count == plans@[i].row_count,
            },
{
    let ghost expected = Seq::new(
        plans@.len(),
        |i: int| planned_entry(views(plans@)[i], versions@[i]),
    );
    let mut datasets: Vec<DatasetEntry> = Vec::new();
    let mut i: usize = 0;
    assert(views(datasets@) =~= expected.take(0));
    while i < plans.len()
        invariant
            i <= plans@.len(),
            versions@.len() == plans@.len(),
            expected == Seq::new(
                plans@.len(),
                |i: int| planned_entry(views(plans@)[i], versions@[i]),
            ),
            views(datasets@) == expected.take(i as int),
        decreases plans@.len() - i,
    {
        let plan = &plans[i];
        let entry = match &plan.step {
            WriteStep::Keep(entry) => entry.copy(),
            _ => DatasetEntry {
                type_id: plan.type_id,
                type_label: plan.type_label.clone(),
                kind: plan.kind.clone(),
                dataset_path: plan.dataset_path.clone(),
                dataset_version: versions[i],
                row_count: plan.row_count,
                table_id: None,
            },
        };
        proof {
            assert(views(plans@)[i as int] == plan@);
            lemma_views_push(datasets@, entry);
            assert(expected.take(i as int + 1) =~= expected.take(i as int).push(entry@));
        }
        datasets.push(entry);
        i = i + 1;
    }
    assert(expected.take(plans@.len() as int) =~= expected);
    let db_version: u64 = previous.db_version.saturating_add(1);
    let schema_identity_version: u32 = if previous.schema_identity_version == 0 {
        1
    } else {
        previous.schema_identity_version
    };
    let manifest = GraphManifest {
        format_version,
        db_version,
        last_tx_id: cat2("manifest-", &decimal_u64(db_version)),
        committed_at,
        schema_ir_hash,
        schema_identity_version,
        next_node_id: counters.next_node_id,
        next_edge_id: counters.next_edge_id,
        next_type_id: counters.next_type_id,
        next_prop_id: counters.next_prop_id,
        datasets,
    };
    assert(manifest@.datasets =~= committed_manifest(
        previous@,
        views(plans@),
        versions@,
        counters,
        format_version,
        schema_ir_hash@,
        committed_at@,
    ).datasets);
    assert forall|i: int| 0 <= i < plans@.len() implies match (#[trigger] plans@[i]).step {
        WriteStep::Keep(entry) => manifest.datasets@[i]@ == entry@,
        _ => manifest.datasets@[i].dataset_version == versions@[i] && manifest.datasets@[i].type_id
            == plans@[i].type_id && manifest.datasets@[i].type_label@ == plans@[i].type_label@
            && manifest.datasets@[i].kind@ == plans@[i].kind@
            && manifest.datasets@[i].dataset_path@ == plans@[i].dataset_path@
            && manifest.datasets@[i].row_count == plans@[i].row_count,
    } by {
        assert(views(plans@)[i] == plans@[i]@);
        assert(views(datasets@)[i] == expected[i]);
        assert(views(datasets@)[i] == datasets@[i]@);
    }
    manifest
}

/// The event at position `i` of a commit, stamped with the commit.
pub open spec fn committed_event(e: CdcModel, manifest: ManifestModel, i: int) -> CdcModel {
    CdcModel {
        tx_id: manifest.last_tx_id,
        db_version: manifest.db_version,
        seq_in_tx: if i < u32::MAX {
            i as u32
        } else {
            u32::MAX
        },
        op: e.op,
        entity_kind: e.entity_kind,
        type_label: e.type_label,
        entity_key: e.entity_key,
        payload: e.payload,
        committed_at: manifest.committed_at,
    }
}

/// Stamps the events of a commit with its transaction, version, time and their position.
pub fn finalize_cdc_entries_for_manifest(
    events: &Vec<CdcLogEntry>,
    manifest: &GraphManifest,
) -> (r: Vec<CdcLogEntry>)
    ensures
        views(r@) == Seq::new(
            events@.len(),
            |i: int| committed_event(views(events@)[i], manifest@, i),
        ),
{
    let ghost expected = Seq::new(
        events@.len(),
        |i: int| committed_event(views(events@)[i], manifest@, i),
    );
    let mut out: Vec<CdcLogEntry> = Vec::new();
    let mut i: usize = 0;
    assert(views(out@) =~= expected.take(0));
    while i < events.len()
        invariant
            i <= events@.len(),
            expected == Seq::new(
                events@.len(),
                |i: int| committed_event(views(events@)[i], manifest@, i),
            ),
            views(out@) == expected.take(i as int),
        decreases events@.len() - i,
    {
        let e = &events[i];
        let seq_in_tx: u32 = if i < u32::MAX as usize {
            i as u32
        } else {
            u32::MAX
        };
        let x = CdcLogEntry {
            tx_id: manifest.last_tx_id.clone(),
            db_version: manifest.db_version,
            seq_in_tx,
            op: e.op.clone(),
            entity_kind: e.entity_kind.clone(),
            type_label: e.type_label.clone(),
            entity_key: e.entity_key.clone(),
            payload: e.payload.copy(),
            committed_at: manifest.committed_at.clone(),
        };
        proof {
            assert(views(events@)[i as int] == e@);
            lemma_views_push(out@, x);
            assert(expected.take(i as int + 1) =~= expected.take(i as int).push(x@));
        }
        out.push(x);
        i = i + 1;
    }
    assert(expected.take(events@.len() as int) =~= expected);
    out
}

// ---------------------------------------------------------------------------
// What a commit keeps

/// The picked positions ascend, lie among the events looked at, and are exactly those of
/// the events that touch the entity type with an operation of the class.
pub proof fn law_picked_positions(
    events: Seq<CdcModel>,
    key: Seq<char>,
    class: spec_fn(Seq<char>) -> bool,
    n: int,
)
    requires
        0 <= n <= events.len() <= usize::MAX,
    ensures
        ({
            let p = picked(events, key, class, n);
            &&& forall|i: int| 0 <= i < p.len() ==> #[trigger] p[i] < n
            &&& forall|i: int, j: int| 0 <= i < j < p.len() ==> #[trigger] p[i] < #[trigger] p[j]
            &&& forall|k: int|
                0 <= k < n ==> (p.contains(k as usize) <==> touches(#[trigger] events[k], key)
                    && class(events[k].op))
        }),
    decreases n,
{
    if n > 0 {
        law_picked_positions(events, key, class, n - 1);
        let before = picked(events, key, class, n - 1);
        let p = picked(events, key, class, n);
        assert forall|k: int| 0 <= k < n implies (p.contains(k as usize) <==> touches(
            #[trigger] events[k],
            key,
        ) && class(events[k].op)) by {
            if before.contains(k as usize) {
                let i = choose|i: int| 0 <= i < before.len() && before[i] == k as usize;
                assert(p[i] == k as usize);
            }
            if p.contains(k as usize) && k < n - 1 {
                let i = choose|i: int| 0 <= i < p.len() && p[i] == k as usize;
                assert(before[i] == k as usize);
            }
            if k == n - 1 {
                if touches(events[k], key) && class(events[k].op) {
                    assert(p[before.len() as int] == k as usize);
                } else if before.contains(k as usize) {
                    let i = choose|i: int| 0 <= i < before.len() && before[i] == k as usize;
                    assert(before[i] < n - 1);
                }
            }
        }
    }
}

/// A table that no event touches stays as it was committed, whatever the commit is.
pub proof fn law_untouched_tables_stay(
    kind: Seq<char>,
    dir: Seq<char>,
    label: Seq<char>,
    type_id: u32,
    key_prop: Option<Seq<char>>,
    table: TableSummaryModel,
    previous: ManifestModel,
    events: Seq<CdcModel>,
    op_summary: Seq<char>,
    version: u64,
)
    requires
        !changed(events, entity_key(kind, label)),
        committed_entry(
            previous.datasets,
            entity_key(kind, label),
            previous.datasets.len() as int,
        ) is Some,
    ensures
        Some(
            planned_entry(
                dataset_plan(
                    kind,
                    dir,
                    label,
                    type_id,
                    key_prop,
                    table,
                    previous,
                    events,
                    op_summary,
                ),
                version,
            ),
        ) == committed_entry(
            previous.datasets,
            entity_key(kind, label),
            previous.datasets.len() as int,
        ),
{
}

/// A table keeps its path from commit to commit.
pub proof fn law_table_path_is_stable(
    kind: Seq<char>,
    dir: Seq<char>,
    label: Seq<char>,
    type_id: u32,
    key_prop: Option<Seq<char>>,
    table: TableSummaryModel,
    previous: ManifestModel,
    events: Seq<CdcModel>,
    op_summary: Seq<char>,
)
    ensures
        committed_entry(
            previous.datasets,
            entity_key(kind, label),
            previous.datasets.len() as int,
        ) matches Some(prev) ==> dataset_plan(
            kind,
            dir,
            label,
            type_id,
            key_prop,
            table,
            previous,
            events,
            op_summary,
        ).dataset_path == prev.dataset_path,
{
}

/// A step that writes only part of a table is taken only where the rows of its events are
/// all of the change: a merge has an event for every change and a key, an append only
/// inserts, a deletion only deletes.
pub proof fn law_partial_writes_cover_the_change(
    op_summary: Seq<char>,
    events: Seq<CdcModel>,
    key: Seq<char>,
    previous: Option<DatasetEntryModel>,
    duplicate_fields: bool,
    key_prop: Option<Seq<char>>,
    k: int,
)
    requires
        events.len() <= usize::MAX,
        0 <= k < events.len(),
        touches(events[k], key),
    ensures
        match write_step(op_summary, events, key, previous, duplicate_fields, key_prop) {
            WriteStepModel::Keep(_) => false,
            WriteStepModel::MergeUpsert { events: p, .. } => p.contains(k as usize) && key_prop
                is Some,
            WriteStepModel::Append { events: p, .. } => p.contains(k as usize),
            WriteStepModel::Delete { events: p, .. } => p.contains(k as usize),
            WriteStepModel::Overwrite => true,
        },
{
    let n = events.len() as int;
    law_picked_positions(events, key, upsert_class(), n);
    law_picked_positions(events, key, insert_class(), n);
    law_picked_positions(events, key, delete_class(), n);
}

/// The version of the graph grows with every commit, up to the last one there is.
pub proof fn law_versions_grow(
    previous: ManifestModel,
    plans: Seq<DatasetPlanModel>,
    versions: Seq<u64>,
    counters: IdentityCounters,
    format_version: u32,
    schema_ir_hash: Seq<char>,
    committed_at: Seq<char>,
)
    ensures
        previous.db_version < u64::MAX ==> committed_manifest(
            previous,
            plans,
            versions,
            counters,
            format_version,
            schema_ir_hash,
            committed_at,
        ).db_version == previous.db_version + 1,
{
}

} // verus!
