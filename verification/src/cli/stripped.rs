//! Graphs without the vectors that were computed from other properties: those are made anew
//! when the rows are loaded again.

use crate::cli::export::{data_map, export_rows};
use crate::cli::export_laws::{edge_count, law_every_row_is_exported, law_properties_are_exported, lemma_data_after, node_count};
use crate::json::json_get;
use crate::store::schema_ir::{node_of, NodeTypeDef, NodeTypeDefModel, SchemaIr, SchemaIrModel};
use crate::store::tables::{stored_column_ok, stored_graph_ok, stored_table_ok, table_position, StoredColumn, StoredColumnModel, StoredGraph, StoredGraphModel, StoredTable, StoredTableModel};
use crate::text::{lemma_views_push, same, views};
use vstd::prelude::*;

verus! {

/// Whether a node type has a property of a name that is computed from another property.
pub open spec fn is_embedded(node: NodeTypeDefModel, name: Seq<char>) -> bool {
    exists|k: int|
        0 <= k < node.properties.len() && (#[trigger] node.properties[k]).name == name
            && node.properties[k].embed_source is Some
}

/// Of the first `n` columns of a node type the first, which holds the identities, and those
/// that are not computed.
pub open spec fn kept_columns(
    node: NodeTypeDefModel,
    columns: Seq<StoredColumnModel>,
    n: int,
) -> Seq<StoredColumnModel>
    decreases n,
{
    if n <= 0 {
        Seq::empty()
    } else if n > 1 && is_embedded(node, columns[n - 1].name) {
        kept_columns(node, columns, n - 1)
    } else {
        kept_columns(node, columns, n - 1).push(columns[n - 1])
    }
}

/// A node table without its computed columns.
pub open spec fn stripped_table(schema: SchemaIrModel, t: StoredTableModel) -> StoredTableModel {
    match node_of(schema, t.name) {
        None => t,
        Some(node) => StoredTableModel {
            name: t.name,
            num_rows: t.num_rows,
            columns: kept_columns(node, t.columns, t.columns.len() as int),
        },
    }
}

/// A graph whose node tables are without their computed columns.
pub open spec fn stripped(schema: SchemaIrModel, graph: StoredGraphModel) -> StoredGraphModel {
    StoredGraphModel {
        nodes: Seq::new(graph.nodes.len(), |i: int| stripped_table(schema, graph.nodes[i])),
        edges: graph.edges,
    }
}

fn embeds(node: &NodeTypeDef, name: &str) -> (r: bool)
    ensures
        r == is_embedded(node@, name@),
{
    let mut i: usize = 0;
    while i < node.properties.len()
        invariant
            i <= node.properties@.len(),
            forall|k: int|
                0 <= k < i ==> !((#[trigger] node@.properties[k]).name == name@
                    && node@.properties[k].embed_source is Some),
        decreases node.properties@.len() - i,
    {
        assert(node@.properties[i as int] == node.properties@[i as int]@);
        if same(&node.properties[i].name, name) && node.properties[i].embed_source.is_some() {
            return true;
        }
        i = i + 1;
    }
    false
}

fn keep_columns(node: &NodeTypeDef, columns: Vec<StoredColumn>) -> (r: Vec<StoredColumn>)
    ensures
        views(r@) == kept_columns(node@, views(columns@), columns@.len() as int),
{
    let ghost all = views(columns@);
    let ghost written = columns@;
    let mut kept: Vec<StoredColumn> = Vec::new();
    let mut first: bool = true;
    assert(views(kept@) =~= Seq::<StoredColumnModel>::empty());
    for c in it: columns
        invariant
            it.seq() == written,
            all == views(written),
            written == columns@,
            first == (it.index() == 0),
            views(kept@) == kept_columns(node@, all, it.index() as int),
    {
        let ghost n = it.index() as int;
        assert(all[n] == c@);
        if first || !embeds(node, &c.name) {
            proof {
                lemma_views_push(kept@, c);
            }
            kept.push(c);
        }
        first = false;
    }
    kept
}

fn strip_table(schema: &SchemaIr, table: StoredTable) -> (r: StoredTable)
    ensures
        r@ == stripped_table(schema@, table@),
{
    match schema.node_named(&table.name) {
        None => table,
        Some(node) => StoredTable {
            columns: keep_columns(node, table.columns),
            name: table.name,
            num_rows: table.num_rows,
        },
    }
}

/// The graph without the vectors that its node types compute from other properties; all
/// other columns, and all rows, stay.
pub fn without_embeddings(schema: &SchemaIr, graph: StoredGraph) -> (r: StoredGraph)
    ensures
        r@ == stripped(schema@, graph@),
        stored_graph_ok(graph@) ==> stored_graph_ok(r@),
{
    let ghost all = graph.nodes@;
    let mut nodes: Vec<StoredTable> = Vec::new();
    for t in it: graph.nodes
        invariant
            it.seq() == all,
            nodes@.len() == it.index(),
            forall|k: int|
                0 <= k < nodes@.len() ==> (#[trigger] nodes@[k])@ == stripped_table(
                    schema@,
                    all[k]@,
                ),
    {
        nodes.push(strip_table(schema, t));
    }
    let r = StoredGraph { nodes, edges: graph.edges };
    assert(r@.nodes =~= stripped(schema@, graph@).nodes);
    proof {
        if stored_graph_ok(graph@) {
            assert forall|i: int| 0 <= i < r@.nodes.len() implies stored_table_ok(
                #[trigger] r@.nodes[i],
            ) by {
                assert(stored_table_ok(graph@.nodes[i]));
                lemma_stripped_table_ok(schema@, graph@.nodes[i]);
            }
        }
    }
    r
}

proof fn lemma_kept(node: NodeTypeDefModel, columns: Seq<StoredColumnModel>, n: int)
    requires
        0 <= n <= columns.len(),
    ensures
        n > 0 ==> kept_columns(node, columns, n).len() > 0 && kept_columns(node, columns, n)[0]
            == columns[0],
        forall|j: int|
            0 <= j < kept_columns(node, columns, n).len() ==> exists|c: int|
                0 <= c < n && #[trigger] kept_columns(node, columns, n)[j] == #[trigger] columns[c],
        forall|j: int|
            1 <= j < kept_columns(node, columns, n).len() ==> !is_embedded(
                node,
                (#[trigger] kept_columns(node, columns, n)[j]).name,
            ),
    decreases n,
{
    if n > 0 {
        lemma_kept(node, columns, n - 1);
        let before = kept_columns(node, columns, n - 1);
        let after = kept_columns(node, columns, n);
        assert forall|j: int| 0 <= j < after.len() implies exists|c: int|
            0 <= c < n && #[trigger] after[j] == #[trigger] columns[c] by {
            if j < before.len() {
                assert(after[j] == before[j]);
                let c = choose|c: int| 0 <= c < n - 1 && before[j] == #[trigger] columns[c];
                assert(after[j] == columns[c]);
            } else {
                assert(after[j] == columns[n - 1]);
            }
        }
    }
}

proof fn lemma_stripped_table_ok(schema: SchemaIrModel, t: StoredTableModel)
    requires
        stored_table_ok(t),
    ensures
        stored_table_ok(stripped_table(schema, t)),
{
    if let Some(node) = node_of(schema, t.name) {
        let n = t.columns.len() as int;
        lemma_kept(node, t.columns, n);
        let kept = kept_columns(node, t.columns, n);
        assert forall|j: int| 0 <= j < kept.len() implies stored_column_ok(
            #[trigger] kept[j],
            t.num_rows,
        ) by {
            let c = choose|c: int| 0 <= c < n && kept[j] == #[trigger] t.columns[c];
            assert(stored_column_ok(t.columns[c], t.num_rows));
        }
    }
}

/// A column that is kept, with no column of its name behind it.
proof fn lemma_kept_at(
    node: NodeTypeDefModel,
    columns: Seq<StoredColumnModel>,
    n: int,
    c: int,
) -> (k: int)
    requires
        1 <= c < n <= columns.len(),
        !is_embedded(node, columns[c].name),
        forall|j: int| c < j < n ==> (#[trigger] columns[j]).name != columns[c].name,
    ensures
        1 <= k < kept_columns(node, columns, n).len(),
        kept_columns(node, columns, n)[k] == columns[c],
        forall|j: int|
            k < j < kept_columns(node, columns, n).len() ==> (#[trigger] kept_columns(
                node,
                columns,
                n,
            )[j]).name != columns[c].name,
    decreases n,
{
    if n - 1 == c {
        lemma_kept(node, columns, n - 1);
        kept_columns(node, columns, n).len() - 1
    } else {
        let k = lemma_kept_at(node, columns, n - 1, c);
        let before = kept_columns(node, columns, n - 1);
        let after = kept_columns(node, columns, n);
        assert forall|j: int| k < j < after.len() implies (#[trigger] after[j]).name
            != columns[c].name by {
            if j < before.len() {
                assert(after[j] == before[j]);
            }
        }
        k
    }
}

/// A computed vector is not exported with the rows of a stripped table.
pub proof fn law_embeddings_are_stripped(
    schema: SchemaIrModel,
    node: NodeTypeDefModel,
    t: StoredTableModel,
    row: int,
    property: Seq<char>,
)
    requires
        node_of(schema, t.name) == Some(node),
        is_embedded(node, property),
    ensures
        json_get(data_map(stripped_table(schema, t), row, seq![0usize]), property) is None,
{
    let n = t.columns.len() as int;
    let kept = kept_columns(node, t.columns, n);
    lemma_kept(node, t.columns, n);
    assert(seq![0usize][0] == 0usize);
    if kept.len() > 0 {
        assert forall|j: int| 1 <= j < kept.len() implies (#[trigger] kept[j]).name != property by {
            assert(!is_embedded(node, kept[j].name));
        }
        lemma_data_after(kept, row, seq![0usize], 1, Seq::empty(), property);
    }
}

/// Every other property of a row is exported from a stripped table as it is from the whole
/// one.
pub proof fn law_other_properties_are_kept(
    schema: SchemaIrModel,
    node: NodeTypeDefModel,
    t: StoredTableModel,
    row: int,
    c: int,
)
    requires
        node_of(schema, t.name) == Some(node),
        1 <= c < t.columns.len(),
        !is_embedded(node, t.columns[c].name),
        forall|j: int| c < j < t.columns.len() ==> (#[trigger] t.columns[j]).name
            != t.columns[c].name,
    ensures
        json_get(data_map(stripped_table(schema, t), row, seq![0usize]), t.columns[c].name)
            == json_get(data_map(t, row, seq![0usize]), t.columns[c].name),
        json_get(data_map(stripped_table(schema, t), row, seq![0usize]), t.columns[c].name)
            == Some(t.columns[c].cells[row]),
{
    let k = lemma_kept_at(node, t.columns, t.columns.len() as int, c);
    let s = stripped_table(schema, t);
    assert(s.columns[k] == t.columns[c]);
    law_properties_are_exported(s, row, seq![0usize], k);
    law_properties_are_exported(t, row, seq![0usize], c);
}

proof fn lemma_table_position(
    schema: SchemaIrModel,
    graph: StoredGraphModel,
    name: Seq<char>,
    i: int,
)
    ensures
        table_position(stripped(schema, graph).nodes, name, i) == table_position(
            graph.nodes,
            name,
            i,
        ),
        table_position(graph.nodes, name, i) matches Some(k) ==> 0 <= k < graph.nodes.len(),
    decreases graph.nodes.len() - i,
{
    if 0 <= i < graph.nodes.len() && graph.nodes[i].name != name {
        lemma_table_position(schema, graph, name, i + 1);
    }
}

proof fn lemma_node_count(schema: SchemaIrModel, graph: StoredGraphModel, i: int)
    ensures
        node_count(schema, stripped(schema, graph), i) == node_count(schema, graph, i),
    decreases schema.nodes.len() - i,
{
    if 0 <= i < schema.nodes.len() {
        lemma_node_count(schema, graph, i + 1);
        lemma_table_position(schema, graph, schema.nodes[i].name, 0);
    }
}

proof fn lemma_edge_count(schema: SchemaIrModel, graph: StoredGraphModel, i: int)
    ensures
        edge_count(schema, stripped(schema, graph), i) == edge_count(schema, graph, i),
    decreases schema.edges.len() - i,
{
    if 0 <= i < schema.edges.len() {
        lemma_edge_count(schema, graph, i + 1);
    }
}

/// An export without computed vectors has as many rows as the graph.
pub proof fn law_stripping_keeps_every_row(
    schema: SchemaIrModel,
    graph: StoredGraphModel,
    internal: bool,
)
    ensures
        export_rows(schema, stripped(schema, graph), internal) matches Ok(rows) ==> rows.len()
            == node_count(schema, graph, 0) + edge_count(schema, graph, 0),
        stripped(schema, graph).edges == graph.edges,
{
    law_every_row_is_exported(schema, stripped(schema, graph), internal);
    lemma_node_count(schema, graph, 0);
    lemma_edge_count(schema, graph, 0);
}

} // verus!
