//! What the rows of an export hold, and where they stand.

use crate::cli::export::{all_edge_rows, all_node_rows, data_map, edge_row, edge_rows, edge_type_rows, export_rows, fault_text, key_token, missing_token, node_row, node_rows, node_table_rows, node_type_rows, ExportFault, Exported};
use crate::cli::export_laws::node_count;
use crate::cli::stripped::{is_embedded, law_embeddings_are_stripped, law_other_properties_are_kept, stripped_table};
use crate::json::{json_at, json_get, member, JsonModel};
use crate::store::schema_ir::{key_prop_of, node_of, EdgeTypeDefModel, NodeTypeDefModel, SchemaIrModel};
use crate::store::tables::{column_position, numbers_of, rows_of, table_of, table_position, StoredColumnModel, StoredGraphModel, StoredTableModel};
use crate::text::decimal;
use vstd::prelude::*;

verus! {

// ---------------------------------------------------------------------------
// Tables

/// The table of a type is the first of its name, with as many rows as it has; a type without
/// a table has none.
pub proof fn law_tables_are_found_by_name(tables: Seq<StoredTableModel>, name: Seq<char>, k: int)
    ensures
        0 <= k < tables.len() && tables[k].name == name && (forall|j: int|
            0 <= j < k ==> (#[trigger] tables[j]).name != name) ==> table_of(tables, name) == Some(
            tables[k],
        ) && rows_of(tables, name) == tables[k].num_rows,
        (forall|j: int| 0 <= j < tables.len() ==> (#[trigger] tables[j]).name != name) ==> table_of(
            tables,
            name,
        ) is None && rows_of(tables, name) == 0,
{
    if 0 <= k < tables.len() && tables[k].name == name && (forall|j: int|
        0 <= j < k ==> (#[trigger] tables[j]).name != name) {
        lemma_table_position(tables, name, 0, k);
    }
    if forall|j: int| 0 <= j < tables.len() ==> (#[trigger] tables[j]).name != name {
        lemma_no_table(tables, name, 0);
    }
}

proof fn lemma_table_position(tables: Seq<StoredTableModel>, name: Seq<char>, from: int, k: int)
    requires
        0 <= from <= k < tables.len(),
        tables[k].name == name,
        forall|j: int| from <= j < k ==> (#[trigger] tables[j]).name != name,
    ensures
        table_position(tables, name, from) == Some(k),
    decreases k - from,
{
    if from < k {
        assert(tables[from].name != name);
        lemma_table_position(tables, name, from + 1, k);
    }
}

proof fn lemma_no_table(tables: Seq<StoredTableModel>, name: Seq<char>, from: int)
    requires
        0 <= from <= tables.len(),
        forall|j: int| from <= j < tables.len() ==> (#[trigger] tables[j]).name != name,
    ensures
        table_position(tables, name, from) is None,
    decreases tables.len() - from,
{
    if from < tables.len() {
        assert(tables[from].name != name);
        lemma_no_table(tables, name, from + 1);
    }
}

/// A column is the first of its name from where it is looked for on.
pub proof fn law_stored_columns_are_found_by_name(
    columns: Seq<StoredColumnModel>,
    name: Seq<char>,
    from: int,
)
    requires
        0 <= from <= columns.len(),
    ensures
        match column_position(columns, name, from) {
            Some(i) => from <= i < columns.len() && columns[i].name == name && forall|j: int|
                from <= j < i ==> (#[trigger] columns[j]).name != name,
            None => forall|j: int|
                from <= j < columns.len() ==> (#[trigger] columns[j]).name != name,
        },
    decreases columns.len() - from,
{
    if from < columns.len() && columns[from].name != name {
        law_stored_columns_are_found_by_name(columns, name, from + 1);
    }
}

/// The identities in a table are those of its first column of that name.
pub proof fn law_numbers_are_read_from_their_column(t: StoredTableModel, name: Seq<char>, k: int)
    requires
        0 <= k < t.columns.len(),
        t.columns[k].name == name,
        forall|j: int| 0 <= j < k ==> (#[trigger] t.columns[j]).name != name,
    ensures
        numbers_of(t, name) == t.columns[k].numbers,
{
    law_stored_columns_are_found_by_name(t.columns, name, 0);
    let i = column_position(t.columns, name, 0)->Some_0;
    assert(t.columns[i].name == name);
}

// ---------------------------------------------------------------------------
// Rows

/// A node is exported with its type and its values, and with its identity only where
/// identities are asked for.
pub proof fn law_node_rows_tell_their_node(name: Seq<char>, data: JsonModel, id: u64, internal: bool)
    ensures
        json_at(node_row(name, data, id, internal), "type"@) == JsonModel::Text(name),
        json_at(node_row(name, data, id, internal), "data"@) == data,
        json_at(node_row(name, data, id, internal), "id"@) == (if internal {
            JsonModel::Number(decimal(id as nat))
        } else {
            JsonModel::Null
        }),
{
    reveal_strlit("type");
    reveal_strlit("data");
    reveal_strlit("id");
    assert("type"@.len() == 4 && "type"@[0] == 't');
    assert("data"@.len() == 4 && "data"@[0] == 'd');
    assert("id"@.len() == 2);
    let o = node_row(name, data, id, internal)->Object_0;
    assert(o[0].0 == "type"@ && o[1].0 == "data"@);
    if internal {
        assert(o[2].0 == "id"@);
    }
    reveal_with_fuel(member, 4);
}

/// An edge is exported with its type, the keys of its source and its target, and its values,
/// and with the identities of the edge, its source and its target where they are asked for.
pub proof fn law_edge_rows_tell_their_edge(
    name: Seq<char>,
    from: Seq<char>,
    to: Seq<char>,
    data: JsonModel,
    id: u64,
    src: u64,
    dst: u64,
    internal: bool,
)
    ensures
        ({
            let row = edge_row(name, from, to, data, id, src, dst, internal);
            &&& json_at(row, "edge"@) == JsonModel::Text(name)
            &&& json_at(row, "from"@) == JsonModel::Text(from)
            &&& json_at(row, "to"@) == JsonModel::Text(to)
            &&& json_at(row, "data"@) == data
            &&& internal ==> json_at(row, "id"@) == JsonModel::Number(decimal(id as nat))
            &&& internal ==> json_at(row, "src"@) == JsonModel::Number(decimal(src as nat))
            &&& internal ==> json_at(row, "dst"@) == JsonModel::Number(decimal(dst as nat))
        }),
{
    reveal_strlit("edge");
    reveal_strlit("from");
    reveal_strlit("to");
    reveal_strlit("data");
    reveal_strlit("id");
    reveal_strlit("src");
    reveal_strlit("dst");
    assert("edge"@.len() == 4 && "edge"@[0] == 'e');
    assert("from"@.len() == 4 && "from"@[0] == 'f');
    assert("data"@.len() == 4 && "data"@[0] == 'd');
    assert("to"@.len() == 2 && "to"@[0] == 't');
    assert("id"@.len() == 2 && "id"@[0] == 'i');
    assert("src"@.len() == 3 && "src"@[0] == 's');
    assert("dst"@.len() == 3 && "dst"@[0] == 'd');
    let o = edge_row(name, from, to, data, id, src, dst, internal)->Object_0;
    assert(o[0].0 == "edge"@ && o[1].0 == "from"@ && o[2].0 == "to"@ && o[3].0 == "data"@);
    if internal {
        assert(o[4].0 == "id"@ && o[5].0 == "src"@ && o[6].0 == "dst"@);
    }
    reveal_with_fuel(member, 8);
}

/// A key is exported as the text, the number or the truth value that it is; nothing else can
/// be one.
pub proof fn law_keys_are_exported_as_they_are(cell: JsonModel, property: Seq<char>)
    ensures
        cell matches JsonModel::Text(s) ==> key_token(cell, property) == Ok::<
            Seq<char>,
            ExportFault,
        >(s),
        cell matches JsonModel::Number(n) ==> key_token(cell, property) == Ok::<
            Seq<char>,
            ExportFault,
        >(n),
        cell matches JsonModel::Bool(b) ==> key_token(cell, property) == Ok::<
            Seq<char>,
            ExportFault,
        >(
            if b {
                "true"@
            } else {
                "false"@
            },
        ),
        key_token(cell, property) is Err <==> cell is Null || cell is Array || cell is Object,
{
}

proof fn lemma_node_rows_at(
    t: StoredTableModel,
    name: Seq<char>,
    ids: Seq<u64>,
    key: Option<(Seq<char>, Seq<JsonModel>)>,
    internal: bool,
    row: int,
    rows: Seq<JsonModel>,
    tokens: Map<u64, Seq<char>>,
)
    requires
        0 <= row <= t.num_rows,
        node_rows(t, name, ids, key, internal, row, rows, tokens) is Ok,
    ensures
        ({
            let out = node_rows(t, name, ids, key, internal, row, rows, tokens)->Ok_0.0;
            &&& out.len() == rows.len() + t.num_rows - row
            &&& forall|j: int| 0 <= j < rows.len() ==> #[trigger] out[j] == rows[j]
            &&& forall|j: int|
                rows.len() <= j < out.len() ==> #[trigger] out[j] == node_row(
                    name,
                    data_map(t, row + j - rows.len(), seq![0usize]),
                    ids[row + j - rows.len()],
                    internal,
                )
        }),
    decreases t.num_rows - row,
{
    if row < t.num_rows {
        let one = node_row(name, data_map(t, row, seq![0usize]), ids[row], internal);
        let made = rows.push(one);
        let next = match key {
            Some((property, cells)) => tokens.insert(
                ids[row],
                key_token(cells[row], property)->Ok_0,
            ),
            None => tokens,
        };
        lemma_node_rows_at(t, name, ids, key, internal, row + 1, made, next);
        let out = node_rows(t, name, ids, key, internal, row, rows, tokens)->Ok_0.0;
        assert(out == node_rows(t, name, ids, key, internal, row + 1, made, next)->Ok_0.0);
        assert forall|j: int| 0 <= j < rows.len() implies #[trigger] out[j] == rows[j] by {
            assert(made[j] == rows[j]);
        }
        assert forall|j: int| rows.len() <= j < out.len() implies #[trigger] out[j] == node_row(
            name,
            data_map(t, row + j - rows.len(), seq![0usize]),
            ids[row + j - rows.len()],
            internal,
        ) by {
            if j == rows.len() {
                assert(out[j] == made[j]);
            }
        }
    }
}

proof fn lemma_type_rows_at(
    node: NodeTypeDefModel,
    graph: StoredGraphModel,
    internal: bool,
    so_far: Exported,
)
    requires
        node_type_rows(node, graph, internal, so_far) is Ok,
    ensures
        ({
            let out = node_type_rows(node, graph, internal, so_far)->Ok_0.rows;
            &&& forall|j: int| 0 <= j < so_far.rows.len() ==> #[trigger] out[j] == so_far.rows[j]
            &&& table_of(graph.nodes, node.name) is None ==> out == so_far.rows
            &&& table_of(graph.nodes, node.name) matches Some(t) ==> {
                &&& out.len() == so_far.rows.len() + t.num_rows
                &&& numbers_of(t, "id"@) matches Some(ids) && forall|r: int|
                    0 <= r < t.num_rows ==> out[so_far.rows.len() + r] == #[trigger] node_row(
                        node.name,
                        data_map(t, r, seq![0usize]),
                        ids[r],
                        internal,
                    )
            }
        }),
{
    if let Some(t) = table_of(graph.nodes, node.name) {
        let ids = numbers_of(t, "id"@)->Some_0;
        let key = match key_prop_of(node) {
            None => None,
            Some(property) => Some(
                (property, t.columns[column_position(t.columns, property, 1)->Some_0].cells),
            ),
        };
        assert(node_type_rows(node, graph, internal, so_far) == node_table_rows(
            node,
            t,
            ids,
            key,
            internal,
            so_far,
        ));
        lemma_node_rows_at(t, node.name, ids, key, internal, 0, so_far.rows, Map::empty());
        let out = node_type_rows(node, graph, internal, so_far)->Ok_0.rows;
        let n = so_far.rows.len();
        assert forall|r: int| 0 <= r < t.num_rows implies out[n + r] == #[trigger] node_row(
            node.name,
            data_map(t, r, seq![0usize]),
            ids[r],
            internal,
        ) by {
            let j = n + r;
            assert(out[j] == out[j]);
        }
    }
}

proof fn lemma_count_splits(schema: SchemaIrModel, graph: StoredGraphModel, i: int)
    requires
        0 <= i < schema.nodes.len(),
    ensures
        node_count(schema, graph, i) == node_count(schema, graph, i + 1) + rows_of(
            graph.nodes,
            schema.nodes[i].name,
        ),
{
}

proof fn lemma_all_node_rows_at(
    schema: SchemaIrModel,
    graph: StoredGraphModel,
    internal: bool,
    i: int,
    so_far: Exported,
    k: int,
    r: int,
)
    requires
        0 <= i <= schema.nodes.len(),
        all_node_rows(schema, graph, internal, i, so_far) is Ok,
    ensures
        ({
            let out = all_node_rows(schema, graph, internal, i, so_far)->Ok_0.rows;
            &&& out.len() == so_far.rows.len() + node_count(schema, graph, i)
            &&& forall|j: int| 0 <= j < so_far.rows.len() ==> #[trigger] out[j] == so_far.rows[j]
            &&& i <= k < schema.nodes.len() ==> node_count(schema, graph, k) <= node_count(
                schema,
                graph,
                i,
            )
            &&& i <= k < schema.nodes.len() ==> (table_of(
                graph.nodes,
                schema.nodes[k].name,
            ) matches Some(t) ==> (0 <= r < t.num_rows ==> (numbers_of(t, "id"@) matches Some(ids)
                && out[so_far.rows.len() + node_count(schema, graph, i) - node_count(
                schema,
                graph,
                k,
            ) + r] == node_row(
                schema.nodes[k].name,
                data_map(t, r, seq![0usize]),
                ids[r],
                internal,
            ))))
        }),
    decreases schema.nodes.len() - i,
{
    if i < schema.nodes.len() {
        let node = schema.nodes[i];
        let next = node_type_rows(node, graph, internal, so_far)->Ok_0;
        let out = all_node_rows(schema, graph, internal, i, so_far)->Ok_0.rows;
        lemma_type_rows_at(node, graph, internal, so_far);
        lemma_all_node_rows_at(schema, graph, internal, i + 1, next, k, r);
        assert(out == all_node_rows(schema, graph, internal, i + 1, next)->Ok_0.rows);
        assert forall|j: int| 0 <= j < so_far.rows.len() implies #[trigger] out[j]
            == so_far.rows[j] by {
            assert(next.rows[j] == so_far.rows[j]);
        }
        if k == i {
            if let Some(t) = table_of(graph.nodes, node.name) {
                if 0 <= r < t.num_rows {
                    let ids = numbers_of(t, "id"@)->Some_0;
                    assert(next.rows[so_far.rows.len() + r] == node_row(
                        node.name,
                        data_map(t, r, seq![0usize]),
                        ids[r],
                        internal,
                    ));
                    assert(out[so_far.rows.len() + r] == next.rows[so_far.rows.len() + r]);
                }
            }
        }
    }
}

proof fn lemma_edge_rows_keep(
    edge: EdgeTypeDefModel,
    t: StoredTableModel,
    ids: Seq<u64>,
    srcs: Seq<u64>,
    dsts: Seq<u64>,
    tokens: Map<Seq<char>, Map<u64, Seq<char>>>,
    internal: bool,
    row: int,
    rows: Seq<JsonModel>,
)
    requires
        edge_rows(edge, t, ids, srcs, dsts, tokens, internal, row, rows) is Ok,
    ensures
        ({
            let out = edge_rows(edge, t, ids, srcs, dsts, tokens, internal, row, rows)->Ok_0;
            rows.len() <= out.len() && forall|j: int|
                0 <= j < rows.len() ==> #[trigger] out[j] == rows[j]
        }),
    decreases t.num_rows - row,
{
    if 0 <= row < t.num_rows {
        let from = crate::cli::export::token_of(tokens, edge.src_type, srcs[row])->Some_0;
        let to = crate::cli::export::token_of(tokens, edge.dst_type, dsts[row])->Some_0;
        let more = rows.push(
            edge_row(
                edge.name,
                from,
                to,
                data_map(t, row, seq![0usize, 1usize, 2usize]),
                ids[row],
                srcs[row],
                dsts[row],
                internal,
            ),
        );
        lemma_edge_rows_keep(edge, t, ids, srcs, dsts, tokens, internal, row + 1, more);
        let out = edge_rows(edge, t, ids, srcs, dsts, tokens, internal, row, rows)->Ok_0;
        assert forall|j: int| 0 <= j < rows.len() implies #[trigger] out[j] == rows[j] by {
            assert(more[j] == rows[j]);
        }
    }
}

proof fn lemma_all_edge_rows_keep(
    schema: SchemaIrModel,
    graph: StoredGraphModel,
    tokens: Map<Seq<char>, Map<u64, Seq<char>>>,
    internal: bool,
    i: int,
    rows: Seq<JsonModel>,
)
    requires
        all_edge_rows(schema, graph, tokens, internal, i, rows) is Ok,
    ensures
        ({
            let out = all_edge_rows(schema, graph, tokens, internal, i, rows)->Ok_0;
            rows.len() <= out.len() && forall|j: int|
                0 <= j < rows.len() ==> #[trigger] out[j] == rows[j]
        }),
    decreases schema.edges.len() - i,
{
    if 0 <= i < schema.edges.len() {
        let edge = schema.edges[i];
        let next = edge_type_rows(edge, graph, tokens, internal, rows)->Ok_0;
        if let Some(t) = table_of(graph.edges, edge.name) {
            lemma_edge_rows_keep(
                edge,
                t,
                numbers_of(t, "id"@)->Some_0,
                numbers_of(t, "src"@)->Some_0,
                numbers_of(t, "dst"@)->Some_0,
                tokens,
                internal,
                0,
                rows,
            );
        }
        lemma_all_edge_rows_keep(schema, graph, tokens, internal, i + 1, next);
        let out = all_edge_rows(schema, graph, tokens, internal, i, rows)->Ok_0;
        assert forall|j: int| 0 <= j < rows.len() implies #[trigger] out[j] == rows[j] by {
            assert(next[j] == rows[j]);
        }
    }
}

/// The nodes of an export come first, type by type in the order of the schema and row by row
/// in the order of their table: each with the values and the identity of its own row.
pub proof fn law_nodes_are_exported_in_order(
    schema: SchemaIrModel,
    graph: StoredGraphModel,
    internal: bool,
    k: int,
    r: int,
)
    requires
        export_rows(schema, graph, internal) is Ok,
        0 <= k < schema.nodes.len(),
        table_of(graph.nodes, schema.nodes[k].name) matches Some(t) && 0 <= r < t.num_rows,
    ensures
        ({
            let out = export_rows(schema, graph, internal)->Ok_0;
            let t = table_of(graph.nodes, schema.nodes[k].name)->Some_0;
            let place = node_count(schema, graph, 0) - node_count(schema, graph, k) + r;
            numbers_of(t, "id"@) matches Some(ids) && 0 <= place < out.len() && out[place]
                == node_row(schema.nodes[k].name, data_map(t, r, seq![0usize]), ids[r], internal)
        }),
{
    let none = Exported { rows: Seq::empty(), tokens: Map::empty() };
    lemma_all_node_rows_at(schema, graph, internal, 0, none, k, r);
    let nodes = all_node_rows(schema, graph, internal, 0, none)->Ok_0;
    lemma_all_edge_rows_keep(schema, graph, nodes.tokens, internal, 0, nodes.rows);
    lemma_count_splits(schema, graph, k);
    let place = node_count(schema, graph, 0) - node_count(schema, graph, k) + r;
    assert(export_rows(schema, graph, internal)->Ok_0[place] == nodes.rows[place]);
}

// ---------------------------------------------------------------------------
// Embeddings

/// A table without embeddings holds nothing of a property that is embedded from another, and
/// all of a property that is not.
pub proof fn law_exactly_embedded_properties_are_stripped(
    schema: SchemaIrModel,
    node: NodeTypeDefModel,
    t: StoredTableModel,
    row: int,
    p: int,
    c: int,
)
    requires
        node_of(schema, t.name) == Some(node),
        0 <= p < node.properties.len(),
        forall|k: int|
            0 <= k < node.properties.len() && k != p ==> (#[trigger] node.properties[k]).name
                != node.properties[p].name,
        1 <= c < t.columns.len(),
        t.columns[c].name == node.properties[p].name,
        forall|j: int| c < j < t.columns.len() ==> (#[trigger] t.columns[j]).name
            != t.columns[c].name,
    ensures
        node.properties[p].embed_source is Some ==> json_get(
            data_map(stripped_table(schema, t), row, seq![0usize]),
            node.properties[p].name,
        ) is None,
        node.properties[p].embed_source is None ==> json_get(
            data_map(stripped_table(schema, t), row, seq![0usize]),
            node.properties[p].name,
        ) == Some(t.columns[c].cells[row]),
{
    let name = node.properties[p].name;
    if node.properties[p].embed_source is Some {
        assert(is_embedded(node, name));
        law_embeddings_are_stripped(schema, node, t, row, name);
    } else {
        assert(!is_embedded(node, name));
        law_other_properties_are_kept(schema, node, t, row, c);
    }
}

// ---------------------------------------------------------------------------
// Faults

/// An edge whose end has no key is told by its type, which end it is, the type and the
/// identity of that end; a key that cannot be exported by its property.
pub proof fn law_export_faults_are_told(
    edge: Seq<char>,
    end: Seq<char>,
    label: Seq<char>,
    id: u64,
    property: Seq<char>,
)
    ensures
        missing_token(edge, end, label, id) == "cannot export portable edge '"@ + edge + "': "@ + end
            + " "@ + label + " node "@ + decimal(id as nat) + " is missing an @key token"@,
        fault_text(ExportFault::Message(edge)) == edge,
        key_token(JsonModel::Null, property) == Err::<Seq<char>, ExportFault>(
            ExportFault::Message("@key property "@ + property + " cannot be null"@),
        ),
{
}

/// An edge is refused for its source before its target: without a key of its source it names
/// the source, and with one but without a key of its target the target.
pub proof fn law_missing_keys_are_told_by_their_end(
    edge: EdgeTypeDefModel,
    t: StoredTableModel,
    ids: Seq<u64>,
    srcs: Seq<u64>,
    dsts: Seq<u64>,
    tokens: Map<Seq<char>, Map<u64, Seq<char>>>,
    internal: bool,
    row: int,
    rows: Seq<JsonModel>,
)
    requires
        0 <= row < t.num_rows,
    ensures
        !(tokens.contains_key(edge.src_type) && tokens[edge.src_type].contains_key(srcs[row]))
            ==> edge_rows(edge, t, ids, srcs, dsts, tokens, internal, row, rows) == Err::<
            Seq<JsonModel>,
            ExportFault,
        >(
            ExportFault::Message(
                "cannot export portable edge '"@ + edge.name + "': "@ + "source"@ + " "@
                    + edge.src_type + " node "@ + decimal(srcs[row] as nat)
                    + " is missing an @key token"@,
            ),
        ),
        tokens.contains_key(edge.src_type) && tokens[edge.src_type].contains_key(srcs[row]) && !(
        tokens.contains_key(edge.dst_type) && tokens[edge.dst_type].contains_key(dsts[row]))
            ==> edge_rows(edge, t, ids, srcs, dsts, tokens, internal, row, rows) == Err::<
            Seq<JsonModel>,
            ExportFault,
        >(
            ExportFault::Message(
                "cannot export portable edge '"@ + edge.name + "': "@ + "destination"@ + " "@
                    + edge.dst_type + " node "@ + decimal(dsts[row] as nat)
                    + " is missing an @key token"@,
            ),
        ),
{
}

} // verus!
