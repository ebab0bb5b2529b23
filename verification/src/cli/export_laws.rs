//! What holds of every export.

use crate::cli::export::{all_edge_rows, all_node_rows, data_from, data_map, edge_row, edge_rows, edge_type_rows, export_rows, key_token, node_row, node_rows, node_table_rows, node_type_rows, token_of, ExportFault, Exported};
use crate::json::{json_get, lemma_member_at, lemma_member_kept, lemma_member_none, lemma_member_set, member, with_member, JsonModel};
use crate::store::schema_ir::{key_prop_of, EdgeTypeDefModel, SchemaIrModel};
use crate::store::tables::{column_position, numbers_of, table_of, StoredColumnModel, StoredGraphModel, StoredTableModel};
use vstd::prelude::*;

verus! {

// ---------------------------------------------------------------------------
// Cells

/// Columns of other names leave the member of a name as it is.
pub proof fn lemma_data_after(
    columns: Seq<StoredColumnModel>,
    row: int,
    left_out: Seq<usize>,
    i: int,
    acc: Seq<(Seq<char>, JsonModel)>,
    name: Seq<char>,
)
    requires
        0 <= i,
        forall|j: int| i <= j < columns.len() ==> (#[trigger] columns[j]).name != name,
    ensures
        member(data_from(columns, row, left_out, i, acc), name, 0) == member(acc, name, 0),
    decreases columns.len() - i,
{
    if i < columns.len() {
        let out = exists|k: int| 0 <= k < left_out.len() && #[trigger] left_out[k] == i;
        if out {
            lemma_data_after(columns, row, left_out, i + 1, acc, name);
        } else {
            let next = with_member(acc, columns[i].name, columns[i].cells[row]);
            lemma_member_kept(acc, columns[i].name, columns[i].cells[row], name);
            lemma_data_after(columns, row, left_out, i + 1, next, name);
        }
    }
}

proof fn lemma_data_at(
    columns: Seq<StoredColumnModel>,
    row: int,
    left_out: Seq<usize>,
    i: int,
    acc: Seq<(Seq<char>, JsonModel)>,
    c: int,
)
    requires
        0 <= i <= c < columns.len(),
        forall|k: int| 0 <= k < left_out.len() ==> #[trigger] left_out[k] != c,
        forall|j: int| c < j < columns.len() ==> (#[trigger] columns[j]).name != columns[c].name,
    ensures
        member(data_from(columns, row, left_out, i, acc), columns[c].name, 0) == Some(
            columns[c].cells[row],
        ),
    decreases c - i,
{
    let out = exists|k: int| 0 <= k < left_out.len() && #[trigger] left_out[k] == i;
    if i < c {
        if out {
            lemma_data_at(columns, row, left_out, i + 1, acc, c);
        } else {
            let next = with_member(acc, columns[i].name, columns[i].cells[row]);
            lemma_data_at(columns, row, left_out, i + 1, next, c);
        }
    } else {
        let next = with_member(acc, columns[i].name, columns[i].cells[row]);
        lemma_member_set(acc, columns[i].name, columns[i].cells[row]);
        lemma_data_after(columns, row, left_out, i + 1, next, columns[c].name);
    }
}

/// Every property of a row is exported under its name, one that is called `id` too: of a
/// table whose columns behind the left out ones have different names, each of those
/// columns gives its cell.
pub proof fn law_properties_are_exported(t: StoredTableModel, row: int, left_out: Seq<usize>, c: int)
    requires
        0 <= c < t.columns.len(),
        forall|k: int| 0 <= k < left_out.len() ==> #[trigger] left_out[k] != c,
        forall|j: int| c < j < t.columns.len() ==> (#[trigger] t.columns[j]).name
            != t.columns[c].name,
    ensures
        json_get(data_map(t, row, left_out), t.columns[c].name) == Some(t.columns[c].cells[row]),
{
    lemma_data_at(t.columns, row, left_out, 0, Seq::empty(), c);
}

// ---------------------------------------------------------------------------
// Portable rows

/// Without internal fields a row holds no identities: neither its own nor, of an edge,
/// those of its ends.
pub proof fn law_portable_rows_have_no_identities(
    name: Seq<char>,
    from: Seq<char>,
    to: Seq<char>,
    data: JsonModel,
    id: u64,
    src: u64,
    dst: u64,
)
    ensures
        json_get(node_row(name, data, id, false), "id"@) is None,
        json_get(edge_row(name, from, to, data, id, src, dst, false), "id"@) is None,
        json_get(edge_row(name, from, to, data, id, src, dst, false), "src"@) is None,
        json_get(edge_row(name, from, to, data, id, src, dst, false), "dst"@) is None,
        json_get(edge_row(name, from, to, data, id, src, dst, false), "from"@) == Some(
            JsonModel::Text(from),
        ),
        json_get(edge_row(name, from, to, data, id, src, dst, false), "to"@) == Some(
            JsonModel::Text(to),
        ),
{
    reveal_strlit("id");
    reveal_strlit("src");
    reveal_strlit("dst");
    reveal_strlit("type");
    reveal_strlit("data");
    reveal_strlit("edge");
    reveal_strlit("from");
    reveal_strlit("to");
    let n = node_row(name, data, id, false)->Object_0;
    let e = edge_row(name, from, to, data, id, src, dst, false)->Object_0;
    assert("to"@[0] == 't' && "id"@[0] == 'i');
    assert("from"@[0] == 'f' && "edge"@[0] == 'e');
    assert("src"@.len() == 3 && "dst"@.len() == 3 && "id"@.len() == 2 && "to"@.len() == 2);
    assert("edge"@.len() == 4 && "from"@.len() == 4 && "data"@.len() == 4);
    assert(e[0].0 == "edge"@ && e[1].0 == "from"@ && e[2].0 == "to"@ && e[3].0 == "data"@);
    lemma_member_none(n, "id"@, 0);
    lemma_member_none(e, "id"@, 0);
    lemma_member_none(e, "src"@, 0);
    lemma_member_none(e, "dst"@, 0);
    lemma_member_at(e, "from"@, 0, 1);
    lemma_member_at(e, "to"@, 0, 2);
}

// ---------------------------------------------------------------------------
// Ends of edges

/// Whether a text is the key of the node of a type and an identity.
pub open spec fn is_key_of(
    schema: SchemaIrModel,
    graph: StoredGraphModel,
    label: Seq<char>,
    id: u64,
    token: Seq<char>,
) -> bool {
    exists|i: int, row: int| #[trigger]
        names_row(schema, graph, i, row, id, token) && schema.nodes[i].name == label
}

/// Whether a text is the key in a row of a node type, and an identity that of the row.
pub open spec fn names_row(
    schema: SchemaIrModel,
    graph: StoredGraphModel,
    i: int,
    row: int,
    id: u64,
    token: Seq<char>,
) -> bool {
    &&& 0 <= i < schema.nodes.len()
    &&& table_of(graph.nodes, schema.nodes[i].name) matches Some(t) && 0 <= row < t.num_rows && (
    numbers_of(t, "id"@) matches Some(ids) && ids[row] == id) && (key_prop_of(
        schema.nodes[i],
    ) matches Some(property) && (column_position(t.columns, property, 1) matches Some(c)
        && key_token(t.columns[c].cells[row], property) == Ok::<Seq<char>, ExportFault>(token)))
}

/// Whether every key that is kept is that of a node.
pub open spec fn keys_are_true(
    schema: SchemaIrModel,
    graph: StoredGraphModel,
    tokens: Map<Seq<char>, Map<u64, Seq<char>>>,
) -> bool {
    forall|label: Seq<char>, id: u64|
        #![trigger tokens[label].contains_key(id)]
        tokens.contains_key(label) && tokens[label].contains_key(id) ==> is_key_of(
            schema,
            graph,
            label,
            id,
            tokens[label][id],
        )
}

proof fn lemma_row_keys(
    schema: SchemaIrModel,
    graph: StoredGraphModel,
    i: int,
    t: StoredTableModel,
    ids: Seq<u64>,
    key: Option<(Seq<char>, Seq<JsonModel>)>,
    internal: bool,
    row: int,
    rows: Seq<JsonModel>,
    tokens: Map<u64, Seq<char>>,
)
    requires
        0 <= i < schema.nodes.len(),
        table_of(graph.nodes, schema.nodes[i].name) == Some(t),
        numbers_of(t, "id"@) == Some(ids),
        0 <= row,
        key matches Some((property, cells)) ==> key_prop_of(schema.nodes[i]) == Some(property) && (
        column_position(t.columns, property, 1) matches Some(c) && cells == t.columns[c].cells),
        forall|id: u64| #[trigger]
            tokens.contains_key(id) ==> is_key_of(
                schema,
                graph,
                schema.nodes[i].name,
                id,
                tokens[id],
            ),
    ensures
        node_rows(t, schema.nodes[i].name, ids, key, internal, row, rows, tokens) matches Ok(done)
            ==> forall|id: u64| #[trigger]
            done.1.contains_key(id) ==> is_key_of(
                schema,
                graph,
                schema.nodes[i].name,
                id,
                done.1[id],
            ),
    decreases t.num_rows - row,
{
    if row < t.num_rows {
        let name = schema.nodes[i].name;
        let made = rows.push(node_row(name, data_map(t, row, seq![0usize]), ids[row], internal));
        match key {
            Some((property, cells)) => {
                if let Ok(token) = key_token(cells[row], property) {
                    assert(names_row(schema, graph, i, row, ids[row], token));
                    lemma_row_keys(
                        schema,
                        graph,
                        i,
                        t,
                        ids,
                        key,
                        internal,
                        row + 1,
                        made,
                        tokens.insert(ids[row], token),
                    );
                }
            },
            None => {
                lemma_row_keys(schema, graph, i, t, ids, key, internal, row + 1, made, tokens);
            },
        }
    }
}

proof fn lemma_type_keys(
    schema: SchemaIrModel,
    graph: StoredGraphModel,
    internal: bool,
    i: int,
    so_far: Exported,
)
    requires
        0 <= i < schema.nodes.len(),
        keys_are_true(schema, graph, so_far.tokens),
    ensures
        node_type_rows(schema.nodes[i], graph, internal, so_far) matches Ok(e) ==> keys_are_true(
            schema,
            graph,
            e.tokens,
        ),
{
    let node = schema.nodes[i];
    if let Some(t) = table_of(graph.nodes, node.name) {
        if let Some(ids) = numbers_of(t, "id"@) {
            let key = match key_prop_of(node) {
                None => None,
                Some(property) => match column_position(t.columns, property, 1) {
                    None => None,
                    Some(c) => Some((property, t.columns[c].cells)),
                },
            };
            lemma_row_keys(
                schema,
                graph,
                i,
                t,
                ids,
                key,
                internal,
                0,
                so_far.rows,
                Map::empty(),
            );
            if let Ok(e) = node_table_rows(node, t, ids, key, internal, so_far) {
                let found = node_rows(
                    t,
                    node.name,
                    ids,
                    key,
                    internal,
                    0,
                    so_far.rows,
                    Map::empty(),
                )->Ok_0.1;
                assert forall|label: Seq<char>, id: u64|
                    #![trigger e.tokens[label].contains_key(id)]
                    e.tokens.contains_key(label) && e.tokens[label].contains_key(id) implies is_key_of(
                    schema,
                    graph,
                    label,
                    id,
                    e.tokens[label][id],
                ) by {
                    if e.tokens != so_far.tokens && label == node.name {
                        assert(found.contains_key(id));
                    } else {
                        assert(so_far.tokens[label].contains_key(id));
                    }
                }
            }
        }
    }
}

proof fn lemma_all_keys(
    schema: SchemaIrModel,
    graph: StoredGraphModel,
    internal: bool,
    i: int,
    so_far: Exported,
)
    requires
        0 <= i,
        keys_are_true(schema, graph, so_far.tokens),
    ensures
        all_node_rows(schema, graph, internal, i, so_far) matches Ok(e) ==> keys_are_true(
            schema,
            graph,
            e.tokens,
        ),
    decreases schema.nodes.len() - i,
{
    if i < schema.nodes.len() {
        lemma_type_keys(schema, graph, internal, i, so_far);
        if let Ok(e) = node_type_rows(schema.nodes[i], graph, internal, so_far) {
            lemma_all_keys(schema, graph, internal, i + 1, e);
        }
    }
}

/// Whether a value is the row of an edge whose ends are named by the keys of their nodes.
pub open spec fn is_keyed_edge_row(
    schema: SchemaIrModel,
    graph: StoredGraphModel,
    internal: bool,
    value: JsonModel,
) -> bool {
    exists|i: int, row: int, from: Seq<char>, to: Seq<char>| #[trigger]
        makes_edge_row(schema, graph, internal, value, i, row, from, to)
}

/// Whether a value is the row of an edge between two nodes with the given keys.
pub open spec fn makes_edge_row(
    schema: SchemaIrModel,
    graph: StoredGraphModel,
    internal: bool,
    value: JsonModel,
    i: int,
    row: int,
    from: Seq<char>,
    to: Seq<char>,
) -> bool {
    &&& 0 <= i < schema.edges.len()
    &&& table_of(graph.edges, schema.edges[i].name) matches Some(t) && 0 <= row < t.num_rows && (
    numbers_of(t, "id"@) matches Some(ids) && (numbers_of(t, "src"@) matches Some(srcs) && (
    numbers_of(t, "dst"@) matches Some(dsts) && is_key_of(
        schema,
        graph,
        schema.edges[i].src_type,
        srcs[row],
        from,
    ) && is_key_of(schema, graph, schema.edges[i].dst_type, dsts[row], to) && value == edge_row(
        schema.edges[i].name,
        from,
        to,
        data_map(t, row, seq![0usize, 1usize, 2usize]),
        ids[row],
        srcs[row],
        dsts[row],
        internal,
    ))))
}

proof fn lemma_edge_rows(
    schema: SchemaIrModel,
    graph: StoredGraphModel,
    tokens: Map<Seq<char>, Map<u64, Seq<char>>>,
    internal: bool,
    i: int,
    t: StoredTableModel,
    ids: Seq<u64>,
    srcs: Seq<u64>,
    dsts: Seq<u64>,
    row: int,
    rows: Seq<JsonModel>,
    start: int,
)
    requires
        keys_are_true(schema, graph, tokens),
        0 <= i < schema.edges.len(),
        table_of(graph.edges, schema.edges[i].name) == Some(t),
        numbers_of(t, "id"@) == Some(ids),
        numbers_of(t, "src"@) == Some(srcs),
        numbers_of(t, "dst"@) == Some(dsts),
        0 <= row,
        0 <= start <= rows.len(),
        forall|k: int|
            start <= k < rows.len() ==> is_keyed_edge_row(
                schema,
                graph,
                internal,
                #[trigger] rows[k],
            ),
    ensures
        edge_rows(
            schema.edges[i],
            t,
            ids,
            srcs,
            dsts,
            tokens,
            internal,
            row,
            rows,
        ) matches Ok(done) ==> {
            &&& rows.len() <= done.len()
            &&& done.take(start) == rows.take(start)
            &&& forall|k: int|
                start <= k < done.len() ==> is_keyed_edge_row(
                    schema,
                    graph,
                    internal,
                    #[trigger] done[k],
                )
        },
    decreases t.num_rows - row,
{
    let edge = schema.edges[i];
    if row < t.num_rows {
        if let Some(from) = token_of(tokens, edge.src_type, srcs[row]) {
            if let Some(to) = token_of(tokens, edge.dst_type, dsts[row]) {
                let value = edge_row(
                    edge.name,
                    from,
                    to,
                    data_map(t, row, seq![0usize, 1usize, 2usize]),
                    ids[row],
                    srcs[row],
                    dsts[row],
                    internal,
                );
                assert(tokens[edge.src_type].contains_key(srcs[row]));
                assert(tokens[edge.dst_type].contains_key(dsts[row]));
                assert(makes_edge_row(schema, graph, internal, value, i, row, from, to));
                let more = rows.push(value);
                lemma_edge_rows(
                    schema,
                    graph,
                    tokens,
                    internal,
                    i,
                    t,
                    ids,
                    srcs,
                    dsts,
                    row + 1,
                    more,
                    start,
                );
                assert(more.take(start) =~= rows.take(start));
            }
        }
    }
}

proof fn lemma_all_edge_rows(
    schema: SchemaIrModel,
    graph: StoredGraphModel,
    tokens: Map<Seq<char>, Map<u64, Seq<char>>>,
    internal: bool,
    i: int,
    rows: Seq<JsonModel>,
    start: int,
)
    requires
        keys_are_true(schema, graph, tokens),
        0 <= i,
        0 <= start <= rows.len(),
        forall|k: int|
            start <= k < rows.len() ==> is_keyed_edge_row(
                schema,
                graph,
                internal,
                #[trigger] rows[k],
            ),
    ensures
        all_edge_rows(schema, graph, tokens, internal, i, rows) matches Ok(done) ==> {
            &&& rows.len() <= done.len()
            &&& done.take(start) == rows.take(start)
            &&& forall|k: int|
                start <= k < done.len() ==> is_keyed_edge_row(
                    schema,
                    graph,
                    internal,
                    #[trigger] done[k],
                )
        },
    decreases schema.edges.len() - i,
{
    if i < schema.edges.len() {
        let edge = schema.edges[i];
        match table_of(graph.edges, edge.name) {
            None => {
                lemma_all_edge_rows(schema, graph, tokens, internal, i + 1, rows, start);
            },
            Some(t) => {
                if let Some(ids) = numbers_of(t, "id"@) {
                    if let Some(srcs) = numbers_of(t, "src"@) {
                        if let Some(dsts) = numbers_of(t, "dst"@) {
                            lemma_edge_rows(
                                schema,
                                graph,
                                tokens,
                                internal,
                                i,
                                t,
                                ids,
                                srcs,
                                dsts,
                                0,
                                rows,
                                start,
                            );
                            if let Ok(r) = edge_type_rows(edge, graph, tokens, internal, rows) {
                                lemma_all_edge_rows(
                                    schema,
                                    graph,
                                    tokens,
                                    internal,
                                    i + 1,
                                    r,
                                    start,
                                );
                            }
                        }
                    }
                }
            },
        }
    }
}

/// An export is the rows of the nodes, then rows of edges, and every edge names its two
/// ends by the keys of the nodes that it joins.
pub proof fn law_edges_name_their_ends_by_keys(
    schema: SchemaIrModel,
    graph: StoredGraphModel,
    internal: bool,
)
    ensures
        export_rows(schema, graph, internal) matches Ok(rows) ==> ({
            let nodes = all_node_rows(
                schema,
                graph,
                internal,
                0,
                Exported { rows: Seq::empty(), tokens: Map::empty() },
            );
            nodes matches Ok(n) && n.rows.len() <= rows.len() && rows.take(n.rows.len() as int)
                == n.rows && forall|k: int|
                n.rows.len() <= k < rows.len() ==> is_keyed_edge_row(
                    schema,
                    graph,
                    internal,
                    #[trigger] rows[k],
                )
        }),
{
    let none = Exported { rows: Seq::empty(), tokens: Map::empty() };
    lemma_all_keys(schema, graph, internal, 0, none);
    if let Ok(n) = all_node_rows(schema, graph, internal, 0, none) {
        lemma_all_edge_rows(
            schema,
            graph,
            n.tokens,
            internal,
            0,
            n.rows,
            n.rows.len() as int,
        );
        assert(n.rows.take(n.rows.len() as int) =~= n.rows);
    }
}

// ---------------------------------------------------------------------------
// Counting

/// The number of rows of the node types from `i` on.
pub open spec fn node_count(schema: SchemaIrModel, graph: StoredGraphModel, i: int) -> nat
    decreases schema.nodes.len() - i,
{
    if i < 0 || i >= schema.nodes.len() {
        0
    } else {
        node_count(schema, graph, i + 1) + match table_of(graph.nodes, schema.nodes[i].name) {
            Some(t) => t.num_rows,
            None => 0,
        }
    }
}

/// The number of rows of the edge types from `i` on.
pub open spec fn edge_count(schema: SchemaIrModel, graph: StoredGraphModel, i: int) -> nat
    decreases schema.edges.len() - i,
{
    if i < 0 || i >= schema.edges.len() {
        0
    } else {
        edge_count(schema, graph, i + 1) + match table_of(graph.edges, schema.edges[i].name) {
            Some(t) => t.num_rows,
            None => 0,
        }
    }
}

proof fn lemma_node_rows_count(
    t: StoredTableModel,
    name: Seq<char>,
    ids: Seq<u64>,
    key: Option<(Seq<char>, Seq<JsonModel>)>,
    internal: bool,
    row: int,
    rows: Seq<JsonModel>,
    tokens: Map<u64, Seq<char>>,
)
    requires
        0 <= row <= t.num_rows,
    ensures
        node_rows(t, name, ids, key, internal, row, rows, tokens) matches Ok(done) ==> done.0.len()
            == rows.len() + t.num_rows - row,
    decreases t.num_rows - row,
{
    if row < t.num_rows {
        let made = rows.push(node_row(name, data_map(t, row, seq![0usize]), ids[row], internal));
        match key {
            Some((property, cells)) => {
                if let Ok(token) = key_token(cells[row], property) {
                    lemma_node_rows_count(
                        t,
                        name,
                        ids,
                        key,
                        internal,
                        row + 1,
                        made,
                        tokens.insert(ids[row], token),
                    );
                }
            },
            None => {
                lemma_node_rows_count(t, name, ids, key, internal, row + 1, made, tokens);
            },
        }
    }
}

proof fn lemma_all_nodes_count(
    schema: SchemaIrModel,
    graph: StoredGraphModel,
    internal: bool,
    i: int,
    so_far: Exported,
)
    requires
        0 <= i,
    ensures
        all_node_rows(schema, graph, internal, i, so_far) matches Ok(e) ==> e.rows.len()
            == so_far.rows.len() + node_count(schema, graph, i),
    decreases schema.nodes.len() - i,
{
    if i < schema.nodes.len() {
        let node = schema.nodes[i];
        if let Some(t) = table_of(graph.nodes, node.name) {
            if let Some(ids) = numbers_of(t, "id"@) {
                let key = match key_prop_of(node) {
                    None => None,
                    Some(property) => match column_position(t.columns, property, 1) {
                        None => None,
                        Some(c) => Some((property, t.columns[c].cells)),
                    },
                };
                lemma_node_rows_count(
                    t,
                    node.name,
                    ids,
                    key,
                    internal,
                    0,
                    so_far.rows,
                    Map::empty(),
                );
            }
        }
        if let Ok(e) = node_type_rows(node, graph, internal, so_far) {
            lemma_all_nodes_count(schema, graph, internal, i + 1, e);
        }
    }
}

proof fn lemma_edge_rows_count(
    edge: EdgeTypeDefModel,
    t: StoredTableModel,
    ids: Seq<u64>,
    srcs: Seq<u64>,
    dsts: Seq<u64>,
    tokens: Map<Seq<char>, Map<u64, Seq<char>>>,
    internal: bool,
    row: int,
    rows: Seq<JsonModel>,
)
    requires
        0 <= row <= t.num_rows,
    ensures
        edge_rows(edge, t, ids, srcs, dsts, tokens, internal, row, rows) matches Ok(done)
            ==> done.len() == rows.len() + t.num_rows - row,
    decreases t.num_rows - row,
{
    if row < t.num_rows {
        if let Some(from) = token_of(tokens, edge.src_type, srcs[row]) {
            if let Some(to) = token_of(tokens, edge.dst_type, dsts[row]) {
                let more = rows.push(
                    edge_row(
                        edge.name,
                        from,
                        to,
                        data_map(t, row, seq![0usize, 1usize, 2usize]),
                        ids[row],
                        srcs[row],
                        dsts[row],
                        internal,
                    ),
                );
                lemma_edge_rows_count(
                    edge,
                    t,
                    ids,
                    srcs,
                    dsts,
                    tokens,
                    internal,
                    row + 1,
                    more,
                );
            }
        }
    }
}

proof fn lemma_all_edges_count(
    schema: SchemaIrModel,
    graph: StoredGraphModel,
    tokens: Map<Seq<char>, Map<u64, Seq<char>>>,
    internal: bool,
    i: int,
    rows: Seq<JsonModel>,
)
    requires
        0 <= i,
    ensures
        all_edge_rows(schema, graph, tokens, internal, i, rows) matches Ok(done) ==> done.len()
            == rows.len() + edge_count(schema, graph, i),
    decreases schema.edges.len() - i,
{
    if i < schema.edges.len() {
        let edge = schema.edges[i];
        if let Some(t) = table_of(graph.edges, edge.name) {
            if let Some(ids) = numbers_of(t, "id"@) {
                if let Some(srcs) = numbers_of(t, "src"@) {
                    if let Some(dsts) = numbers_of(t, "dst"@) {
                        lemma_edge_rows_count(
                            edge,
                            t,
                            ids,
                            srcs,
                            dsts,
                            tokens,
                            internal,
                            0,
                            rows,
                        );
                    }
                }
            }
        }
        if let Ok(r) = edge_type_rows(edge, graph, tokens, internal, rows) {
            lemma_all_edges_count(schema, graph, tokens, internal, i + 1, r);
        }
    }
}

/// No row is lost and none is made up: an export has as many rows as the tables of the
/// node types and of the edge types have.
pub proof fn law_every_row_is_exported(
    schema: SchemaIrModel,
    graph: StoredGraphModel,
    internal: bool,
)
    ensures
        export_rows(schema, graph, internal) matches Ok(rows) ==> rows.len() == node_count(
            schema,
            graph,
            0,
        ) + edge_count(schema, graph, 0),
{
    let none = Exported { rows: Seq::empty(), tokens: Map::empty() };
    lemma_all_nodes_count(schema, graph, internal, 0, none);
    if let Ok(n) = all_node_rows(schema, graph, internal, 0, none) {
        lemma_all_edges_count(schema, graph, n.tokens, internal, 0, n.rows);
    }
}

} // verus!
