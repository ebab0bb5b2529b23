//! The export of a graph as JSON rows: nodes first, then edges whose ends are named by the
//! keys of their nodes.

use crate::cli::lines::{bool_str, bool_text};
use crate::json::{json_number, json_string, unsigned, with_member, written, Json, JsonModel, Members};
use crate::names::NameMap;
use crate::store::schema_ir::{key_prop_of, EdgeTypeDef, EdgeTypeDefModel, NodeTypeDef, NodeTypeDefModel, SchemaIr, SchemaIrModel};
use crate::store::tables::{column_position, find_table, numbers_of, stored_column_ok, stored_graph_ok, stored_table_ok, table_of, StoredColumnModel, StoredGraph, StoredGraphModel, StoredTable, StoredTableModel};
use crate::text::{cat3, cat5, decimal, decimal_u64, lemma_views_push, views};
use std::collections::HashMap;
use vstd::prelude::*;

verus! {

/// Why a graph cannot be exported.
#[derive(Debug)]
pub enum ExportError {
    /// A message for the user.
    Message(String),
    /// The value of a key that is neither a string nor a number nor a truth value.
    UnsupportedKey { property: String, value: Json },
}

/// The mathematical value of an `ExportError`.
pub enum ExportFault {
    Message(Seq<char>),
    UnsupportedKey { property: Seq<char>, value: JsonModel },
}

impl View for ExportError {
    type V = ExportFault;

    open spec fn view(&self) -> ExportFault {
        match *self {
            ExportError::Message(m) => ExportFault::Message(m@),
            ExportError::UnsupportedKey { property, value } => ExportFault::UnsupportedKey {
                property: property@,
                value: value@,
            },
        }
    }
}

/// The message of a key whose value, as the given text, names no node.
pub open spec fn unsupported_key(property: Seq<char>, value: Seq<char>) -> Seq<char> {
    "unsupported @key export value for "@ + property + ": "@ + value
}

/// What a user is told of a fault.
pub open spec fn fault_text(f: ExportFault) -> Seq<char> {
    match f {
        ExportFault::Message(m) => m,
        ExportFault::UnsupportedKey { property, value } => unsupported_key(property, written(value)),
    }
}

impl ExportError {
    /// What a user is told of the error.
    pub fn to_string(&self) -> (r: String)
        ensures
            r@ == fault_text(self@),
    {
        match self {
            ExportError::Message(m) => m.clone(),
            ExportError::UnsupportedKey { property, value } => {
                let text = value.to_text();
                let mut r = cat3("unsupported @key export value for ", property, ": ");
                r.append(&text);
                r
            },
        }
    }
}

// ---------------------------------------------------------------------------
// Keys and cells

/// The text by which a key names its node.
pub open spec fn key_token(cell: JsonModel, property: Seq<char>) -> Result<Seq<char>, ExportFault> {
    match cell {
        JsonModel::Null => Err(
            ExportFault::Message("@key property "@ + property + " cannot be null"@),
        ),
        JsonModel::Text(s) => Ok(s),
        JsonModel::Bool(b) => Ok(bool_text(b)),
        JsonModel::Number(n) => Ok(n),
        other => Err(ExportFault::UnsupportedKey { property, value: other }),
    }
}

/// The text by which a key names its node.
pub fn export_key_token(cell: &Json, property: &str) -> (r: Result<String, ExportError>)
    ensures
        match r {
            Ok(s) => key_token(cell@, property@) == Ok::<Seq<char>, ExportFault>(s@),
            Err(e) => key_token(cell@, property@) == Err::<Seq<char>, ExportFault>(e@),
        },
{
    match cell {
        Json::Null => Err(
            ExportError::Message(cat3("@key property ", property, " cannot be null")),
        ),
        Json::Text(s) => Ok(s.clone()),
        Json::Bool(b) => Ok(bool_str(*b).to_owned()),
        Json::Number(n) => Ok(n.clone()),
        _ => Err(
            ExportError::UnsupportedKey { property: property.to_owned(), value: cell.copy() },
        ),
    }
}

/// The position of a user's property: the first column of its name behind the first
/// column.
pub fn node_property_index(table: &StoredTable, property: &str) -> (r: Option<usize>)
    ensures
        match r {
            Some(i) => column_position(table@.columns, property@, 1) == Some(i as int) && 1 <= i
                < table.columns@.len(),
            None => column_position(table@.columns, property@, 1) is None,
        },
{
    let r = table.position(property, 1);
    proof {
        lemma_position_behind(table@.columns, property@, 1);
    }
    r
}

proof fn lemma_position_behind(columns: Seq<StoredColumnModel>, name: Seq<char>, i: int)
    ensures
        column_position(columns, name, i) matches Some(k) ==> i <= k,
    decreases columns.len() - i,
{
    if i < 0 || i >= columns.len() || columns[i].name == name {
    } else {
        lemma_position_behind(columns, name, i + 1);
    }
}

/// The cells of a row from column `i` on that are not left out, behind those in `acc`. Of
/// two columns of one name the later counts.
pub open spec fn data_from(
    columns: Seq<StoredColumnModel>,
    row: int,
    left_out: Seq<usize>,
    i: int,
    acc: Seq<(Seq<char>, JsonModel)>,
) -> Seq<(Seq<char>, JsonModel)>
    decreases columns.len() - i,
{
    if i < 0 || i >= columns.len() {
        acc
    } else if exists|k: int| 0 <= k < left_out.len() && #[trigger] left_out[k] == i {
        data_from(columns, row, left_out, i + 1, acc)
    } else {
        data_from(
            columns,
            row,
            left_out,
            i + 1,
            with_member(acc, columns[i].name, columns[i].cells[row]),
        )
    }
}

/// The cells of a row, without those of some columns.
pub open spec fn data_map(t: StoredTableModel, row: int, left_out: Seq<usize>) -> JsonModel {
    JsonModel::Object(data_from(t.columns, row, left_out, 0, Seq::empty()))
}

fn holds(v: &Vec<usize>, n: usize) -> (r: bool)
    ensures
        r == exists|k: int| 0 <= k < v@.len() && #[trigger] v@[k] == n,
{
    let mut i: usize = 0;
    while i < v.len()
        invariant
            i <= v@.len(),
            forall|k: int| 0 <= k < i ==> #[trigger] v@[k] != n,
        decreases v@.len() - i,
    {
        if v[i] == n {
            return true;
        }
        i = i + 1;
    }
    false
}

/// The cells of a row, without those of the columns at the given positions.
pub fn export_data_map(table: &StoredTable, row: usize, excluded: &Vec<usize>) -> (r: Json)
    requires
        stored_table_ok(table@),
        row < table.num_rows,
    ensures
        r@ == data_map(table@, row as int, excluded@),
{
    let mut m = Members::new();
    let mut i: usize = 0;
    while i < table.columns.len()
        invariant
            i <= table.columns@.len(),
            stored_table_ok(table@),
            row < table.num_rows,
            data_from(table@.columns, row as int, excluded@, 0, Seq::empty()) == data_from(
                table@.columns,
                row as int,
                excluded@,
                i as int,
                m@,
            ),
        decreases table.columns@.len() - i,
    {
        let c = &table.columns[i];
        assert(table@.columns[i as int] == c@);
        assert(stored_column_ok(c@, table@.num_rows));
        if !holds(excluded, i) {
            assert(views(c.cells@)[row as int] == c.cells@[row as int]@);
            m.set(&c.name, c.cells[row].copy());
        }
        i = i + 1;
    }
    m.object()
}

// ---------------------------------------------------------------------------
// The keys of nodes

/// The texts by which keys name the nodes of one type, by the identities of the nodes.
#[derive(Debug)]
struct IdTokens {
    tokens: HashMap<u64, String>,
}

impl View for IdTokens {
    type V = Map<u64, Seq<char>>;

    closed spec fn view(&self) -> Map<u64, Seq<char>> {
        Map::new(|k: u64| self.tokens@.contains_key(k), |k: u64| self.tokens@[k]@)
    }
}

impl IdTokens {
    fn new() -> (r: IdTokens)
        ensures
            r@ == Map::<u64, Seq<char>>::empty(),
    {
        let r = IdTokens { tokens: HashMap::new() };
        assert(r@ =~= Map::<u64, Seq<char>>::empty());
        r
    }

    fn insert(&mut self, id: u64, token: String)
        ensures
            final(self)@ == old(self)@.insert(id, token@),
    {
        broadcast use vstd::std_specs::hash::group_hash_axioms;

        let ghost before = self@;
        self.tokens.insert(id, token);
        assert(self@ =~= before.insert(id, token@));
    }

    fn get(&self, id: u64) -> (r: Option<&String>)
        ensures
            match r {
                Some(s) => self@.contains_key(id) && self@[id] == s@,
                None => !self@.contains_key(id),
            },
    {
        broadcast use vstd::std_specs::hash::group_hash_axioms;

        self.tokens.get(&id)
    }
}

/// Rows that were made, and the keys of the nodes among them, by type.
pub struct Exported {
    pub rows: Seq<JsonModel>,
    pub tokens: Map<Seq<char>, Map<u64, Seq<char>>>,
}

// ---------------------------------------------------------------------------
// Nodes

/// The row of a node.
pub open spec fn node_row(name: Seq<char>, data: JsonModel, id: u64, internal: bool) -> JsonModel {
    let members = seq![("type"@, JsonModel::Text(name)), ("data"@, data)];
    JsonModel::Object(
        if internal {
            members.push(("id"@, unsigned(id as nat)))
        } else {
            members
        },
    )
}

fn make_node_row(name: &str, data: Json, id: u64, internal: bool) -> (r: Json)
    ensures
        r@ == node_row(name@, data@, id, internal),
{
    let mut m = Members::new();
    m.push("type", json_string(name));
    m.push("data", data);
    if internal {
        m.push("id", json_number(id));
    }
    assert(m@ =~= node_row(name@, data@, id, internal)->Object_0);
    m.object()
}

/// Adds the rows of a node table from `row` on, and their keys.
pub open spec fn node_rows(
    t: StoredTableModel,
    name: Seq<char>,
    ids: Seq<u64>,
    key: Option<(Seq<char>, Seq<JsonModel>)>,
    internal: bool,
    row: int,
    rows: Seq<JsonModel>,
    tokens: Map<u64, Seq<char>>,
) -> Result<(Seq<JsonModel>, Map<u64, Seq<char>>), ExportFault>
    decreases t.num_rows - row,
{
    if row < 0 || row >= t.num_rows {
        Ok((rows, tokens))
    } else {
        let made = rows.push(node_row(name, data_map(t, row, seq![0usize]), ids[row], internal));
        match key {
            Some((property, cells)) => match key_token(cells[row], property) {
                Ok(token) => node_rows(
                    t,
                    name,
                    ids,
                    key,
                    internal,
                    row + 1,
                    made,
                    tokens.insert(ids[row], token),
                ),
                Err(e) => Err(e),
            },
            None => node_rows(t, name, ids, key, internal, row + 1, made, tokens),
        }
    }
}

/// Adds the rows of a node type that has a table with identities.
pub open spec fn node_table_rows(
    node: NodeTypeDefModel,
    t: StoredTableModel,
    ids: Seq<u64>,
    key: Option<(Seq<char>, Seq<JsonModel>)>,
    internal: bool,
    so_far: Exported,
) -> Result<Exported, ExportFault> {
    match node_rows(t, node.name, ids, key, internal, 0, so_far.rows, Map::empty()) {
        Ok((rows, tokens)) => Ok(
            Exported {
                rows,
                tokens: if key is Some && t.num_rows > 0 {
                    so_far.tokens.insert(node.name, tokens)
                } else {
                    so_far.tokens
                },
            },
        ),
        Err(e) => Err(e),
    }
}

/// Adds the rows of a node type.
pub open spec fn node_type_rows(
    node: NodeTypeDefModel,
    graph: StoredGraphModel,
    internal: bool,
    so_far: Exported,
) -> Result<Exported, ExportFault> {
    match table_of(graph.nodes, node.name) {
        None => Ok(so_far),
        Some(t) => match numbers_of(t, "id"@) {
            None => Err(
                ExportFault::Message(
                    "node batch '"@ + node.name + "' missing UInt64 id column"@,
                ),
            ),
            Some(ids) => match key_prop_of(node) {
                None => node_table_rows(node, t, ids, None, internal, so_far),
                Some(property) => match column_position(t.columns, property, 1) {
                    None => Err(
                        ExportFault::Message(
                            "node batch '"@ + node.name + "' missing @key property '"@ + property
                                + "'"@,
                        ),
                    ),
                    Some(c) => node_table_rows(
                        node,
                        t,
                        ids,
                        Some((property, t.columns[c].cells)),
                        internal,
                        so_far,
                    ),
                },
            },
        },
    }
}

/// Adds the rows of the node types from `i` on.
pub open spec fn all_node_rows(
    schema: SchemaIrModel,
    graph: StoredGraphModel,
    internal: bool,
    i: int,
    so_far: Exported,
) -> Result<Exported, ExportFault>
    decreases schema.nodes.len() - i,
{
    if i < 0 || i >= schema.nodes.len() {
        Ok(so_far)
    } else {
        match node_type_rows(schema.nodes[i], graph, internal, so_far) {
            Ok(e) => all_node_rows(schema, graph, internal, i + 1, e),
            Err(e) => Err(e),
        }
    }
}

// ---------------------------------------------------------------------------
// Edges

/// The row of an edge.
pub open spec fn edge_row(
    name: Seq<char>,
    from: Seq<char>,
    to: Seq<char>,
    data: JsonModel,
    id: u64,
    src: u64,
    dst: u64,
    internal: bool,
) -> JsonModel {
    let members = seq![
        ("edge"@, JsonModel::Text(name)),
        ("from"@, JsonModel::Text(from)),
        ("to"@, JsonModel::Text(to)),
        ("data"@, data),
    ];
    JsonModel::Object(
        if internal {
            members.push(("id"@, unsigned(id as nat))).push(("src"@, unsigned(src as nat))).push(
                ("dst"@, unsigned(dst as nat)),
            )
        } else {
            members
        },
    )
}

/// The text by which the key of a node names it.
pub open spec fn token_of(
    tokens: Map<Seq<char>, Map<u64, Seq<char>>>,
    label: Seq<char>,
    id: u64,
) -> Option<Seq<char>> {
    if tokens.contains_key(label) && tokens[label].contains_key(id) {
        Some(tokens[label][id])
    } else {
        None
    }
}

/// The message of an edge with an end that has no key.
pub open spec fn missing_token(edge: Seq<char>, end: Seq<char>, label: Seq<char>, id: u64) -> Seq<
    char,
> {
    "cannot export portable edge '"@ + edge + "': "@ + end + " "@ + label + " node "@ + decimal(
        id as nat,
    ) + " is missing an @key token"@
}

/// Adds the rows of an edge table from `row` on.
pub open spec fn edge_rows(
    edge: EdgeTypeDefModel,
    t: StoredTableModel,
    ids: Seq<u64>,
    srcs: Seq<u64>,
    dsts: Seq<u64>,
    tokens: Map<Seq<char>, Map<u64, Seq<char>>>,
    internal: bool,
    row: int,
    rows: Seq<JsonModel>,
) -> Result<Seq<JsonModel>, ExportFault>
    decreases t.num_rows - row,
{
    if row < 0 || row >= t.num_rows {
        Ok(rows)
    } else {
        match token_of(tokens, edge.src_type, srcs[row]) {
            None => Err(
                ExportFault::Message(
                    missing_token(edge.name, "source"@, edge.src_type, srcs[row]),
                ),
            ),
            Some(from) => match token_of(tokens, edge.dst_type, dsts[row]) {
                None => Err(
                    ExportFault::Message(
                        missing_token(edge.name, "destination"@, edge.dst_type, dsts[row]),
                    ),
                ),
                Some(to) => edge_rows(
                    edge,
                    t,
                    ids,
                    srcs,
                    dsts,
                    tokens,
                    internal,
                    row + 1,
                    rows.push(
                        edge_row(
                            edge.name,
                            from,
                            to,
                            data_map(t, row, seq![0usize, 1usize, 2usize]),
                            ids[row],
                            srcs[row],
                            dsts[row],
                            internal,
                        ),
                    ),
                ),
            },
        }
    }
}

/// The message of an edge table without a column of identities.
pub open spec fn missing_edge_column(edge: Seq<char>, column: Seq<char>) -> ExportFault {
    ExportFault::Message("edge batch '"@ + edge + "' missing UInt64 "@ + column + " column"@)
}

/// Adds the rows of an edge type.
pub open spec fn edge_type_rows(
    edge: EdgeTypeDefModel,
    graph: StoredGraphModel,
    tokens: Map<Seq<char>, Map<u64, Seq<char>>>,
    internal: bool,
    rows: Seq<JsonModel>,
) -> Result<Seq<JsonModel>, ExportFault> {
    match table_of(graph.edges, edge.name) {
        None => Ok(rows),
        Some(t) => match (numbers_of(t, "id"@), numbers_of(t, "src"@), numbers_of(t, "dst"@)) {
            (None, _, _) => Err(missing_edge_column(edge.name, "id"@)),
            (_, None, _) => Err(missing_edge_column(edge.name, "src"@)),
            (_, _, None) => Err(missing_edge_column(edge.name, "dst"@)),
            (Some(ids), Some(srcs), Some(dsts)) => edge_rows(
                edge,
                t,
                ids,
                srcs,
                dsts,
                tokens,
                internal,
                0,
                rows,
            ),
        },
    }
}

/// Adds the rows of the edge types from `i` on.
pub open spec fn all_edge_rows(
    schema: SchemaIrModel,
    graph: StoredGraphModel,
    tokens: Map<Seq<char>, Map<u64, Seq<char>>>,
    internal: bool,
    i: int,
    rows: Seq<JsonModel>,
) -> Result<Seq<JsonModel>, ExportFault>
    decreases schema.edges.len() - i,
{
    if i < 0 || i >= schema.edges.len() {
        Ok(rows)
    } else {
        match edge_type_rows(schema.edges[i], graph, tokens, internal, rows) {
            Ok(r) => all_edge_rows(schema, graph, tokens, internal, i + 1, r),
            Err(e) => Err(e),
        }
    }
}

/// The rows of a graph.
pub open spec fn export_rows(schema: SchemaIrModel, graph: StoredGraphModel, internal: bool) -> Result<
    Seq<JsonModel>,
    ExportFault,
> {
    match all_node_rows(
        schema,
        graph,
        internal,
        0,
        Exported { rows: Seq::empty(), tokens: Map::empty() },
    ) {
        Err(e) => Err(e),
        Ok(nodes) => all_edge_rows(schema, graph, nodes.tokens, internal, 0, nodes.rows),
    }
}

// ---------------------------------------------------------------------------
// Making the rows

fn push_row(rows: &mut Vec<Json>, row: Json)
    ensures
        views(final(rows)@) == views(old(rows)@).push(row@),
{
    proof {
        lemma_views_push(rows@, row);
    }
    rows.push(row);
}

/// The name and the position of a key.
pub open spec fn key_view(t: StoredTableModel, key: Option<(&String, usize)>) -> Option<
    (Seq<char>, Seq<JsonModel>),
> {
    match key {
        Some((property, c)) => Some((property@, t.columns[c as int].cells)),
        None => None,
    }
}

#[verifier::loop_isolation(false)]
fn make_node_rows(
    table: &StoredTable,
    name: &str,
    ids: &Vec<u64>,
    key: Option<(&String, usize)>,
    internal: bool,
    rows: &mut Vec<Json>,
) -> (r: Result<IdTokens, ExportError>)
    requires
        stored_table_ok(table@),
        ids@.len() == table.num_rows,
        key matches Some((_, c)) ==> c < table.columns@.len(),
    ensures
        match r {
            Ok(tokens) => node_rows(
                table@,
                name@,
                ids@,
                key_view(table@, key),
                internal,
                0,
                views(old(rows)@),
                Map::empty(),
            ) == Ok::<(Seq<JsonModel>, Map<u64, Seq<char>>), ExportFault>(
                (views(final(rows)@), tokens@),
            ),
            Err(e) => node_rows(
                table@,
                name@,
                ids@,
                key_view(table@, key),
                internal,
                0,
                views(old(rows)@),
                Map::empty(),
            ) == Err::<(Seq<JsonModel>, Map<u64, Seq<char>>), ExportFault>(e@),
        },
{
    let ghost k = key_view(table@, key);
    let ghost all = node_rows(
        table@,
        name@,
        ids@,
        k,
        internal,
        0,
        views(rows@),
        Map::empty(),
    );
    let mut excluded: Vec<usize> = Vec::new();
    excluded.push(0);
    assert(excluded@ =~= seq![0usize]);
    let mut tokens = IdTokens::new();
    let mut row: usize = 0;
    while row < table.num_rows
        invariant
            row <= table.num_rows,
            all == node_rows(table@, name@, ids@, k, internal, row as int, views(rows@), tokens@),
        decreases table.num_rows - row,
    {
        let id: u64 = ids[row];
        match key {
            Some((property, c)) => {
                let column = &table.columns[c];
                proof {
                    assert(table@.columns[c as int] == column@);
                    assert(stored_column_ok(column@, table@.num_rows));
                    assert(views(column.cells@)[row as int] == column.cells@[row as int]@);
                }
                match export_key_token(&column.cells[row], property) {
                    Ok(token) => tokens.insert(id, token),
                    Err(e) => {
                        return Err(e);
                    },
                }
            },
            None => {},
        }
        let data = export_data_map(table, row, &excluded);
        push_row(rows, make_node_row(name, data, id, internal));
        row = row + 1;
    }
    Ok(tokens)
}

fn make_node_type_rows(
    node: &NodeTypeDef,
    graph: &StoredGraph,
    internal: bool,
    rows: &mut Vec<Json>,
    tokens: &mut NameMap<IdTokens>,
) -> (r: Result<(), ExportError>)
    requires
        stored_graph_ok(graph@),
    ensures
        ({
            let result = node_type_rows(
                node@,
                graph@,
                internal,
                Exported { rows: views(old(rows)@), tokens: old(tokens)@ },
            );
            match r {
                Ok(()) => result == Ok::<Exported, ExportFault>(
                    Exported { rows: views(final(rows)@), tokens: final(tokens)@ },
                ),
                Err(e) => result == Err::<Exported, ExportFault>(e@),
            }
        }),
{
    let table = match find_table(&graph.nodes, &node.name) {
        Some(t) => t,
        None => {
            return Ok(());
        },
    };
    proof {
        let i = choose|i: int| 0 <= i < graph.nodes@.len() && table == #[trigger] graph.nodes@[i];
        assert(graph@.nodes[i] == table@);
    }
    let ids = match table.numbers("id") {
        Some(v) => v,
        None => {
            return Err(
                ExportError::Message(
                    cat3("node batch '", &node.name, "' missing UInt64 id column"),
                ),
            );
        },
    };
    let key: Option<(&String, usize)> = match node.key_prop() {
        None => None,
        Some(property) => match node_property_index(table, property) {
            Some(c) => Some((property, c)),
            None => {
                return Err(
                    ExportError::Message(
                        cat5(
                            "node batch '",
                            &node.name,
                            "' missing @key property '",
                            property,
                            "'",
                        ),
                    ),
                );
            },
        },
    };
    match make_node_rows(table, &node.name, ids, key, internal, rows) {
        Err(e) => Err(e),
        Ok(found) => {
            if key.is_some() && table.num_rows > 0 {
                tokens.insert(node.name.clone(), found);
            }
            Ok(())
        },
    }
}

fn find_token<'a>(tokens: &'a NameMap<IdTokens>, label: &str, id: u64) -> (r: Option<&'a String>)
    ensures
        match r {
            Some(s) => token_of(tokens@, label@, id) == Some(s@),
            None => token_of(tokens@, label@, id) is None,
        },
{
    match tokens.get(label) {
        Some(m) => m.get(id),
        None => None,
    }
}

fn missing(edge: &str, end: &str, label: &str, id: u64) -> (r: ExportError)
    ensures
        r@ == ExportFault::Message(missing_token(edge@, end@, label@, id)),
{
    let mut m = cat5("cannot export portable edge '", edge, "': ", end, " ");
    m.append(label);
    m.append(" node ");
    m.append(decimal_u64(id).as_str());
    m.append(" is missing an @key token");
    ExportError::Message(m)
}

fn make_edge_row(
    name: &str,
    from: &str,
    to: &str,
    data: Json,
    id: u64,
    src: u64,
    dst: u64,
    internal: bool,
) -> (r: Json)
    ensures
        r@ == edge_row(name@, from@, to@, data@, id, src, dst, internal),
{
    let mut m = Members::new();
    m.push("edge", json_string(name));
    m.push("from", json_string(from));
    m.push("to", json_string(to));
    m.push("data", data);
    if internal {
        m.push("id", json_number(id));
        m.push("src", json_number(src));
        m.push("dst", json_number(dst));
    }
    assert(m@ =~= edge_row(name@, from@, to@, data@, id, src, dst, internal)->Object_0);
    m.object()
}

#[verifier::loop_isolation(false)]
fn make_edge_rows(
    edge: &EdgeTypeDef,
    table: &StoredTable,
    ids: &Vec<u64>,
    srcs: &Vec<u64>,
    dsts: &Vec<u64>,
    tokens: &NameMap<IdTokens>,
    internal: bool,
    rows: &mut Vec<Json>,
) -> (r: Result<(), ExportError>)
    requires
        stored_table_ok(table@),
        ids@.len() == table.num_rows,
        srcs@.len() == table.num_rows,
        dsts@.len() == table.num_rows,
    ensures
        ({
            let result = edge_rows(
                edge@,
                table@,
                ids@,
                srcs@,
                dsts@,
                tokens@,
                internal,
                0,
                views(old(rows)@),
            );
            match r {
                Ok(()) => result == Ok::<Seq<JsonModel>, ExportFault>(views(final(rows)@)),
                Err(e) => result == Err::<Seq<JsonModel>, ExportFault>(e@),
            }
        }),
{
    let ghost all = edge_rows(
        edge@,
        table@,
        ids@,
        srcs@,
        dsts@,
        tokens@,
        internal,
        0,
        views(rows@),
    );
    let mut excluded: Vec<usize> = Vec::new();
    excluded.push(0);
    excluded.push(1);
    excluded.push(2);
    assert(excluded@ =~= seq![0usize, 1usize, 2usize]);
    let mut row: usize = 0;
    while row < table.num_rows
        invariant
            row <= table.num_rows,
            all == edge_rows(
                edge@,
                table@,
                ids@,
                srcs@,
                dsts@,
                tokens@,
                internal,
                row as int,
                views(rows@),
            ),
        decreases table.num_rows - row,
    {
        let src: u64 = srcs[row];
        let dst: u64 = dsts[row];
        let from = match find_token(tokens, &edge.src_type, src) {
            Some(s) => s,
            None => {
                return Err(missing(&edge.name, "source", &edge.src_type, src));
            },
        };
        let to = match find_token(tokens, &edge.dst_type, dst) {
            Some(s) => s,
            None => {
                return Err(missing(&edge.name, "destination", &edge.dst_type, dst));
            },
        };
        let data = export_data_map(table, row, &excluded);
        push_row(
            rows,
            make_edge_row(&edge.name, from, to, data, ids[row], src, dst, internal),
        );
        row = row + 1;
    }
    Ok(())
}

fn no_edge_column(edge: &str, column: &str) -> (r: ExportError)
    ensures
        r@ == missing_edge_column(edge@, column@),
{
    ExportError::Message(cat5("edge batch '", edge, "' missing UInt64 ", column, " column"))
}

fn make_edge_type_rows(
    edge: &EdgeTypeDef,
    graph: &StoredGraph,
    tokens: &NameMap<IdTokens>,
    internal: bool,
    rows: &mut Vec<Json>,
) -> (r: Result<(), ExportError>)
    requires
        stored_graph_ok(graph@),
    ensures
        ({
            let result = edge_type_rows(edge@, graph@, tokens@, internal, views(old(rows)@));
            match r {
                Ok(()) => result == Ok::<Seq<JsonModel>, ExportFault>(views(final(rows)@)),
                Err(e) => result == Err::<Seq<JsonModel>, ExportFault>(e@),
            }
        }),
{
    let table = match find_table(&graph.edges, &edge.name) {
        Some(t) => t,
        None => {
            return Ok(());
        },
    };
    proof {
        let i = choose|i: int| 0 <= i < graph.edges@.len() && table == #[trigger] graph.edges@[i];
        assert(graph@.edges[i] == table@);
    }
    let ids = match table.numbers("id") {
        Some(v) => v,
        None => {
            return Err(no_edge_column(&edge.name, "id"));
        },
    };
    let srcs = match table.numbers("src") {
        Some(v) => v,
        None => {
            return Err(no_edge_column(&edge.name, "src"));
        },
    };
    let dsts = match table.numbers("dst") {
        Some(v) => v,
        None => {
            return Err(no_edge_column(&edge.name, "dst"));
        },
    };
    make_edge_rows(edge, table, ids, srcs, dsts, tokens, internal, rows)
}

/// The rows of a graph: a row for every node, then a row for every edge, in the order of
/// the schema and of the tables. With `include_internal_fields` each row has its
/// identities too.
#[verifier::loop_isolation(false)]
pub fn build_export_rows(
    schema: &SchemaIr,
    graph: &StoredGraph,
    include_internal_fields: bool,
) -> (r: Result<Vec<Json>, ExportError>)
    requires
        stored_graph_ok(graph@),
    ensures
        match r {
            Ok(rows) => export_rows(schema@, graph@, include_internal_fields) == Ok::<
                Seq<JsonModel>,
                ExportFault,
            >(views(rows@)),
            Err(e) => export_rows(schema@, graph@, include_internal_fields) == Err::<
                Seq<JsonModel>,
                ExportFault,
            >(e@),
        },
{
    let mut rows: Vec<Json> = Vec::new();
    let mut tokens: NameMap<IdTokens> = NameMap::new();
    let ghost none = Exported { rows: Seq::empty(), tokens: Map::empty() };
    assert(views(rows@) =~= Seq::<JsonModel>::empty());
    let mut i: usize = 0;
    while i < schema.nodes.len()
        invariant
            i <= schema.nodes@.len(),
            all_node_rows(schema@, graph@, include_internal_fields, 0, none) == all_node_rows(
                schema@,
                graph@,
                include_internal_fields,
                i as int,
                Exported { rows: views(rows@), tokens: tokens@ },
            ),
        decreases schema.nodes@.len() - i,
    {
        assert(schema@.nodes[i as int] == schema.nodes@[i as int]@);
        match make_node_type_rows(
            &schema.nodes[i],
            graph,
            include_internal_fields,
            &mut rows,
            &mut tokens,
        ) {
            Ok(()) => {},
            Err(e) => {
                return Err(e);
            },
        }
        i = i + 1;
    }
    let ghost nodes = Exported { rows: views(rows@), tokens: tokens@ };
    let mut j: usize = 0;
    while j < schema.edges.len()
        invariant
            j <= schema.edges@.len(),
            all_edge_rows(
                schema@,
                graph@,
                nodes.tokens,
                include_internal_fields,
                0,
                nodes.rows,
            ) == all_edge_rows(
                schema@,
                graph@,
                tokens@,
                include_internal_fields,
                j as int,
                views(rows@),
            ),
        decreases schema.edges@.len() - j,
    {
        assert(schema@.edges[j as int] == schema.edges@[j as int]@);
        match make_edge_type_rows(
            &schema.edges[j],
            graph,
            &tokens,
            include_internal_fields,
            &mut rows,
        ) {
            Ok(()) => {},
            Err(e) => {
                return Err(e);
            },
        }
        j = j + 1;
    }
    Ok(rows)
}

} // verus!
