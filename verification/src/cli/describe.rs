//! The description of a database: its schema, its tables and its manifest.

use crate::cli::error::CliError;
use crate::cli::lines::{join, join_of, push_line};
use crate::json::{json_array, json_at, json_number, json_optional, json_string, json_strings, member, optional_text, texts, unsigned, Json, JsonModel, Members};
use crate::store::manifest::{DatasetEntry, DatasetEntryModel, GraphManifest, ManifestModel};
use crate::store::schema_ir::{key_prop_of, node_of, EdgeTypeDef, EdgeTypeDefModel, NodeTypeDef, NodeTypeDefModel, PropDef, PropDefModel, SchemaIr, SchemaIrModel};
use crate::store::tables::{count_rows, rows_of, StoredGraph, StoredGraphModel};
use crate::text::{cat2, cat3, lemma_views_push, same, views};
use vstd::prelude::*;

verus! {

// ---------------------------------------------------------------------------
// Properties

/// How the type of a property is written in a schema.
pub open spec fn prop_type_text(p: PropDefModel) -> Seq<char> {
    let base = if p.enum_values.len() == 0 {
        p.scalar_type
    } else {
        "enum("@ + join_of(p.enum_values, ", "@) + ")"@
    };
    let wrapped = if p.list {
        "["@ + base + "]"@
    } else {
        base
    };
    if p.nullable {
        wrapped + "?"@
    } else {
        wrapped
    }
}

/// How the type of a property is written in a schema.
pub fn prop_type_string(prop: &PropDef) -> (r: String)
    ensures
        r@ == prop_type_text(prop@),
{
    let base = if prop.enum_values.len() == 0 {
        prop.scalar_type.clone()
    } else {
        cat3("enum(", &join(&prop.enum_values, ", "), ")")
    };
    let wrapped = if prop.list {
        cat3("[", &base, "]")
    } else {
        base
    };
    if prop.nullable {
        cat2(&wrapped, "?")
    } else {
        wrapped
    }
}

/// What is told of a property of a node type.
pub open spec fn node_prop_payload(p: PropDefModel) -> JsonModel {
    JsonModel::Object(
        seq![
            ("name"@, JsonModel::Text(p.name)),
            ("prop_id"@, unsigned(p.prop_id as nat)),
            ("type"@, JsonModel::Text(prop_type_text(p))),
            ("key"@, JsonModel::Bool(p.key)),
            ("unique"@, JsonModel::Bool(p.unique)),
            ("index"@, JsonModel::Bool(p.index)),
            ("embed_source"@, optional_text(p.embed_source)),
            ("description"@, optional_text(p.description)),
        ],
    )
}

/// What is told of a property of an edge type.
pub open spec fn edge_prop_payload(p: PropDefModel) -> JsonModel {
    JsonModel::Object(
        seq![
            ("name"@, JsonModel::Text(p.name)),
            ("prop_id"@, unsigned(p.prop_id as nat)),
            ("type"@, JsonModel::Text(prop_type_text(p))),
            ("description"@, optional_text(p.description)),
        ],
    )
}

fn describe_node_prop(p: &PropDef) -> (r: Json)
    ensures
        r@ == node_prop_payload(p@),
{
    let mut m = Members::new();
    m.push("name", json_string(&p.name));
    m.push("prop_id", json_number(p.prop_id as u64));
    m.push("type", Json::Text(prop_type_string(p)));
    m.push("key", Json::Bool(p.key));
    m.push("unique", Json::Bool(p.unique));
    m.push("index", Json::Bool(p.index));
    m.push("embed_source", json_optional(&p.embed_source));
    m.push("description", json_optional(&p.description));
    assert(m@ =~= node_prop_payload(p@)->Object_0);
    m.object()
}

fn describe_edge_prop(p: &PropDef) -> (r: Json)
    ensures
        r@ == edge_prop_payload(p@),
{
    let mut m = Members::new();
    m.push("name", json_string(&p.name));
    m.push("prop_id", json_number(p.prop_id as u64));
    m.push("type", Json::Text(prop_type_string(p)));
    m.push("description", json_optional(&p.description));
    assert(m@ =~= edge_prop_payload(p@)->Object_0);
    m.object()
}

/// What is told of the properties of a type.
pub open spec fn props_payload(props: Seq<PropDefModel>, of_node: bool) -> JsonModel {
    JsonModel::Array(
        Seq::new(
            props.len(),
            |i: int|
                if of_node {
                    node_prop_payload(props[i])
                } else {
                    edge_prop_payload(props[i])
                },
        ),
    )
}

fn describe_props(props: &Vec<PropDef>, of_node: bool) -> (r: Json)
    ensures
        r@ == props_payload(views(props@), of_node),
{
    let mut out: Vec<Json> = Vec::new();
    let mut i: usize = 0;
    while i < props.len()
        invariant
            i <= props@.len(),
            out@.len() == i,
            forall|k: int|
                0 <= k < i ==> (#[trigger] out@[k])@ == if of_node {
                    node_prop_payload(props@[k]@)
                } else {
                    edge_prop_payload(props@[k]@)
                },
        decreases props@.len() - i,
    {
        let p = if of_node {
            describe_node_prop(&props[i])
        } else {
            describe_edge_prop(&props[i])
        };
        out.push(p);
        i = i + 1;
    }
    let r = json_array(out);
    assert(r@->Array_0 =~= props_payload(views(props@), of_node)->Array_0);
    r
}

// ---------------------------------------------------------------------------
// Node types

/// The names of the first `n` properties that are unique on their own.
pub open spec fn unique_names(props: Seq<PropDefModel>, n: int) -> Seq<Seq<char>>
    decreases n,
{
    if n <= 0 || n > props.len() {
        Seq::empty()
    } else if props[n - 1].unique {
        unique_names(props, n - 1).push(props[n - 1].name)
    } else {
        unique_names(props, n - 1)
    }
}

fn list_unique(props: &Vec<PropDef>) -> (r: Vec<String>)
    ensures
        views(r@) == unique_names(views(props@), props@.len() as int),
{
    let mut out: Vec<String> = Vec::new();
    let mut i: usize = 0;
    assert(views(out@) =~= Seq::<Seq<char>>::empty());
    while i < props.len()
        invariant
            i <= props@.len(),
            views(out@) == unique_names(views(props@), i as int),
        decreases props@.len() - i,
    {
        assert(views(props@)[i as int] == props@[i as int]@);
        if props[i].unique {
            push_line(&mut out, props[i].name.clone());
        }
        i = i + 1;
    }
    out
}

/// What is told of the first `n` edge types that leave a node type, or that reach it.
pub open spec fn edge_summaries(
    edges: Seq<EdgeTypeDefModel>,
    node: Seq<char>,
    outgoing: bool,
    n: int,
) -> Seq<JsonModel>
    decreases n,
{
    if n <= 0 || n > edges.len() {
        Seq::empty()
    } else {
        let before = edge_summaries(edges, node, outgoing, n - 1);
        let e = edges[n - 1];
        if outgoing && e.src_type == node {
            before.push(
                JsonModel::Object(
                    seq![("name"@, JsonModel::Text(e.name)), ("to_type"@, JsonModel::Text(e.dst_type))],
                ),
            )
        } else if !outgoing && e.dst_type == node {
            before.push(
                JsonModel::Object(
                    seq![
                        ("name"@, JsonModel::Text(e.name)),
                        ("from_type"@, JsonModel::Text(e.src_type)),
                    ],
                ),
            )
        } else {
            before
        }
    }
}

fn summarize_edges(edges: &Vec<EdgeTypeDef>, node: &str, outgoing: bool) -> (r: Json)
    ensures
        r@ == JsonModel::Array(
            edge_summaries(views(edges@), node@, outgoing, edges@.len() as int),
        ),
{
    let mut out: Vec<Json> = Vec::new();
    let mut i: usize = 0;
    assert(views(out@) =~= Seq::<JsonModel>::empty());
    while i < edges.len()
        invariant
            i <= edges@.len(),
            views(out@) == edge_summaries(views(edges@), node@, outgoing, i as int),
        decreases edges@.len() - i,
    {
        let e = &edges[i];
        assert(views(edges@)[i as int] == e@);
        if outgoing && same(&e.src_type, node) {
            let mut m = Members::new();
            m.push("name", json_string(&e.name));
            m.push("to_type", json_string(&e.dst_type));
            assert(m@ =~= seq![
                ("name"@, JsonModel::Text(e.name@)),
                ("to_type"@, JsonModel::Text(e.dst_type@)),
            ]);
            let o = m.object();
            proof {
                lemma_views_push(out@, o);
            }
            out.push(o);
        } else if !outgoing && same(&e.dst_type, node) {
            let mut m = Members::new();
            m.push("name", json_string(&e.name));
            m.push("from_type", json_string(&e.src_type));
            assert(m@ =~= seq![
                ("name"@, JsonModel::Text(e.name@)),
                ("from_type"@, JsonModel::Text(e.src_type@)),
            ]);
            let o = m.object();
            proof {
                lemma_views_push(out@, o);
            }
            out.push(o);
        }
        i = i + 1;
    }
    json_array(out)
}

/// The position of the last of the first `n` entries that is of a kind and a type.
pub open spec fn last_entry(
    entries: Seq<DatasetEntryModel>,
    kind: Seq<char>,
    label: Seq<char>,
    n: int,
) -> Option<int>
    decreases n,
{
    if n <= 0 || n > entries.len() {
        None
    } else if entries[n - 1].kind == kind && entries[n - 1].type_label == label {
        Some(n - 1)
    } else {
        last_entry(entries, kind, label, n - 1)
    }
}

/// The entry of a type in a manifest; of several the last.
pub open spec fn entry_of(m: ManifestModel, kind: Seq<char>, label: Seq<char>) -> Option<
    DatasetEntryModel,
> {
    match last_entry(m.datasets, kind, label, m.datasets.len() as int) {
        Some(i) => Some(m.datasets[i]),
        None => None,
    }
}

/// The path of an entry, or null.
pub open spec fn path_payload(e: Option<DatasetEntryModel>) -> JsonModel {
    match e {
        Some(d) => JsonModel::Text(d.dataset_path),
        None => JsonModel::Null,
    }
}

/// The version of an entry, or null.
pub open spec fn version_payload(e: Option<DatasetEntryModel>) -> JsonModel {
    match e {
        Some(d) => unsigned(d.dataset_version as nat),
        None => JsonModel::Null,
    }
}

fn find_entry<'a>(m: &'a GraphManifest, kind: &str, label: &str) -> (r: Option<&'a DatasetEntry>)
    ensures
        match r {
            Some(e) => entry_of(m@, kind@, label@) == Some(e@),
            None => entry_of(m@, kind@, label@) is None,
        },
{
    let n: usize = m.datasets.len();
    let mut i: usize = n;
    while i > 0
        invariant
            i <= n == m.datasets@.len(),
            last_entry(m@.datasets, kind@, label@, n as int) == last_entry(
                m@.datasets,
                kind@,
                label@,
                i as int,
            ),
        decreases i,
    {
        i = i - 1;
        let e = &m.datasets[i];
        assert(m@.datasets[i as int] == e@);
        if same(&e.kind, kind) && same(&e.type_label, label) {
            return Some(e);
        }
    }
    None
}

fn describe_path(e: Option<&DatasetEntry>) -> (r: Json)
    ensures
        r@ == path_payload(
            match e {
                Some(d) => Some(d@),
                None => None,
            },
        ),
{
    match e {
        Some(d) => json_string(&d.dataset_path),
        None => Json::Null,
    }
}

fn describe_version(e: Option<&DatasetEntry>) -> (r: Json)
    ensures
        r@ == version_payload(
            match e {
                Some(d) => Some(d@),
                None => None,
            },
        ),
{
    match e {
        Some(d) => json_number(d.dataset_version),
        None => Json::Null,
    }
}

/// What is told of a node type.
pub open spec fn node_payload(
    node: NodeTypeDefModel,
    schema: SchemaIrModel,
    graph: StoredGraphModel,
    manifest: ManifestModel,
) -> JsonModel {
    let entry = entry_of(manifest, "node"@, node.name);
    JsonModel::Object(
        seq![
            ("name"@, JsonModel::Text(node.name)),
            ("type_id"@, unsigned(node.type_id as nat)),
            ("description"@, optional_text(node.description)),
            ("instruction"@, optional_text(node.instruction)),
            ("key_property"@, optional_text(key_prop_of(node))),
            (
                "unique_properties"@,
                texts(unique_names(node.properties, node.properties.len() as int)),
            ),
            (
                "outgoing_edges"@,
                JsonModel::Array(
                    edge_summaries(schema.edges, node.name, true, schema.edges.len() as int),
                ),
            ),
            (
                "incoming_edges"@,
                JsonModel::Array(
                    edge_summaries(schema.edges, node.name, false, schema.edges.len() as int),
                ),
            ),
            ("rows"@, unsigned(rows_of(graph.nodes, node.name))),
            ("dataset_path"@, path_payload(entry)),
            ("dataset_version"@, version_payload(entry)),
            ("properties"@, props_payload(node.properties, true)),
        ],
    )
}

fn describe_node(
    node: &NodeTypeDef,
    schema: &SchemaIr,
    graph: &StoredGraph,
    manifest: &GraphManifest,
) -> (r: Json)
    ensures
        r@ == node_payload(node@, schema@, graph@, manifest@),
{
    let entry = find_entry(manifest, "node", &node.name);
    let key = match node.key_prop() {
        Some(k) => json_string(k),
        None => Json::Null,
    };
    let mut m = Members::new();
    m.push("name", json_string(&node.name));
    m.push("type_id", json_number(node.type_id as u64));
    m.push("description", json_optional(&node.description));
    m.push("instruction", json_optional(&node.instruction));
    m.push("key_property", key);
    m.push("unique_properties", json_strings(&list_unique(&node.properties)));
    m.push("outgoing_edges", summarize_edges(&schema.edges, &node.name, true));
    m.push("incoming_edges", summarize_edges(&schema.edges, &node.name, false));
    m.push("rows", json_number(count_rows(&graph.nodes, &node.name)));
    m.push("dataset_path", describe_path(entry));
    m.push("dataset_version", describe_version(entry));
    m.push("properties", describe_props(&node.properties, true));
    assert(m@ =~= node_payload(node@, schema@, graph@, manifest@)->Object_0);
    m.object()
}

// ---------------------------------------------------------------------------
// Edge types

/// The key property of the node type of a name.
pub open spec fn key_of_type(schema: SchemaIrModel, name: Seq<char>) -> Option<Seq<char>> {
    match node_of(schema, name) {
        Some(node) => key_prop_of(node),
        None => None,
    }
}

fn describe_key_of(schema: &SchemaIr, name: &str) -> (r: Json)
    ensures
        r@ == optional_text(key_of_type(schema@, name@)),
{
    match schema.node_named(name) {
        Some(node) => match node.key_prop() {
            Some(k) => json_string(k),
            None => Json::Null,
        },
        None => Json::Null,
    }
}

/// What is told of an edge type.
pub open spec fn edge_payload(
    edge: EdgeTypeDefModel,
    schema: SchemaIrModel,
    graph: StoredGraphModel,
    manifest: ManifestModel,
) -> JsonModel {
    let entry = entry_of(manifest, "edge"@, edge.name);
    JsonModel::Object(
        seq![
            ("name"@, JsonModel::Text(edge.name)),
            ("type_id"@, unsigned(edge.type_id as nat)),
            ("src_type"@, JsonModel::Text(edge.src_type)),
            ("dst_type"@, JsonModel::Text(edge.dst_type)),
            ("description"@, optional_text(edge.description)),
            ("instruction"@, optional_text(edge.instruction)),
            (
                "endpoint_keys"@,
                JsonModel::Object(
                    seq![
                        ("src"@, optional_text(key_of_type(schema, edge.src_type))),
                        ("dst"@, optional_text(key_of_type(schema, edge.dst_type))),
                    ],
                ),
            ),
            ("rows"@, unsigned(rows_of(graph.edges, edge.name))),
            ("dataset_path"@, path_payload(entry)),
            ("dataset_version"@, version_payload(entry)),
            ("properties"@, props_payload(edge.properties, false)),
        ],
    )
}

fn describe_edge(
    edge: &EdgeTypeDef,
    schema: &SchemaIr,
    graph: &StoredGraph,
    manifest: &GraphManifest,
) -> (r: Json)
    ensures
        r@ == edge_payload(edge@, schema@, graph@, manifest@),
{
    let entry = find_entry(manifest, "edge", &edge.name);
    let mut keys = Members::new();
    keys.push("src", describe_key_of(schema, &edge.src_type));
    keys.push("dst", describe_key_of(schema, &edge.dst_type));
    assert(keys@ =~= seq![
        ("src"@, optional_text(key_of_type(schema@, edge@.src_type))),
        ("dst"@, optional_text(key_of_type(schema@, edge@.dst_type))),
    ]);
    let mut m = Members::new();
    m.push("name", json_string(&edge.name));
    m.push("type_id", json_number(edge.type_id as u64));
    m.push("src_type", json_string(&edge.src_type));
    m.push("dst_type", json_string(&edge.dst_type));
    m.push("description", json_optional(&edge.description));
    m.push("instruction", json_optional(&edge.instruction));
    m.push("endpoint_keys", keys.object());
    m.push("rows", json_number(count_rows(&graph.edges, &edge.name)));
    m.push("dataset_path", describe_path(entry));
    m.push("dataset_version", describe_version(entry));
    m.push("properties", describe_props(&edge.properties, false));
    assert(m@ =~= edge_payload(edge@, schema@, graph@, manifest@)->Object_0);
    m.object()
}

// ---------------------------------------------------------------------------
// The whole description

/// Whether a type is wanted.
pub open spec fn wanted(filter: Option<Seq<char>>, name: Seq<char>) -> bool {
    filter matches Some(f) ==> f == name
}

fn is_wanted(filter: Option<&str>, name: &str) -> (r: bool)
    ensures
        r == wanted(filter_view(filter), name@),
{
    match filter {
        Some(f) => same(f, name),
        None => true,
    }
}

/// The name of the wanted type.
pub open spec fn filter_view(filter: Option<&str>) -> Option<Seq<char>> {
    match filter {
        Some(f) => Some(f@),
        None => None,
    }
}

/// What is told of the wanted ones of the first `n` node types.
pub open spec fn nodes_payload(
    schema: SchemaIrModel,
    graph: StoredGraphModel,
    manifest: ManifestModel,
    filter: Option<Seq<char>>,
    n: int,
) -> Seq<JsonModel>
    decreases n,
{
    if n <= 0 || n > schema.nodes.len() {
        Seq::empty()
    } else {
        let before = nodes_payload(schema, graph, manifest, filter, n - 1);
        if wanted(filter, schema.nodes[n - 1].name) {
            before.push(node_payload(schema.nodes[n - 1], schema, graph, manifest))
        } else {
            before
        }
    }
}

/// What is told of the wanted ones of the first `n` edge types.
pub open spec fn edges_payload(
    schema: SchemaIrModel,
    graph: StoredGraphModel,
    manifest: ManifestModel,
    filter: Option<Seq<char>>,
    n: int,
) -> Seq<JsonModel>
    decreases n,
{
    if n <= 0 || n > schema.edges.len() {
        Seq::empty()
    } else {
        let before = edges_payload(schema, graph, manifest, filter, n - 1);
        if wanted(filter, schema.edges[n - 1].name) {
            before.push(edge_payload(schema.edges[n - 1], schema, graph, manifest))
        } else {
            before
        }
    }
}

/// What is told of a manifest.
pub open spec fn manifest_payload(m: ManifestModel) -> JsonModel {
    JsonModel::Object(
        seq![
            ("format_version"@, unsigned(m.format_version as nat)),
            ("db_version"@, unsigned(m.db_version as nat)),
            ("last_tx_id"@, JsonModel::Text(m.last_tx_id)),
            ("committed_at"@, JsonModel::Text(m.committed_at)),
            ("schema_ir_hash"@, JsonModel::Text(m.schema_ir_hash)),
            ("schema_identity_version"@, unsigned(m.schema_identity_version as nat)),
            ("datasets"@, unsigned(m.datasets.len())),
        ],
    )
}

/// The description of a database, or the message that it has no type of the wanted name.
pub open spec fn describe_payload(
    db_path: Seq<char>,
    binary_version: Seq<char>,
    schema: SchemaIrModel,
    graph: StoredGraphModel,
    manifest: ManifestModel,
    filter: Option<Seq<char>>,
) -> Result<JsonModel, Seq<char>> {
    let nodes = nodes_payload(schema, graph, manifest, filter, schema.nodes.len() as int);
    let edges = edges_payload(schema, graph, manifest, filter, schema.edges.len() as int);
    match filter {
        Some(f) if nodes.len() == 0 && edges.len() == 0 => Err(
            "type `"@ + f + "` not found in schema"@,
        ),
        _ => Ok(
            JsonModel::Object(
                seq![
                    ("db_path"@, JsonModel::Text(db_path)),
                    ("binary_version"@, JsonModel::Text(binary_version)),
                    ("type_filter"@, optional_text(filter)),
                    ("manifest"@, manifest_payload(manifest)),
                    ("schema_ir_version"@, unsigned(schema.ir_version as nat)),
                    ("nodes"@, JsonModel::Array(nodes)),
                    ("edges"@, JsonModel::Array(edges)),
                ],
            ),
        ),
    }
}

fn describe_nodes(
    schema: &SchemaIr,
    graph: &StoredGraph,
    manifest: &GraphManifest,
    filter: Option<&str>,
) -> (r: Vec<Json>)
    ensures
        views(r@) == nodes_payload(
            schema@,
            graph@,
            manifest@,
            filter_view(filter),
            schema.nodes@.len() as int,
        ),
{
    let mut out: Vec<Json> = Vec::new();
    let mut i: usize = 0;
    assert(views(out@) =~= Seq::<JsonModel>::empty());
    while i < schema.nodes.len()
        invariant
            i <= schema.nodes@.len(),
            views(out@) == nodes_payload(
                schema@,
                graph@,
                manifest@,
                filter_view(filter),
                i as int,
            ),
        decreases schema.nodes@.len() - i,
    {
        let node = &schema.nodes[i];
        assert(schema@.nodes[i as int] == node@);
        if is_wanted(filter, &node.name) {
            let o = describe_node(node, schema, graph, manifest);
            proof {
                lemma_views_push(out@, o);
            }
            out.push(o);
        }
        i = i + 1;
    }
    out
}

fn describe_edges(
    schema: &SchemaIr,
    graph: &StoredGraph,
    manifest: &GraphManifest,
    filter: Option<&str>,
) -> (r: Vec<Json>)
    ensures
        views(r@) == edges_payload(
            schema@,
            graph@,
            manifest@,
            filter_view(filter),
            schema.edges@.len() as int,
        ),
{
    let mut out: Vec<Json> = Vec::new();
    let mut i: usize = 0;
    assert(views(out@) =~= Seq::<JsonModel>::empty());
    while i < schema.edges.len()
        invariant
            i <= schema.edges@.len(),
            views(out@) == edges_payload(
                schema@,
                graph@,
                manifest@,
                filter_view(filter),
                i as int,
            ),
        decreases schema.edges@.len() - i,
    {
        let edge = &schema.edges[i];
        assert(schema@.edges[i as int] == edge@);
        if is_wanted(filter, &edge.name) {
            let o = describe_edge(edge, schema, graph, manifest);
            proof {
                lemma_views_push(out@, o);
            }
            out.push(o);
        }
        i = i + 1;
    }
    out
}

fn describe_manifest(m: &GraphManifest) -> (r: Json)
    ensures
        r@ == manifest_payload(m@),
{
    let mut o = Members::new();
    o.push("format_version", json_number(m.format_version as u64));
    o.push("db_version", json_number(m.db_version));
    o.push("last_tx_id", json_string(&m.last_tx_id));
    o.push("committed_at", json_string(&m.committed_at));
    o.push("schema_ir_hash", json_string(&m.schema_ir_hash));
    o.push("schema_identity_version", json_number(m.schema_identity_version as u64));
    o.push("datasets", json_number(m.datasets.len() as u64));
    assert(o@ =~= manifest_payload(m@)->Object_0);
    o.object()
}

/// The description of a database, or of the one type that is wanted.
pub fn build_describe_payload(
    db_path: &str,
    binary_version: &str,
    schema: &SchemaIr,
    graph: &StoredGraph,
    manifest: &GraphManifest,
    filter: Option<&str>,
) -> (r: Result<Json, CliError>)
    ensures
        match r {
            Ok(j) => describe_payload(
                db_path@,
                binary_version@,
                schema@,
                graph@,
                manifest@,
                filter_view(filter),
            ) == Ok::<JsonModel, Seq<char>>(j@),
            Err(e) => describe_payload(
                db_path@,
                binary_version@,
                schema@,
                graph@,
                manifest@,
                filter_view(filter),
            ) == Err::<JsonModel, Seq<char>>(e@),
        },
{
    let nodes = describe_nodes(schema, graph, manifest, filter);
    let edges = describe_edges(schema, graph, manifest, filter);
    let filter_json = match filter {
        Some(f) => {
            if nodes.len() == 0 && edges.len() == 0 {
                return Err(CliError::new(cat3("type `", f, "` not found in schema")));
            }
            json_string(f)
        },
        None => Json::Null,
    };
    assert(views(nodes@).len() == nodes@.len());
    assert(views(edges@).len() == edges@.len());
    let mut m = Members::new();
    m.push("db_path", json_string(db_path));
    m.push("binary_version", json_string(binary_version));
    m.push("type_filter", filter_json);
    m.push("manifest", describe_manifest(manifest));
    m.push("schema_ir_version", json_number(schema.ir_version as u64));
    m.push("nodes", json_array(nodes));
    m.push("edges", json_array(edges));
    proof {
        let all = describe_payload(
            db_path@,
            binary_version@,
            schema@,
            graph@,
            manifest@,
            filter_view(filter),
        );
        assert(m@ =~= all->Ok_0->Object_0);
    }
    Ok(m.object())
}

// ---------------------------------------------------------------------------
// Laws

/// Where no type is asked for, every type of the schema is described, in its order.
pub proof fn law_all_types_are_described(
    schema: SchemaIrModel,
    graph: StoredGraphModel,
    manifest: ManifestModel,
)
    ensures
        nodes_payload(schema, graph, manifest, None, schema.nodes.len() as int) == Seq::new(
            schema.nodes.len(),
            |i: int| node_payload(schema.nodes[i], schema, graph, manifest),
        ),
        edges_payload(schema, graph, manifest, None, schema.edges.len() as int) == Seq::new(
            schema.edges.len(),
            |i: int| edge_payload(schema.edges[i], schema, graph, manifest),
        ),
{
    lemma_all_nodes(schema, graph, manifest, schema.nodes.len() as int);
    lemma_all_edges(schema, graph, manifest, schema.edges.len() as int);
}

proof fn lemma_all_nodes(
    schema: SchemaIrModel,
    graph: StoredGraphModel,
    manifest: ManifestModel,
    n: int,
)
    requires
        0 <= n <= schema.nodes.len(),
    ensures
        nodes_payload(schema, graph, manifest, None, n) =~= Seq::new(
            n as nat,
            |i: int| node_payload(schema.nodes[i], schema, graph, manifest),
        ),
    decreases n,
{
    if n > 0 {
        lemma_all_nodes(schema, graph, manifest, n - 1);
    }
}

proof fn lemma_all_edges(
    schema: SchemaIrModel,
    graph: StoredGraphModel,
    manifest: ManifestModel,
    n: int,
)
    requires
        0 <= n <= schema.edges.len(),
    ensures
        edges_payload(schema, graph, manifest, None, n) =~= Seq::new(
            n as nat,
            |i: int| edge_payload(schema.edges[i], schema, graph, manifest),
        ),
    decreases n,
{
    if n > 0 {
        lemma_all_edges(schema, graph, manifest, n - 1);
    }
}

/// Where a type is asked for, nothing but types of that name is described.
pub proof fn law_only_the_wanted_type_is_described(
    schema: SchemaIrModel,
    graph: StoredGraphModel,
    manifest: ManifestModel,
    name: Seq<char>,
    n: int,
    k: int,
)
    requires
        0 <= k < nodes_payload(schema, graph, manifest, Some(name), n).len(),
    ensures
        exists|i: int|
            0 <= i < schema.nodes.len() && #[trigger] schema.nodes[i].name == name && nodes_payload(
                schema,
                graph,
                manifest,
                Some(name),
                n,
            )[k] == node_payload(schema.nodes[i], schema, graph, manifest),
    decreases n,
{
    if n > 0 && n <= schema.nodes.len() {
        let before = nodes_payload(schema, graph, manifest, Some(name), n - 1);
        if k < before.len() {
            law_only_the_wanted_type_is_described(schema, graph, manifest, name, n - 1, k);
        } else {
            assert(schema.nodes[n - 1].name == name);
        }
    }
}

/// The key that a description gives for a node type is the property that the schema marks
/// as a key.
pub proof fn law_described_key_is_the_key(
    node: NodeTypeDefModel,
    schema: SchemaIrModel,
    graph: StoredGraphModel,
    manifest: ManifestModel,
)
    ensures
        json_at(node_payload(node, schema, graph, manifest), "key_property"@) == optional_text(
            key_prop_of(node),
        ),
{
    reveal_strlit("name");
    reveal_strlit("type_id");
    reveal_strlit("description");
    reveal_strlit("instruction");
    reveal_strlit("key_property");
    let o = node_payload(node, schema, graph, manifest)->Object_0;
    assert("name"@.len() == 4 && "type_id"@.len() == 7 && "description"@.len() == 11
        && "instruction"@.len() == 11 && "key_property"@.len() == 12);
    assert(o[0].0 == "name"@ && o[1].0 == "type_id"@ && o[2].0 == "description"@ && o[3].0
        == "instruction"@ && o[4].0 == "key_property"@);
    reveal_with_fuel(member, 6);
}

} // verus!
