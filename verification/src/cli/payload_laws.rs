//! What is told of the database, its types, and what was done to it: each fact under its own
//! name.

use crate::cli::check::{check_payload, checks_payload, failures, CheckModel, VerdictModel};
use crate::cli::describe::{describe_payload, edge_payload, edge_prop_payload, edge_summaries, edges_payload, entry_of, key_of_type, last_entry, manifest_payload, node_payload, node_prop_payload, nodes_payload, path_payload, prop_type_text, props_payload, unique_names, version_payload};
use crate::cli::loading::{delete_payload, init_payload, load_error_payload, load_payload};
use crate::cli::maintenance::{cleanup_payload, compact_payload, doctor_payload, materialize_payload, CleanupResult, CompactResult, DoctorModel, MaterializeResult};
use crate::cli::version::{database_version_payload, dataset_version_payload, program_version_payload};
use crate::json::{json_at, json_get, member, optional_text, texts, JsonModel};
use crate::store::database::{mode_label, LoadMode};
use crate::store::manifest::{DatasetEntryModel, ManifestModel};
use crate::store::schema_ir::{key_from, key_prop_of, lemma_key_from, node_of, node_position, EdgeTypeDefModel, NodeTypeDefModel, PropDefModel, SchemaIrModel};
use crate::store::tables::{rows_of, StoredGraphModel};
use crate::text::decimal;
use vstd::prelude::*;

verus! {

/// A property of a node type is described by what it is declared as.
pub proof fn law_described_properties_are_their_own(
    p: PropDefModel,
)
    ensures
        json_at(node_prop_payload(p), "name"@) == JsonModel::Text(p.name),
        json_at(node_prop_payload(p), "prop_id"@) == JsonModel::Number(decimal(p.prop_id as nat)),
        json_at(node_prop_payload(p), "type"@) == JsonModel::Text(prop_type_text(p)),
        json_at(node_prop_payload(p), "key"@) == JsonModel::Bool(p.key),
        json_at(node_prop_payload(p), "unique"@) == JsonModel::Bool(p.unique),
        json_at(node_prop_payload(p), "index"@) == JsonModel::Bool(p.index),
        json_at(node_prop_payload(p), "embed_source"@) == optional_text(p.embed_source),
        json_at(node_prop_payload(p), "description"@) == optional_text(p.description),
{
    reveal_strlit("name");
    reveal_strlit("prop_id");
    reveal_strlit("type");
    reveal_strlit("key");
    reveal_strlit("unique");
    reveal_strlit("index");
    reveal_strlit("embed_source");
    reveal_strlit("description");
    assert("name"@.len() == 4 && "name"@[0] == 'n');
    assert("prop_id"@.len() == 7);
    assert("type"@.len() == 4 && "type"@[0] == 't');
    assert("key"@.len() == 3);
    assert("unique"@.len() == 6);
    assert("index"@.len() == 5);
    assert("embed_source"@.len() == 12);
    assert("description"@.len() == 11);
    let o = node_prop_payload(p)->Object_0;
    assert(o[0].0 == "name"@);
    assert(o[1].0 == "prop_id"@);
    assert(o[2].0 == "type"@);
    assert(o[3].0 == "key"@);
    assert(o[4].0 == "unique"@);
    assert(o[5].0 == "index"@);
    assert(o[6].0 == "embed_source"@);
    assert(o[7].0 == "description"@);
    reveal_with_fuel(member, 9);
}

/// A property of an edge type is described by what it is declared as.
pub proof fn law_described_edge_properties_are_their_own(
    p: PropDefModel,
)
    ensures
        json_at(edge_prop_payload(p), "name"@) == JsonModel::Text(p.name),
        json_at(edge_prop_payload(p), "prop_id"@) == JsonModel::Number(decimal(p.prop_id as nat)),
        json_at(edge_prop_payload(p), "type"@) == JsonModel::Text(prop_type_text(p)),
        json_at(edge_prop_payload(p), "description"@) == optional_text(p.description),
{
    reveal_strlit("name");
    reveal_strlit("prop_id");
    reveal_strlit("type");
    reveal_strlit("description");
    assert("name"@.len() == 4 && "name"@[0] == 'n');
    assert("prop_id"@.len() == 7);
    assert("type"@.len() == 4 && "type"@[0] == 't');
    assert("description"@.len() == 11);
    let o = edge_prop_payload(p)->Object_0;
    assert(o[0].0 == "name"@);
    assert(o[1].0 == "prop_id"@);
    assert(o[2].0 == "type"@);
    assert(o[3].0 == "description"@);
    reveal_with_fuel(member, 5);
}

/// A node type is described by its own name, identity, texts and rows, by the edges that leave
/// it and those that reach it, and by the table that is committed for it as a node type.
pub proof fn law_described_nodes_are_their_own(
    node: NodeTypeDefModel,
    schema: SchemaIrModel,
    graph: StoredGraphModel,
    manifest: ManifestModel,
)
    ensures
        json_at(node_payload(node, schema, graph, manifest), "name"@) == JsonModel::Text(node.name),
        json_at(node_payload(node, schema, graph, manifest), "type_id"@)
            == JsonModel::Number(decimal(node.type_id as nat)),
        json_at(node_payload(node, schema, graph, manifest), "description"@)
            == optional_text(node.description),
        json_at(node_payload(node, schema, graph, manifest), "instruction"@)
            == optional_text(node.instruction),
        json_at(node_payload(node, schema, graph, manifest), "key_property"@)
            == optional_text(key_prop_of(node)),
        json_at(node_payload(node, schema, graph, manifest), "unique_properties"@)
            == texts(unique_names(node.properties, node.properties.len() as int)),
        json_at(node_payload(node, schema, graph, manifest), "outgoing_edges"@)
            == JsonModel::Array(
            edge_summaries(schema.edges, node.name, true, schema.edges.len() as int),
        ),
        json_at(node_payload(node, schema, graph, manifest), "incoming_edges"@)
            == JsonModel::Array(
            edge_summaries(schema.edges, node.name, false, schema.edges.len() as int),
        ),
        json_at(node_payload(node, schema, graph, manifest), "rows"@)
            == JsonModel::Number(decimal(rows_of(graph.nodes, node.name) as nat)),
        json_at(node_payload(node, schema, graph, manifest), "dataset_path"@)
            == path_payload(entry_of(manifest, "node"@, node.name)),
        json_at(node_payload(node, schema, graph, manifest), "dataset_version"@)
            == version_payload(entry_of(manifest, "node"@, node.name)),
        json_at(node_payload(node, schema, graph, manifest), "properties"@)
            == JsonModel::Array(
            Seq::new(node.properties.len(), |i: int| node_prop_payload(node.properties[i])),
        ),
{
    reveal_strlit("name");
    reveal_strlit("type_id");
    reveal_strlit("description");
    reveal_strlit("instruction");
    reveal_strlit("key_property");
    reveal_strlit("unique_properties");
    reveal_strlit("outgoing_edges");
    reveal_strlit("incoming_edges");
    reveal_strlit("rows");
    reveal_strlit("dataset_path");
    reveal_strlit("dataset_version");
    reveal_strlit("properties");
    assert("name"@.len() == 4 && "name"@[0] == 'n');
    assert("type_id"@.len() == 7);
    assert("description"@.len() == 11 && "description"@[0] == 'd');
    assert("instruction"@.len() == 11 && "instruction"@[0] == 'i');
    assert("key_property"@.len() == 12 && "key_property"@[0] == 'k');
    assert("unique_properties"@.len() == 17);
    assert("outgoing_edges"@.len() == 14 && "outgoing_edges"@[0] == 'o');
    assert("incoming_edges"@.len() == 14 && "incoming_edges"@[0] == 'i');
    assert("rows"@.len() == 4 && "rows"@[0] == 'r');
    assert("dataset_path"@.len() == 12 && "dataset_path"@[0] == 'd');
    assert("dataset_version"@.len() == 15);
    assert("properties"@.len() == 10);
    let o = node_payload(node, schema, graph, manifest)->Object_0;
    assert(o[0].0 == "name"@);
    assert(o[1].0 == "type_id"@);
    assert(o[2].0 == "description"@);
    assert(o[3].0 == "instruction"@);
    assert(o[4].0 == "key_property"@);
    assert(o[5].0 == "unique_properties"@);
    assert(o[6].0 == "outgoing_edges"@);
    assert(o[7].0 == "incoming_edges"@);
    assert(o[8].0 == "rows"@);
    assert(o[9].0 == "dataset_path"@);
    assert(o[10].0 == "dataset_version"@);
    assert(o[11].0 == "properties"@);
    reveal_with_fuel(member, 13);
    assert(props_payload(node.properties, true)->Array_0 =~= Seq::new(
        node.properties.len(),
        |i: int| node_prop_payload(node.properties[i]),
    ));
}

/// An edge type is described by its own name, identity, texts and rows, and by the table that is
/// committed for it as an edge type; its source stands before its target, each with the key of
/// its own type.
pub proof fn law_described_edges_are_their_own(
    edge: EdgeTypeDefModel,
    schema: SchemaIrModel,
    graph: StoredGraphModel,
    manifest: ManifestModel,
)
    ensures
        json_at(edge_payload(edge, schema, graph, manifest), "name"@) == JsonModel::Text(edge.name),
        json_at(edge_payload(edge, schema, graph, manifest), "type_id"@)
            == JsonModel::Number(decimal(edge.type_id as nat)),
        json_at(edge_payload(edge, schema, graph, manifest), "src_type"@)
            == JsonModel::Text(edge.src_type),
        json_at(edge_payload(edge, schema, graph, manifest), "dst_type"@)
            == JsonModel::Text(edge.dst_type),
        json_at(edge_payload(edge, schema, graph, manifest), "description"@)
            == optional_text(edge.description),
        json_at(edge_payload(edge, schema, graph, manifest), "instruction"@)
            == optional_text(edge.instruction),
        json_at(edge_payload(edge, schema, graph, manifest), "endpoint_keys"@)
            == JsonModel::Object(
            seq![
                ("src"@, optional_text(key_of_type(schema, edge.src_type))),
                ("dst"@, optional_text(key_of_type(schema, edge.dst_type))),
            ],
        ),
        json_at(edge_payload(edge, schema, graph, manifest), "rows"@)
            == JsonModel::Number(decimal(rows_of(graph.edges, edge.name) as nat)),
        json_at(edge_payload(edge, schema, graph, manifest), "dataset_path"@)
            == path_payload(entry_of(manifest, "edge"@, edge.name)),
        json_at(edge_payload(edge, schema, graph, manifest), "dataset_version"@)
            == version_payload(entry_of(manifest, "edge"@, edge.name)),
        json_at(edge_payload(edge, schema, graph, manifest), "properties"@)
            == JsonModel::Array(
            Seq::new(edge.properties.len(), |i: int| edge_prop_payload(edge.properties[i])),
        ),
{
    reveal_strlit("name");
    reveal_strlit("type_id");
    reveal_strlit("src_type");
    reveal_strlit("dst_type");
    reveal_strlit("description");
    reveal_strlit("instruction");
    reveal_strlit("endpoint_keys");
    reveal_strlit("rows");
    reveal_strlit("dataset_path");
    reveal_strlit("dataset_version");
    reveal_strlit("properties");
    assert("name"@.len() == 4 && "name"@[0] == 'n');
    assert("type_id"@.len() == 7);
    assert("src_type"@.len() == 8 && "src_type"@[0] == 's');
    assert("dst_type"@.len() == 8 && "dst_type"@[0] == 'd');
    assert("description"@.len() == 11 && "description"@[0] == 'd');
    assert("instruction"@.len() == 11 && "instruction"@[0] == 'i');
    assert("endpoint_keys"@.len() == 13);
    assert("rows"@.len() == 4 && "rows"@[0] == 'r');
    assert("dataset_path"@.len() == 12);
    assert("dataset_version"@.len() == 15);
    assert("properties"@.len() == 10);
    let o = edge_payload(edge, schema, graph, manifest)->Object_0;
    assert(o[0].0 == "name"@);
    assert(o[1].0 == "type_id"@);
    assert(o[2].0 == "src_type"@);
    assert(o[3].0 == "dst_type"@);
    assert(o[4].0 == "description"@);
    assert(o[5].0 == "instruction"@);
    assert(o[6].0 == "endpoint_keys"@);
    assert(o[7].0 == "rows"@);
    assert(o[8].0 == "dataset_path"@);
    assert(o[9].0 == "dataset_version"@);
    assert(o[10].0 == "properties"@);
    reveal_with_fuel(member, 12);
    assert(props_payload(edge.properties, false)->Array_0 =~= Seq::new(
        edge.properties.len(),
        |i: int| edge_prop_payload(edge.properties[i]),
    ));
}

/// The description of the last commit tells its own versions and texts.
pub proof fn law_described_manifest_is_the_committed_one(
    m: ManifestModel,
)
    ensures
        json_at(manifest_payload(m), "format_version"@)
            == JsonModel::Number(decimal(m.format_version as nat)),
        json_at(manifest_payload(m), "db_version"@)
            == JsonModel::Number(decimal(m.db_version as nat)),
        json_at(manifest_payload(m), "last_tx_id"@) == JsonModel::Text(m.last_tx_id),
        json_at(manifest_payload(m), "committed_at"@) == JsonModel::Text(m.committed_at),
        json_at(manifest_payload(m), "schema_ir_hash"@) == JsonModel::Text(m.schema_ir_hash),
        json_at(manifest_payload(m), "schema_identity_version"@)
            == JsonModel::Number(decimal(m.schema_identity_version as nat)),
        json_at(manifest_payload(m), "datasets"@)
            == JsonModel::Number(decimal(m.datasets.len() as nat)),
{
    reveal_strlit("format_version");
    reveal_strlit("db_version");
    reveal_strlit("last_tx_id");
    reveal_strlit("committed_at");
    reveal_strlit("schema_ir_hash");
    reveal_strlit("schema_identity_version");
    reveal_strlit("datasets");
    assert("format_version"@.len() == 14 && "format_version"@[0] == 'f');
    assert("db_version"@.len() == 10 && "db_version"@[0] == 'd');
    assert("last_tx_id"@.len() == 10 && "last_tx_id"@[0] == 'l');
    assert("committed_at"@.len() == 12);
    assert("schema_ir_hash"@.len() == 14 && "schema_ir_hash"@[0] == 's');
    assert("schema_identity_version"@.len() == 23);
    assert("datasets"@.len() == 8);
    let o = manifest_payload(m)->Object_0;
    assert(o[0].0 == "format_version"@);
    assert(o[1].0 == "db_version"@);
    assert(o[2].0 == "last_tx_id"@);
    assert(o[3].0 == "committed_at"@);
    assert(o[4].0 == "schema_ir_hash"@);
    assert(o[5].0 == "schema_identity_version"@);
    assert(o[6].0 == "datasets"@);
    reveal_with_fuel(member, 8);
}

/// A table is told with its own kind, type, place, version and rows.
pub proof fn law_told_tables_are_their_own(
    e: DatasetEntryModel,
)
    ensures
        json_at(dataset_version_payload(e), "kind"@) == JsonModel::Text(e.kind),
        json_at(dataset_version_payload(e), "type_name"@) == JsonModel::Text(e.type_label),
        json_at(dataset_version_payload(e), "type_id"@)
            == JsonModel::Number(decimal(e.type_id as nat)),
        json_at(dataset_version_payload(e), "dataset_path"@) == JsonModel::Text(e.dataset_path),
        json_at(dataset_version_payload(e), "dataset_version"@)
            == JsonModel::Number(decimal(e.dataset_version as nat)),
        json_at(dataset_version_payload(e), "row_count"@)
            == JsonModel::Number(decimal(e.row_count as nat)),
{
    reveal_strlit("kind");
    reveal_strlit("type_name");
    reveal_strlit("type_id");
    reveal_strlit("dataset_path");
    reveal_strlit("dataset_version");
    reveal_strlit("row_count");
    assert("kind"@.len() == 4);
    assert("type_name"@.len() == 9 && "type_name"@[0] == 't');
    assert("type_id"@.len() == 7);
    assert("dataset_path"@.len() == 12);
    assert("dataset_version"@.len() == 15);
    assert("row_count"@.len() == 9 && "row_count"@[0] == 'r');
    let o = dataset_version_payload(e)->Object_0;
    assert(o[0].0 == "kind"@);
    assert(o[1].0 == "type_name"@);
    assert(o[2].0 == "type_id"@);
    assert(o[3].0 == "dataset_path"@);
    assert(o[4].0 == "dataset_version"@);
    assert(o[5].0 == "row_count"@);
    reveal_with_fuel(member, 7);
}

/// A database is told with its own path and with what its last commit holds, each of the next
/// identities under its own name.
pub proof fn law_told_database_is_the_committed_one(
    path: Seq<char>,
    m: ManifestModel,
)
    ensures
        json_at(database_version_payload(path, m), "path"@) == JsonModel::Text(path),
        json_at(database_version_payload(path, m), "format_version"@)
            == JsonModel::Number(decimal(m.format_version as nat)),
        json_at(database_version_payload(path, m), "db_version"@)
            == JsonModel::Number(decimal(m.db_version as nat)),
        json_at(database_version_payload(path, m), "last_tx_id"@) == JsonModel::Text(m.last_tx_id),
        json_at(database_version_payload(path, m), "committed_at"@)
            == JsonModel::Text(m.committed_at),
        json_at(database_version_payload(path, m), "schema_ir_hash"@)
            == JsonModel::Text(m.schema_ir_hash),
        json_at(database_version_payload(path, m), "schema_identity_version"@)
            == JsonModel::Number(decimal(m.schema_identity_version as nat)),
        json_at(database_version_payload(path, m), "next_node_id"@)
            == JsonModel::Number(decimal(m.next_node_id as nat)),
        json_at(database_version_payload(path, m), "next_edge_id"@)
            == JsonModel::Number(decimal(m.next_edge_id as nat)),
        json_at(database_version_payload(path, m), "next_type_id"@)
            == JsonModel::Number(decimal(m.next_type_id as nat)),
        json_at(database_version_payload(path, m), "next_prop_id"@)
            == JsonModel::Number(decimal(m.next_prop_id as nat)),
        json_at(database_version_payload(path, m), "dataset_count"@)
            == JsonModel::Number(decimal(m.datasets.len() as nat)),
        json_at(database_version_payload(path, m), "dataset_versions"@)
            == JsonModel::Array(
            Seq::new(m.datasets.len(), |i: int| dataset_version_payload(m.datasets[i])),
        ),
{
    reveal_strlit("path");
    reveal_strlit("format_version");
    reveal_strlit("db_version");
    reveal_strlit("last_tx_id");
    reveal_strlit("committed_at");
    reveal_strlit("schema_ir_hash");
    reveal_strlit("schema_identity_version");
    reveal_strlit("next_node_id");
    reveal_strlit("next_edge_id");
    reveal_strlit("next_type_id");
    reveal_strlit("next_prop_id");
    reveal_strlit("dataset_count");
    reveal_strlit("dataset_versions");
    assert("path"@.len() == 4);
    assert("format_version"@.len() == 14 && "format_version"@[0] == 'f');
    assert("db_version"@.len() == 10 && "db_version"@[0] == 'd');
    assert("last_tx_id"@.len() == 10 && "last_tx_id"@[0] == 'l');
    assert("committed_at"@.len() == 12 && "committed_at"@[0] == 'c');
    assert("schema_ir_hash"@.len() == 14 && "schema_ir_hash"@[0] == 's');
    assert("schema_identity_version"@.len() == 23);
    assert("next_node_id"@.len() == 12 && "next_node_id"@[0] == 'n' && "next_node_id"@[5] == 'n');
    assert("next_edge_id"@.len() == 12 && "next_edge_id"@[0] == 'n' && "next_edge_id"@[5] == 'e');
    assert("next_type_id"@.len() == 12 && "next_type_id"@[0] == 'n' && "next_type_id"@[5] == 't');
    assert("next_prop_id"@.len() == 12 && "next_prop_id"@[0] == 'n' && "next_prop_id"@[5] == 'p');
    assert("dataset_count"@.len() == 13);
    assert("dataset_versions"@.len() == 16);
    let o = database_version_payload(path, m)->Object_0;
    assert(o[0].0 == "path"@);
    assert(o[1].0 == "format_version"@);
    assert(o[2].0 == "db_version"@);
    assert(o[3].0 == "last_tx_id"@);
    assert(o[4].0 == "committed_at"@);
    assert(o[5].0 == "schema_ir_hash"@);
    assert(o[6].0 == "schema_identity_version"@);
    assert(o[7].0 == "next_node_id"@);
    assert(o[8].0 == "next_edge_id"@);
    assert(o[9].0 == "next_type_id"@);
    assert(o[10].0 == "next_prop_id"@);
    assert(o[11].0 == "dataset_count"@);
    assert(o[12].0 == "dataset_versions"@);
    reveal_with_fuel(member, 14);
}

/// What was checked is told with its file, the number of queries and the number that failed; it
/// is sound where none did.
pub proof fn law_checks_are_told_in_full(
    query_path: Seq<char>,
    queries: Seq<CheckModel>,
)
    ensures
        json_at(checks_payload(query_path, queries), "status"@)
            == JsonModel::Text(
            if failures(queries, queries.len() as int) > 0 { "error"@ } else { "ok"@ },
        ),
        json_at(checks_payload(query_path, queries), "query_path"@) == JsonModel::Text(query_path),
        json_at(checks_payload(query_path, queries), "queries_processed"@)
            == JsonModel::Number(decimal(queries.len() as nat)),
        json_at(checks_payload(query_path, queries), "errors"@)
            == JsonModel::Number(decimal(failures(queries, queries.len() as int) as nat)),
        json_at(checks_payload(query_path, queries), "results"@)
            == JsonModel::Array(Seq::new(queries.len(), |i: int| check_payload(queries[i]))),
{
    reveal_strlit("status");
    reveal_strlit("query_path");
    reveal_strlit("queries_processed");
    reveal_strlit("errors");
    reveal_strlit("results");
    assert("status"@.len() == 6 && "status"@[0] == 's');
    assert("query_path"@.len() == 10);
    assert("queries_processed"@.len() == 17);
    assert("errors"@.len() == 6 && "errors"@[0] == 'e');
    assert("results"@.len() == 7);
    let o = checks_payload(query_path, queries)->Object_0;
    assert(o[0].0 == "status"@);
    assert(o[1].0 == "query_path"@);
    assert(o[2].0 == "queries_processed"@);
    assert(o[3].0 == "errors"@);
    assert(o[4].0 == "results"@);
    reveal_with_fuel(member, 6);
}

/// A new database is told with its path, the path of its schema and the files made beside it.
pub proof fn law_new_databases_are_told(
    db_path: Seq<char>,
    schema_path: Seq<char>,
    generated: Seq<Seq<char>>,
)
    ensures
        json_at(init_payload(db_path, schema_path, generated), "status"@) == JsonModel::Text("ok"@),
        json_at(init_payload(db_path, schema_path, generated), "db_path"@)
            == JsonModel::Text(db_path),
        json_at(init_payload(db_path, schema_path, generated), "schema_path"@)
            == JsonModel::Text(schema_path),
        json_at(init_payload(db_path, schema_path, generated), "generated_files"@)
            == texts(generated),
{
    reveal_strlit("status");
    reveal_strlit("db_path");
    reveal_strlit("schema_path");
    reveal_strlit("generated_files");
    assert("status"@.len() == 6);
    assert("db_path"@.len() == 7);
    assert("schema_path"@.len() == 11);
    assert("generated_files"@.len() == 15);
    let o = init_payload(db_path, schema_path, generated)->Object_0;
    assert(o[0].0 == "status"@);
    assert(o[1].0 == "db_path"@);
    assert(o[2].0 == "schema_path"@);
    assert(o[3].0 == "generated_files"@);
    reveal_with_fuel(member, 5);
}

/// A load is told with the database, the data and the way it was done.
pub proof fn law_loads_are_told(
    db_path: Seq<char>,
    data_path: Seq<char>,
    mode: LoadMode,
)
    ensures
        json_at(load_payload(db_path, data_path, mode), "status"@) == JsonModel::Text("ok"@),
        json_at(load_payload(db_path, data_path, mode), "db_path"@) == JsonModel::Text(db_path),
        json_at(load_payload(db_path, data_path, mode), "data_path"@) == JsonModel::Text(data_path),
        json_at(load_payload(db_path, data_path, mode), "mode"@)
            == JsonModel::Text(mode_label(mode)),
{
    reveal_strlit("status");
    reveal_strlit("db_path");
    reveal_strlit("data_path");
    reveal_strlit("mode");
    assert("status"@.len() == 6);
    assert("db_path"@.len() == 7);
    assert("data_path"@.len() == 9);
    assert("mode"@.len() == 4);
    let o = load_payload(db_path, data_path, mode)->Object_0;
    assert(o[0].0 == "status"@);
    assert(o[1].0 == "db_path"@);
    assert(o[2].0 == "data_path"@);
    assert(o[3].0 == "mode"@);
    reveal_with_fuel(member, 5);
}

/// A conflict of unique values is told with its type, property and value, and with both rows in
/// order.
pub proof fn law_conflicts_are_told(
    db_path: Seq<char>,
    label: Seq<char>,
    property: Seq<char>,
    value: Seq<char>,
    first_row: nat,
    second_row: nat,
)
    ensures
        json_at(load_error_payload(db_path, label, property, value, first_row, second_row), "status"@)
            == JsonModel::Text("error"@),
        json_at(load_error_payload(db_path, label, property, value, first_row, second_row), "error_kind"@)
            == JsonModel::Text("unique_constraint"@),
        json_at(load_error_payload(db_path, label, property, value, first_row, second_row), "db_path"@)
            == JsonModel::Text(db_path),
        json_at(load_error_payload(db_path, label, property, value, first_row, second_row), "type_name"@)
            == JsonModel::Text(label),
        json_at(load_error_payload(db_path, label, property, value, first_row, second_row), "property"@)
            == JsonModel::Text(property),
        json_at(load_error_payload(db_path, label, property, value, first_row, second_row), "value"@)
            == JsonModel::Text(value),
        json_at(load_error_payload(db_path, label, property, value, first_row, second_row), "first_row"@)
            == JsonModel::Number(decimal(first_row as nat)),
        json_at(load_error_payload(db_path, label, property, value, first_row, second_row), "second_row"@)
            == JsonModel::Number(decimal(second_row as nat)),
{
    reveal_strlit("status");
    reveal_strlit("error_kind");
    reveal_strlit("db_path");
    reveal_strlit("type_name");
    reveal_strlit("property");
    reveal_strlit("value");
    reveal_strlit("first_row");
    reveal_strlit("second_row");
    assert("status"@.len() == 6);
    assert("error_kind"@.len() == 10 && "error_kind"@[0] == 'e');
    assert("db_path"@.len() == 7);
    assert("type_name"@.len() == 9 && "type_name"@[0] == 't');
    assert("property"@.len() == 8);
    assert("value"@.len() == 5);
    assert("first_row"@.len() == 9 && "first_row"@[0] == 'f');
    assert("second_row"@.len() == 10 && "second_row"@[0] == 's');
    let o = load_error_payload(db_path, label, property, value, first_row, second_row)->Object_0;
    assert(o[0].0 == "status"@);
    assert(o[1].0 == "error_kind"@);
    assert(o[2].0 == "db_path"@);
    assert(o[3].0 == "type_name"@);
    assert(o[4].0 == "property"@);
    assert(o[5].0 == "value"@);
    assert(o[6].0 == "first_row"@);
    assert(o[7].0 == "second_row"@);
    reveal_with_fuel(member, 9);
}

/// A deletion is told with the numbers of nodes and of edges that are gone.
pub proof fn law_deletions_are_told(
    db_path: Seq<char>,
    label: Seq<char>,
    nodes: nat,
    edges: nat,
)
    ensures
        json_at(delete_payload(db_path, label, nodes, edges), "status"@) == JsonModel::Text("ok"@),
        json_at(delete_payload(db_path, label, nodes, edges), "db_path"@)
            == JsonModel::Text(db_path),
        json_at(delete_payload(db_path, label, nodes, edges), "type_name"@)
            == JsonModel::Text(label),
        json_at(delete_payload(db_path, label, nodes, edges), "deleted_nodes"@)
            == JsonModel::Number(decimal(nodes as nat)),
        json_at(delete_payload(db_path, label, nodes, edges), "deleted_edges"@)
            == JsonModel::Number(decimal(edges as nat)),
{
    reveal_strlit("status");
    reveal_strlit("db_path");
    reveal_strlit("type_name");
    reveal_strlit("deleted_nodes");
    reveal_strlit("deleted_edges");
    assert("status"@.len() == 6);
    assert("db_path"@.len() == 7);
    assert("type_name"@.len() == 9);
    assert("deleted_nodes"@.len() == 13 && "deleted_nodes"@[8] == 'n');
    assert("deleted_edges"@.len() == 13 && "deleted_edges"@[8] == 'e');
    let o = delete_payload(db_path, label, nodes, edges)->Object_0;
    assert(o[0].0 == "status"@);
    assert(o[1].0 == "db_path"@);
    assert(o[2].0 == "type_name"@);
    assert(o[3].0 == "deleted_nodes"@);
    assert(o[4].0 == "deleted_edges"@);
    reveal_with_fuel(member, 6);
}

/// A compaction is told with its own counts, what was removed apart from what was added.
pub proof fn law_compactions_are_told(
    db_path: Seq<char>,
    c: CompactResult,
)
    ensures
        json_at(compact_payload(db_path, c), "status"@) == JsonModel::Text("ok"@),
        json_at(compact_payload(db_path, c), "db_path"@) == JsonModel::Text(db_path),
        json_at(compact_payload(db_path, c), "datasets_considered"@)
            == JsonModel::Number(decimal(c.datasets_considered as nat)),
        json_at(compact_payload(db_path, c), "datasets_compacted"@)
            == JsonModel::Number(decimal(c.datasets_compacted as nat)),
        json_at(compact_payload(db_path, c), "fragments_removed"@)
            == JsonModel::Number(decimal(c.fragments_removed as nat)),
        json_at(compact_payload(db_path, c), "fragments_added"@)
            == JsonModel::Number(decimal(c.fragments_added as nat)),
        json_at(compact_payload(db_path, c), "files_removed"@)
            == JsonModel::Number(decimal(c.files_removed as nat)),
        json_at(compact_payload(db_path, c), "files_added"@)
            == JsonModel::Number(decimal(c.files_added as nat)),
        json_at(compact_payload(db_path, c), "manifest_committed"@)
            == JsonModel::Bool(c.manifest_committed),
{
    reveal_strlit("status");
    reveal_strlit("db_path");
    reveal_strlit("datasets_considered");
    reveal_strlit("datasets_compacted");
    reveal_strlit("fragments_removed");
    reveal_strlit("fragments_added");
    reveal_strlit("files_removed");
    reveal_strlit("files_added");
    reveal_strlit("manifest_committed");
    assert("status"@.len() == 6);
    assert("db_path"@.len() == 7);
    assert("datasets_considered"@.len() == 19);
    assert("datasets_compacted"@.len() == 18 && "datasets_compacted"@[0] == 'd');
    assert("fragments_removed"@.len() == 17);
    assert("fragments_added"@.len() == 15);
    assert("files_removed"@.len() == 13);
    assert("files_added"@.len() == 11);
    assert("manifest_committed"@.len() == 18 && "manifest_committed"@[0] == 'm');
    let o = compact_payload(db_path, c)->Object_0;
    assert(o[0].0 == "status"@);
    assert(o[1].0 == "db_path"@);
    assert(o[2].0 == "datasets_considered"@);
    assert(o[3].0 == "datasets_compacted"@);
    assert(o[4].0 == "fragments_removed"@);
    assert(o[5].0 == "fragments_added"@);
    assert(o[6].0 == "files_removed"@);
    assert(o[7].0 == "files_added"@);
    assert(o[8].0 == "manifest_committed"@);
    reveal_with_fuel(member, 10);
}

/// A cleanup is told with its own counts, what was removed apart from what was kept.
pub proof fn law_cleanups_are_told(
    db_path: Seq<char>,
    c: CleanupResult,
)
    ensures
        json_at(cleanup_payload(db_path, c), "status"@) == JsonModel::Text("ok"@),
        json_at(cleanup_payload(db_path, c), "db_path"@) == JsonModel::Text(db_path),
        json_at(cleanup_payload(db_path, c), "tx_rows_removed"@)
            == JsonModel::Number(decimal(c.tx_rows_removed as nat)),
        json_at(cleanup_payload(db_path, c), "tx_rows_kept"@)
            == JsonModel::Number(decimal(c.tx_rows_kept as nat)),
        json_at(cleanup_payload(db_path, c), "cdc_rows_removed"@)
            == JsonModel::Number(decimal(c.cdc_rows_removed as nat)),
        json_at(cleanup_payload(db_path, c), "cdc_rows_kept"@)
            == JsonModel::Number(decimal(c.cdc_rows_kept as nat)),
        json_at(cleanup_payload(db_path, c), "datasets_cleaned"@)
            == JsonModel::Number(decimal(c.datasets_cleaned as nat)),
        json_at(cleanup_payload(db_path, c), "dataset_old_versions_removed"@)
            == JsonModel::Number(decimal(c.dataset_old_versions_removed as nat)),
        json_at(cleanup_payload(db_path, c), "dataset_bytes_removed"@)
            == JsonModel::Number(decimal(c.dataset_bytes_removed as nat)),
{
    reveal_strlit("status");
    reveal_strlit("db_path");
    reveal_strlit("tx_rows_removed");
    reveal_strlit("tx_rows_kept");
    reveal_strlit("cdc_rows_removed");
    reveal_strlit("cdc_rows_kept");
    reveal_strlit("datasets_cleaned");
    reveal_strlit("dataset_old_versions_removed");
    reveal_strlit("dataset_bytes_removed");
    assert("status"@.len() == 6);
    assert("db_path"@.len() == 7);
    assert("tx_rows_removed"@.len() == 15);
    assert("tx_rows_kept"@.len() == 12);
    assert("cdc_rows_removed"@.len() == 16 && "cdc_rows_removed"@[0] == 'c');
    assert("cdc_rows_kept"@.len() == 13);
    assert("datasets_cleaned"@.len() == 16 && "datasets_cleaned"@[0] == 'd');
    assert("dataset_old_versions_removed"@.len() == 28);
    assert("dataset_bytes_removed"@.len() == 21);
    let o = cleanup_payload(db_path, c)->Object_0;
    assert(o[0].0 == "status"@);
    assert(o[1].0 == "db_path"@);
    assert(o[2].0 == "tx_rows_removed"@);
    assert(o[3].0 == "tx_rows_kept"@);
    assert(o[4].0 == "cdc_rows_removed"@);
    assert(o[5].0 == "cdc_rows_kept"@);
    assert(o[6].0 == "datasets_cleaned"@);
    assert(o[7].0 == "dataset_old_versions_removed"@);
    assert(o[8].0 == "dataset_bytes_removed"@);
    reveal_with_fuel(member, 10);
}

/// A copy of the changes for analysis is told with its own counts, and with its version if one
/// was written.
pub proof fn law_materializations_are_told(
    db_path: Seq<char>,
    c: MaterializeResult,
)
    ensures
        json_at(materialize_payload(db_path, c), "status"@) == JsonModel::Text("ok"@),
        json_at(materialize_payload(db_path, c), "db_path"@) == JsonModel::Text(db_path),
        json_at(materialize_payload(db_path, c), "source_rows"@)
            == JsonModel::Number(decimal(c.source_rows as nat)),
        json_at(materialize_payload(db_path, c), "previously_materialized_rows"@)
            == JsonModel::Number(decimal(c.previously_materialized_rows as nat)),
        json_at(materialize_payload(db_path, c), "new_rows_since_last_run"@)
            == JsonModel::Number(decimal(c.new_rows_since_last_run as nat)),
        json_at(materialize_payload(db_path, c), "materialized_rows"@)
            == JsonModel::Number(decimal(c.materialized_rows as nat)),
        json_at(materialize_payload(db_path, c), "dataset_written"@)
            == JsonModel::Bool(c.dataset_written),
        json_at(materialize_payload(db_path, c), "skipped_by_threshold"@)
            == JsonModel::Bool(c.skipped_by_threshold),
        json_at(materialize_payload(db_path, c), "dataset_version"@)
            == (match c.dataset_version {
            Some(v) => JsonModel::Number(decimal(v as nat)),
            None => JsonModel::Null,
        }),
{
    reveal_strlit("status");
    reveal_strlit("db_path");
    reveal_strlit("source_rows");
    reveal_strlit("previously_materialized_rows");
    reveal_strlit("new_rows_since_last_run");
    reveal_strlit("materialized_rows");
    reveal_strlit("dataset_written");
    reveal_strlit("skipped_by_threshold");
    reveal_strlit("dataset_version");
    assert("status"@.len() == 6);
    assert("db_path"@.len() == 7);
    assert("source_rows"@.len() == 11);
    assert("previously_materialized_rows"@.len() == 28);
    assert("new_rows_since_last_run"@.len() == 23);
    assert("materialized_rows"@.len() == 17);
    assert("dataset_written"@.len() == 15 && "dataset_written"@[8] == 'w');
    assert("skipped_by_threshold"@.len() == 20);
    assert("dataset_version"@.len() == 15 && "dataset_version"@[8] == 'v');
    let o = materialize_payload(db_path, c)->Object_0;
    assert(o[0].0 == "status"@);
    assert(o[1].0 == "db_path"@);
    assert(o[2].0 == "source_rows"@);
    assert(o[3].0 == "previously_materialized_rows"@);
    assert(o[4].0 == "new_rows_since_last_run"@);
    assert(o[5].0 == "materialized_rows"@);
    assert(o[6].0 == "dataset_written"@);
    assert(o[7].0 == "skipped_by_threshold"@);
    assert(o[8].0 == "dataset_version"@);
    reveal_with_fuel(member, 10);
}

/// An examination is told with its verdict, its counts, and its issues apart from its warnings.
pub proof fn law_examinations_are_told(
    db_path: Seq<char>,
    d: DoctorModel,
)
    ensures
        json_at(doctor_payload(db_path, d), "status"@)
            == JsonModel::Text(if d.healthy { "ok"@ } else { "error"@ }),
        json_at(doctor_payload(db_path, d), "db_path"@) == JsonModel::Text(db_path),
        json_at(doctor_payload(db_path, d), "healthy"@) == JsonModel::Bool(d.healthy),
        json_at(doctor_payload(db_path, d), "manifest_db_version"@)
            == JsonModel::Number(decimal(d.manifest_db_version as nat)),
        json_at(doctor_payload(db_path, d), "datasets_checked"@)
            == JsonModel::Number(decimal(d.datasets_checked as nat)),
        json_at(doctor_payload(db_path, d), "tx_rows"@)
            == JsonModel::Number(decimal(d.tx_rows as nat)),
        json_at(doctor_payload(db_path, d), "cdc_rows"@)
            == JsonModel::Number(decimal(d.cdc_rows as nat)),
        json_at(doctor_payload(db_path, d), "issues"@) == texts(d.issues),
        json_at(doctor_payload(db_path, d), "warnings"@) == texts(d.warnings),
{
    reveal_strlit("status");
    reveal_strlit("db_path");
    reveal_strlit("healthy");
    reveal_strlit("manifest_db_version");
    reveal_strlit("datasets_checked");
    reveal_strlit("tx_rows");
    reveal_strlit("cdc_rows");
    reveal_strlit("issues");
    reveal_strlit("warnings");
    assert("status"@.len() == 6 && "status"@[0] == 's');
    assert("db_path"@.len() == 7 && "db_path"@[0] == 'd');
    assert("healthy"@.len() == 7 && "healthy"@[0] == 'h');
    assert("manifest_db_version"@.len() == 19);
    assert("datasets_checked"@.len() == 16);
    assert("tx_rows"@.len() == 7 && "tx_rows"@[0] == 't');
    assert("cdc_rows"@.len() == 8 && "cdc_rows"@[0] == 'c');
    assert("issues"@.len() == 6 && "issues"@[0] == 'i');
    assert("warnings"@.len() == 8 && "warnings"@[0] == 'w');
    let o = doctor_payload(db_path, d)->Object_0;
    assert(o[0].0 == "status"@);
    assert(o[1].0 == "db_path"@);
    assert(o[2].0 == "healthy"@);
    assert(o[3].0 == "manifest_db_version"@);
    assert(o[4].0 == "datasets_checked"@);
    assert(o[5].0 == "tx_rows"@);
    assert(o[6].0 == "cdc_rows"@);
    assert(o[7].0 == "issues"@);
    assert(o[8].0 == "warnings"@);
    reveal_with_fuel(member, 10);
}

// ---------------------------------------------------------------------------
// Queries that were checked

/// A query that was checked is told with its own name, as sound exactly where it did not
/// fail, and with the reason where it did. What it is, a query that reads or one that
/// changes, is told either way.
pub proof fn law_checked_queries_are_told(q: CheckModel)
    ensures
        json_at(check_payload(q), "name"@) == JsonModel::Text(q.name),
        json_at(check_payload(q), "status"@) == JsonModel::Text(
            if q.verdict is Failed {
                "error"@
            } else {
                "ok"@
            },
        ),
        q.verdict is Read ==> json_at(check_payload(q), "kind"@) == JsonModel::Text("read"@),
        q.verdict is Mutation ==> json_at(check_payload(q), "kind"@) == JsonModel::Text(
            "mutation"@,
        ),
        q.verdict is Failed && q.has_mutation ==> json_at(check_payload(q), "kind"@)
            == JsonModel::Text("mutation"@),
        q.verdict is Failed && !q.has_mutation ==> json_at(check_payload(q), "kind"@)
            == JsonModel::Text("read"@),
        json_at(check_payload(q), "error"@) == (match q.verdict {
            VerdictModel::Failed(m) => JsonModel::Text(m),
            _ => JsonModel::Null,
        }),
{
    reveal_strlit("name");
    reveal_strlit("kind");
    reveal_strlit("status");
    reveal_strlit("error");
    assert("name"@.len() == 4 && "name"@[0] == 'n');
    assert("kind"@.len() == 4 && "kind"@[0] == 'k');
    assert("status"@.len() == 6);
    assert("error"@.len() == 5);
    let o = check_payload(q)->Object_0;
    assert(o[0].0 == "name"@ && o[1].0 == "kind"@ && o[2].0 == "status"@);
    reveal_with_fuel(member, 5);
}

/// As many queries are told to have failed as did: another query that failed adds one, and
/// one that did not adds none.
pub proof fn law_failures_are_counted(a: Seq<CheckModel>, b: Seq<CheckModel>)
    ensures
        failures(a + b, (a + b).len() as int) == failures(a, a.len() as int) + failures(
            b,
            b.len() as int,
        ),
        a.len() == 1 ==> failures(a, 1) == (if a[0].verdict is Failed {
            1nat
        } else {
            0nat
        }),
    decreases b.len(),
{
    if b.len() == 0 {
        assert(a + b =~= a);
    } else {
        let c = b.drop_last();
        law_failures_are_counted(a, c);
        lemma_failures_of_prefix(a + b, (a + b).len() - 1);
        lemma_failures_of_prefix(b, b.len() - 1);
        assert((a + b).take((a + b).len() - 1) =~= a + c);
        assert(b.take(b.len() - 1) =~= c);
        assert((a + b).last() == b.last());
    }
    if a.len() == 1 {
        assert(failures(a, 0) == 0);
    }
}

proof fn lemma_failures_of_prefix(q: Seq<CheckModel>, n: int)
    requires
        0 <= n <= q.len(),
    ensures
        failures(q.take(n), n) == failures(q, n),
    decreases n,
{
    if n > 0 {
        lemma_failures_of_prefix(q, n - 1);
        lemma_failures_of_prefix(q.take(n), n - 1);
        assert(q.take(n).take(n - 1) =~= q.take(n - 1));
    }
}

// ---------------------------------------------------------------------------
// Versions

/// The version of the program is told always, and the database where one is there.
pub proof fn law_versions_are_told(binary_version: Seq<char>, path: Seq<char>, m: ManifestModel)
    ensures
        json_at(program_version_payload(binary_version, None), "binary_version"@)
            == JsonModel::Text(binary_version),
        json_get(program_version_payload(binary_version, None), "db"@) is None,
        json_at(program_version_payload(binary_version, Some((path, m))), "binary_version"@)
            == JsonModel::Text(binary_version),
        json_get(program_version_payload(binary_version, Some((path, m))), "db"@) == Some(
            database_version_payload(path, m),
        ),
{
    reveal_strlit("binary_version");
    reveal_strlit("db");
    assert("binary_version"@.len() == 14 && "db"@.len() == 2);
    reveal_with_fuel(member, 3);
}

// ---------------------------------------------------------------------------
// Descriptions

/// The type of a property is told as it is declared: a question mark behind it exactly where
/// it may be missing, brackets round it where it is a list, and the values of an enumeration
/// where it has some.
pub proof fn law_property_types_are_told(p: PropDefModel)
    requires
        p.enum_values.len() == 0,
    ensures
        !p.list && !p.nullable ==> prop_type_text(p) == p.scalar_type,
        !p.list && p.nullable ==> prop_type_text(p) == p.scalar_type + "?"@,
        p.list && !p.nullable ==> prop_type_text(p) == "["@ + p.scalar_type + "]"@,
        p.list && p.nullable ==> prop_type_text(p) == "["@ + p.scalar_type + "]?"@,
{
    reveal_strlit("]");
    reveal_strlit("?");
    reveal_strlit("]?");
    assert("["@ + p.scalar_type + "]"@ + "?"@ =~= "["@ + p.scalar_type + "]?"@);
}

/// Whether a summary tells an edge by its name and by the type at its other end.
pub open spec fn tells_edge(j: JsonModel, name: Seq<char>, end: Seq<char>, other: Seq<char>) -> bool {
    json_at(j, "name"@) == JsonModel::Text(name) && json_at(j, end) == JsonModel::Text(other)
}

proof fn lemma_tells_edge(name: Seq<char>, other: Seq<char>)
    ensures
        tells_edge(
            JsonModel::Object(
                seq![("name"@, JsonModel::Text(name)), ("to_type"@, JsonModel::Text(other))],
            ),
            name,
            "to_type"@,
            other,
        ),
        tells_edge(
            JsonModel::Object(
                seq![("name"@, JsonModel::Text(name)), ("from_type"@, JsonModel::Text(other))],
            ),
            name,
            "from_type"@,
            other,
        ),
{
    reveal_strlit("name");
    reveal_strlit("to_type");
    reveal_strlit("from_type");
    assert("name"@.len() == 4 && "to_type"@.len() == 7 && "from_type"@.len() == 9);
    reveal_with_fuel(member, 3);
}

/// An edge type that starts at a node type is among those that leave it, with the type that
/// it leads to.
pub proof fn law_leaving_edges_are_described(edges: Seq<EdgeTypeDefModel>, node: Seq<char>, n: int, k: int)
    requires
        0 <= k < n <= edges.len(),
        edges[k].src_type == node,
    ensures
        exists|i: int|
            0 <= i < edge_summaries(edges, node, true, n).len() && tells_edge(
                #[trigger] edge_summaries(edges, node, true, n)[i],
                edges[k].name,
                "to_type"@,
                edges[k].dst_type,
            ),
    decreases n,
{
    let before = edge_summaries(edges, node, true, n - 1);
    let all = edge_summaries(edges, node, true, n);
    if k == n - 1 {
        lemma_tells_edge(edges[k].name, edges[k].dst_type);
        assert(tells_edge(
            all[before.len() as int],
            edges[k].name,
            "to_type"@,
            edges[k].dst_type,
        ));
    } else {
        law_leaving_edges_are_described(edges, node, n - 1, k);
        let i = choose|i: int|
            0 <= i < before.len() && tells_edge(
                #[trigger] before[i],
                edges[k].name,
                "to_type"@,
                edges[k].dst_type,
            );
        assert(all[i] == before[i]);
    }
}

/// An edge type that ends at a node type is among those that reach it, with the type that it
/// comes from.
pub proof fn law_reaching_edges_are_described(edges: Seq<EdgeTypeDefModel>, node: Seq<char>, n: int, k: int)
    requires
        0 <= k < n <= edges.len(),
        edges[k].dst_type == node,
    ensures
        exists|i: int|
            0 <= i < edge_summaries(edges, node, false, n).len() && tells_edge(
                #[trigger] edge_summaries(edges, node, false, n)[i],
                edges[k].name,
                "from_type"@,
                edges[k].src_type,
            ),
    decreases n,
{
    let before = edge_summaries(edges, node, false, n - 1);
    let all = edge_summaries(edges, node, false, n);
    if k == n - 1 {
        lemma_tells_edge(edges[k].name, edges[k].src_type);
        assert(tells_edge(
            all[before.len() as int],
            edges[k].name,
            "from_type"@,
            edges[k].src_type,
        ));
    } else {
        law_reaching_edges_are_described(edges, node, n - 1, k);
        let i = choose|i: int|
            0 <= i < before.len() && tells_edge(
                #[trigger] before[i],
                edges[k].name,
                "from_type"@,
                edges[k].src_type,
            );
        assert(all[i] == before[i]);
    }
}

/// Every edge that a node type is told to have starts or ends there.
pub proof fn law_described_edges_are_at_their_node(
    edges: Seq<EdgeTypeDefModel>,
    node: Seq<char>,
    outgoing: bool,
    n: int,
    i: int,
)
    requires
        0 <= n <= edges.len(),
        0 <= i < edge_summaries(edges, node, outgoing, n).len(),
    ensures
        outgoing ==> exists|k: int|
            0 <= k < n && (#[trigger] edges[k]).src_type == node && tells_edge(
                edge_summaries(edges, node, outgoing, n)[i],
                edges[k].name,
                "to_type"@,
                edges[k].dst_type,
            ),
        !outgoing ==> exists|k: int|
            0 <= k < n && (#[trigger] edges[k]).dst_type == node && tells_edge(
                edge_summaries(edges, node, outgoing, n)[i],
                edges[k].name,
                "from_type"@,
                edges[k].src_type,
            ),
    decreases n,
{
    if n > 0 {
        let before = edge_summaries(edges, node, outgoing, n - 1);
        let all = edge_summaries(edges, node, outgoing, n);
        if i < before.len() {
            law_described_edges_are_at_their_node(edges, node, outgoing, n - 1, i);
            assert(all[i] == before[i]);
        } else {
            lemma_tells_edge(edges[n - 1].name, edges[n - 1].dst_type);
            lemma_tells_edge(edges[n - 1].name, edges[n - 1].src_type);
            assert(outgoing ==> edges[n - 1].src_type == node);
            assert(!outgoing ==> edges[n - 1].dst_type == node);
        }
    }
}

/// The unique properties that are told are those declared so, and no others.
pub proof fn law_unique_properties_are_told(props: Seq<PropDefModel>, n: int, name: Seq<char>)
    requires
        0 <= n <= props.len(),
    ensures
        unique_names(props, n).contains(name) <==> exists|k: int|
            0 <= k < n && (#[trigger] props[k]).unique && props[k].name == name,
        unique_names(props, n).len() <= n,
    decreases n,
{
    if n > 0 {
        law_unique_properties_are_told(props, n - 1, name);
        let before = unique_names(props, n - 1);
        let all = unique_names(props, n);
        if props[n - 1].unique {
            assert(all[before.len() as int] == props[n - 1].name);
            if before.contains(name) {
                let j = choose|j: int| 0 <= j < before.len() && before[j] == name;
                assert(all[j] == name);
            }
            if all.contains(name) && props[n - 1].name != name {
                let j = choose|j: int| 0 <= j < all.len() && all[j] == name;
                assert(before[j] == name);
            }
        }
    }
}

proof fn lemma_last_entry(entries: Seq<DatasetEntryModel>, kind: Seq<char>, label: Seq<char>, n: int, k: int)
    requires
        0 <= k < n <= entries.len(),
        entries[k].kind == kind,
        entries[k].type_label == label,
        forall|j: int|
            k < j < n ==> !((#[trigger] entries[j]).kind == kind && entries[j].type_label == label),
    ensures
        last_entry(entries, kind, label, n) == Some(k),
    decreases n,
{
    if k < n - 1 {
        assert(!(entries[n - 1].kind == kind && entries[n - 1].type_label == label));
        lemma_last_entry(entries, kind, label, n - 1, k);
    }
}

proof fn lemma_no_entry(entries: Seq<DatasetEntryModel>, kind: Seq<char>, label: Seq<char>, n: int)
    requires
        0 <= n <= entries.len(),
        forall|j: int|
            0 <= j < n ==> !((#[trigger] entries[j]).kind == kind && entries[j].type_label == label),
    ensures
        last_entry(entries, kind, label, n) is None,
    decreases n,
{
    if n > 0 {
        assert(!(entries[n - 1].kind == kind && entries[n - 1].type_label == label));
        lemma_no_entry(entries, kind, label, n - 1);
    }
}

/// A type is described by the table that was committed last for it, by its path and its
/// version, and by neither where there is none.
pub proof fn law_described_table_is_the_last_of_its_type(
    m: ManifestModel,
    kind: Seq<char>,
    label: Seq<char>,
    k: int,
)
    ensures
        0 <= k < m.datasets.len() && m.datasets[k].kind == kind && m.datasets[k].type_label == label
            && (forall|j: int|
            k < j < m.datasets.len() ==> !((#[trigger] m.datasets[j]).kind == kind
                && m.datasets[j].type_label == label)) ==> path_payload(entry_of(m, kind, label))
            == JsonModel::Text(m.datasets[k].dataset_path) && version_payload(
            entry_of(m, kind, label),
        ) == JsonModel::Number(decimal(m.datasets[k].dataset_version as nat)),
        (forall|j: int|
            0 <= j < m.datasets.len() ==> !((#[trigger] m.datasets[j]).kind == kind
                && m.datasets[j].type_label == label)) ==> path_payload(entry_of(m, kind, label))
            == JsonModel::Null && version_payload(entry_of(m, kind, label)) == JsonModel::Null,
{
    if 0 <= k < m.datasets.len() && m.datasets[k].kind == kind && m.datasets[k].type_label == label
        && (forall|j: int|
        k < j < m.datasets.len() ==> !((#[trigger] m.datasets[j]).kind == kind
            && m.datasets[j].type_label == label)) {
        lemma_last_entry(m.datasets, kind, label, m.datasets.len() as int, k);
    }
    if forall|j: int|
        0 <= j < m.datasets.len() ==> !((#[trigger] m.datasets[j]).kind == kind
            && m.datasets[j].type_label == label) {
        lemma_no_entry(m.datasets, kind, label, m.datasets.len() as int);
    }
}

proof fn lemma_key_is_first(props: Seq<PropDefModel>, from: int, k: int)
    requires
        0 <= from <= k < props.len(),
        props[k].key,
        forall|j: int| from <= j < k ==> !(#[trigger] props[j]).key,
    ensures
        key_from(props, from) == Some(k),
    decreases k - from,
{
    if from < k {
        assert(!props[from].key);
        lemma_key_is_first(props, from + 1, k);
    }
}

/// The key of a node type is its first property that is marked as a key, and a type without
/// such a property has none.
pub proof fn law_keys_are_marked(node: NodeTypeDefModel, k: int)
    ensures
        0 <= k < node.properties.len() && node.properties[k].key && (forall|j: int|
            0 <= j < k ==> !(#[trigger] node.properties[j]).key) ==> key_prop_of(node) == Some(
            node.properties[k].name,
        ),
        (forall|j: int| 0 <= j < node.properties.len() ==> !(#[trigger] node.properties[j]).key)
            ==> key_prop_of(node) is None,
{
    if 0 <= k < node.properties.len() && node.properties[k].key && (forall|j: int|
        0 <= j < k ==> !(#[trigger] node.properties[j]).key) {
        lemma_key_is_first(node.properties, 0, k);
    }
    lemma_key_from(node.properties, 0);
}

proof fn lemma_node_position(nodes: Seq<NodeTypeDefModel>, name: Seq<char>, from: int, k: int)
    requires
        0 <= from <= k < nodes.len(),
        nodes[k].name == name,
        forall|j: int| from <= j < k ==> (#[trigger] nodes[j]).name != name,
    ensures
        node_position(nodes, name, from) == Some(k),
    decreases k - from,
{
    if from < k {
        assert(nodes[from].name != name);
        lemma_node_position(nodes, name, from + 1, k);
    }
}

proof fn lemma_no_node(nodes: Seq<NodeTypeDefModel>, name: Seq<char>, from: int)
    requires
        0 <= from <= nodes.len(),
        forall|j: int| from <= j < nodes.len() ==> (#[trigger] nodes[j]).name != name,
    ensures
        node_position(nodes, name, from) is None,
    decreases nodes.len() - from,
{
    if from < nodes.len() {
        assert(nodes[from].name != name);
        lemma_no_node(nodes, name, from + 1);
    }
}

/// A node type is found by its name, the first of that name, and its key is the one told at
/// the ends of edges.
pub proof fn law_node_types_are_found_by_name(schema: SchemaIrModel, name: Seq<char>, k: int)
    ensures
        0 <= k < schema.nodes.len() && schema.nodes[k].name == name && (forall|j: int|
            0 <= j < k ==> (#[trigger] schema.nodes[j]).name != name) ==> node_of(schema, name)
            == Some(schema.nodes[k]) && key_of_type(schema, name) == key_prop_of(schema.nodes[k]),
        (forall|j: int| 0 <= j < schema.nodes.len() ==> (#[trigger] schema.nodes[j]).name != name)
            ==> node_of(schema, name) is None && key_of_type(schema, name) is None,
{
    if 0 <= k < schema.nodes.len() && schema.nodes[k].name == name && (forall|j: int|
        0 <= j < k ==> (#[trigger] schema.nodes[j]).name != name) {
        lemma_node_position(schema.nodes, name, 0, k);
    }
    if forall|j: int| 0 <= j < schema.nodes.len() ==> (#[trigger] schema.nodes[j]).name != name {
        lemma_no_node(schema.nodes, name, 0);
    }
}

/// A type that is asked for and is in the schema is described; a description of a type that
/// the schema does not have is refused, and a description of everything never is.
pub proof fn law_types_asked_for_are_described(
    db_path: Seq<char>,
    binary_version: Seq<char>,
    schema: SchemaIrModel,
    graph: StoredGraphModel,
    manifest: ManifestModel,
    name: Seq<char>,
)
    ensures
        describe_payload(db_path, binary_version, schema, graph, manifest, None) is Ok,
        describe_payload(db_path, binary_version, schema, graph, manifest, Some(name)) is Ok <==> (
        exists|i: int| 0 <= i < schema.nodes.len() && (#[trigger] schema.nodes[i]).name == name) || (
        exists|i: int| 0 <= i < schema.edges.len() && (#[trigger] schema.edges[i]).name == name),
{
    lemma_described_nodes(schema, graph, manifest, name, schema.nodes.len() as int);
    lemma_described_edges(schema, graph, manifest, name, schema.edges.len() as int);
}

proof fn lemma_described_nodes(
    schema: SchemaIrModel,
    graph: StoredGraphModel,
    manifest: ManifestModel,
    name: Seq<char>,
    n: int,
)
    requires
        0 <= n <= schema.nodes.len(),
    ensures
        nodes_payload(schema, graph, manifest, Some(name), n).len() > 0 <==> exists|i: int|
            0 <= i < n && (#[trigger] schema.nodes[i]).name == name,
    decreases n,
{
    if n > 0 {
        lemma_described_nodes(schema, graph, manifest, name, n - 1);
        if schema.nodes[n - 1].name != name && nodes_payload(
            schema,
            graph,
            manifest,
            Some(name),
            n,
        ).len() > 0 {
            let i = choose|i: int| 0 <= i < n - 1 && (#[trigger] schema.nodes[i]).name == name;
            assert(schema.nodes[i].name == name);
        }
    }
}

proof fn lemma_described_edges(
    schema: SchemaIrModel,
    graph: StoredGraphModel,
    manifest: ManifestModel,
    name: Seq<char>,
    n: int,
)
    requires
        0 <= n <= schema.edges.len(),
    ensures
        edges_payload(schema, graph, manifest, Some(name), n).len() > 0 <==> exists|i: int|
            0 <= i < n && (#[trigger] schema.edges[i]).name == name,
    decreases n,
{
    if n > 0 {
        lemma_described_edges(schema, graph, manifest, name, n - 1);
        if schema.edges[n - 1].name != name && edges_payload(
            schema,
            graph,
            manifest,
            Some(name),
            n,
        ).len() > 0 {
            let i = choose|i: int| 0 <= i < n - 1 && (#[trigger] schema.edges[i]).name == name;
            assert(schema.edges[i].name == name);
        }
    }
}

} // verus!
