//! The committed state of a database: its datasets and counters.

use crate::text::{copy_opt, opt_view, views};
use vstd::prelude::*;

verus! {

/// One table of a committed graph.
#[derive(Debug)]
pub struct DatasetEntry {
    pub type_id: u32,
    pub type_label: String,
    pub kind: String,
    pub dataset_path: String,
    pub dataset_version: u64,
    pub row_count: u64,
    pub table_id: Option<String>,
}

/// The mathematical value of a `DatasetEntry`.
pub struct DatasetEntryModel {
    pub type_id: u32,
    pub type_label: Seq<char>,
    pub kind: Seq<char>,
    pub dataset_path: Seq<char>,
    pub dataset_version: u64,
    pub row_count: u64,
    pub table_id: Option<Seq<char>>,
}

impl View for DatasetEntry {
    type V = DatasetEntryModel;

    open spec fn view(&self) -> DatasetEntryModel {
        DatasetEntryModel {
            type_id: self.type_id,
            type_label: self.type_label@,
            kind: self.kind@,
            dataset_path: self.dataset_path@,
            dataset_version: self.dataset_version,
            row_count: self.row_count,
            table_id: opt_view(self.table_id),
        }
    }
}

/// The name that a table goes by: its own where it has one, else its path.
pub open spec fn table_id_of(e: DatasetEntryModel) -> Seq<char> {
    match e.table_id {
        Some(id) => id,
        None => e.dataset_path,
    }
}

/// The entry of a table that the store keeps for itself.
pub open spec fn internal_entry(
    table_id: Seq<char>,
    dataset_path: Seq<char>,
    version: u64,
    rows: u64,
) -> DatasetEntryModel {
    DatasetEntryModel {
        type_id: 0,
        type_label: table_id,
        kind: "internal"@,
        dataset_path,
        dataset_version: version,
        row_count: rows,
        table_id: Some(table_id),
    }
}

impl DatasetEntry {
    /// The name that the table goes by.
    pub fn effective_table_id(&self) -> (r: &str)
        ensures
            r@ == table_id_of(self@),
    {
        match &self.table_id {
            Some(id) => id.as_str(),
            None => self.dataset_path.as_str(),
        }
    }

    /// The entry of a table that the store keeps for itself.
    pub fn internal(table_id: &str, dataset_path: String, version: u64, rows: u64) -> (r:
        DatasetEntry)
        ensures
            r@ == internal_entry(table_id@, dataset_path@, version, rows),
    {
        DatasetEntry {
            type_id: 0,
            type_label: table_id.to_owned(),
            kind: "internal".to_owned(),
            dataset_path,
            dataset_version: version,
            row_count: rows,
            table_id: Some(table_id.to_owned()),
        }
    }

    /// Another entry that is the same.
    pub fn copy(&self) -> (r: DatasetEntry)
        ensures
            r@ == self@,
    {
        DatasetEntry {
            type_id: self.type_id,
            type_label: self.type_label.clone(),
            kind: self.kind.clone(),
            dataset_path: self.dataset_path.clone(),
            dataset_version: self.dataset_version,
            row_count: self.row_count,
            table_id: copy_opt(&self.table_id),
        }
    }
}

/// The committed state of a database.
#[derive(Debug)]
pub struct GraphManifest {
    pub format_version: u32,
    pub db_version: u64,
    pub last_tx_id: String,
    pub committed_at: String,
    pub schema_ir_hash: String,
    pub schema_identity_version: u32,
    pub next_node_id: u64,
    pub next_edge_id: u64,
    pub next_type_id: u32,
    pub next_prop_id: u32,
    pub datasets: Vec<DatasetEntry>,
}

/// The mathematical value of a `GraphManifest`.
pub struct ManifestModel {
    pub format_version: u32,
    pub db_version: u64,
    pub last_tx_id: Seq<char>,
    pub committed_at: Seq<char>,
    pub schema_ir_hash: Seq<char>,
    pub schema_identity_version: u32,
    pub next_node_id: u64,
    pub next_edge_id: u64,
    pub next_type_id: u32,
    pub next_prop_id: u32,
    pub datasets: Seq<DatasetEntryModel>,
}

impl View for GraphManifest {
    type V = ManifestModel;

    open spec fn view(&self) -> ManifestModel {
        ManifestModel {
            format_version: self.format_version,
            db_version: self.db_version,
            last_tx_id: self.last_tx_id@,
            committed_at: self.committed_at@,
            schema_ir_hash: self.schema_ir_hash@,
            schema_identity_version: self.schema_identity_version,
            next_node_id: self.next_node_id,
            next_edge_id: self.next_edge_id,
            next_type_id: self.next_type_id,
            next_prop_id: self.next_prop_id,
            datasets: views(self.datasets@),
        }
    }
}

} // verus!
