//! The records of the graph's own log.

use crate::text::{views};
use vstd::prelude::*;

verus! {

/// A version of the graph.
#[derive(Debug, Clone, Copy, PartialEq, Eq, Structural)]
pub struct GraphVersion(pub u64);

impl GraphVersion {
    pub fn value(&self) -> (r: u64)
        ensures
            r == self.0,
    {
        self.0
    }
}

/// The name of a transaction.
#[derive(Debug)]
pub struct GraphTxId(pub String);

impl View for GraphTxId {
    type V = Seq<char>;

    open spec fn view(&self) -> Seq<char> {
        self.0@
    }
}

impl GraphTxId {
    pub fn as_str(&self) -> (r: &str)
        ensures
            r@ == self@,
    {
        self.0.as_str()
    }
}

/// The name of a table.
#[derive(Debug)]
pub struct GraphTableId(pub String);

impl View for GraphTableId {
    type V = Seq<char>;

    open spec fn view(&self) -> Seq<char> {
        self.0@
    }
}

impl GraphTableId {
    pub fn as_str(&self) -> (r: &str)
        ensures
            r@ == self@,
    {
        self.0.as_str()
    }
}

/// A version of a table.
#[derive(Debug)]
pub struct GraphTableVersion {
    pub table_id: GraphTableId,
    pub version: u64,
}

pub struct TableVersionModel {
    pub table_id: Seq<char>,
    pub version: u64,
}

impl View for GraphTableVersion {
    type V = TableVersionModel;

    open spec fn view(&self) -> TableVersionModel {
        TableVersionModel { table_id: self.table_id@, version: self.version }
    }
}

impl GraphTableVersion {
    pub fn new(table_id: &str, version: u64) -> (r: GraphTableVersion)
        ensures
            r@ == (TableVersionModel { table_id: table_id@, version }),
    {
        GraphTableVersion { table_id: GraphTableId(table_id.to_owned()), version }
    }
}

/// What a transaction did to a table: its versions before and after.
#[derive(Debug)]
pub struct GraphTouchedTableWindow {
    pub table_id: GraphTableId,
    pub entity_kind: String,
    pub type_label: String,
    pub before_version: u64,
    pub after_version: u64,
}

pub struct TouchedWindowModel {
    pub table_id: Seq<char>,
    pub entity_kind: Seq<char>,
    pub type_label: Seq<char>,
    pub before_version: u64,
    pub after_version: u64,
}

impl View for GraphTouchedTableWindow {
    type V = TouchedWindowModel;

    open spec fn view(&self) -> TouchedWindowModel {
        TouchedWindowModel {
            table_id: self.table_id@,
            entity_kind: self.entity_kind@,
            type_label: self.type_label@,
            before_version: self.before_version,
            after_version: self.after_version,
        }
    }
}

impl GraphTouchedTableWindow {
    pub fn new(
        table_id: &str,
        entity_kind: &str,
        type_label: &str,
        before_version: u64,
        after_version: u64,
    ) -> (r: GraphTouchedTableWindow)
        ensures
            r@ == (TouchedWindowModel {
                table_id: table_id@,
                entity_kind: entity_kind@,
                type_label: type_label@,
                before_version,
                after_version,
            }),
    {
        GraphTouchedTableWindow {
            table_id: GraphTableId(table_id.to_owned()),
            entity_kind: entity_kind.to_owned(),
            type_label: type_label.to_owned(),
            before_version,
            after_version,
        }
    }
}

/// A committed transaction.
#[derive(Debug)]
pub struct GraphCommitRecord {
    pub tx_id: GraphTxId,
    pub graph_version: GraphVersion,
    pub table_versions: Vec<GraphTableVersion>,
    pub committed_at: String,
    pub op_summary: String,
    pub schema_identity_version: u32,
    pub touched_tables: Vec<GraphTouchedTableWindow>,
    pub tx_props: Vec<(String, String)>,
}

pub struct CommitModel {
    pub tx_id: Seq<char>,
    pub graph_version: u64,
    pub table_versions: Seq<TableVersionModel>,
    pub committed_at: Seq<char>,
    pub op_summary: Seq<char>,
    pub schema_identity_version: u32,
    pub touched_tables: Seq<TouchedWindowModel>,
    pub tx_props: Seq<(Seq<char>, Seq<char>)>,
}

impl View for GraphCommitRecord {
    type V = CommitModel;

    open spec fn view(&self) -> CommitModel {
        CommitModel {
            tx_id: self.tx_id@,
            graph_version: self.graph_version.0,
            table_versions: views(self.table_versions@),
            committed_at: self.committed_at@,
            op_summary: self.op_summary@,
            schema_identity_version: self.schema_identity_version,
            touched_tables: views(self.touched_tables@),
            tx_props: Seq::new(
                self.tx_props@.len(),
                |i: int| (self.tx_props@[i].0@, self.tx_props@[i].1@),
            ),
        }
    }
}

/// A change within a transaction. The payload is JSON text, as it is written.
#[derive(Debug)]
pub struct GraphChangeRecord {
    pub tx_id: GraphTxId,
    pub graph_version: GraphVersion,
    pub seq_in_tx: u32,
    pub op: String,
    pub entity_kind: String,
    pub type_label: String,
    pub entity_key: String,
    pub payload: String,
    pub rowid_if_known: Option<u64>,
    pub committed_at: String,
}

pub struct ChangeModel {
    pub tx_id: Seq<char>,
    pub graph_version: u64,
    pub seq_in_tx: u32,
    pub op: Seq<char>,
    pub entity_kind: Seq<char>,
    pub type_label: Seq<char>,
    pub entity_key: Seq<char>,
    pub payload: Seq<char>,
    pub rowid_if_known: Option<u64>,
    pub committed_at: Seq<char>,
}

impl View for GraphChangeRecord {
    type V = ChangeModel;

    open spec fn view(&self) -> ChangeModel {
        ChangeModel {
            tx_id: self.tx_id@,
            graph_version: self.graph_version.0,
            seq_in_tx: self.seq_in_tx,
            op: self.op@,
            entity_kind: self.entity_kind@,
            type_label: self.type_label@,
            entity_key: self.entity_key@,
            payload: self.payload@,
            rowid_if_known: self.rowid_if_known,
            committed_at: self.committed_at@,
        }
    }
}

} // verus!
