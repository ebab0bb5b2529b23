//! Change events.

use crate::json::{Json, JsonModel};
use vstd::prelude::*;

verus! {

/// One change of an entity.
#[derive(Debug)]
pub struct CdcLogEntry {
    pub tx_id: String,
    pub db_version: u64,
    pub seq_in_tx: u32,
    pub op: String,
    pub entity_kind: String,
    pub type_label: String,
    pub entity_key: String,
    pub payload: Json,
    pub committed_at: String,
}

/// The mathematical value of a `CdcLogEntry`.
pub struct CdcModel {
    pub tx_id: Seq<char>,
    pub db_version: u64,
    pub seq_in_tx: u32,
    pub op: Seq<char>,
    pub entity_kind: Seq<char>,
    pub type_label: Seq<char>,
    pub entity_key: Seq<char>,
    pub payload: JsonModel,
    pub committed_at: Seq<char>,
}

impl View for CdcLogEntry {
    type V = CdcModel;

    open spec fn view(&self) -> CdcModel {
        CdcModel {
            tx_id: self.tx_id@,
            db_version: self.db_version,
            seq_in_tx: self.seq_in_tx,
            op: self.op@,
            entity_kind: self.entity_kind@,
            type_label: self.type_label@,
            entity_key: self.entity_key@,
            payload: self.payload@,
            committed_at: self.committed_at@,
        }
    }
}

} // verus!
