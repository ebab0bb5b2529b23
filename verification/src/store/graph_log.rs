//! The graph's own log: its records as tables, and what staging a record changes.

use crate::error::{ErrorModel, NanoError};
use crate::json::{json_rewritten, reads_as_itself, rewrite_json};
use crate::sort::{lex_le, stable_sort, stably_sorted, str_le, Ranked};
use crate::store::batch::{batch_ok, column_has, column_named, u32_column, u64_column, utf8_column, Batch, BatchModel, Column, ColumnData, ColumnModel};
use crate::store::graph_types::{ChangeModel, CommitModel, GraphChangeRecord, GraphCommitRecord, GraphTableVersion, GraphTouchedTableWindow, GraphTxId, GraphVersion, TableVersionModel, TouchedWindowModel};
use crate::store::manifest::{internal_entry, DatasetEntry, DatasetEntryModel, GraphManifest, ManifestModel};
use crate::text::{cat2, cat4, decimal, decimal_u64, lemma_views_push, same, views};
use vstd::prelude::*;

verus! {

// ---------------------------------------------------------------------------
// Changes as a table

/// The columns of a table of changes.
pub struct ChangeColumns {
    pub tx_id: Seq<Seq<char>>,
    pub db_version: Seq<u64>,
    pub seq_in_tx: Seq<u32>,
    pub op: Seq<Seq<char>>,
    pub entity_kind: Seq<Seq<char>>,
    pub type_label: Seq<Seq<char>>,
    pub entity_key: Seq<Seq<char>>,
    pub payload: Seq<Seq<char>>,
    pub rowid: Option<(Seq<u64>, Seq<bool>)>,
    pub committed_at: Seq<Seq<char>>,
}

/// The row identities of a table of changes, where it has them.
pub open spec fn rowid_column(b: BatchModel) -> Option<(Seq<u64>, Seq<bool>)> {
    match column_named(b, "rowid_if_known"@, 0) {
        Some(ColumnModel::UInt64(v, ok)) => Some((v, ok)),
        _ => None,
    }
}

/// The columns of a table of changes, or the message of the first that is missing or of
/// another type.
pub open spec fn change_columns(b: BatchModel) -> Result<ChangeColumns, Seq<char>> {
    let t = "graph change"@;
    match utf8_column(b, t, "tx_id"@) {
        Err(m) => Err(m),
        Ok(tx_id) => match u64_column(b, t, "db_version"@) {
            Err(m) => Err(m),
            Ok(db_version) => match u32_column(b, t, "seq_in_tx"@) {
                Err(m) => Err(m),
                Ok(seq_in_tx) => match utf8_column(b, t, "op"@) {
                    Err(m) => Err(m),
                    Ok(op) => match utf8_column(b, t, "entity_kind"@) {
                        Err(m) => Err(m),
                        Ok(entity_kind) => match utf8_column(b, t, "type_name"@) {
                            Err(m) => Err(m),
                            Ok(type_label) => match utf8_column(b, t, "entity_key"@) {
                                Err(m) => Err(m),
                                Ok(entity_key) => match utf8_column(b, t, "payload_json"@) {
                                    Err(m) => Err(m),
                                    Ok(payload) => match utf8_column(b, t, "committed_at"@) {
                                        Err(m) => Err(m),
                                        Ok(committed_at) => Ok(
                                            ChangeColumns {
                                                tx_id,
                                                db_version,
                                                seq_in_tx,
                                                op,
                                                entity_kind,
                                                type_label,
                                                entity_key,
                                                payload,
                                                rowid: rowid_column(b),
                                                committed_at,
                                            },
                                        ),
                                    },
                                },
                            },
                        },
                    },
                },
            },
        },
    }
}

/// The change in row `i`, or the message that its payload is no JSON.
pub open spec fn change_at(c: ChangeColumns, i: int) -> Result<ChangeModel, Seq<char>> {
    match json_rewritten(c.payload[i]) {
        Err(e) => Err("parse graph change payload error: "@ + e),
        Ok(payload) => Ok(
            ChangeModel {
                tx_id: c.tx_id[i],
                graph_version: c.db_version[i],
                seq_in_tx: c.seq_in_tx[i],
                op: c.op[i],
                entity_kind: c.entity_kind[i],
                type_label: c.type_label[i],
                entity_key: c.entity_key[i],
                payload,
                rowid_if_known: match c.rowid {
                    Some((values, valid)) => if valid[i] {
                        Some(values[i])
                    } else {
                        None
                    },
                    None => None,
                },
                committed_at: c.committed_at[i],
            },
        ),
    }
}

/// The changes in the first `n` rows, or the message of the first that cannot be read.
pub open spec fn changes_up_to(c: ChangeColumns, n: int) -> Result<Seq<ChangeModel>, Seq<char>>
    decreases n,
{
    if n <= 0 {
        Ok(Seq::empty())
    } else {
        match changes_up_to(c, n - 1) {
            Err(m) => Err(m),
            Ok(done) => match change_at(c, n - 1) {
                Err(m) => Err(m),
                Ok(x) => Ok(done.push(x)),
            },
        }
    }
}

/// The changes that a table holds: a table of the wrong shape is a fault of the storage, a
/// payload that is no JSON one of the manifest.
pub open spec fn changes_of(b: BatchModel) -> Result<Seq<ChangeModel>, ErrorModel> {
    match change_columns(b) {
        Err(m) => Err(ErrorModel::Storage(m)),
        Ok(c) => match changes_up_to(c, b.num_rows as int) {
            Err(m) => Err(ErrorModel::Manifest(m)),
            Ok(records) => Ok(records),
        },
    }
}

/// Whether a result is the list, or the error the one, that a spec gives.
pub open spec fn yields_list<T: View>(
    r: Result<Vec<T>, NanoError>,
    m: Result<Seq<T::V>, ErrorModel>,
) -> bool {
    match r {
        Ok(v) => m == Ok::<Seq<T::V>, ErrorModel>(views(v@)),
        Err(e) => m == Err::<Seq<T::V>, ErrorModel>(e@),
    }
}

proof fn lemma_changes_refused(c: ChangeColumns, n: int, k: int)
    requires
        0 <= k <= n,
        changes_up_to(c, k) is Err,
    ensures
        changes_up_to(c, n) == changes_up_to(c, k),
    decreases n,
{
    if k < n {
        lemma_changes_refused(c, n - 1, k);
    }
}

/// Reads the changes of a table.
pub fn graph_change_records_from_batch(batch: &Batch) -> (r: Result<
    Vec<GraphChangeRecord>,
    NanoError,
>)
    requires
        batch_ok(batch@),
    ensures
        yields_list(r, changes_of(batch@)),
        r matches Ok(records) ==> forall|i: int|
            0 <= i < records@.len() ==> reads_as_itself((#[trigger] records@[i])@.payload),
{
    let tx_id = batch.utf8("graph change", "tx_id")?;
    let db_version = batch.uint64("graph change", "db_version")?;
    let seq_in_tx = batch.uint32("graph change", "seq_in_tx")?;
    let op = batch.utf8("graph change", "op")?;
    let entity_kind = batch.utf8("graph change", "entity_kind")?;
    let type_label = batch.utf8("graph change", "type_name")?;
    let entity_key = batch.utf8("graph change", "entity_key")?;
    let payload_json = batch.utf8("graph change", "payload_json")?;
    let rowid = batch.column_by_name("rowid_if_known");
    let committed_at = batch.utf8("graph change", "committed_at")?;
    proof {
        crate::store::batch::lemma_column_named(batch@, "rowid_if_known"@, 0);
    }
    let ghost c = change_columns(batch@)->Ok_0;
    let n: usize = batch.num_rows;
    let mut out: Vec<GraphChangeRecord> = Vec::new();
    assert(views(out@) =~= Seq::<ChangeModel>::empty());
    let mut i: usize = 0;
    while i < n
        invariant
            i <= n,
            n == batch.num_rows,
            change_columns(batch@) == Ok::<ChangeColumns, Seq<char>>(c),
            tx_id@.len() == n && views(tx_id@) == c.tx_id,
            db_version@.len() == n && db_version@ == c.db_version,
            seq_in_tx@.len() == n && seq_in_tx@ == c.seq_in_tx,
            op@.len() == n && views(op@) == c.op,
            entity_kind@.len() == n && views(entity_kind@) == c.entity_kind,
            type_label@.len() == n && views(type_label@) == c.type_label,
            entity_key@.len() == n && views(entity_key@) == c.entity_key,
            payload_json@.len() == n && views(payload_json@) == c.payload,
            committed_at@.len() == n && views(committed_at@) == c.committed_at,
            c.rowid == rowid_column(batch@),
            match rowid {
                Some(d) => column_named(batch@, "rowid_if_known"@, 0) == Some(d@) && column_has(
                    d@,
                    n as nat,
                ),
                None => column_named(batch@, "rowid_if_known"@, 0) is None,
            },
            changes_up_to(c, i as int) == Ok::<Seq<ChangeModel>, Seq<char>>(views(out@)),
            forall|k: int| 0 <= k < out@.len() ==> reads_as_itself((#[trigger] out@[k])@.payload),
        decreases n - i,
    {
        let payload = match rewrite_json(&payload_json[i]) {
            Ok(p) => p,
            Err(e) => {
                proof {
                    lemma_changes_refused(c, n as int, i as int + 1);
                }
                return Err(NanoError::Manifest(cat2("parse graph change payload error: ", &e)));
            },
        };
        let rowid_if_known: Option<u64> = match rowid {
            Some(ColumnData::UInt64 { values, valid }) => if valid[i] {
                Some(values[i])
            } else {
                None
            },
            _ => None,
        };
        let x = GraphChangeRecord {
            tx_id: GraphTxId(tx_id[i].clone()),
            graph_version: GraphVersion(db_version[i]),
            seq_in_tx: seq_in_tx[i],
            op: op[i].clone(),
            entity_kind: entity_kind[i].clone(),
            type_label: type_label[i].clone(),
            entity_key: entity_key[i].clone(),
            payload,
            rowid_if_known,
            committed_at: committed_at[i].clone(),
        };
        proof {
            assert(change_at(c, i as int) == Ok::<ChangeModel, Seq<char>>(x@));
            lemma_views_push(out@, x);
        }
        out.push(x);
        i = i + 1;
    }
    Ok(out)
}

/// The table that holds some changes.
pub open spec fn change_batch(r: Seq<ChangeModel>) -> BatchModel {
    let n = r.len();
    let sure = Seq::new(n, |i: int| true);
    BatchModel {
        num_rows: n,
        columns: seq![
            ("tx_id"@, ColumnModel::Utf8(Seq::new(n, |i: int| r[i].tx_id))),
            ("db_version"@, ColumnModel::UInt64(Seq::new(n, |i: int| r[i].graph_version), sure)),
            ("seq_in_tx"@, ColumnModel::UInt32(Seq::new(n, |i: int| r[i].seq_in_tx), sure)),
            ("op"@, ColumnModel::Utf8(Seq::new(n, |i: int| r[i].op))),
            ("entity_kind"@, ColumnModel::Utf8(Seq::new(n, |i: int| r[i].entity_kind))),
            ("type_name"@, ColumnModel::Utf8(Seq::new(n, |i: int| r[i].type_label))),
            ("entity_key"@, ColumnModel::Utf8(Seq::new(n, |i: int| r[i].entity_key))),
            ("payload_json"@, ColumnModel::Utf8(Seq::new(n, |i: int| r[i].payload))),
            (
                "rowid_if_known"@,
                ColumnModel::UInt64(
                    Seq::new(
                        n,
                        |i: int|
                            match r[i].rowid_if_known {
                                Some(id) => id,
                                None => 0,
                            },
                    ),
                    Seq::new(n, |i: int| r[i].rowid_if_known is Some),
                ),
            ),
            ("committed_at"@, ColumnModel::Utf8(Seq::new(n, |i: int| r[i].committed_at))),
        ],
    }
}

fn utf8_of(name: &str, values: Vec<String>) -> (r: Column)
    ensures
        r@ == (name@, ColumnModel::Utf8(views(values@))),
{
    Column { name: name.to_owned(), data: ColumnData::Utf8(values) }
}

fn all_valid(n: usize) -> (r: Vec<bool>)
    ensures
        r@ == Seq::new(n as nat, |i: int| true),
{
    let mut v: Vec<bool> = Vec::new();
    let mut i: usize = 0;
    while i < n
        invariant
            i <= n,
            v@ == Seq::new(i as nat, |i: int| true),
        decreases n - i,
    {
        v.push(true);
        assert(v@ =~= Seq::new(i as nat + 1, |i: int| true));
        i = i + 1;
    }
    v
}

/// Writes changes as a table; nothing where there are none.
#[verifier::rlimit(40)]
pub fn graph_change_records_to_batch(records: &Vec<GraphChangeRecord>) -> (r: Option<Batch>)
    ensures
        match r {
            None => records@.len() == 0,
            Some(b) => records@.len() > 0 && b@ == change_batch(views(records@)) && batch_ok(b@),
        },
{
    if records.len() == 0 {
        return None;
    }
    let ghost all = views(records@);
    let ghost expected = change_batch(all);
    let n: usize = records.len();
    let mut tx_id: Vec<String> = Vec::new();
    let mut db_version: Vec<u64> = Vec::new();
    let mut seq_in_tx: Vec<u32> = Vec::new();
    let mut op: Vec<String> = Vec::new();
    let mut entity_kind: Vec<String> = Vec::new();
    let mut type_label: Vec<String> = Vec::new();
    let mut entity_key: Vec<String> = Vec::new();
    let mut payload: Vec<String> = Vec::new();
    let mut rowid: Vec<u64> = Vec::new();
    let mut rowid_valid: Vec<bool> = Vec::new();
    let mut committed_at: Vec<String> = Vec::new();
    let mut i: usize = 0;
    while i < n
        invariant
            i <= n == records@.len(),
            all == views(records@),
            tx_id@.len() == i && forall|k: int| 0 <= k < i ==> (#[trigger] tx_id@[k])@ == all[k].tx_id,
            db_version@.len() == i && forall|k: int|
                0 <= k < i ==> #[trigger] db_version@[k] == all[k].graph_version,
            seq_in_tx@.len() == i && forall|k: int|
                0 <= k < i ==> #[trigger] seq_in_tx@[k] == all[k].seq_in_tx,
            op@.len() == i && forall|k: int| 0 <= k < i ==> (#[trigger] op@[k])@ == all[k].op,
            entity_kind@.len() == i && forall|k: int|
                0 <= k < i ==> (#[trigger] entity_kind@[k])@ == all[k].entity_kind,
            type_label@.len() == i && forall|k: int|
                0 <= k < i ==> (#[trigger] type_label@[k])@ == all[k].type_label,
            entity_key@.len() == i && forall|k: int|
                0 <= k < i ==> (#[trigger] entity_key@[k])@ == all[k].entity_key,
            payload@.len() == i && forall|k: int|
                0 <= k < i ==> (#[trigger] payload@[k])@ == all[k].payload,
            rowid@.len() == i && forall|k: int|
                0 <= k < i ==> #[trigger] rowid@[k] == (match all[k].rowid_if_known {
                    Some(id) => id,
                    None => 0,
                }),
            rowid_valid@.len() == i && forall|k: int|
                0 <= k < i ==> #[trigger] rowid_valid@[k] == (all[k].rowid_if_known is Some),
            committed_at@.len() == i && forall|k: int|
                0 <= k < i ==> (#[trigger] committed_at@[k])@ == all[k].committed_at,
        decreases n - i,
    {
        let x = &records[i];
        assert(all[i as int] == x@);
        tx_id.push(x.tx_id.as_str().to_owned());
        db_version.push(x.graph_version.value());
        seq_in_tx.push(x.seq_in_tx);
        op.push(x.op.clone());
        entity_kind.push(x.entity_kind.clone());
        type_label.push(x.type_label.clone());
        entity_key.push(x.entity_key.clone());
        payload.push(x.payload.clone());
        rowid.push(
            match x.rowid_if_known {
                Some(id) => id,
                None => 0,
            },
        );
        rowid_valid.push(x.rowid_if_known.is_some());
        committed_at.push(x.committed_at.clone());
        i = i + 1;
    }
    proof {
        assert(views(tx_id@) =~= expected.columns[0].1->Utf8_0);
        assert(db_version@ =~= expected.columns[1].1->UInt64_0);
        assert(seq_in_tx@ =~= expected.columns[2].1->UInt32_0);
        assert(views(op@) =~= expected.columns[3].1->Utf8_0);
        assert(views(entity_kind@) =~= expected.columns[4].1->Utf8_0);
        assert(views(type_label@) =~= expected.columns[5].1->Utf8_0);
        assert(views(entity_key@) =~= expected.columns[6].1->Utf8_0);
        assert(views(payload@) =~= expected.columns[7].1->Utf8_0);
        assert(rowid@ =~= expected.columns[8].1->UInt64_0);
        assert(rowid_valid@ =~= expected.columns[8].1->UInt64_1);
        assert(views(committed_at@) =~= expected.columns[9].1->Utf8_0);
    }
    let mut columns: Vec<Column> = Vec::new();
    columns.push(utf8_of("tx_id", tx_id));
    columns.push(
        Column {
            name: "db_version".to_owned(),
            data: ColumnData::UInt64 { values: db_version, valid: all_valid(n) },
        },
    );
    columns.push(
        Column {
            name: "seq_in_tx".to_owned(),
            data: ColumnData::UInt32 { values: seq_in_tx, valid: all_valid(n) },
        },
    );
    columns.push(utf8_of("op", op));
    columns.push(utf8_of("entity_kind", entity_kind));
    columns.push(utf8_of("type_name", type_label));
    columns.push(utf8_of("entity_key", entity_key));
    columns.push(utf8_of("payload_json", payload));
    columns.push(
        Column {
            name: "rowid_if_known".to_owned(),
            data: ColumnData::UInt64 { values: rowid, valid: rowid_valid },
        },
    );
    columns.push(utf8_of("committed_at", committed_at));
    let batch = Batch { num_rows: n, columns };
    assert(batch@.columns =~= expected.columns);
    Some(batch)
}

/// The first column of a batch that has only columns of other names before it.
proof fn lemma_column_is(b: BatchModel, name: Seq<char>, i: int, k: int)
    requires
        0 <= i <= k < b.columns.len(),
        b.columns[k].0 == name,
        forall|j: int| i <= j < k ==> (#[trigger] b.columns[j]).0 != name,
    ensures
        column_named(b, name, i) == Some(b.columns[k].1),
    decreases k - i,
{
    if i < k {
        lemma_column_is(b, name, i + 1, k);
    }
}

/// The names of the columns of a table of changes are all different.
proof fn lemma_change_names()
    ensures
        ({
            let names = seq![
                "tx_id"@,
                "db_version"@,
                "seq_in_tx"@,
                "op"@,
                "entity_kind"@,
                "type_name"@,
                "entity_key"@,
                "payload_json"@,
                "rowid_if_known"@,
                "committed_at"@,
            ];
            forall|i: int, j: int| 0 <= i < j < 10 ==> #[trigger] names[i] != #[trigger] names[j]
        }),
{
    reveal_strlit("tx_id");
    reveal_strlit("db_version");
    reveal_strlit("seq_in_tx");
    reveal_strlit("op");
    reveal_strlit("entity_kind");
    reveal_strlit("type_name");
    reveal_strlit("entity_key");
    reveal_strlit("payload_json");
    reveal_strlit("rowid_if_known");
    reveal_strlit("committed_at");
    assert("tx_id"@[0] == 't' && "tx_id"@[1] == 'x');
    assert("type_name"@[0] == 't' && "type_name"@[1] == 'y');
    assert("db_version"@[0] == 'd');
    assert("seq_in_tx"@[0] == 's');
    assert("op"@[0] == 'o');
    assert("entity_kind"@[0] == 'e' && "entity_kind"@[8] == 'i');
    assert("entity_key"@[0] == 'e' && "entity_key"@[8] == 'e');
    assert("payload_json"@[0] == 'p');
    assert("rowid_if_known"@[0] == 'r');
    assert("committed_at"@[0] == 'c');
}

/// A change as it is read back: its payload is what reading and writing it makes of it.
pub open spec fn reread(x: ChangeModel) -> ChangeModel {
    ChangeModel { payload: json_rewritten(x.payload)->Ok_0, ..x }
}

/// Reading the table of some changes, each with a payload that is JSON, gives back those
/// changes in their order, every field as it was; of a payload the same value, written the
/// way serde_json writes it.
pub proof fn law_changes_survive_the_table(r: Seq<ChangeModel>)
    requires
        forall|i: int| 0 <= i < r.len() ==> json_rewritten((#[trigger] r[i]).payload) is Ok,
    ensures
        batch_ok(change_batch(r)),
        changes_of(change_batch(r)) == Ok::<Seq<ChangeModel>, ErrorModel>(
            Seq::new(r.len(), |i: int| reread(r[i])),
        ),
{
    let all = Seq::new(r.len(), |i: int| reread(r[i]));
    let b = change_batch(r);
    lemma_change_names();
    assert forall|k: int| 0 <= k < 10 implies column_named(b, (#[trigger] b.columns[k]).0, 0)
        == Some(b.columns[k].1) by {
        let names = seq![
            "tx_id"@,
            "db_version"@,
            "seq_in_tx"@,
            "op"@,
            "entity_kind"@,
            "type_name"@,
            "entity_key"@,
            "payload_json"@,
            "rowid_if_known"@,
            "committed_at"@,
        ];
        assert forall|j: int| 0 <= j < k implies (#[trigger] b.columns[j]).0 != b.columns[k].0 by {
            assert(names[j] != names[k]);
            assert(b.columns[j].0 == names[j] && b.columns[k].0 == names[k]);
        }
        lemma_column_is(b, b.columns[k].0, 0, k);
    }
    let _ = (
        b.columns[0],
        b.columns[1],
        b.columns[2],
        b.columns[3],
        b.columns[4],
        b.columns[5],
        b.columns[6],
        b.columns[7],
        b.columns[8],
        b.columns[9],
    );
    let c = change_columns(b)->Ok_0;
    assert(change_columns(b) is Ok);
    assert forall|i: int| 0 <= i < all.len() implies change_at(c, i) == Ok::<
        ChangeModel,
        Seq<char>,
    >(#[trigger] all[i]) by {
        assert(json_rewritten(r[i].payload) is Ok);
        assert(c.payload[i] == r[i].payload);
    }
    assert(changes_up_to(c, r.len() as int) == Ok::<Seq<ChangeModel>, Seq<char>>(all)) by {
        lemma_changes_read_back(all, c, r.len() as int);
        assert(all.take(r.len() as int) =~= all);
    }
}

/// Reading the table of some changes gives back just those changes, where each payload is
/// written the way serde_json writes it. A change that was read from a table is of that
/// kind, unless its payload may hold a floating-point number.
pub proof fn law_written_changes_are_unchanged(r: Seq<ChangeModel>)
    requires
        forall|i: int|
            0 <= i < r.len() ==> json_rewritten((#[trigger] r[i]).payload) == Ok::<
                Seq<char>,
                Seq<char>,
            >(r[i].payload),
    ensures
        changes_of(change_batch(r)) == Ok::<Seq<ChangeModel>, ErrorModel>(r),
{
    law_changes_survive_the_table(r);
    assert(Seq::new(r.len(), |i: int| reread(r[i])) =~= r);
}

proof fn lemma_changes_read_back(r: Seq<ChangeModel>, c: ChangeColumns, n: int)
    requires
        0 <= n <= r.len(),
        forall|i: int|
            0 <= i < r.len() ==> change_at(c, i) == Ok::<ChangeModel, Seq<char>>(#[trigger] r[i]),
    ensures
        changes_up_to(c, n) == Ok::<Seq<ChangeModel>, Seq<char>>(r.take(n)),
    decreases n,
{
    if n > 0 {
        lemma_changes_read_back(r, c, n - 1);
        assert(r.take(n) =~= r.take(n - 1).push(r[n - 1]));
    } else {
        assert(r.take(0) =~= Seq::empty());
    }
}

// ---------------------------------------------------------------------------
// Commits as a table

/// The columns of a table of commits.
pub struct CommitColumns {
    pub tx_id: Seq<Seq<char>>,
    pub db_version: Seq<u64>,
    pub table_versions_json: Seq<Seq<char>>,
    pub committed_at: Seq<Seq<char>>,
    pub op_summary: Seq<Seq<char>>,
}

/// The columns of a table of commits, or the message of the first that is missing or of
/// another type.
pub open spec fn commit_columns(b: BatchModel) -> Result<CommitColumns, Seq<char>> {
    let t = "graph tx"@;
    match utf8_column(b, t, "tx_id"@) {
        Err(m) => Err(m),
        Ok(tx_id) => match u64_column(b, t, "db_version"@) {
            Err(m) => Err(m),
            Ok(db_version) => match utf8_column(b, t, "table_versions_json"@) {
                Err(m) => Err(m),
                Ok(table_versions_json) => match utf8_column(b, t, "committed_at"@) {
                    Err(m) => Err(m),
                    Ok(committed_at) => match utf8_column(b, t, "op_summary"@) {
                        Err(m) => Err(m),
                        Ok(op_summary) => Ok(
                            CommitColumns {
                                tx_id,
                                db_version,
                                table_versions_json,
                                committed_at,
                                op_summary,
                            },
                        ),
                    },
                },
            },
        },
    }
}

/// What the JSON text of a cell was read as: table versions, or a message.
pub type ParsedVersions = Result<Vec<GraphTableVersion>, String>;

/// The mathematical value of what cells were read as.
pub open spec fn parsed_view(p: Seq<ParsedVersions>) -> Seq<Result<Seq<TableVersionModel>, Seq<char>>> {
    Seq::new(
        p.len(),
        |i: int|
            match p[i] {
                Ok(v) => Ok(views(v@)),
                Err(e) => Err(e@),
            },
    )
}

/// The commit in row `i`, or the message that its table versions cannot be read.
pub open spec fn commit_at(
    c: CommitColumns,
    parsed: Seq<Result<Seq<TableVersionModel>, Seq<char>>>,
    i: int,
) -> Result<CommitModel, Seq<char>> {
    match parsed[i] {
        Err(e) => Err("parse graph tx table_versions_json error: "@ + e),
        Ok(table_versions) => Ok(
            CommitModel {
                tx_id: c.tx_id[i],
                graph_version: c.db_version[i],
                table_versions,
                committed_at: c.committed_at[i],
                op_summary: c.op_summary[i],
                schema_identity_version: 0,
                touched_tables: Seq::empty(),
                tx_props: Seq::empty(),
            },
        ),
    }
}

/// The commits in the first `n` rows, or the message of the first that cannot be read.
pub open spec fn commits_up_to(
    c: CommitColumns,
    parsed: Seq<Result<Seq<TableVersionModel>, Seq<char>>>,
    n: int,
) -> Result<Seq<CommitModel>, Seq<char>>
    decreases n,
{
    if n <= 0 {
        Ok(Seq::empty())
    } else {
        match commits_up_to(c, parsed, n - 1) {
            Err(m) => Err(m),
            Ok(done) => match commit_at(c, parsed, n - 1) {
                Err(m) => Err(m),
                Ok(x) => Ok(done.push(x)),
            },
        }
    }
}

/// The commits that a table holds. `parsed` is what the cells of `table_versions_json` were
/// read as, one for each row.
pub open spec fn commits_of(
    b: BatchModel,
    parsed: Seq<Result<Seq<TableVersionModel>, Seq<char>>>,
) -> Result<Seq<CommitModel>, ErrorModel> {
    match commit_columns(b) {
        Err(m) => Err(ErrorModel::Storage(m)),
        Ok(c) => match commits_up_to(c, parsed, b.num_rows as int) {
            Err(m) => Err(ErrorModel::Manifest(m)),
            Ok(records) => Ok(records),
        },
    }
}

proof fn lemma_commits_refused(
    c: CommitColumns,
    parsed: Seq<Result<Seq<TableVersionModel>, Seq<char>>>,
    n: int,
    k: int,
)
    requires
        0 <= k <= n,
        commits_up_to(c, parsed, k) is Err,
    ensures
        commits_up_to(c, parsed, n) == commits_up_to(c, parsed, k),
    decreases n,
{
    if k < n {
        lemma_commits_refused(c, parsed, n - 1, k);
    }
}

/// Reads the commits of a table.
#[verifier::loop_isolation(false)]
pub fn graph_commit_records_from_batch(batch: &Batch, parsed: Vec<ParsedVersions>) -> (r: Result<
    Vec<GraphCommitRecord>,
    NanoError,
>)
    requires
        batch_ok(batch@),
        parsed@.len() == batch.num_rows,
    ensures
        yields_list(r, commits_of(batch@, parsed_view(parsed@))),
{
    let tx_id = batch.utf8("graph tx", "tx_id")?;
    let db_version = batch.uint64("graph tx", "db_version")?;
    let _table_versions_json = batch.utf8("graph tx", "table_versions_json")?;
    let committed_at = batch.utf8("graph tx", "committed_at")?;
    let op_summary = batch.utf8("graph tx", "op_summary")?;
    let ghost c = commit_columns(batch@)->Ok_0;
    let ghost cells = parsed@;
    let ghost values = parsed_view(parsed@);
    let n: usize = batch.num_rows;
    let mut out: Vec<GraphCommitRecord> = Vec::new();
    assert(views(out@) =~= Seq::<CommitModel>::empty());
    for p in it: parsed
        invariant
            it.seq() == cells,
            out@.len() == it.index(),
            commits_up_to(c, values, it.index() as int) == Ok::<Seq<CommitModel>, Seq<char>>(
                views(out@),
            ),
    {
        let i: usize = out.len();
        match p {
            Err(e) => {
                proof {
                    lemma_commits_refused(c, values, n as int, i as int + 1);
                }
                return Err(
                    NanoError::Manifest(cat2("parse graph tx table_versions_json error: ", &e)),
                );
            },
            Ok(table_versions) => {
                let touched_tables: Vec<GraphTouchedTableWindow> = Vec::new();
                let tx_props: Vec<(String, String)> = Vec::new();
                assert(views(touched_tables@) =~= Seq::<TouchedWindowModel>::empty());
                let x = GraphCommitRecord {
                    tx_id: GraphTxId(tx_id[i].clone()),
                    graph_version: GraphVersion(db_version[i]),
                    table_versions,
                    committed_at: committed_at[i].clone(),
                    op_summary: op_summary[i].clone(),
                    schema_identity_version: 0,
                    touched_tables,
                    tx_props,
                };
                proof {
                    assert(x@.tx_props =~= Seq::<(Seq<char>, Seq<char>)>::empty());
                    assert(commit_at(c, values, i as int) == Ok::<CommitModel, Seq<char>>(x@));
                    lemma_views_push(out@, x);
                }
                out.push(x);
            },
        }
    }
    Ok(out)
}

/// The table that holds some commits; `json` is the text of the table versions of each.
pub open spec fn commit_batch(r: Seq<CommitModel>, json: Seq<Seq<char>>) -> BatchModel {
    let n = r.len();
    BatchModel {
        num_rows: n,
        columns: seq![
            ("tx_id"@, ColumnModel::Utf8(Seq::new(n, |i: int| r[i].tx_id))),
            (
                "db_version"@,
                ColumnModel::UInt64(
                    Seq::new(n, |i: int| r[i].graph_version),
                    Seq::new(n, |i: int| true),
                ),
            ),
            ("table_versions_json"@, ColumnModel::Utf8(json)),
            ("committed_at"@, ColumnModel::Utf8(Seq::new(n, |i: int| r[i].committed_at))),
            ("op_summary"@, ColumnModel::Utf8(Seq::new(n, |i: int| r[i].op_summary))),
        ],
    }
}

/// Writes commits as a table; nothing where there are none.
pub fn graph_commit_records_to_batch(records: &Vec<GraphCommitRecord>, json: Vec<String>) -> (r:
    Option<Batch>)
    requires
        json@.len() == records@.len(),
    ensures
        match r {
            None => records@.len() == 0,
            Some(b) => records@.len() > 0 && b@ == commit_batch(views(records@), views(json@))
                && batch_ok(b@),
        },
{
    if records.len() == 0 {
        return None;
    }
    let ghost all = views(records@);
    let ghost expected = commit_batch(all, views(json@));
    let n: usize = records.len();
    let mut tx_id: Vec<String> = Vec::new();
    let mut db_version: Vec<u64> = Vec::new();
    let mut committed_at: Vec<String> = Vec::new();
    let mut op_summary: Vec<String> = Vec::new();
    let mut i: usize = 0;
    while i < n
        invariant
            i <= n == records@.len(),
            all == views(records@),
            tx_id@.len() == i && forall|k: int| 0 <= k < i ==> (#[trigger] tx_id@[k])@ == all[k].tx_id,
            db_version@.len() == i && forall|k: int|
                0 <= k < i ==> #[trigger] db_version@[k] == all[k].graph_version,
            committed_at@.len() == i && forall|k: int|
                0 <= k < i ==> (#[trigger] committed_at@[k])@ == all[k].committed_at,
            op_summary@.len() == i && forall|k: int|
                0 <= k < i ==> (#[trigger] op_summary@[k])@ == all[k].op_summary,
        decreases n - i,
    {
        let x = &records[i];
        assert(all[i as int] == x@);
        tx_id.push(x.tx_id.as_str().to_owned());
        db_version.push(x.graph_version.value());
        committed_at.push(x.committed_at.clone());
        op_summary.push(x.op_summary.clone());
        i = i + 1;
    }
    proof {
        assert(views(tx_id@) =~= expected.columns[0].1->Utf8_0);
        assert(db_version@ =~= expected.columns[1].1->UInt64_0);
        assert(views(committed_at@) =~= expected.columns[3].1->Utf8_0);
        assert(views(op_summary@) =~= expected.columns[4].1->Utf8_0);
        assert(views(json@).len() == json@.len());
    }
    let mut columns: Vec<Column> = Vec::new();
    columns.push(utf8_of("tx_id", tx_id));
    columns.push(
        Column {
            name: "db_version".to_owned(),
            data: ColumnData::UInt64 { values: db_version, valid: all_valid(n) },
        },
    );
    columns.push(utf8_of("table_versions_json", json));
    columns.push(utf8_of("committed_at", committed_at));
    columns.push(utf8_of("op_summary", op_summary));
    let batch = Batch { num_rows: n, columns };
    assert(batch@.columns =~= expected.columns);
    Some(batch)
}

/// What a commit is in the table: what the log does not keep is empty.
pub open spec fn logged_commit(r: CommitModel) -> CommitModel {
    CommitModel {
        schema_identity_version: 0,
        touched_tables: Seq::empty(),
        tx_props: Seq::empty(),
        ..r
    }
}

/// Reading the table of some commits gives back what the log keeps of them, where the text
/// of their table versions is read as those versions.
pub proof fn law_commits_survive_the_table(r: Seq<CommitModel>, json: Seq<Seq<char>>)
    requires
        json.len() == r.len(),
    ensures
        batch_ok(commit_batch(r, json)),
        commits_of(
            commit_batch(r, json),
            Seq::new(r.len(), |i: int| Ok::<Seq<TableVersionModel>, Seq<char>>(r[i].table_versions)),
        ) == Ok::<Seq<CommitModel>, ErrorModel>(Seq::new(r.len(), |i: int| logged_commit(r[i]))),
{
    let b = commit_batch(r, json);
    let parsed = Seq::new(
        r.len(),
        |i: int| Ok::<Seq<TableVersionModel>, Seq<char>>(r[i].table_versions),
    );
    let logged = Seq::new(r.len(), |i: int| logged_commit(r[i]));
    reveal_strlit("tx_id");
    reveal_strlit("db_version");
    reveal_strlit("table_versions_json");
    reveal_strlit("committed_at");
    reveal_strlit("op_summary");
    assert("tx_id"@[0] == 't' && "tx_id"@[1] == 'x');
    assert("table_versions_json"@[0] == 't' && "table_versions_json"@[1] == 'a');
    assert("db_version"@[0] == 'd');
    assert("committed_at"@[0] == 'c');
    assert("op_summary"@[0] == 'o');
    lemma_column_is(b, "tx_id"@, 0, 0);
    lemma_column_is(b, "db_version"@, 0, 1);
    lemma_column_is(b, "table_versions_json"@, 0, 2);
    lemma_column_is(b, "committed_at"@, 0, 3);
    lemma_column_is(b, "op_summary"@, 0, 4);
    let c = commit_columns(b)->Ok_0;
    assert(commit_columns(b) is Ok);
    lemma_commits_read_back(logged, c, parsed, r.len() as int);
    assert(logged.take(r.len() as int) =~= logged);
}

proof fn lemma_commits_read_back(
    r: Seq<CommitModel>,
    c: CommitColumns,
    parsed: Seq<Result<Seq<TableVersionModel>, Seq<char>>>,
    n: int,
)
    requires
        0 <= n <= r.len(),
        forall|i: int|
            0 <= i < r.len() ==> commit_at(c, parsed, i) == Ok::<CommitModel, Seq<char>>(
                #[trigger] r[i],
            ),
    ensures
        commits_up_to(c, parsed, n) == Ok::<Seq<CommitModel>, Seq<char>>(r.take(n)),
    decreases n,
{
    if n > 0 {
        lemma_commits_read_back(r, c, parsed, n - 1);
        assert(r.take(n) =~= r.take(n - 1).push(r[n - 1]));
    } else {
        assert(r.take(0) =~= Seq::empty());
    }
}

// ---------------------------------------------------------------------------
// The order of the log

impl Ranked for GraphChangeRecord {
    /// By version of the graph, then by position in the transaction, then by transaction.
    open spec fn ranks_before(a: ChangeModel, b: ChangeModel) -> bool {
        if a.graph_version != b.graph_version {
            a.graph_version < b.graph_version
        } else if a.seq_in_tx != b.seq_in_tx {
            a.seq_in_tx < b.seq_in_tx
        } else {
            lex_le(a.tx_id, b.tx_id)
        }
    }

    proof fn ranking_is_total(a: ChangeModel, b: ChangeModel) {
        String::ranking_is_total(a.tx_id, b.tx_id);
    }

    proof fn ranking_is_transitive(a: ChangeModel, b: ChangeModel, c: ChangeModel) {
        if a.graph_version == b.graph_version && b.graph_version == c.graph_version && a.seq_in_tx
            == b.seq_in_tx && b.seq_in_tx == c.seq_in_tx {
            String::ranking_is_transitive(a.tx_id, b.tx_id, c.tx_id);
        }
    }

    fn at_most(&self, other: &GraphChangeRecord) -> (r: bool) {
        let a: u64 = self.graph_version.value();
        let b: u64 = other.graph_version.value();
        if a != b {
            a < b
        } else if self.seq_in_tx != other.seq_in_tx {
            self.seq_in_tx < other.seq_in_tx
        } else {
            str_le(self.tx_id.as_str(), other.tx_id.as_str())
        }
    }
}

impl Ranked for GraphCommitRecord {
    /// By version of the graph.
    open spec fn ranks_before(a: CommitModel, b: CommitModel) -> bool {
        a.graph_version <= b.graph_version
    }

    proof fn ranking_is_total(a: CommitModel, b: CommitModel) {
    }

    proof fn ranking_is_transitive(a: CommitModel, b: CommitModel, c: CommitModel) {
    }

    fn at_most(&self, other: &GraphCommitRecord) -> (r: bool) {
        self.graph_version.value() <= other.graph_version.value()
    }
}

/// The changes of the first `n` tables, one table behind the other.
pub open spec fn changes_of_all(b: Seq<BatchModel>, n: int) -> Result<Seq<ChangeModel>, ErrorModel>
    decreases n,
{
    if n <= 0 {
        Ok(Seq::empty())
    } else {
        match changes_of_all(b, n - 1) {
            Err(e) => Err(e),
            Ok(done) => match changes_of(b[n - 1]) {
                Err(e) => Err(e),
                Ok(more) => Ok(done + more),
            },
        }
    }
}

proof fn lemma_changes_of_all_refused(b: Seq<BatchModel>, n: int, k: int)
    requires
        0 <= k <= n,
        changes_of_all(b, k) is Err,
    ensures
        changes_of_all(b, n) == changes_of_all(b, k),
    decreases n,
{
    if k < n {
        lemma_changes_of_all_refused(b, n - 1, k);
    }
}

/// Appends the elements of one vector to another.
fn extend<T: View>(out: Vec<T>, more: Vec<T>) -> (r: Vec<T>)
    ensures
        views(r@) == views(out@) + views(more@),
{
    let mut out = out;
    let mut more = more;
    let ghost a = out@;
    let ghost b = more@;
    out.append(&mut more);
    assert(out@ =~= a + b);
    assert(views(out@) =~= views(a) + views(b));
    out
}

/// Reads the log of changes from its tables, in order.
pub fn read_graph_change_records(batches: &Vec<Batch>) -> (r: Result<
    Vec<GraphChangeRecord>,
    NanoError,
>)
    requires
        forall|i: int| 0 <= i < batches@.len() ==> batch_ok((#[trigger] batches@[i])@),
    ensures
        yields_list(
            r,
            match changes_of_all(views(batches@), batches@.len() as int) {
                Err(e) => Err(e),
                Ok(records) => Ok(stably_sorted::<GraphChangeRecord>(records)),
            },
        ),
{
    let ghost all = views(batches@);
    let mut out: Vec<GraphChangeRecord> = Vec::new();
    assert(views(out@) =~= Seq::<ChangeModel>::empty());
    let mut i: usize = 0;
    while i < batches.len()
        invariant
            i <= batches@.len(),
            all == views(batches@),
            forall|i: int| 0 <= i < batches@.len() ==> batch_ok((#[trigger] batches@[i])@),
            changes_of_all(all, i as int) == Ok::<Seq<ChangeModel>, ErrorModel>(views(out@)),
        decreases batches@.len() - i,
    {
        assert(all[i as int] == batches@[i as int]@);
        match graph_change_records_from_batch(&batches[i]) {
            Err(e) => {
                proof {
                    lemma_changes_of_all_refused(all, all.len() as int, i as int + 1);
                }
                return Err(e);
            },
            Ok(more) => {
                out = extend(out, more);
            },
        }
        i = i + 1;
    }
    Ok(stable_sort(out))
}

/// Puts the commits that were read from the log's tables in order.
pub fn order_graph_commit_records(records: Vec<GraphCommitRecord>) -> (r: Vec<GraphCommitRecord>)
    ensures
        views(r@) == stably_sorted::<GraphCommitRecord>(views(records@)),
{
    stable_sort(records)
}

// ---------------------------------------------------------------------------
// Staging

/// The first entry of a table, by the name it goes by, from `i` on.
pub open spec fn entry_of_table(datasets: Seq<DatasetEntryModel>, table_id: Seq<char>, i: int) -> Option<
    DatasetEntryModel,
>
    decreases datasets.len() - i,
{
    if i < 0 || i >= datasets.len() {
        None
    } else if datasets[i].table_id == Some(table_id) {
        Some(datasets[i])
    } else {
        entry_of_table(datasets, table_id, i + 1)
    }
}

fn find_entry_of_table<'a>(datasets: &'a Vec<DatasetEntry>, table_id: &str) -> (r: Option<
    &'a DatasetEntry,
>)
    ensures
        match r {
            Some(e) => entry_of_table(views(datasets@), table_id@, 0) == Some(e@),
            None => entry_of_table(views(datasets@), table_id@, 0) is None,
        },
{
    let mut i: usize = 0;
    while i < datasets.len()
        invariant
            i <= datasets@.len(),
            entry_of_table(views(datasets@), table_id@, 0) == entry_of_table(
                views(datasets@),
                table_id@,
                i as int,
            ),
        decreases datasets@.len() - i,
    {
        assert(views(datasets@)[i as int] == datasets@[i as int]@);
        if let Some(id) = &datasets[i].table_id {
            if same(id, table_id) {
                return Some(&datasets[i]);
            }
        }
        i = i + 1;
    }
    None
}

/// The version of a log table that the manifest pins; the table is yet to be made where
/// that is 0.
pub open spec fn pinned_version(m: ManifestModel, table_id: Seq<char>) -> u64 {
    match entry_of_table(m.datasets, table_id, 0) {
        Some(e) => e.dataset_version,
        None => 0,
    }
}

/// The version of a log table that the manifest pins.
pub fn pinned_table_version(manifest: &GraphManifest, table_id: &str) -> (r: GraphTableVersion)
    ensures
        r@ == (TableVersionModel {
            table_id: table_id@,
            version: pinned_version(manifest@, table_id@),
        }),
{
    match find_entry_of_table(&manifest.datasets, table_id) {
        Some(e) => GraphTableVersion::new(table_id, e.dataset_version),
        None => GraphTableVersion::new(table_id, 0),
    }
}

/// The rows of a log table once some more are staged.
pub open spec fn staged_rows(m: ManifestModel, table_id: Seq<char>, added: nat) -> nat {
    let before = match entry_of_table(m.datasets, table_id, 0) {
        Some(e) => e.row_count as nat,
        None => 0,
    };
    if before + added <= u64::MAX {
        before + added
    } else {
        u64::MAX as nat
    }
}

/// The entry of a log table once some more rows are staged at a version.
pub fn staged_entry(
    manifest: &GraphManifest,
    table_id: &str,
    dataset_path: String,
    version: u64,
    added: u64,
) -> (r: DatasetEntry)
    ensures
        r@ == internal_entry(
            table_id@,
            dataset_path@,
            version,
            staged_rows(manifest@, table_id@, added as nat) as u64,
        ),
{
    let before: u64 = match find_entry_of_table(&manifest.datasets, table_id) {
        Some(e) => e.row_count,
        None => 0,
    };
    DatasetEntry::internal(table_id, dataset_path, version, before.saturating_add(added))
}

/// A staged table with the version under which it can be published.
#[derive(Debug)]
pub struct StagedNamespaceTable {
    pub entry: DatasetEntry,
    pub published_version: u64,
}

/// A staged table; a version that cannot be published is refused, named by `what`.
pub fn stage_table(what: &str, table_id: &str, entry: DatasetEntry, published_version: Option<u64>) -> (r:
    Result<StagedNamespaceTable, NanoError>)
    ensures
        match r {
            Ok(t) => published_version == Some(t.published_version) && t.entry@ == entry@,
            Err(e) => published_version is None && e@ == ErrorModel::Storage(
                what@ + " "@ + table_id@ + " version "@ + decimal(entry@.dataset_version as nat)
                    + " is not publishable"@,
            ),
        },
{
    match published_version {
        Some(published_version) => Ok(StagedNamespaceTable { entry, published_version }),
        None => {
            let mut m = cat4(what, " ", table_id, " version ");
            m.append(&decimal_u64(entry.dataset_version));
            m.append(" is not publishable");
            Err(NanoError::Storage(m))
        },
    }
}

/// What comes next when records are staged into a log table.
#[derive(Debug)]
pub enum StageStep {
    /// The table is yet to be made.
    EnsureTable,
    /// The rows go behind this version of the table.
    AppendAt { base: GraphTableVersion, batch: Batch },
}

/// The version of a log table behind which rows go: the pinned one, else that of the table
/// just made, if it was.
pub open spec fn stage_base(m: ManifestModel, table_id: Seq<char>, made: Option<DatasetEntryModel>) -> Option<
    TableVersionModel,
> {
    if pinned_version(m, table_id) != 0 {
        Some(TableVersionModel { table_id, version: pinned_version(m, table_id) })
    } else {
        match made {
            Some(e) => Some(TableVersionModel { table_id, version: e.dataset_version }),
            None => None,
        }
    }
}

/// Whether `r` is the step of staging a batch at a base.
pub open spec fn stages(r: StageStep, base: Option<TableVersionModel>, batch: BatchModel) -> bool {
    match r {
        StageStep::EnsureTable => base is None,
        StageStep::AppendAt { base: b, batch: rows } => base == Some(b@) && rows@ == batch
            && batch_ok(rows@),
    }
}

fn stage_step(manifest: &GraphManifest, table_id: &str, made: Option<&DatasetEntry>, batch: Batch) -> (r:
    StageStep)
    requires
        batch_ok(batch@),
    ensures
        stages(r, stage_base(manifest@, table_id@, made_view(made)), batch@),
{
    let pinned = pinned_table_version(manifest, table_id);
    if pinned.version != 0 {
        return StageStep::AppendAt { base: pinned, batch };
    }
    match made {
        Some(e) => StageStep::AppendAt {
            base: GraphTableVersion::new(table_id, e.dataset_version),
            batch,
        },
        None => StageStep::EnsureTable,
    }
}

/// The entry of a table that was made, as a mathematical value.
pub open spec fn made_view(made: Option<&DatasetEntry>) -> Option<DatasetEntryModel> {
    match made {
        Some(e) => Some(e@),
        None => None,
    }
}

/// What staging one commit takes, once its table versions are written as JSON: the table has
/// to be made where no version of it is pinned and none was made, else the commit's row goes
/// behind that version.
pub fn stage_graph_commit_record(
    manifest: &GraphManifest,
    record: GraphCommitRecord,
    table_versions_json: String,
    made: Option<&DatasetEntry>,
) -> (r: StageStep)
    ensures
        stages(
            r,
            stage_base(manifest@, "__graph_tx"@, made_view(made)),
            commit_batch(seq![record@], seq![table_versions_json@]),
        ),
{
    let ghost one = seq![record@];
    let ghost written = seq![table_versions_json@];
    let mut records: Vec<GraphCommitRecord> = Vec::new();
    records.push(record);
    let mut json: Vec<String> = Vec::new();
    json.push(table_versions_json);
    assert(views(records@) =~= one);
    assert(views(json@) =~= written);
    match graph_commit_records_to_batch(&records, json) {
        Some(batch) => stage_step(manifest, "__graph_tx", made, batch),
        None => StageStep::EnsureTable,
    }
}

/// What staging changes takes. There has to be at least one.
pub fn stage_graph_change_records(
    manifest: &GraphManifest,
    records: &Vec<GraphChangeRecord>,
    made: Option<&DatasetEntry>,
) -> (r: Result<StageStep, NanoError>)
    ensures
        match r {
            Ok(step) => records@.len() > 0 && stages(
                step,
                stage_base(manifest@, "__graph_changes"@, made_view(made)),
                change_batch(views(records@)),
            ),
            Err(e) => records@.len() == 0 && e@ == ErrorModel::Storage(
                "graph change append expected a batch"@,
            ),
        },
{
    match graph_change_records_to_batch(records) {
        Some(batch) => Ok(stage_step(manifest, "__graph_changes", made, batch)),
        None => Err(NanoError::Storage("graph change append expected a batch".to_owned())),
    }
}

} // verus!
