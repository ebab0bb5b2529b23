//! The committed snapshot of a graph.

use crate::error::{ErrorModel, NanoError};
use crate::store::batch::{batch_ok, u64_column, utf8_column, Batch, BatchModel};
use crate::store::storage_generation::{StorageGeneration};
use crate::text::{views};
use vstd::prelude::*;

verus! {

/// Where the committed snapshot of a database is.
#[derive(Debug, Clone, Copy, PartialEq, Eq, Structural)]
pub enum SnapshotStore {
    /// In a table of the namespace.
    Namespace,
    /// In a manifest file.
    Manifest,
}

/// Where the snapshot of a database of a layout is.
pub open spec fn snapshot_store(generation: Option<StorageGeneration>) -> SnapshotStore {
    match generation {
        Some(_) => SnapshotStore::Namespace,
        None => SnapshotStore::Manifest,
    }
}

/// Where the snapshot of a database is read, once its layout is known.
pub fn read_committed_graph_snapshot(detected: Result<Option<StorageGeneration>, NanoError>) -> (r:
    Result<SnapshotStore, NanoError>)
    ensures
        match detected {
            Ok(g) => r matches Ok(s) && s == snapshot_store(g),
            Err(e) => r matches Err(f) && f@ == e@,
        },
{
    match detected {
        Ok(Some(StorageGeneration::V4Namespace | StorageGeneration::NamespaceLineage)) => Ok(
            SnapshotStore::Namespace,
        ),
        Ok(None) => Ok(SnapshotStore::Manifest),
        Err(e) => Err(e),
    }
}

/// Where the snapshot of a database is published, once its layout is known.
pub fn publish_committed_graph_snapshot(
    detected: Result<Option<StorageGeneration>, NanoError>,
) -> (r: Result<SnapshotStore, NanoError>)
    ensures
        match detected {
            Ok(g) => r matches Ok(s) && s == snapshot_store(g),
            Err(e) => r matches Err(f) && f@ == e@,
        },
{
    match detected {
        Ok(Some(StorageGeneration::V4Namespace | StorageGeneration::NamespaceLineage)) => Ok(
            SnapshotStore::Namespace,
        ),
        Ok(None) => Ok(SnapshotStore::Manifest),
        Err(e) => Err(e),
    }
}

// ---------------------------------------------------------------------------
// The latest row of the snapshot table

/// The rows of a batch of the snapshot table: the version of the graph, and its manifest.
pub open spec fn snapshot_rows(b: BatchModel) -> Result<Seq<(u64, Seq<char>)>, Seq<char>> {
    match u64_column(b, "graph snapshot"@, "graph_version"@) {
        Err(m) => Err(m),
        Ok(versions) => match utf8_column(b, "graph snapshot"@, "manifest_json"@) {
            Err(m) => Err(m),
            Ok(payloads) => Ok(Seq::new(b.num_rows, |i: int| (versions[i], payloads[i]))),
        },
    }
}

/// The rows of the first `n` batches, or the message of the first of the wrong shape.
pub open spec fn all_snapshot_rows(b: Seq<BatchModel>, n: int) -> Result<
    Seq<(u64, Seq<char>)>,
    Seq<char>,
>
    decreases n,
{
    if n <= 0 {
        Ok(Seq::empty())
    } else {
        match all_snapshot_rows(b, n - 1) {
            Err(m) => Err(m),
            Ok(done) => match snapshot_rows(b[n - 1]) {
                Err(m) => Err(m),
                Ok(rows) => Ok(done + rows),
            },
        }
    }
}

/// The latest of the first `n` rows: of rows of the same version the last.
pub open spec fn latest_row(rows: Seq<(u64, Seq<char>)>, n: int) -> Option<(u64, Seq<char>)>
    decreases n,
{
    if n <= 0 {
        None
    } else {
        match latest_row(rows, n - 1) {
            None => Some(rows[n - 1]),
            Some(best) => if rows[n - 1].0 >= best.0 {
                Some(rows[n - 1])
            } else {
                Some(best)
            },
        }
    }
}

/// The manifest text of the latest snapshot.
pub open spec fn latest_manifest(b: Seq<BatchModel>) -> Result<Seq<char>, Seq<char>> {
    match all_snapshot_rows(b, b.len() as int) {
        Err(m) => Err(m),
        Ok(rows) => match latest_row(rows, rows.len() as int) {
            None => Err("graph snapshot table is empty"@),
            Some(row) => Ok(row.1),
        },
    }
}

proof fn lemma_snapshot_rows_refused(b: Seq<BatchModel>, n: int, k: int)
    requires
        0 <= k <= n,
        all_snapshot_rows(b, k) is Err,
    ensures
        all_snapshot_rows(b, n) == all_snapshot_rows(b, k),
    decreases n,
{
    if k < n {
        lemma_snapshot_rows_refused(b, n - 1, k);
    }
}

/// The latest row of a longer sequence depends only on its front.
proof fn lemma_latest_of_front(rows: Seq<(u64, Seq<char>)>, more: Seq<(u64, Seq<char>)>, n: int)
    requires
        0 <= n <= rows.len(),
    ensures
        latest_row(rows + more, n) == latest_row(rows, n),
    decreases n,
{
    if n > 0 {
        lemma_latest_of_front(rows, more, n - 1);
    }
}

/// The manifest text of the latest snapshot in the batches of the snapshot table.
pub fn latest_snapshot_manifest(batches: &Vec<Batch>) -> (r: Result<String, NanoError>)
    requires
        forall|i: int| 0 <= i < batches@.len() ==> batch_ok((#[trigger] batches@[i])@),
    ensures
        match r {
            Ok(s) => latest_manifest(views(batches@)) == Ok::<Seq<char>, Seq<char>>(s@),
            Err(e) => latest_manifest(views(batches@)) matches Err(m) && e@ == ErrorModel::Storage(
                m,
            ),
        },
{
    let ghost all = views(batches@);
    let ghost mut seen: Seq<(u64, Seq<char>)> = Seq::empty();
    let mut latest: Option<(u64, String)> = None;
    let mut b: usize = 0;
    while b < batches.len()
        invariant
            b <= batches@.len(),
            all == views(batches@),
            forall|i: int| 0 <= i < batches@.len() ==> batch_ok((#[trigger] batches@[i])@),
            all_snapshot_rows(all, b as int) == Ok::<Seq<(u64, Seq<char>)>, Seq<char>>(seen),
            match latest {
                None => latest_row(seen, seen.len() as int) is None,
                Some(row) => latest_row(seen, seen.len() as int) == Some((row.0, row.1@)),
            },
        decreases batches@.len() - b,
    {
        let batch = &batches[b];
        assert(all[b as int] == batch@);
        let versions = match batch.uint64("graph snapshot", "graph_version") {
            Ok(v) => v,
            Err(e) => {
                proof {
                    lemma_snapshot_rows_refused(all, all.len() as int, b as int + 1);
                }
                return Err(e);
            },
        };
        let payloads = match batch.utf8("graph snapshot", "manifest_json") {
            Ok(v) => v,
            Err(e) => {
                proof {
                    lemma_snapshot_rows_refused(all, all.len() as int, b as int + 1);
                }
                return Err(e);
            },
        };
        let ghost rows = snapshot_rows(batch@)->Ok_0;
        let ghost whole = seen + rows;
        proof {
            lemma_latest_of_front(seen, rows, seen.len() as int);
        }
        let mut i: usize = 0;
        while i < batch.num_rows
            invariant
                i <= batch.num_rows,
                versions@.len() == batch.num_rows,
                payloads@.len() == batch.num_rows,
                rows.len() == batch.num_rows,
                whole == seen + rows,
                forall|k: int|
                    0 <= k < rows.len() ==> (#[trigger] rows[k]) == (versions@[k], payloads@[k]@),
                match latest {
                    None => latest_row(whole, seen.len() + i) is None,
                    Some(row) => latest_row(whole, seen.len() + i) == Some((row.0, row.1@)),
                },
            decreases batch.num_rows - i,
        {
            let version: u64 = versions[i];
            assert(whole[seen.len() + i] == rows[i as int]);
            let newer = match &latest {
                None => true,
                Some(row) => version >= row.0,
            };
            if newer {
                latest = Some((version, payloads[i].clone()));
            }
            i = i + 1;
        }
        proof {
            seen = whole;
        }
        b = b + 1;
    }
    match latest {
        Some(row) => Ok(row.1),
        None => Err(NanoError::Storage("graph snapshot table is empty".to_owned())),
    }
}

/// The latest row is one of the rows, no row has a later version, and every row behind it
/// has an earlier one.
pub proof fn law_latest_row_is_latest(rows: Seq<(u64, Seq<char>)>, n: int)
    requires
        0 < n <= rows.len(),
    ensures
        exists|k: int|
            0 <= k < n && latest_row(rows, n) == Some(#[trigger] rows[k]) && (forall|j: int|
                0 <= j < n ==> (#[trigger] rows[j]).0 <= rows[k].0) && (forall|j: int|
                k < j < n ==> (#[trigger] rows[j]).0 < rows[k].0),
    decreases n,
{
    if n > 1 {
        law_latest_row_is_latest(rows, n - 1);
        let k = choose|k: int|
            0 <= k < n - 1 && latest_row(rows, n - 1) == Some(#[trigger] rows[k]) && (forall|j: int|
                0 <= j < n - 1 ==> (#[trigger] rows[j]).0 <= rows[k].0) && (forall|j: int|
                k < j < n - 1 ==> (#[trigger] rows[j]).0 < rows[k].0);
        if rows[n - 1].0 >= rows[k].0 {
            assert(latest_row(rows, n) == Some(rows[n - 1]));
        } else {
            assert(latest_row(rows, n) == Some(rows[k]));
        }
    } else {
        assert(latest_row(rows, 0) is None);
        assert(latest_row(rows, 1) == Some(rows[0]));
    }
}

} // verus!
