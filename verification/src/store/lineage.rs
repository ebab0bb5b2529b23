//! The internal tables of a database that keeps its lineage.

use crate::error::NanoError;
use crate::store::manifest::{table_id_of, DatasetEntry, DatasetEntryModel};
use crate::store::storage_generation::StorageGeneration;
use crate::text::{lemma_views_push, same, views};
use vstd::prelude::*;

verus! {

/// Whether a database has internal lineage tables, by its layout; a layout that could not be
/// told is handed on as the error it gave.
pub fn has_lineage_tables(detected: Result<Option<StorageGeneration>, NanoError>) -> (r: Result<
    bool,
    NanoError,
>)
    ensures
        match detected {
            Ok(layout) => r matches Ok(b) && b == (layout == Some(
                StorageGeneration::NamespaceLineage,
            )),
            Err(e) => r matches Err(f) && f@ == e@,
        },
{
    match detected {
        Ok(Some(StorageGeneration::NamespaceLineage)) => Ok(true),
        Ok(_) => Ok(false),
        Err(e) => Err(e),
    }
}

/// Whether an entry is of a table with the name of one of the internal entries.
pub open spec fn is_replaced(e: DatasetEntryModel, internal: Seq<DatasetEntryModel>) -> bool {
    exists|i: int| 0 <= i < internal.len() && table_id_of(#[trigger] internal[i]) == table_id_of(e)
}

/// The first `n` entries without those that internal entries replace.
pub open spec fn kept_entries(
    entries: Seq<DatasetEntryModel>,
    internal: Seq<DatasetEntryModel>,
    n: int,
) -> Seq<DatasetEntryModel>
    decreases n,
{
    if n <= 0 {
        Seq::empty()
    } else if is_replaced(entries[n - 1], internal) {
        kept_entries(entries, internal, n - 1)
    } else {
        kept_entries(entries, internal, n - 1).push(entries[n - 1])
    }
}

fn replaced(e: &DatasetEntry, internal: &Vec<DatasetEntry>) -> (r: bool)
    ensures
        r == is_replaced(e@, views(internal@)),
{
    let mut i: usize = 0;
    while i < internal.len()
        invariant
            i <= internal@.len(),
            forall|k: int|
                0 <= k < i ==> table_id_of(#[trigger] views(internal@)[k]) != table_id_of(e@),
        decreases internal@.len() - i,
    {
        assert(views(internal@)[i as int] == internal@[i as int]@);
        if same(internal[i].effective_table_id(), e.effective_table_id()) {
            return true;
        }
        i = i + 1;
    }
    false
}

/// Puts the internal entries behind the others, in place of those of the same tables.
#[verifier::loop_isolation(false)]
pub fn merge_internal_entries(entries: Vec<DatasetEntry>, internal: Vec<DatasetEntry>) -> (r: Vec<
    DatasetEntry,
>)
    ensures
        views(r@) == (if internal@.len() == 0 {
            views(entries@)
        } else {
            kept_entries(views(entries@), views(internal@), entries@.len() as int) + views(
                internal@,
            )
        }),
{
    if internal.len() == 0 {
        return entries;
    }
    let ghost all = views(entries@);
    let ghost given = entries@;
    let mut out: Vec<DatasetEntry> = Vec::new();
    assert(views(out@) =~= Seq::<DatasetEntryModel>::empty());
    for e in it: entries
        invariant
            it.seq() == given,
            views(out@) == kept_entries(all, views(internal@), it.index() as int),
    {
        assert(all[it.index() as int] == e@);
        if !replaced(&e, &internal) {
            proof {
                lemma_views_push(out@, e);
            }
            out.push(e);
        }
    }
    let ghost kept = out@;
    let ghost added = internal@;
    let mut internal = internal;
    out.append(&mut internal);
    assert(out@ =~= kept + added);
    assert(views(out@) =~= views(kept) + views(added));
    out
}

/// After the merge no table has an entry of its own and an internal one.
pub proof fn law_internal_entries_replace(
    entries: Seq<DatasetEntryModel>,
    internal: Seq<DatasetEntryModel>,
    n: int,
)
    requires
        0 <= n <= entries.len(),
    ensures
        forall|k: int|
            0 <= k < kept_entries(entries, internal, n).len() ==> !is_replaced(
                #[trigger] kept_entries(entries, internal, n)[k],
                internal,
            ),
    decreases n,
{
    if n > 0 {
        law_internal_entries_replace(entries, internal, n - 1);
        let before = kept_entries(entries, internal, n - 1);
        let kept = kept_entries(entries, internal, n);
        assert forall|k: int| 0 <= k < kept.len() implies !is_replaced(
            #[trigger] kept[k],
            internal,
        ) by {
            if k < before.len() {
                assert(kept[k] == before[k]);
            }
        }
    }
}

} // verus!
