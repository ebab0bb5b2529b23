//! What holds of every read: of edges, of tables and their places, of snapshots and of text
//! searches.

use crate::path::joined;
use crate::store::batch::{column_named, BatchModel, ColumnModel};
use crate::store::lineage::{is_replaced, kept_entries};
use crate::store::manifest::{table_id_of, DatasetEntryModel, ManifestModel};
use crate::store::metadata::{entry_for, locator_of, with_paths, LocatorModel};
use crate::store::runtime::{all_edges, edges_of, locators_of, reversed_edges, rows_of_ids};
use crate::store::search::{char_alphanumeric, lemma_term_end, scored_rows, scores_of, term_end, terms_from, terms_of, text_query, NativeTextQueryModel, TextSearchKind};
use crate::store::snapshot::{all_snapshot_rows, latest_manifest, latest_row, law_latest_row_is_latest, snapshot_rows};
use crate::strings::lowered;
use vstd::prelude::*;

verus! {

// ---------------------------------------------------------------------------
// Columns

/// A column is found by its name: the first of that name, or none where no column has it.
pub proof fn law_columns_are_found_by_name(b: BatchModel, name: Seq<char>, i: int)
    requires
        0 <= i,
    ensures
        match column_named(b, name, i) {
            Some(c) => exists|k: int|
                i <= k < b.columns.len() && (#[trigger] b.columns[k]).0 == name && b.columns[k].1
                    == c && forall|j: int| i <= j < k ==> (#[trigger] b.columns[j]).0 != name,
            None => forall|j: int| i <= j < b.columns.len() ==> (#[trigger] b.columns[j]).0 != name,
        },
    decreases b.columns.len() - i,
{
    if i < b.columns.len() {
        if b.columns[i].0 == name {
            assert(b.columns[i].1 == column_named(b, name, i)->0);
        } else {
            law_columns_are_found_by_name(b, name, i + 1);
        }
    }
}

/// The number of rows of the first `n` tables.
pub open spec fn rows_before(b: Seq<BatchModel>, n: int) -> nat
    decreases n,
{
    if n <= 0 {
        0
    } else {
        rows_before(b, n - 1) + b[n - 1].num_rows
    }
}

// ---------------------------------------------------------------------------
// Edges

/// Edges keep their direction: what is listed of the row of a table goes from the node in
/// its column `src` to the node in its column `dst`, under the identity in its column `id`,
/// and seen from its destination it is the same edge with its ends exchanged. Every row is
/// listed once and in order, and nothing else is.
pub proof fn law_edges_keep_their_direction(b: Seq<BatchModel>, n: int)
    requires
        0 <= n <= b.len(),
    ensures
        all_edges(b, n) matches Ok(out) ==> {
            &&& out.len() == rows_before(b, n)
            &&& forall|t: int, r: int|
                #![trigger b[t], out[rows_before(b, t) + r]]
                0 <= t < n && 0 <= r < b[t].num_rows ==> lists_row(
                    b[t],
                    r,
                    out[rows_before(b, t) + r],
                    reversed_edges(out)[rows_before(b, t) + r],
                )
            &&& reversed_edges(out).len() == out.len()
        },
    decreases n,
{
    if n > 0 && all_edges(b, n) is Ok {
        law_edges_keep_their_direction(b, n - 1);
        let before = all_edges(b, n - 1)->Ok_0;
        let out = all_edges(b, n)->Ok_0;
        assert forall|t: int, r: int|
            #![trigger b[t], out[rows_before(b, t) + r]]
            0 <= t < n && 0 <= r < b[t].num_rows implies lists_row(
            b[t],
            r,
            out[rows_before(b, t) + r],
            reversed_edges(out)[rows_before(b, t) + r],
        ) by {
            lemma_rows_before(b, t + 1, n);
            if t < n - 1 {
                lemma_rows_before(b, t + 1, n - 1);
                assert(out[rows_before(b, t) + r] == before[rows_before(b, t) + r]);
                assert(lists_row(
                    b[t],
                    r,
                    before[rows_before(b, t) + r],
                    reversed_edges(before)[rows_before(b, t) + r],
                ));
            } else {
                assert(out[rows_before(b, t) + r] == edges_of(b[t])->Ok_0[r]);
            }
        }
    }
}

/// Whether two triples are the edge in a row of a table, seen from its source and from its
/// destination.
pub open spec fn lists_row(
    b: BatchModel,
    r: int,
    outgoing: (u64, u64, u64),
    incoming: (u64, u64, u64),
) -> bool {
    match (
        column_named(b, "id"@, 0),
        column_named(b, "src"@, 0),
        column_named(b, "dst"@, 0),
    ) {
        (
            Some(ColumnModel::UInt64(ids, _)),
            Some(ColumnModel::UInt64(src, _)),
            Some(ColumnModel::UInt64(dst, _)),
        ) => {
            &&& outgoing.0 == src[r]
            &&& outgoing.1 == dst[r]
            &&& outgoing.2 == ids[r]
            &&& incoming.0 == dst[r]
            &&& incoming.1 == src[r]
            &&& incoming.2 == ids[r]
        },
        _ => false,
    }
}

proof fn lemma_rows_before(b: Seq<BatchModel>, m: int, n: int)
    requires
        0 <= m <= n,
    ensures
        rows_before(b, m) <= rows_before(b, n),
    decreases n - m,
{
    if m < n {
        lemma_rows_before(b, m, n - 1);
    }
}

/// Edges are read exactly where every table has its three columns of numbers.
pub proof fn law_edges_are_read_where_the_columns_are(b: Seq<BatchModel>, n: int)
    requires
        0 <= n <= b.len(),
    ensures
        all_edges(b, n) is Ok <==> forall|t: int|
            0 <= t < n ==> (column_named(#[trigger] b[t], "id"@, 0) matches Some(
                ColumnModel::UInt64(_, _),
            )) && (column_named(b[t], "src"@, 0) matches Some(ColumnModel::UInt64(_, _))) && (
            column_named(b[t], "dst"@, 0) matches Some(ColumnModel::UInt64(_, _))),
    decreases n,
{
    if n > 0 {
        law_edges_are_read_where_the_columns_are(b, n - 1);
    }
}

/// Of two rows with one identity the later is found.
pub proof fn law_lookup_finds_the_last_row(ids: Seq<u64>, n: int, i: int)
    requires
        0 <= i < n <= ids.len() <= usize::MAX,
    ensures
        rows_of_ids(ids, n).contains_key(ids[i]),
        i <= rows_of_ids(ids, n)[ids[i]] < n,
        ids[rows_of_ids(ids, n)[ids[i]] as int] == ids[i],
    decreases n,
{
    if i < n - 1 {
        law_lookup_finds_the_last_row(ids, n - 1, i);
    }
}

// ---------------------------------------------------------------------------
// Tables and their places

/// The entry of a type is one of the manifest with its kind and label, and the last of those.
pub proof fn law_entries_are_found_by_type(
    datasets: Seq<DatasetEntryModel>,
    kind: Seq<char>,
    label: Seq<char>,
    n: int,
)
    requires
        0 <= n <= datasets.len(),
    ensures
        match entry_for(datasets, kind, label, n) {
            Some(e) => e.kind == kind && e.type_label == label && exists|k: int|
                0 <= k < n && #[trigger] datasets[k] == e && forall|j: int|
                    k < j < n ==> (#[trigger] datasets[j]).kind != kind || datasets[j].type_label
                        != label,
            None => forall|j: int|
                0 <= j < n ==> (#[trigger] datasets[j]).kind != kind || datasets[j].type_label
                    != label,
        },
    decreases n,
{
    if n > 0 {
        if datasets[n - 1].kind == kind && datasets[n - 1].type_label == label {
            assert(datasets[n - 1] == entry_for(datasets, kind, label, n)->0);
        } else {
            law_entries_are_found_by_type(datasets, kind, label, n - 1);
        }
    }
}

/// A reader finds the table of a type where the manifest has it, in the version that was
/// committed: the runtime and the metadata of a database give the same place, and none for a
/// type that has no table.
pub proof fn law_readers_find_the_committed_tables(
    path: Seq<char>,
    datasets: Seq<DatasetEntryModel>,
    kind: Seq<char>,
    label: Seq<char>,
    n: int,
)
    requires
        0 <= n <= datasets.len(),
    ensures
        match entry_for(datasets, kind, label, n) {
            Some(e) => locators_of(path, datasets, kind, n).contains_key(label) && ({
                let l = locators_of(path, datasets, kind, n)[label];
                &&& l.dataset_version == e.dataset_version
                &&& l.row_count == e.row_count
                &&& l.db_path == path
                &&& l.dataset_path == joined(path, e.dataset_path)
                &&& l.table_id == (if e.table_id is Some {
                    e.table_id->0
                } else {
                    e.dataset_path
                })
                &&& l.namespace_managed
                &&& l == locator_of(path, e, true)
            }),
            None => !locators_of(path, datasets, kind, n).contains_key(label),
        },
    decreases n,
{
    if n > 0 {
        law_readers_find_the_committed_tables(path, datasets, kind, label, n - 1);
    }
}

/// A place carries the version, the rows and the path of its entry, and says whether the
/// table is managed.
pub proof fn law_places_are_those_of_their_entries(
    path: Seq<char>,
    e: DatasetEntryModel,
    managed: bool,
)
    ensures
        ({
            let l: LocatorModel = locator_of(path, e, managed);
            &&& l.dataset_version == e.dataset_version
            &&& l.row_count == e.row_count
            &&& l.db_path == path
            &&& l.dataset_path == joined(path, e.dataset_path)
            &&& e.table_id matches Some(id) ==> l.table_id == id
            &&& e.table_id is None ==> l.table_id == e.dataset_path
            &&& l.namespace_managed == managed
        }),
{
}

/// Opening a database changes nothing of its manifest but the paths that were missing, which
/// become the identities of their tables.
pub proof fn law_opening_only_fills_paths(m: ManifestModel, i: int)
    ensures
        with_paths(m).datasets.len() == m.datasets.len(),
        with_paths(m).db_version == m.db_version,
        with_paths(m).last_tx_id == m.last_tx_id,
        with_paths(m).schema_ir_hash == m.schema_ir_hash,
        with_paths(m).next_node_id == m.next_node_id,
        with_paths(m).next_edge_id == m.next_edge_id,
        0 <= i < m.datasets.len() ==> ({
            let e = with_paths(m).datasets[i];
            let o = m.datasets[i];
            &&& e.kind == o.kind && e.type_label == o.type_label && e.type_id == o.type_id
            &&& e.dataset_version == o.dataset_version && e.row_count == o.row_count
            &&& e.table_id == o.table_id
            &&& o.dataset_path.len() > 0 ==> e.dataset_path == o.dataset_path
            &&& o.dataset_path.len() == 0 && o.table_id is Some ==> e.dataset_path
                == o.table_id->0
        }),
{
}

/// Entries of the lineage take the place of those of the same table, and every other entry
/// stays as it was.
pub proof fn law_other_entries_stay(
    entries: Seq<DatasetEntryModel>,
    internal: Seq<DatasetEntryModel>,
    n: int,
    k: int,
)
    requires
        0 <= k < n <= entries.len(),
        forall|i: int|
            0 <= i < internal.len() ==> table_id_of(#[trigger] internal[i]) != table_id_of(
                entries[k],
            ),
    ensures
        kept_entries(entries, internal, n).contains(entries[k]),
    decreases n,
{
    let before = kept_entries(entries, internal, n - 1);
    let after = kept_entries(entries, internal, n);
    if k < n - 1 {
        law_other_entries_stay(entries, internal, n - 1, k);
        let i = choose|i: int| 0 <= i < before.len() && before[i] == entries[k];
        assert(after[i] == entries[k]);
    } else {
        assert(!is_replaced(entries[k], internal));
        assert(after[after.len() - 1] == entries[k]);
    }
}

/// What is kept beside the entries of the lineage was there before.
pub proof fn law_no_entry_is_made_up(
    entries: Seq<DatasetEntryModel>,
    internal: Seq<DatasetEntryModel>,
    n: int,
    k: int,
)
    requires
        0 <= n <= entries.len(),
        0 <= k < kept_entries(entries, internal, n).len(),
    ensures
        exists|i: int|
            0 <= i < n && #[trigger] entries[i] == kept_entries(entries, internal, n)[k],
    decreases n,
{
    if n > 0 {
        if k < kept_entries(entries, internal, n - 1).len() {
            law_no_entry_is_made_up(entries, internal, n - 1, k);
        } else {
            assert(entries[n - 1] == kept_entries(entries, internal, n)[k]);
        }
    }
}

// ---------------------------------------------------------------------------
// Snapshots

/// Whether a row of a snapshot table holds a payload under a version.
pub open spec fn holds_snapshot(b: BatchModel, r: int, version: u64, payload: Seq<char>) -> bool {
    &&& 0 <= r < b.num_rows
    &&& column_named(b, "graph_version"@, 0) matches Some(ColumnModel::UInt64(v, _)) && v[r]
        == version
    &&& column_named(b, "manifest_json"@, 0) matches Some(ColumnModel::Utf8(p)) && p[r] == payload
}

proof fn lemma_snapshot_rows(b: Seq<BatchModel>, n: int)
    requires
        0 <= n <= b.len(),
        all_snapshot_rows(b, n) is Ok,
    ensures
        ({
            let rows = all_snapshot_rows(b, n)->Ok_0;
            &&& rows.len() == rows_before(b, n)
            &&& forall|k: int|
                0 <= k < rows.len() ==> exists|t: int|
                    0 <= t < n && holds_snapshot(
                        #[trigger] b[t],
                        k - rows_before(b, t),
                        (#[trigger] rows[k]).0,
                        rows[k].1,
                    )
            &&& forall|t: int, r: int|
                #![trigger b[t], rows[rows_before(b, t) + r]]
                0 <= t < n && 0 <= r < b[t].num_rows ==> holds_snapshot(
                    b[t],
                    r,
                    rows[rows_before(b, t) + r].0,
                    rows[rows_before(b, t) + r].1,
                )
        }),
    decreases n,
{
    if n > 0 {
        lemma_snapshot_rows(b, n - 1);
        let before = all_snapshot_rows(b, n - 1)->Ok_0;
        let rows = all_snapshot_rows(b, n)->Ok_0;
        let last = snapshot_rows(b[n - 1])->Ok_0;
        assert forall|k: int| 0 <= k < rows.len() implies exists|t: int|
            0 <= t < n && holds_snapshot(
                #[trigger] b[t],
                k - rows_before(b, t),
                (#[trigger] rows[k]).0,
                rows[k].1,
            ) by {
            if k < before.len() {
                assert(rows[k] == before[k]);
                let t = choose|t: int|
                    0 <= t < n - 1 && holds_snapshot(
                        #[trigger] b[t],
                        k - rows_before(b, t),
                        before[k].0,
                        before[k].1,
                    );
                assert(holds_snapshot(b[t], k - rows_before(b, t), rows[k].0, rows[k].1));
            } else {
                let r = k - before.len();
                assert(rows[k] == last[r]);
                assert(holds_snapshot(b[n - 1], r, rows[k].0, rows[k].1));
            }
        }
        assert forall|t: int, r: int|
            #![trigger b[t], rows[rows_before(b, t) + r]]
            0 <= t < n && 0 <= r < b[t].num_rows implies holds_snapshot(
            b[t],
            r,
            rows[rows_before(b, t) + r].0,
            rows[rows_before(b, t) + r].1,
        ) by {
            lemma_rows_before(b, t + 1, n);
            if t < n - 1 {
                lemma_rows_before(b, t + 1, n - 1);
                assert(rows[rows_before(b, t) + r] == before[rows_before(b, t) + r]);
            } else {
                assert(rows[rows_before(b, t) + r] == last[r]);
            }
        }
    }
}

/// Whether no row of the snapshot tables has a version behind the given one.
pub open spec fn none_later(b: Seq<BatchModel>, version: u64) -> bool {
    forall|u: int, q: int, other: u64, text: Seq<char>|
        0 <= u < b.len() && #[trigger] holds_snapshot(b[u], q, other, text) ==> other <= version
}

/// The manifest that is read is the one that a row of the snapshot table holds, and no row of
/// the table has a later version of the graph than that row.
pub proof fn law_snapshot_is_the_latest_version(b: Seq<BatchModel>)
    ensures
        latest_manifest(b) matches Ok(payload) ==> exists|t: int, r: int, version: u64|
            0 <= t < b.len() && #[trigger] holds_snapshot(b[t], r, version, payload) && none_later(
                b,
                version,
            ),
{
    let n = b.len() as int;
    if let Ok(payload) = latest_manifest(b) {
        let rows = all_snapshot_rows(b, n)->Ok_0;
        lemma_snapshot_rows(b, n);
        law_latest_row_is_latest(rows, rows.len() as int);
        let k = choose|k: int|
            0 <= k < rows.len() && latest_row(rows, rows.len() as int) == Some(#[trigger] rows[k])
                && (forall|j: int| 0 <= j < rows.len() ==> (#[trigger] rows[j]).0 <= rows[k].0);
        assert(rows[k].1 == payload);
        let t = choose|t: int|
            0 <= t < n && holds_snapshot(
                #[trigger] b[t],
                k - rows_before(b, t),
                rows[k].0,
                rows[k].1,
            );
        assert forall|u: int, q: int, other: u64, text: Seq<char>|
            0 <= u < b.len() && #[trigger] holds_snapshot(b[u], q, other, text) implies other
            <= rows[k].0 by {
            lemma_rows_before(b, u + 1, n);
            let j = rows_before(b, u) + q;
            assert(b[u].num_rows > q);
            assert(holds_snapshot(b[u], q, rows[j].0, rows[j].1));
            assert(rows[j].0 == other);
        }
        assert(none_later(b, rows[k].0));
        assert(holds_snapshot(b[t], k - rows_before(b, t), rows[k].0, payload));
    }
}

// ---------------------------------------------------------------------------
// Text searches

/// A search asks for what the user typed, in the column it was asked of: `match_text` for the
/// phrase, `bm25` for the same text word by word, and the searches for terms for the terms of
/// the text, with edits where it is fuzzy and without where it is not.
pub proof fn law_searches_ask_for_their_text(
    column: Seq<char>,
    query: Seq<char>,
    max_edits: Option<u32>,
)
    ensures
        text_query(column, query, TextSearchKind::MatchText) matches Some(
            NativeTextQueryModel::Phrase { column: c, text },
        ) && c == column && text == query,
        text_query(column, query, TextSearchKind::Bm25) matches Some(
            NativeTextQueryModel::Match { column: c, text },
        ) && c == column && text == query,
        terms_of(query).len() > 0 ==> (text_query(column, query, TextSearchKind::Search) matches Some(
            NativeTextQueryModel::AllTerms { column: c, terms, edits },
        ) && c == column && terms == terms_of(query) && edits is None),
        terms_of(query).len() > 0 ==> (text_query(
            column,
            query,
            TextSearchKind::Fuzzy { max_edits },
        ) matches Some(NativeTextQueryModel::AllTerms { column: c, terms, edits }) && c == column
            && terms == terms_of(query) && edits == Some(max_edits)),
        terms_of(query).len() == 0 ==> text_query(column, query, TextSearchKind::Search) is None
            && text_query(column, query, TextSearchKind::Fuzzy { max_edits }) is None,
{
}

/// Two searches of one kind for a text are the same query only where column and text are the
/// same.
pub proof fn law_different_searches_are_different_queries(
    column: Seq<char>,
    query: Seq<char>,
    other_column: Seq<char>,
    other: Seq<char>,
    kind: TextSearchKind,
)
    requires
        kind is MatchText || kind is Bm25,
        text_query(column, query, kind) == text_query(other_column, other, kind),
    ensures
        column == other_column,
        query == other,
{
}

proof fn lemma_terms_acc(s: Seq<char>, i: int, acc: Seq<Seq<char>>)
    ensures
        terms_from(s, i, acc) == acc + terms_from(s, i, Seq::empty()),
    decreases s.len() - i,
{
    lemma_term_end(s, i);
    if i < 0 || i >= s.len() {
        assert(acc + Seq::<Seq<char>>::empty() =~= acc);
    } else if !char_alphanumeric(s[i]) {
        lemma_terms_acc(s, i + 1, acc);
    } else {
        let e = term_end(s, i);
        let t = lowered(s.subrange(i, e));
        lemma_terms_acc(s, e, acc.push(t));
        lemma_terms_acc(s, e, Seq::<Seq<char>>::empty().push(t));
        assert(acc.push(t) + terms_from(s, e, Seq::empty()) =~= acc + (Seq::<
            Seq<char>,
        >::empty().push(t) + terms_from(s, e, Seq::empty())));
    }
}

proof fn lemma_term_end_front(a: Seq<char>, sep: char, b: Seq<char>, i: int)
    requires
        0 <= i <= a.len(),
        !char_alphanumeric(sep),
    ensures
        term_end(a.push(sep) + b, i) == term_end(a, i),
    decreases a.len() - i,
{
    let s = a.push(sep) + b;
    if i < a.len() {
        assert(s[i] == a[i]);
        if char_alphanumeric(a[i]) {
            lemma_term_end_front(a, sep, b, i + 1);
        }
    } else {
        assert(s[i] == sep);
    }
}

proof fn lemma_term_end_back(a: Seq<char>, b: Seq<char>, i: int)
    requires
        0 <= i,
    ensures
        term_end(a + b, a.len() + i) == a.len() + term_end(b, i),
    decreases b.len() - i,
{
    let s = a + b;
    if i < b.len() {
        assert(s[a.len() + i] == b[i]);
        if char_alphanumeric(b[i]) {
            lemma_term_end_back(a, b, i + 1);
        }
    }
}

proof fn lemma_terms_back(a: Seq<char>, b: Seq<char>, i: int, acc: Seq<Seq<char>>)
    requires
        0 <= i,
    ensures
        terms_from(a + b, a.len() + i, acc) == terms_from(b, i, acc),
    decreases b.len() - i,
{
    let s = a + b;
    lemma_term_end(b, i);
    lemma_term_end(s, a.len() + i);
    if i < b.len() {
        assert(s[a.len() + i] == b[i]);
        if !char_alphanumeric(b[i]) {
            lemma_terms_back(a, b, i + 1, acc);
        } else {
            let e = term_end(b, i);
            lemma_term_end_back(a, b, i);
            assert(s.subrange(a.len() + i, a.len() + e) =~= b.subrange(i, e));
            lemma_terms_back(a, b, e, acc.push(lowered(b.subrange(i, e))));
        }
    }
}

proof fn lemma_terms_front(
    a: Seq<char>,
    sep: char,
    b: Seq<char>,
    i: int,
    acc: Seq<Seq<char>>,
)
    requires
        0 <= i <= a.len(),
        !char_alphanumeric(sep),
    ensures
        terms_from(a.push(sep) + b, i, acc) == terms_from(b, 0, terms_from(a, i, acc)),
    decreases a.len() - i,
{
    let s = a.push(sep) + b;
    lemma_term_end(a, i);
    lemma_term_end(s, i);
    if i == a.len() {
        assert(s[i] == sep);
        lemma_terms_back(a.push(sep), b, 0, acc);
    } else {
        assert(s[i] == a[i]);
        if !char_alphanumeric(a[i]) {
            lemma_terms_front(a, sep, b, i + 1, acc);
        } else {
            let e = term_end(a, i);
            lemma_term_end_front(a, sep, b, i);
            assert(s.subrange(i, e) =~= a.subrange(i, e));
            lemma_terms_front(a, sep, b, e, acc.push(lowered(a.subrange(i, e))));
        }
    }
}

proof fn lemma_whole_word(w: Seq<char>, i: int)
    requires
        0 <= i <= w.len(),
        forall|k: int| 0 <= k < w.len() ==> char_alphanumeric(#[trigger] w[k]),
    ensures
        term_end(w, i) == w.len(),
    decreases w.len() - i,
{
    if i < w.len() {
        lemma_whole_word(w, i + 1);
    }
}

/// The terms of a text are its words: a word alone is the one term of itself in lower case,
/// an empty text has none, and the terms of two texts with something between them that is no
/// letter or number are those of the first followed by those of the second.
pub proof fn law_terms_are_the_words(
    word: Seq<char>,
    first: Seq<char>,
    between: char,
    second: Seq<char>,
)
    requires
        word.len() > 0,
        forall|k: int| 0 <= k < word.len() ==> char_alphanumeric(#[trigger] word[k]),
        !char_alphanumeric(between),
    ensures
        terms_of(word) == seq![lowered(word)],
        terms_of(Seq::empty()) == Seq::<Seq<char>>::empty(),
        terms_of(first.push(between) + second) == terms_of(first) + terms_of(second),
{
    lemma_whole_word(word, 0);
    lemma_term_end(word, 0);
    assert(word.subrange(0, word.len() as int) =~= word);
    assert(terms_from(word, word.len() as int, seq![lowered(word)]) == seq![lowered(word)]);
    assert(Seq::<Seq<char>>::empty().push(lowered(word)) =~= seq![lowered(word)]);
    lemma_terms_front(first, between, second, 0, Seq::empty());
    lemma_terms_acc(second, 0, terms_of(first));
}

/// Whether a score is that of a row: the row has an identity, and the score is its own, or
/// zero where the row has none.
pub open spec fn is_score(
    ids: Seq<u64>,
    known: Seq<bool>,
    bits: Seq<u32>,
    valid: Seq<bool>,
    i: int,
    x: (u64, u32),
) -> bool {
    &&& known[i]
    &&& x.0 == ids[i]
    &&& valid[i] ==> x.1 == bits[i]
    &&& !valid[i] ==> x.1 == 0
}

/// Every row of a search that has an identity has a score, its own or zero where the table
/// has none.
pub proof fn law_every_found_row_has_its_score(
    ids: Seq<u64>,
    known: Seq<bool>,
    bits: Seq<u32>,
    valid: Seq<bool>,
    n: int,
    i: int,
)
    requires
        0 <= i < n <= ids.len(),
        known[i],
    ensures
        exists|k: int|
            0 <= k < scored_rows(ids, known, bits, valid, n).len() && is_score(
                ids,
                known,
                bits,
                valid,
                i,
                #[trigger] scored_rows(ids, known, bits, valid, n)[k],
            ),
    decreases n,
{
    let before = scored_rows(ids, known, bits, valid, n - 1);
    let after = scored_rows(ids, known, bits, valid, n);
    if i < n - 1 {
        law_every_found_row_has_its_score(ids, known, bits, valid, n - 1, i);
        let k = choose|k: int|
            0 <= k < before.len() && is_score(ids, known, bits, valid, i, #[trigger] before[k]);
        assert(after[k] == before[k]);
    } else {
        assert(is_score(ids, known, bits, valid, i, after[after.len() - 1]));
    }
}

/// Every score is that of a row that was found.
pub proof fn law_every_score_is_that_of_a_found_row(
    ids: Seq<u64>,
    known: Seq<bool>,
    bits: Seq<u32>,
    valid: Seq<bool>,
    n: int,
    k: int,
)
    requires
        0 <= n <= ids.len(),
        0 <= k < scored_rows(ids, known, bits, valid, n).len(),
    ensures
        exists|i: int|
            0 <= i < n && #[trigger] is_score(
                ids,
                known,
                bits,
                valid,
                i,
                scored_rows(ids, known, bits, valid, n)[k],
            ),
    decreases n,
{
    let before = scored_rows(ids, known, bits, valid, n - 1);
    let after = scored_rows(ids, known, bits, valid, n);
    if k < before.len() {
        law_every_score_is_that_of_a_found_row(ids, known, bits, valid, n - 1, k);
        let i = choose|i: int|
            0 <= i < n - 1 && #[trigger] is_score(ids, known, bits, valid, i, before[k]);
        assert(is_score(ids, known, bits, valid, i, after[k]));
    } else {
        assert(is_score(ids, known, bits, valid, n - 1, after[k]));
    }
}

/// Scores are read from the column `_score` for the identities in the column that is asked
/// for.
pub proof fn law_scores_are_read_from_their_columns(
    b: BatchModel,
    id_field: Seq<char>,
    ids: Seq<u64>,
    known: Seq<bool>,
    bits: Seq<u32>,
    valid: Seq<bool>,
)
    requires
        column_named(b, id_field, 0) == Some(ColumnModel::UInt64(ids, known)),
        column_named(b, "_score"@, 0) == Some(ColumnModel::Float32(bits, valid)),
    ensures
        scores_of(b, id_field) == Ok::<Seq<(u64, u32)>, Seq<char>>(
            scored_rows(ids, known, bits, valid, b.num_rows as int),
        ),
{
}

} // verus!
