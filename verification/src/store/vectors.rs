//! The rows of an embedding run once its vectors are there.

use crate::cli::export::{data_map, export_data_map};
use crate::cli::export_laws::law_properties_are_exported;
use crate::json::{json_at, json_get, lemma_member_kept, lemma_member_set, with_value, Json, JsonModel};
use crate::store::embed::{requests_fit, rows_of, EmbedPlan, EmbedRequest, EmbedRequestModel, NodeRows, NodeRowsModel, SelectedTypeModel};
use crate::store::tables::{stored_table_ok, StoredTable, StoredTableModel};
use crate::text::{lemma_views_push, same, views};
use vstd::prelude::*;

verus! {

// ---------------------------------------------------------------------------
// Rows and columns

/// The rows of a table: an object for each row, with a member for each column.
pub open spec fn table_rows(t: StoredTableModel) -> Seq<JsonModel> {
    Seq::new(t.num_rows, |r: int| data_map(t, r, Seq::empty()))
}

/// The rows of a table: an object for each row, with a member for each column.
pub fn json_rows(table: &StoredTable) -> (r: Vec<Json>)
    requires
        stored_table_ok(table@),
    ensures
        views(r@) == table_rows(table@),
{
    let none: Vec<usize> = Vec::new();
    let mut out: Vec<Json> = Vec::new();
    let mut i: usize = 0;
    while i < table.num_rows
        invariant
            i <= table.num_rows,
            stored_table_ok(table@),
            none@ == Seq::<usize>::empty(),
            out@.len() == i,
            forall|k: int|
                0 <= k < i ==> (#[trigger] out@[k])@ == data_map(table@, k, Seq::empty()),
        decreases table.num_rows - i,
    {
        out.push(export_data_map(table, i, &none));
        i = i + 1;
    }
    assert(views(out@) =~= table_rows(table@));
    out
}

/// The values that rows have under a name; null where a row has none.
pub open spec fn column_of(rows: Seq<JsonModel>, name: Seq<char>) -> Seq<JsonModel> {
    Seq::new(rows.len(), |r: int| json_at(rows[r], name))
}

/// The values that rows have under a name; null where a row has none.
pub fn json_column(rows: &Vec<Json>, name: &str) -> (r: Vec<Json>)
    ensures
        views(r@) == column_of(views(rows@), name@),
{
    let mut out: Vec<Json> = Vec::new();
    let mut i: usize = 0;
    while i < rows.len()
        invariant
            i <= rows@.len(),
            out@.len() == i,
            forall|k: int| 0 <= k < i ==> (#[trigger] out@[k])@ == json_at(rows@[k]@, name@),
        decreases rows@.len() - i,
    {
        out.push(rows[i].at(name).copy());
        i = i + 1;
    }
    assert(views(out@) =~= column_of(views(rows@), name@));
    out
}

/// A table whose columns have different names is the same when its rows are made columns
/// again.
pub proof fn law_rows_give_back_their_columns(t: StoredTableModel, c: int)
    requires
        stored_table_ok(t),
        0 <= c < t.columns.len(),
        forall|i: int, j: int|
            0 <= i < j < t.columns.len() ==> (#[trigger] t.columns[i]).name != (
            #[trigger] t.columns[j]).name,
    ensures
        column_of(table_rows(t), t.columns[c].name) == t.columns[c].cells,
{
    let column = column_of(table_rows(t), t.columns[c].name);
    assert forall|r: int| 0 <= r < t.num_rows implies #[trigger] column[r]
        == t.columns[c].cells[r] by {
        law_properties_are_exported(t, r, Seq::empty(), c);
    }
    assert(column =~= t.columns[c].cells);
}

// ---------------------------------------------------------------------------
// Filling

/// Of the first `n` requests those for the type at a position.
pub open spec fn type_requests(requests: Seq<EmbedRequestModel>, t: usize, n: int) -> Seq<
    EmbedRequestModel,
>
    decreases n,
{
    if n <= 0 {
        Seq::empty()
    } else if requests[n - 1].type_index == t {
        type_requests(requests, t, n - 1).push(requests[n - 1])
    } else {
        type_requests(requests, t, n - 1)
    }
}

/// The requests for the type at a position, in order.
pub fn requests_of_type(requests: &Vec<EmbedRequest>, type_index: usize) -> (r: Vec<EmbedRequest>)
    ensures
        views(r@) == type_requests(views(requests@), type_index, requests@.len() as int),
{
    let mut out: Vec<EmbedRequest> = Vec::new();
    assert(views(out@) =~= Seq::<EmbedRequestModel>::empty());
    let mut i: usize = 0;
    while i < requests.len()
        invariant
            i <= requests@.len(),
            views(out@) == type_requests(views(requests@), type_index, i as int),
        decreases requests@.len() - i,
    {
        let q = &requests[i];
        assert(views(requests@)[i as int] == q@);
        if q.type_index == type_index {
            let copy = EmbedRequest {
                type_index: q.type_index,
                row: q.row,
                target_prop: q.target_prop.clone(),
                source_text: q.source_text.clone(),
                dim: q.dim,
            };
            proof {
                lemma_views_push(out@, copy);
            }
            out.push(copy);
        }
        i = i + 1;
    }
    out
}

/// The rows of the type at position `t` once its requests from `i` on have their vectors,
/// the next of which is the one at `k`. Requests and vectors go in pairs, as far as there
/// are both.
pub open spec fn filled(
    rows: Seq<JsonModel>,
    requests: Seq<EmbedRequestModel>,
    t: usize,
    vectors: Seq<JsonModel>,
    i: int,
    k: int,
) -> Seq<JsonModel>
    decreases requests.len() - i,
{
    if i < 0 || i >= requests.len() || k < 0 || k >= vectors.len() {
        rows
    } else if requests[i].type_index != t {
        filled(rows, requests, t, vectors, i + 1, k)
    } else {
        let q = requests[i];
        let row = with_value(rows[q.row as int], q.target_prop, vectors[k]);
        filled(rows.update(q.row as int, row), requests, t, vectors, i + 1, k + 1)
    }
}

/// Whether the requests for the type at a position are for rows that are there.
pub open spec fn rows_fit(requests: Seq<EmbedRequestModel>, t: usize, count: nat) -> bool {
    forall|k: int|
        0 <= k < requests.len() && (#[trigger] requests[k]).type_index == t ==> requests[k].row
            < count
}

/// Gives the rows of a type the vectors that were generated for its requests.
pub fn fill_vectors(
    rows: Vec<Json>,
    requests: &Vec<EmbedRequest>,
    type_index: usize,
    vectors: &Vec<Json>,
) -> (r: Vec<Json>)
    requires
        rows_fit(views(requests@), type_index, rows@.len()),
    ensures
        views(r@) == filled(views(rows@), views(requests@), type_index, views(vectors@), 0, 0),
{
    let ghost start = views(rows@);
    let ghost asked = views(requests@);
    let ghost made = views(vectors@);
    let mut rows = rows;
    let mut k: usize = 0;
    let mut i: usize = 0;
    while i < requests.len() && k < vectors.len()
        invariant
            i <= requests@.len(),
            k <= vectors@.len(),
            asked == views(requests@),
            made == views(vectors@),
            start.len() == rows@.len(),
            rows_fit(asked, type_index, rows@.len()),
            filled(start, asked, type_index, made, 0, 0) == filled(
                views(rows@),
                asked,
                type_index,
                made,
                i as int,
                k as int,
            ),
        decreases requests@.len() - i,
    {
        let q = &requests[i];
        assert(asked[i as int] == q@);
        if q.type_index == type_index {
            assert(made[k as int] == vectors@[k as int]@);
            let ghost before = rows@;
            let row = rows[q.row].copy().with_value(&q.target_prop, vectors[k].copy());
            rows.set(q.row, row);
            assert(views(rows@) =~= views(before).update(q.row as int, row@));
            k = k + 1;
        }
        i = i + 1;
    }
    rows
}

/// The vectors that were generated for the type at a position; none where there are none.
pub open spec fn vectors_of(vectors: Seq<Seq<JsonModel>>, t: int) -> Seq<JsonModel> {
    if 0 <= t < vectors.len() {
        vectors[t]
    } else {
        Seq::empty()
    }
}

/// Whether there is a request for the type at a position.
pub open spec fn has_request(requests: Seq<EmbedRequestModel>, t: int) -> bool {
    exists|k: int| 0 <= k < requests.len() && (#[trigger] requests[k]).type_index == t
}

/// Of the first `n` selected types those with a request, with the rows that replace theirs.
pub open spec fn replaced(
    types: Seq<SelectedTypeModel>,
    tables: Seq<NodeRowsModel>,
    requests: Seq<EmbedRequestModel>,
    vectors: Seq<Seq<JsonModel>>,
    n: int,
) -> Seq<NodeRowsModel>
    decreases n,
{
    if n <= 0 {
        Seq::empty()
    } else {
        let before = replaced(types, tables, requests, vectors, n - 1);
        let t = n - 1;
        match rows_of(tables, types[t].label, 0) {
            Some(rows) => if has_request(requests, t) {
                before.push(
                    NodeRowsModel {
                        label: types[t].label,
                        rows: filled(rows, requests, t as usize, vectors_of(vectors, t), 0, 0),
                    },
                )
            } else {
                before
            },
            None => before,
        }
    }
}

fn asks_for(requests: &Vec<EmbedRequest>, t: usize) -> (r: bool)
    ensures
        r == has_request(views(requests@), t as int),
{
    let mut i: usize = 0;
    while i < requests.len()
        invariant
            i <= requests@.len(),
            forall|k: int| 0 <= k < i ==> (#[trigger] views(requests@)[k]).type_index != t,
        decreases requests@.len() - i,
    {
        assert(views(requests@)[i as int] == requests@[i as int]@);
        if requests[i].type_index == t {
            return true;
        }
        i = i + 1;
    }
    false
}

fn copy_rows(tables: &Vec<NodeRows>, label: &str) -> (r: Option<Vec<Json>>)
    ensures
        match r {
            Some(rows) => rows_of(views(tables@), label@, 0) == Some(views(rows@)),
            None => rows_of(views(tables@), label@, 0) is None,
        },
{
    let mut i: usize = 0;
    while i < tables.len()
        invariant
            i <= tables@.len(),
            rows_of(views(tables@), label@, 0) == rows_of(views(tables@), label@, i as int),
        decreases tables@.len() - i,
    {
        let table = &tables[i];
        assert(views(tables@)[i as int] == table@);
        if same(&table.label, label) {
            let mut out: Vec<Json> = Vec::new();
            let mut k: usize = 0;
            while k < table.rows.len()
                invariant
                    k <= table.rows@.len(),
                    out@.len() == k,
                    forall|j: int| 0 <= j < k ==> (#[trigger] out@[j])@ == table.rows@[j]@,
                decreases table.rows@.len() - k,
            {
                out.push(table.rows[k].copy());
                k = k + 1;
            }
            assert(views(out@) =~= table@.rows);
            return Some(out);
        }
        i = i + 1;
    }
    None
}

/// The rows of a list of lists of values.
pub open spec fn nested(vectors: Seq<Vec<Json>>) -> Seq<Seq<JsonModel>> {
    Seq::new(vectors.len(), |i: int| views(vectors[i]@))
}

/// The tables that replace those of the types that a run has filled. `vectors` holds for
/// each selected type the vectors of its requests, in order.
pub fn replace_tables(plan: &EmbedPlan, tables: &Vec<NodeRows>, vectors: &Vec<Vec<Json>>) -> (r: Vec<
    NodeRows,
>)
    requires
        requests_fit(plan@.selected, views(tables@), plan@.requests),
    ensures
        views(r@) == replaced(
            plan@.selected,
            views(tables@),
            plan@.requests,
            nested(vectors@),
            plan@.selected.len() as int,
        ),
{
    let none: Vec<Json> = Vec::new();
    assert(views(none@) =~= Seq::<JsonModel>::empty());
    let mut out: Vec<NodeRows> = Vec::new();
    assert(views(out@) =~= Seq::<NodeRowsModel>::empty());
    let mut t: usize = 0;
    while t < plan.selected.len()
        invariant
            t <= plan.selected@.len(),
            requests_fit(plan@.selected, views(tables@), plan@.requests),
            views(none@) == Seq::<JsonModel>::empty(),
            views(out@) == replaced(
                plan@.selected,
                views(tables@),
                plan@.requests,
                nested(vectors@),
                t as int,
            ),
        decreases plan.selected@.len() - t,
    {
        assert(plan@.selected[t as int] == plan.selected@[t as int]@);
        if asks_for(&plan.requests, t) {
            match copy_rows(tables, &plan.selected[t].label) {
                Some(rows) => {
                    let given = if t < vectors.len() {
                        &vectors[t]
                    } else {
                        &none
                    };
                    assert(views(given@) == vectors_of(nested(vectors@), t as int));
                    assert(views(rows@).len() == rows@.len());
                    let table = NodeRows {
                        label: plan.selected[t].label.clone(),
                        rows: fill_vectors(rows, &plan.requests, t, given),
                    };
                    proof {
                        lemma_views_push(out@, table);
                    }
                    out.push(table);
                },
                None => {},
            }
        }
        t = t + 1;
    }
    out
}

// ---------------------------------------------------------------------------
// Laws

proof fn lemma_rank(requests: Seq<EmbedRequestModel>, t: usize, i: int, m: int)
    requires
        0 <= i <= m,
    ensures
        type_requests(requests, t, i).len() <= type_requests(requests, t, m).len(),
    decreases m,
{
    if i < m {
        lemma_rank(requests, t, i, m - 1);
    }
}

proof fn lemma_unasked(
    rows: Seq<JsonModel>,
    requests: Seq<EmbedRequestModel>,
    t: usize,
    vectors: Seq<JsonModel>,
    i: int,
    k: int,
    row: int,
    property: Seq<char>,
)
    requires
        0 <= i,
        0 <= row < rows.len(),
        rows_fit(requests, t, rows.len()),
        forall|j: int|
            i <= j < requests.len() && (#[trigger] requests[j]).type_index == t
                ==> requests[j].row != row || requests[j].target_prop != property,
    ensures
        filled(rows, requests, t, vectors, i, k).len() == rows.len(),
        json_get(filled(rows, requests, t, vectors, i, k)[row], property) == json_get(
            rows[row],
            property,
        ),
    decreases requests.len() - i,
{
    if i >= requests.len() || k < 0 || k >= vectors.len() {
    } else if requests[i].type_index != t {
        lemma_unasked(rows, requests, t, vectors, i + 1, k, row, property);
    } else {
        let q = requests[i];
        let next = rows.update(
            q.row as int,
            with_value(rows[q.row as int], q.target_prop, vectors[k]),
        );
        if q.row == row {
            if let JsonModel::Object(o) = rows[row] {
                lemma_member_kept(o, q.target_prop, vectors[k], property);
            }
        }
        lemma_unasked(next, requests, t, vectors, i + 1, k + 1, row, property);
    }
}

proof fn lemma_untouched(
    rows: Seq<JsonModel>,
    requests: Seq<EmbedRequestModel>,
    t: usize,
    vectors: Seq<JsonModel>,
    i: int,
    k: int,
)
    requires
        0 <= i,
        rows_fit(requests, t, rows.len()),
    ensures
        filled(rows, requests, t, vectors, i, k).len() == rows.len(),
        forall|row: int|
            0 <= row < rows.len() && (forall|j: int|
                i <= j < requests.len() && (#[trigger] requests[j]).type_index == t
                    ==> requests[j].row != row) ==> #[trigger] filled(
                rows,
                requests,
                t,
                vectors,
                i,
                k,
            )[row] == rows[row],
    decreases requests.len() - i,
{
    if i >= requests.len() || k < 0 || k >= vectors.len() {
    } else if requests[i].type_index != t {
        lemma_untouched(rows, requests, t, vectors, i + 1, k);
    } else {
        let q = requests[i];
        let next = rows.update(
            q.row as int,
            with_value(rows[q.row as int], q.target_prop, vectors[k]),
        );
        lemma_untouched(next, requests, t, vectors, i + 1, k + 1);
    }
}

proof fn lemma_given(
    rows: Seq<JsonModel>,
    requests: Seq<EmbedRequestModel>,
    t: usize,
    vectors: Seq<JsonModel>,
    i: int,
    m: int,
)
    requires
        0 <= i <= m < requests.len(),
        rows_fit(requests, t, rows.len()),
        requests[m].type_index == t,
        rows[requests[m].row as int] is Object,
        type_requests(requests, t, m).len() < vectors.len(),
        forall|j: int|
            m < j < requests.len() && (#[trigger] requests[j]).type_index == t
                ==> requests[j].row != requests[m].row || requests[j].target_prop
                != requests[m].target_prop,
    ensures
        json_get(
            filled(
                rows,
                requests,
                t,
                vectors,
                i,
                type_requests(requests, t, i).len() as int,
            )[requests[m].row as int],
            requests[m].target_prop,
        ) == Some(vectors[type_requests(requests, t, m).len() as int]),
    decreases m - i,
{
    let k = type_requests(requests, t, i).len() as int;
    lemma_rank(requests, t, i, m);
    let q = requests[i];
    if q.type_index != t {
        lemma_given(rows, requests, t, vectors, i + 1, m);
    } else {
        let next = rows.update(
            q.row as int,
            with_value(rows[q.row as int], q.target_prop, vectors[k]),
        );
        if i < m {
            lemma_given(next, requests, t, vectors, i + 1, m);
        } else {
            lemma_member_set(rows[q.row as int]->Object_0, q.target_prop, vectors[k]);
            lemma_unasked(
                next,
                requests,
                t,
                vectors,
                i + 1,
                k + 1,
                q.row as int,
                q.target_prop,
            );
        }
    }
}

/// The vector that was generated for a request ends up in the row and the property that the
/// request is for; of two requests for one property of a row the later counts.
pub proof fn law_vectors_reach_their_rows(
    rows: Seq<JsonModel>,
    requests: Seq<EmbedRequestModel>,
    t: usize,
    vectors: Seq<JsonModel>,
    m: int,
)
    requires
        rows_fit(requests, t, rows.len()),
        0 <= m < requests.len(),
        requests[m].type_index == t,
        rows[requests[m].row as int] is Object,
        type_requests(requests, t, m).len() < vectors.len(),
        forall|j: int|
            m < j < requests.len() && (#[trigger] requests[j]).type_index == t
                ==> requests[j].row != requests[m].row || requests[j].target_prop
                != requests[m].target_prop,
    ensures
        json_get(
            filled(rows, requests, t, vectors, 0, 0)[requests[m].row as int],
            requests[m].target_prop,
        ) == Some(vectors[type_requests(requests, t, m).len() as int]),
{
    lemma_given(rows, requests, t, vectors, 0, m);
}

/// A run changes nothing but the properties that it was asked to fill: the rows stay as many
/// as they were, one without a request stays as it was, and so does every other property.
pub proof fn law_the_rest_is_kept(
    rows: Seq<JsonModel>,
    requests: Seq<EmbedRequestModel>,
    t: usize,
    vectors: Seq<JsonModel>,
    row: int,
    property: Seq<char>,
)
    requires
        rows_fit(requests, t, rows.len()),
        0 <= row < rows.len(),
    ensures
        filled(rows, requests, t, vectors, 0, 0).len() == rows.len(),
        (forall|j: int|
            0 <= j < requests.len() && (#[trigger] requests[j]).type_index == t
                ==> requests[j].row != row) ==> filled(rows, requests, t, vectors, 0, 0)[row]
            == rows[row],
        (forall|j: int|
            0 <= j < requests.len() && (#[trigger] requests[j]).type_index == t
                ==> requests[j].row != row || requests[j].target_prop != property) ==> json_get(
            filled(rows, requests, t, vectors, 0, 0)[row],
            property,
        ) == json_get(rows[row], property),
{
    lemma_untouched(rows, requests, t, vectors, 0, 0);
    if forall|j: int|
        0 <= j < requests.len() && (#[trigger] requests[j]).type_index == t ==> requests[j].row
            != row || requests[j].target_prop != property {
        lemma_unasked(rows, requests, t, vectors, 0, 0, row, property);
    }
}

/// Whether a table replaces that of the type at a position: there is a request for the type,
/// and the table holds the rows of the type with their vectors.
pub open spec fn replaces(
    types: Seq<SelectedTypeModel>,
    tables: Seq<NodeRowsModel>,
    requests: Seq<EmbedRequestModel>,
    vectors: Seq<Seq<JsonModel>>,
    t: int,
    table: NodeRowsModel,
) -> bool {
    &&& has_request(requests, t)
    &&& table.label == types[t].label
    &&& rows_of(tables, types[t].label, 0) matches Some(rows) && table.rows == filled(
        rows,
        requests,
        t as usize,
        vectors_of(vectors, t),
        0,
        0,
    )
}

proof fn lemma_replaced_from(
    types: Seq<SelectedTypeModel>,
    tables: Seq<NodeRowsModel>,
    requests: Seq<EmbedRequestModel>,
    vectors: Seq<Seq<JsonModel>>,
    n: int,
    j: int,
) -> (t: int)
    requires
        0 <= j < replaced(types, tables, requests, vectors, n).len(),
    ensures
        0 <= t < n,
        replaces(
            types,
            tables,
            requests,
            vectors,
            t,
            replaced(types, tables, requests, vectors, n)[j],
        ),
    decreases n,
{
    if j < replaced(types, tables, requests, vectors, n - 1).len() {
        lemma_replaced_from(types, tables, requests, vectors, n - 1, j)
    } else {
        n - 1
    }
}

proof fn lemma_replaced_for(
    types: Seq<SelectedTypeModel>,
    tables: Seq<NodeRowsModel>,
    requests: Seq<EmbedRequestModel>,
    vectors: Seq<Seq<JsonModel>>,
    n: int,
    t: int,
) -> (j: int)
    requires
        0 <= t < n,
        has_request(requests, t),
        rows_of(tables, types[t].label, 0) is Some,
    ensures
        0 <= j < replaced(types, tables, requests, vectors, n).len(),
        replaces(
            types,
            tables,
            requests,
            vectors,
            t,
            replaced(types, tables, requests, vectors, n)[j],
        ),
    decreases n,
{
    if t < n - 1 {
        lemma_replaced_for(types, tables, requests, vectors, n - 1, t)
    } else {
        replaced(types, tables, requests, vectors, n - 1).len() as int
    }
}

/// A commit has new rows for the types that something was asked of, for each of them, and
/// for no others.
pub proof fn law_exactly_the_asked_types_are_replaced(
    types: Seq<SelectedTypeModel>,
    tables: Seq<NodeRowsModel>,
    requests: Seq<EmbedRequestModel>,
    vectors: Seq<Seq<JsonModel>>,
    table: NodeRowsModel,
    t: int,
)
    requires
        requests_fit(types, tables, requests),
    ensures
        replaced(types, tables, requests, vectors, types.len() as int).contains(table)
            ==> exists|k: int|
            0 <= k < types.len() && #[trigger] replaces(types, tables, requests, vectors, k, table),
        0 <= t < types.len() && has_request(requests, t) ==> exists|new: NodeRowsModel|
            replaced(types, tables, requests, vectors, types.len() as int).contains(new)
                && #[trigger] replaces(types, tables, requests, vectors, t, new),
{
    let n = types.len() as int;
    let out = replaced(types, tables, requests, vectors, n);
    if out.contains(table) {
        let j = choose|j: int| 0 <= j < out.len() && out[j] == table;
        let k = lemma_replaced_from(types, tables, requests, vectors, n, j);
        assert(replaces(types, tables, requests, vectors, k, table));
    }
    if 0 <= t < n && has_request(requests, t) {
        let k = choose|k: int| 0 <= k < requests.len() && (#[trigger] requests[k]).type_index == t;
        assert(requests[k].type_index < types.len());
        let j = lemma_replaced_for(types, tables, requests, vectors, n, t);
        assert(out.contains(out[j]));
        assert(replaces(types, tables, requests, vectors, t, out[j]));
    }
}

} // verus!
