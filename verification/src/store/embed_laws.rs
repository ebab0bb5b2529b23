//! Which rows get a vector, of which properties, and what follows.

use crate::json::{json_get, JsonModel};
use crate::store::database::{default_mode, effective_events, embed_plan, load_plan, mode_label, LoadMode, MutationSourceModel};
use crate::store::embed::{embed_outcome, embed_selection, follow_up, in_memory, indexed_vector, nothing_selected, prop_count, rebuild_order, reindexable, row_requests, rows_of, scan_rows, scan_types, selected_props, selected_types, specs_of, touched, touched_count, EmbedFollowUpModel, EmbedOptionsModel, EmbedPlanModel, EmbedRequestModel, EmbedSpecModel, NodeRowsModel, ScanModel, SelectedPropModel, SelectedTypeModel, TypeEmbedSpecsModel};
use crate::store::schema_ir::{NodeTypeDefModel, PropDefModel, SchemaIrModel};
use crate::store::txlog::CdcModel;
use crate::store::vectors::replaced;
use crate::types::{scalar_named, ScalarType};
use vstd::prelude::*;

verus! {

// ---------------------------------------------------------------------------
// Requests

/// Whether a row has no vector in a property, or whether it gets one anyhow.
pub open spec fn lacks_vector(row: JsonModel, target: Seq<char>, only_null: bool) -> bool {
    !only_null || json_get(row, target) is None || json_get(row, target) == Some(JsonModel::Null)
}

/// Whether one of the requests is for this property of this row, with the text of its source.
pub open spec fn is_requested(
    requests: Seq<EmbedRequestModel>,
    type_index: int,
    row_index: int,
    row: JsonModel,
    p: SelectedPropModel,
) -> bool {
    exists|k: int|
        0 <= k < requests.len() && (#[trigger] requests[k]).type_index == type_index
            && requests[k].row == row_index && requests[k].target_prop == p.target_prop
            && requests[k].dim == p.dim && json_get(row, p.source_prop) == Some(
            JsonModel::Text(requests[k].source_text),
        )
}

/// Whether what was requested before is still there, in place.
pub open spec fn keeps_requests(before: Seq<EmbedRequestModel>, after: Seq<EmbedRequestModel>) -> bool {
    before.len() <= after.len() && forall|k: int|
        0 <= k < before.len() ==> #[trigger] after[k] == before[k]
}

proof fn lemma_requested_still(
    before: Seq<EmbedRequestModel>,
    after: Seq<EmbedRequestModel>,
    type_index: int,
    row_index: int,
    row: JsonModel,
    p: SelectedPropModel,
)
    requires
        keeps_requests(before, after),
        is_requested(before, type_index, row_index, row, p),
    ensures
        is_requested(after, type_index, row_index, row, p),
{
    let k = choose|k: int|
        0 <= k < before.len() && (#[trigger] before[k]).type_index == type_index && before[k].row
            == row_index && before[k].target_prop == p.target_prop && before[k].dim == p.dim
            && json_get(row, p.source_prop) == Some(JsonModel::Text(before[k].source_text));
    assert(after[k] == before[k]);
}

proof fn lemma_row_is_requested(
    t: SelectedTypeModel,
    type_index: usize,
    row: JsonModel,
    row_index: usize,
    only_null: bool,
    i: int,
    acc: Seq<EmbedRequestModel>,
)
    requires
        0 <= i <= t.props.len(),
        row_requests(t, type_index, row, row_index, only_null, i, acc) is Ok,
    ensures
        ({
            let out = row_requests(t, type_index, row, row_index, only_null, i, acc)->Ok_0;
            &&& keeps_requests(acc, out)
            &&& out.len() <= acc.len() + t.props.len() - i
            &&& forall|p: int|
                i <= p < t.props.len() && lacks_vector(
                    row,
                    (#[trigger] t.props[p]).target_prop,
                    only_null,
                ) ==> is_requested(out, type_index as int, row_index as int, row, t.props[p])
        }),
    decreases t.props.len() - i,
{
    let out = row_requests(t, type_index, row, row_index, only_null, i, acc)->Ok_0;
    if i < t.props.len() {
        let p = t.props[i];
        if !lacks_vector(row, p.target_prop, only_null) {
            lemma_row_is_requested(t, type_index, row, row_index, only_null, i + 1, acc);
        } else {
            let text = json_get(row, p.source_prop)->Some_0->Text_0;
            let r = EmbedRequestModel {
                type_index,
                row: row_index,
                target_prop: p.target_prop,
                source_text: text,
                dim: p.dim,
            };
            lemma_row_is_requested(t, type_index, row, row_index, only_null, i + 1, acc.push(r));
            assert(acc.push(r)[acc.len() as int] == r);
            assert(is_requested(acc.push(r), type_index as int, row_index as int, row, p));
            lemma_requested_still(
                acc.push(r),
                out,
                type_index as int,
                row_index as int,
                row,
                p,
            );
            assert forall|k: int| 0 <= k < acc.len() implies #[trigger] out[k] == acc[k] by {
                assert(acc.push(r)[k] == acc[k]);
            }
        }
    }
}

/// Whether every property of every row from `from` on that lacks its vector is requested.
pub open spec fn rows_are_requested(
    requests: Seq<EmbedRequestModel>,
    t: SelectedTypeModel,
    type_index: int,
    rows: Seq<JsonModel>,
    only_null: bool,
    from: int,
) -> bool {
    forall|j: int, p: int|
        from <= j < rows.len() && 0 <= p < t.props.len() && lacks_vector(
            #[trigger] rows[j],
            (#[trigger] t.props[p]).target_prop,
            only_null,
        ) ==> is_requested(requests, type_index, j, rows[j], t.props[p])
}

proof fn lemma_rows_are_requested(
    t: SelectedTypeModel,
    type_index: usize,
    rows: Seq<JsonModel>,
    only_null: bool,
    i: int,
    s: ScanModel,
)
    requires
        0 <= i <= rows.len() <= usize::MAX,
        s.remaining >= 0,
        s.rows_selected >= 0,
        scan_rows(t, type_index, rows, only_null, i, s) is Ok,
    ensures
        ({
            let out = scan_rows(t, type_index, rows, only_null, i, s)->Ok_0;
            &&& keeps_requests(s.requests, out.requests)
            &&& out.remaining >= 0
            &&& out.rows_selected + out.remaining == s.rows_selected + s.remaining
            &&& 0 <= out.rows_selected - s.rows_selected <= out.requests.len() - s.requests.len()
            &&& out.requests.len() > s.requests.len() ==> out.rows_selected > s.rows_selected
            &&& out.requests.len() - s.requests.len() <= t.props.len() * (out.rows_selected
                - s.rows_selected)
            &&& out.remaining > 0 ==> rows_are_requested(
                out.requests,
                t,
                type_index as int,
                rows,
                only_null,
                i,
            )
        }),
    decreases rows.len() - i,
{
    let out = scan_rows(t, type_index, rows, only_null, i, s)->Ok_0;
    assert(t.props.len() * 0 == 0) by (nonlinear_arith);
    if i < rows.len() && s.remaining > 0 {
        let one = row_requests(t, type_index, rows[i], i as usize, only_null, 0, s.requests);
        lemma_row_is_requested(t, type_index, rows[i], i as usize, only_null, 0, s.requests);
        let requests = one->Ok_0;
        let next = if requests.len() == s.requests.len() {
            s
        } else {
            ScanModel {
                requests,
                rows_selected: s.rows_selected + 1,
                remaining: s.remaining - 1,
            }
        };
        assert(requests.len() == s.requests.len() ==> requests =~= s.requests);
        lemma_rows_are_requested(t, type_index, rows, only_null, i + 1, next);
        assert(out == scan_rows(t, type_index, rows, only_null, i + 1, next)->Ok_0);
        let (n, a, b) = (
            t.props.len() as int,
            out.rows_selected - next.rows_selected,
            out.rows_selected - s.rows_selected,
        );
        assert(b == a + 1 ==> n * b == n * a + n) by (nonlinear_arith);
        assert forall|k: int| 0 <= k < s.requests.len() implies #[trigger] out.requests[k]
            == s.requests[k] by {
            assert(next.requests[k] == s.requests[k]);
        }
        if out.remaining > 0 {
            assert forall|j: int, p: int|
                i <= j < rows.len() && 0 <= p < t.props.len() && lacks_vector(
                    #[trigger] rows[j],
                    (#[trigger] t.props[p]).target_prop,
                    only_null,
                ) implies is_requested(out.requests, type_index as int, j, rows[j], t.props[p]) by {
                if j == i {
                    assert(is_requested(requests, type_index as int, i, rows[i], t.props[p]));
                    lemma_requested_still(
                        next.requests,
                        out.requests,
                        type_index as int,
                        i,
                        rows[i],
                        t.props[p],
                    );
                }
            }
        }
    }
}

/// Whether every property of every row of these types that lacks its vector is requested.
pub open spec fn types_are_requested(
    requests: Seq<EmbedRequestModel>,
    types: Seq<SelectedTypeModel>,
    tables: Seq<NodeRowsModel>,
    only_null: bool,
    from: int,
) -> bool {
    forall|i: int|
        from <= i < types.len() ==> (rows_of(
            tables,
            (#[trigger] types[i]).label,
            0,
        ) matches Some(rows) ==> rows_are_requested(requests, types[i], i, rows, only_null, 0))
}

proof fn lemma_rows_of(tables: Seq<NodeRowsModel>, label: Seq<char>, from: int)
    requires
        0 <= from <= tables.len(),
    ensures
        match rows_of(tables, label, from) {
            Some(rows) => exists|k: int|
                from <= k < tables.len() && (#[trigger] tables[k]).label == label && tables[k].rows
                    == rows && forall|j: int| from <= j < k ==> (#[trigger] tables[j]).label != label,
            None => forall|k: int| from <= k < tables.len() ==> (#[trigger] tables[k]).label != label,
        },
    decreases tables.len() - from,
{
    if from < tables.len() && tables[from].label != label {
        lemma_rows_of(tables, label, from + 1);
        if let Some(rows) = rows_of(tables, label, from + 1) {
            let k = choose|k: int|
                from + 1 <= k < tables.len() && (#[trigger] tables[k]).label == label
                    && tables[k].rows == rows && forall|j: int|
                    from + 1 <= j < k ==> (#[trigger] tables[j]).label != label;
            assert(tables[k].label == label);
        }
    } else if from < tables.len() {
        assert(tables[from].label == label);
    }
}

proof fn lemma_rows_kept(
    before: Seq<EmbedRequestModel>,
    after: Seq<EmbedRequestModel>,
    t: SelectedTypeModel,
    type_index: int,
    rows: Seq<JsonModel>,
    only_null: bool,
)
    requires
        keeps_requests(before, after),
        rows_are_requested(before, t, type_index, rows, only_null, 0),
    ensures
        rows_are_requested(after, t, type_index, rows, only_null, 0),
{
    assert forall|j: int, p: int|
        0 <= j < rows.len() && 0 <= p < t.props.len() && lacks_vector(
            #[trigger] rows[j],
            (#[trigger] t.props[p]).target_prop,
            only_null,
        ) implies is_requested(after, type_index, j, rows[j], t.props[p]) by {
        lemma_requested_still(before, after, type_index, j, rows[j], t.props[p]);
    }
}

proof fn lemma_types_are_requested(
    types: Seq<SelectedTypeModel>,
    tables: Seq<NodeRowsModel>,
    only_null: bool,
    i: int,
    s: ScanModel,
)
    requires
        0 <= i <= types.len() <= usize::MAX,
        forall|k: int| 0 <= k < tables.len() ==> (#[trigger] tables[k]).rows.len() <= usize::MAX,
        s.remaining >= 0,
        s.rows_selected >= 0,
        scan_types(types, tables, only_null, i, s) is Ok,
    ensures
        ({
            let out = scan_types(types, tables, only_null, i, s)->Ok_0;
            &&& keeps_requests(s.requests, out.requests)
            &&& out.rows_selected + out.remaining == s.rows_selected + s.remaining
            &&& 0 <= out.rows_selected - s.rows_selected <= out.requests.len() - s.requests.len()
            &&& out.requests.len() > s.requests.len() ==> out.rows_selected > s.rows_selected
            &&& out.remaining > 0 ==> types_are_requested(
                out.requests,
                types,
                tables,
                only_null,
                i,
            )
        }),
    decreases types.len() - i,
{
    let out = scan_types(types, tables, only_null, i, s)->Ok_0;
    if i < types.len() && s.remaining > 0 {
        lemma_rows_of(tables, types[i].label, 0);
        match rows_of(tables, types[i].label, 0) {
            None => {
                lemma_types_are_requested(types, tables, only_null, i + 1, s);
            },
            Some(rows) => {
                lemma_rows_are_requested(types[i], i as usize, rows, only_null, 0, s);
                let next = scan_rows(types[i], i as usize, rows, only_null, 0, s)->Ok_0;
                lemma_types_are_requested(types, tables, only_null, i + 1, next);
                assert forall|k: int| 0 <= k < s.requests.len() implies #[trigger] out.requests[k]
                    == s.requests[k] by {
                    assert(next.requests[k] == s.requests[k]);
                }
                if out.remaining > 0 {
                    lemma_rows_kept(next.requests, out.requests, types[i], i, rows, only_null);
                }
            },
        }
    }
}

/// Unless the limit on rows is reached, every selected property of every row of the selected
/// types is requested, with the text of its source: where only missing vectors are asked
/// for, every one that is missing. A row is counted where something of it is requested.
pub proof fn law_every_missing_vector_is_requested(
    schema: SchemaIrModel,
    options: EmbedOptionsModel,
    specs: Seq<TypeEmbedSpecsModel>,
    tables: Seq<NodeRowsModel>,
)
    requires
        in_memory(schema, options, specs, tables),
    ensures
        embed_outcome(schema, options, specs, tables) matches Ok(plan) ==> {
            &&& plan.rows_selected < (match options.limit {
                Some(n) => n,
                None => usize::MAX,
            }) ==> types_are_requested(plan.requests, plan.selected, tables, options.only_null, 0)
            &&& plan.rows_selected <= plan.requests.len()
            &&& plan.rows_selected == 0 <==> plan.requests.len() == 0
        },
{
    if let Ok(plan) = embed_outcome(schema, options, specs, tables) {
        let limit = match options.limit {
            Some(n) => n,
            None => usize::MAX,
        };
        let start = ScanModel { requests: Seq::empty(), rows_selected: 0, remaining: limit as int };
        lemma_types_are_requested(plan.selected, tables, options.only_null, 0, start);
    }
}

/// A property may only be asked for together with its type.
pub proof fn law_a_property_needs_its_type(
    schema: SchemaIrModel,
    options: EmbedOptionsModel,
    specs: Seq<TypeEmbedSpecsModel>,
    tables: Seq<NodeRowsModel>,
)
    requires
        options.property is Some,
        options.node_type is None,
    ensures
        embed_outcome(schema, options, specs, tables) is Err,
{
}

// ---------------------------------------------------------------------------
// Selection

/// Whether an option that is not given, or given as this name, wants the name.
pub open spec fn wants_name(option: Option<Seq<char>>, name: Seq<char>) -> bool {
    option is None || option == Some(name)
}

/// Whether a property stands for what is embedded by a declaration.
pub open spec fn stands_for(p: SelectedPropModel, s: EmbedSpecModel) -> bool {
    p.target_prop == s.target_prop && p.source_prop == s.source_prop && p.dim == s.dim
}

/// Every declared embedding of a type that is wanted is selected, with its target, its source
/// and its width.
pub proof fn law_wanted_embeddings_are_selected(
    node: NodeTypeDefModel,
    specs: Seq<EmbedSpecModel>,
    property: Option<Seq<char>>,
    n: int,
    k: int,
)
    requires
        0 <= k < n <= specs.len(),
        wants_name(property, specs[k].target_prop),
    ensures
        exists|i: int|
            0 <= i < selected_props(node, specs, property, n).len() && stands_for(
                #[trigger] selected_props(node, specs, property, n)[i],
                specs[k],
            ),
    decreases n,
{
    let before = selected_props(node, specs, property, n - 1);
    let all = selected_props(node, specs, property, n);
    if k == n - 1 {
        assert(stands_for(all[before.len() as int], specs[k]));
    } else {
        law_wanted_embeddings_are_selected(node, specs, property, n - 1, k);
        let i = choose|i: int|
            0 <= i < before.len() && stands_for(#[trigger] before[i], specs[k]);
        assert(all[i] == before[i]);
    }
}

/// Every selected property is wanted and declared, and is indexed where the type has an
/// indexed vector property of its name.
pub proof fn law_selected_embeddings_are_wanted(
    node: NodeTypeDefModel,
    specs: Seq<EmbedSpecModel>,
    property: Option<Seq<char>>,
    n: int,
    i: int,
)
    requires
        0 <= n <= specs.len(),
        0 <= i < selected_props(node, specs, property, n).len(),
    ensures
        selected_props(node, specs, property, n).len() <= n,
        wants_name(property, selected_props(node, specs, property, n)[i].target_prop),
        selected_props(node, specs, property, n)[i].indexed == indexed_vector(
            node.properties,
            selected_props(node, specs, property, n)[i].target_prop,
            0,
        ),
        exists|k: int|
            0 <= k < n && stands_for(
                selected_props(node, specs, property, n)[i],
                #[trigger] specs[k],
            ),
    decreases n,
{
    if n > 0 {
        let before = selected_props(node, specs, property, n - 1);
        let all = selected_props(node, specs, property, n);
        if before.len() > 0 {
            law_selected_embeddings_are_wanted(
                node,
                specs,
                property,
                n - 1,
                if i < before.len() {
                    i
                } else {
                    0
                },
            );
        }
        if i < before.len() {
            assert(all[i] == before[i]);
        } else {
            assert(stands_for(all[i], specs[n - 1]));
        }
    }
}

/// A vector property is indexed exactly where the first of its name is marked so and holds
/// vectors.
pub proof fn law_indexed_vectors_are_marked(props: Seq<PropDefModel>, name: Seq<char>, k: int, from: int)
    requires
        0 <= from <= k < props.len(),
        props[k].name == name,
        forall|j: int| from <= j < k ==> (#[trigger] props[j]).name != name,
    ensures
        indexed_vector(props, name, from) <==> props[k].index && (scalar_named(
            props[k].scalar_type,
        ) matches Some(ScalarType::Vector(_))),
    decreases k - from,
{
    if from < k {
        assert(props[from].name != name);
        law_indexed_vectors_are_marked(props, name, k, from + 1);
    }
}

proof fn lemma_specs_of(specs: Seq<TypeEmbedSpecsModel>, label: Seq<char>, k: int, from: int)
    requires
        0 <= from <= k < specs.len(),
        specs[k].label == label,
        forall|j: int| from <= j < k ==> (#[trigger] specs[j]).label != label,
    ensures
        specs_of(specs, label, from) == Some(specs[k].specs),
    decreases k - from,
{
    if from < k {
        assert(specs[from].label != label);
        lemma_specs_of(specs, label, k, from + 1);
    }
}

proof fn lemma_no_specs(specs: Seq<TypeEmbedSpecsModel>, label: Seq<char>, from: int)
    requires
        0 <= from <= specs.len(),
        forall|j: int| from <= j < specs.len() ==> (#[trigger] specs[j]).label != label,
    ensures
        specs_of(specs, label, from) is None,
    decreases specs.len() - from,
{
    if from < specs.len() {
        assert(specs[from].label != label);
        lemma_no_specs(specs, label, from + 1);
    }
}

/// Whether a selected type is a type of the schema with what was selected of it.
pub open spec fn is_selection_of(t: SelectedTypeModel, label: Seq<char>, props: Seq<SelectedPropModel>) -> bool {
    t.label == label && t.props == props
}

/// A type that is wanted and has an embedding that is wanted is selected, with all of its
/// embeddings that are.
pub proof fn law_wanted_types_are_selected(
    nodes: Seq<NodeTypeDefModel>,
    specs: Seq<TypeEmbedSpecsModel>,
    node_type: Option<Seq<char>>,
    property: Option<Seq<char>>,
    n: int,
    i: int,
    k: int,
)
    requires
        0 <= i < n <= nodes.len(),
        wants_name(node_type, nodes[i].name),
        0 <= k < specs.len(),
        specs[k].label == nodes[i].name,
        forall|j: int| 0 <= j < k ==> (#[trigger] specs[j]).label != nodes[i].name,
        exists|e: int|
            0 <= e < specs[k].specs.len() && wants_name(
                property,
                (#[trigger] specs[k].specs[e]).target_prop,
            ),
    ensures
        exists|s: int|
            0 <= s < selected_types(nodes, specs, node_type, property, n).len() && is_selection_of(
                #[trigger] selected_types(nodes, specs, node_type, property, n)[s],
                nodes[i].name,
                selected_props(
                    nodes[i],
                    specs[k].specs,
                    property,
                    specs[k].specs.len() as int,
                ),
            ),
    decreases n,
{
    let before = selected_types(nodes, specs, node_type, property, n - 1);
    let all = selected_types(nodes, specs, node_type, property, n);
    let props = selected_props(nodes[i], specs[k].specs, property, specs[k].specs.len() as int);
    if i == n - 1 {
        lemma_specs_of(specs, nodes[i].name, k, 0);
        let e = choose|e: int|
            0 <= e < specs[k].specs.len() && wants_name(
                property,
                (#[trigger] specs[k].specs[e]).target_prop,
            );
        law_wanted_embeddings_are_selected(
            nodes[i],
            specs[k].specs,
            property,
            specs[k].specs.len() as int,
            e,
        );
        assert(is_selection_of(all[before.len() as int], nodes[i].name, props));
    } else {
        law_wanted_types_are_selected(nodes, specs, node_type, property, n - 1, i, k);
        let s = choose|s: int|
            0 <= s < before.len() && is_selection_of(#[trigger] before[s], nodes[i].name, props);
        assert(all[s] == before[s]);
    }
}

/// Only types of the schema that are wanted are selected, each with something to embed, and
/// where nothing is, the selection is refused.
pub proof fn law_selected_types_are_wanted(
    nodes: Seq<NodeTypeDefModel>,
    specs: Seq<TypeEmbedSpecsModel>,
    node_type: Option<Seq<char>>,
    property: Option<Seq<char>>,
    n: int,
    s: int,
)
    requires
        0 <= n <= nodes.len(),
        0 <= s < selected_types(nodes, specs, node_type, property, n).len(),
    ensures
        selected_types(nodes, specs, node_type, property, n)[s].props.len() > 0,
        wants_name(node_type, selected_types(nodes, specs, node_type, property, n)[s].label),
        exists|i: int|
            0 <= i < n && (#[trigger] nodes[i]).name == selected_types(
                nodes,
                specs,
                node_type,
                property,
                n,
            )[s].label,
    decreases n,
{
    if n > 0 {
        let before = selected_types(nodes, specs, node_type, property, n - 1);
        let all = selected_types(nodes, specs, node_type, property, n);
        if s < before.len() {
            law_selected_types_are_wanted(nodes, specs, node_type, property, n - 1, s);
            assert(all[s] == before[s]);
        } else {
            assert(nodes[n - 1].name == all[s].label);
        }
    }
}

/// A schema where no type has an embedding has nothing to select.
pub proof fn law_nothing_to_embed_is_refused(
    schema: SchemaIrModel,
    specs: Seq<TypeEmbedSpecsModel>,
    node_type: Option<Seq<char>>,
    property: Option<Seq<char>>,
)
    requires
        forall|i: int, k: int|
            0 <= i < schema.nodes.len() && 0 <= k < specs.len() ==> (#[trigger] schema.nodes[i]).name
                != (#[trigger] specs[k]).label,
    ensures
        embed_selection(schema, specs, node_type, property) is Err,
{
    lemma_nothing_selected(schema.nodes, specs, node_type, property, schema.nodes.len() as int);
}

proof fn lemma_nothing_selected(
    nodes: Seq<NodeTypeDefModel>,
    specs: Seq<TypeEmbedSpecsModel>,
    node_type: Option<Seq<char>>,
    property: Option<Seq<char>>,
    n: int,
)
    requires
        0 <= n <= nodes.len(),
        forall|i: int, k: int|
            0 <= i < nodes.len() && 0 <= k < specs.len() ==> (#[trigger] nodes[i]).name != (
            #[trigger] specs[k]).label,
    ensures
        selected_types(nodes, specs, node_type, property, n).len() == 0,
    decreases n,
{
    if n > 0 {
        lemma_nothing_selected(nodes, specs, node_type, property, n - 1);
        assert forall|j: int| 0 <= j < specs.len() implies (#[trigger] specs[j]).label
            != nodes[n - 1].name by {
            assert(nodes[n - 1].name != specs[j].label);
        }
        lemma_no_specs(specs, nodes[n - 1].name, 0);
    }
}

// ---------------------------------------------------------------------------
// What follows

/// Whether a type has a selected property that is indexed.
pub open spec fn keeps_an_index(t: SelectedTypeModel, label: Seq<char>) -> bool {
    t.label == label && exists|i: int| 0 <= i < t.props.len() && (#[trigger] t.props[i]).indexed
}

/// The types whose indexes are built anew are those with a selected property that is
/// indexed, each once.
pub proof fn law_indexed_types_are_built_anew(types: Seq<SelectedTypeModel>, n: int, label: Seq<char>)
    requires
        0 <= n <= types.len(),
    ensures
        reindexable(types, n).contains(label) <==> exists|i: int|
            0 <= i < n && keeps_an_index(#[trigger] types[i], label),
        reindexable(types, n).no_duplicates(),
    decreases n,
{
    if n > 0 {
        law_indexed_types_are_built_anew(types, n - 1, label);
        let before = reindexable(types, n - 1);
        let all = reindexable(types, n);
        if all == before {
            if keeps_an_index(types[n - 1], label) {
                assert(before.contains(label));
            }
            if before.contains(label) {
                let i = choose|i: int| 0 <= i < n - 1 && keeps_an_index(#[trigger] types[i], label);
                assert(keeps_an_index(types[i], label));
            }
        } else {
            let last = types[n - 1].label;
            assert(all == before.push(last));
            assert(all[before.len() as int] == last);
            assert forall|x: Seq<char>| before.contains(x) implies all.contains(x) by {
                let j = choose|j: int| 0 <= j < before.len() && before[j] == x;
                assert(all[j] == x);
            }
            assert(keeps_an_index(types[n - 1], last));
            if all.contains(label) && label != last {
                let j = choose|j: int| 0 <= j < all.len() && all[j] == label;
                assert(before[j] == label);
                let i = choose|i: int| 0 <= i < n - 1 && keeps_an_index(#[trigger] types[i], label);
                assert(keeps_an_index(types[i], label));
            }
            if exists|i: int| 0 <= i < n && keeps_an_index(#[trigger] types[i], label) {
                let i = choose|i: int| 0 <= i < n && keeps_an_index(#[trigger] types[i], label);
                if i < n - 1 {
                    assert(before.contains(label));
                }
            }
            assert forall|x: int, y: int| 0 <= x < all.len() && 0 <= y < all.len() && x != y implies all[x]
                != all[y] by {
                if x == before.len() {
                    assert(before.contains(before[y]));
                } else if y == before.len() {
                    assert(before.contains(before[x]));
                }
            }
        }
    }
}

proof fn lemma_touched_bounds(
    types: Seq<SelectedTypeModel>,
    requests: Seq<EmbedRequestModel>,
    names: Seq<Seq<char>>,
    n: int,
)
    requires
        0 <= n <= names.len(),
    ensures
        touched_count(types, requests, names, n) <= n,
        touched_count(types, requests, names, n) == n <==> forall|i: int|
            0 <= i < n ==> touched(types, requests, #[trigger] names[i]),
        touched_count(types, requests, names, n) == 0 <==> forall|i: int|
            0 <= i < n ==> !touched(types, requests, #[trigger] names[i]),
    decreases n,
{
    if n > 0 {
        lemma_touched_bounds(types, requests, names, n - 1);
        let c = touched_count(types, requests, names, n);
        if c == n {
            assert(touched(types, requests, names[n - 1]));
        } else if forall|i: int| 0 <= i < n ==> touched(types, requests, #[trigger] names[i]) {
            assert(touched(types, requests, names[n - 1]));
        }
        if c == 0 {
            assert(!touched(types, requests, names[n - 1]));
        } else if forall|i: int| 0 <= i < n ==> !touched(types, requests, #[trigger] names[i]) {
            assert(!touched(types, requests, names[n - 1]));
        }
    }
}

/// Whether something of a type of this name is requested.
pub open spec fn has_request(
    types: Seq<SelectedTypeModel>,
    requests: Seq<EmbedRequestModel>,
    label: Seq<char>,
) -> bool {
    exists|k: int|
        0 <= k < requests.len() && (#[trigger] requests[k]).type_index < types.len()
            && types[requests[k].type_index as int].label == label
}

/// A run that writes commits exactly where something is requested; where nothing is, it
/// rebuilds the indexes if that is asked for, and else does nothing. A run that only shows
/// what it would do reports. A commit rebuilds as many types as have an index and a request:
/// all of those with an index where each has a request, and none where none has.
pub proof fn law_runs_do_what_is_left(
    types: Seq<SelectedTypeModel>,
    requests: Seq<EmbedRequestModel>,
    reindex: bool,
    dry_run: bool,
)
    ensures
        follow_up(types, requests, reindex, dry_run) is Report <==> dry_run,
        follow_up(types, requests, reindex, dry_run) is Commit <==> !dry_run && requests.len() > 0,
        follow_up(types, requests, reindex, dry_run) is Rebuild <==> !dry_run && requests.len()
            == 0 && reindex,
        follow_up(types, requests, reindex, dry_run) is Nothing <==> !dry_run && requests.len()
            == 0 && !reindex,
        follow_up(types, requests, reindex, dry_run) matches EmbedFollowUpModel::Rebuild(names)
            ==> names == reindexable(types, types.len() as int),
        follow_up(types, requests, reindex, dry_run) matches EmbedFollowUpModel::Commit(count) ==> {
            let names = reindexable(types, types.len() as int);
            &&& count <= names.len()
            &&& count == names.len() <==> forall|i: int|
                0 <= i < names.len() ==> has_request(types, requests, #[trigger] names[i])
            &&& count == 0 <==> forall|i: int|
                0 <= i < names.len() ==> !has_request(types, requests, #[trigger] names[i])
        },
        follow_up(types, requests, true, dry_run) matches EmbedFollowUpModel::Report(count)
            ==> count == reindexable(types, types.len() as int).len(),
        follow_up(types, requests, false, true)->Report_0 == follow_up(
            types,
            requests,
            false,
            false,
        )->Commit_0 || requests.len() == 0,
        requests.len() == 0 ==> follow_up(types, requests, false, true)->Report_0 == 0,
{
    let names = reindexable(types, types.len() as int);
    lemma_touched_bounds(types, requests, names, names.len() as int);
    assert forall|i: int| 0 <= i < names.len() implies touched(types, requests, #[trigger] names[i])
        == has_request(types, requests, names[i]) by {}
}

/// The number of selected properties: one for each type where each has one, none without
/// types, and what two lists have together is what each of them has.
pub proof fn law_properties_are_counted(a: Seq<SelectedTypeModel>, b: Seq<SelectedTypeModel>)
    ensures
        prop_count(a + b, (a + b).len() as int) == prop_count(a, a.len() as int) + prop_count(
            b,
            b.len() as int,
        ),
        a.len() == 1 ==> prop_count(a, a.len() as int) == a[0].props.len(),
    decreases b.len(),
{
    if b.len() == 0 {
        assert(a + b =~= a);
    } else {
        let c = b.drop_last();
        law_properties_are_counted(a, c);
        assert((a + b).drop_last() =~= a + c);
        lemma_count_of_prefix(a + b, (a + b).len() - 1);
        lemma_count_of_prefix(b, b.len() - 1);
        assert((a + b).take((a + b).len() - 1) =~= a + c);
        assert(b.take(b.len() - 1) =~= c);
        assert((a + b).last() == b.last());
    }
    if a.len() == 1 {
        assert(prop_count(a, 0) == 0);
    }
}

proof fn lemma_count_of_prefix(types: Seq<SelectedTypeModel>, n: int)
    requires
        0 <= n <= types.len(),
    ensures
        prop_count(types.take(n), n) == prop_count(types, n),
    decreases n,
{
    if n > 0 {
        lemma_count_of_prefix(types, n - 1);
        lemma_count_of_prefix(types.take(n), n - 1);
        assert(types.take(n).take(n - 1) =~= types.take(n - 1));
    }
}

/// The types whose indexes are built anew and that have a table are built in the order of
/// the schema, and no others are.
pub proof fn law_built_types_are_asked_for(
    nodes: Seq<NodeTypeDefModel>,
    names: Seq<Seq<char>>,
    available: Seq<Seq<char>>,
    n: int,
    label: Seq<char>,
)
    requires
        0 <= n <= nodes.len(),
    ensures
        rebuild_order(nodes, names, available, n).contains(label) <==> names.contains(label)
            && available.contains(label) && exists|i: int|
            0 <= i < n && (#[trigger] nodes[i]).name == label,
        rebuild_order(nodes, names, available, n).len() <= n,
    decreases n,
{
    if n > 0 {
        law_built_types_are_asked_for(nodes, names, available, n - 1, label);
        let before = rebuild_order(nodes, names, available, n - 1);
        let all = rebuild_order(nodes, names, available, n);
        if all == before {
            if before.contains(label) {
                let i = choose|i: int| 0 <= i < n - 1 && (#[trigger] nodes[i]).name == label;
                assert(nodes[i].name == label);
            }
        } else {
            assert(all[before.len() as int] == nodes[n - 1].name);
            if before.contains(label) {
                let j = choose|j: int| 0 <= j < before.len() && before[j] == label;
                assert(all[j] == label);
            }
            if all.contains(label) && label != nodes[n - 1].name {
                let j = choose|j: int| 0 <= j < all.len() && all[j] == label;
                assert(before[j] == label);
            }
        }
    }
}

// ---------------------------------------------------------------------------
// Loads

/// A load merges where some type has a key by which rows are told apart, and else replaces
/// what is there. It never appends unless told to.
pub proof fn law_keyed_data_is_merged(schema: SchemaIrModel, i: int, p: int)
    ensures
        0 <= i < schema.nodes.len() && 0 <= p < schema.nodes[i].properties.len()
            && schema.nodes[i].properties[p].key ==> default_mode(schema) == LoadMode::Merge,
        (forall|j: int, q: int|
            0 <= j < schema.nodes.len() && 0 <= q < schema.nodes[j].properties.len() ==> !(
            #[trigger] schema.nodes[j].properties[q]).key) ==> default_mode(schema)
            == LoadMode::Overwrite,
        default_mode(schema) != LoadMode::Append,
{
    if 0 <= i < schema.nodes.len() && 0 <= p < schema.nodes[i].properties.len()
        && schema.nodes[i].properties[p].key {
        let node = schema.nodes[i];
        assert(node.properties[p].key);
        assert(crate::store::database::has_key(schema.nodes[i]));
    }
    if forall|j: int, q: int|
        0 <= j < schema.nodes.len() && 0 <= q < schema.nodes[j].properties.len() ==> !(
        #[trigger] schema.nodes[j].properties[q]).key {
        assert forall|j: int| 0 <= j < schema.nodes.len() implies !crate::store::database::has_key(
            #[trigger] schema.nodes[j],
        ) by {
            let node = schema.nodes[j];
            assert forall|q: int| 0 <= q < node.properties.len() implies !(
            #[trigger] node.properties[q]).key by {
                assert(!schema.nodes[j].properties[q].key);
            }
        }
    }
}

/// The three ways to load have the names `overwrite`, `append` and `merge`.
pub proof fn law_modes_have_their_names(mode: LoadMode)
    ensures
        mode_label(mode) == "overwrite"@ <==> mode == LoadMode::Overwrite,
        mode_label(mode) == "append"@ <==> mode == LoadMode::Append,
        mode_label(mode) == "merge"@ <==> mode == LoadMode::Merge,
{
    reveal_strlit("overwrite");
    reveal_strlit("append");
    reveal_strlit("merge");
    assert("overwrite"@.len() == 9 && "append"@.len() == 6 && "merge"@.len() == 5);
}

/// The events that a mutation plans are the ones logged; where it plans none, the change
/// itself tells them.
pub proof fn law_planned_events_count(planned: Seq<CdcModel>, transition: Seq<CdcModel>)
    ensures
        planned.len() > 0 ==> effective_events(planned, transition) == planned,
        planned.len() == 0 ==> effective_events(planned, transition) == transition,
{
}

/// The number of properties that is told is that of the selected properties, as far as the
/// machine can count.
pub proof fn law_selected_properties_are_told(
    schema: SchemaIrModel,
    options: EmbedOptionsModel,
    specs: Seq<TypeEmbedSpecsModel>,
    tables: Seq<NodeRowsModel>,
)
    ensures
        embed_outcome(schema, options, specs, tables) matches Ok(plan) ==> {
            &&& prop_count(plan.selected, plan.selected.len() as int) <= usize::MAX
                ==> plan.properties_selected == prop_count(
                plan.selected,
                plan.selected.len() as int,
            )
            &&& plan.properties_selected <= usize::MAX
            &&& plan.dry_run == options.dry_run
            &&& embed_selection(schema, specs, options.node_type, options.property) == Ok::<
                Seq<SelectedTypeModel>,
                Seq<char>,
            >(plan.selected)
            &&& plan.follow_up == follow_up(
                plan.selected,
                plan.requests,
                options.reindex,
                options.dry_run,
            )
        },
{
}

/// A load carries its data and the way it is done, which its summary names; it plans no
/// events of its own.
pub proof fn law_loads_are_planned(source: MutationSourceModel, mode: LoadMode)
    ensures
        load_plan(source, mode).source == source,
        load_plan(source, mode).cdc_events.len() == 0,
        mode == LoadMode::Overwrite ==> load_plan(source, mode).op_summary == "load:overwrite"@,
        mode == LoadMode::Append ==> load_plan(source, mode).op_summary == "load:append"@,
        mode == LoadMode::Merge ==> load_plan(source, mode).op_summary == "load:merge"@,
{
    reveal_strlit("load:");
    reveal_strlit("overwrite");
    reveal_strlit("append");
    reveal_strlit("merge");
    reveal_strlit("load:overwrite");
    reveal_strlit("load:append");
    reveal_strlit("load:merge");
    assert("load:"@ + "overwrite"@ =~= "load:overwrite"@);
    assert("load:"@ + "append"@ =~= "load:append"@);
    assert("load:"@ + "merge"@ =~= "load:merge"@);
}

/// New vectors are written as whole tables of the types that have a request, and of no
/// others.
pub proof fn law_new_vectors_are_planned(
    plan: EmbedPlanModel,
    tables: Seq<NodeRowsModel>,
    vectors: Seq<Seq<JsonModel>>,
)
    ensures
        embed_plan(plan, tables, vectors).source == (MutationSourceModel::PreparedStorage {
            replaced: replaced(
                plan.selected,
                tables,
                plan.requests,
                vectors,
                plan.selected.len() as int,
            ),
        }),
        embed_plan(plan, tables, vectors).op_summary == "embed"@,
        embed_plan(plan, tables, vectors).cdc_events.len() == 0,
{
}

/// Where nothing can be embedded, the type and the property that were asked for are told.
pub proof fn law_what_is_missing_is_told(t: Seq<char>, p: Seq<char>)
    ensures
        nothing_selected(Some(t), Some(p)) == "type "@ + t + " has no @embed property "@ + p,
        nothing_selected(Some(t), None) == "type "@ + t + " has no @embed properties"@,
        nothing_selected(None, Some(p)) == "no @embed properties named "@ + p + " found"@,
        nothing_selected(None, None) == "schema has no @embed properties"@,
{
}

} // verus!
