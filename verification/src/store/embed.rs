//! Which vectors an embedding run generates.

use crate::error::NanoError;
use crate::json::{json_get, Json, JsonModel};
use crate::store::schema_ir::{NodeTypeDef, NodeTypeDefModel, PropDef, PropDefModel, SchemaIr, SchemaIrModel};
use crate::text::{cat3, cat4, lemma_views_push, opt_view, same, views};
use crate::types::{scalar_named, ScalarType};
use vstd::prelude::*;

verus! {

/// A property whose vector is made from the text of another.
#[derive(Debug)]
pub struct EmbedSpec {
    pub target_prop: String,
    pub source_prop: String,
    pub dim: usize,
}

pub struct EmbedSpecModel {
    pub target_prop: Seq<char>,
    pub source_prop: Seq<char>,
    pub dim: usize,
}

impl View for EmbedSpec {
    type V = EmbedSpecModel;

    open spec fn view(&self) -> EmbedSpecModel {
        EmbedSpecModel {
            target_prop: self.target_prop@,
            source_prop: self.source_prop@,
            dim: self.dim,
        }
    }
}

/// The embedded properties of a node type.
#[derive(Debug)]
pub struct TypeEmbedSpecs {
    pub label: String,
    pub specs: Vec<EmbedSpec>,
}

pub struct TypeEmbedSpecsModel {
    pub label: Seq<char>,
    pub specs: Seq<EmbedSpecModel>,
}

impl View for TypeEmbedSpecs {
    type V = TypeEmbedSpecsModel;

    open spec fn view(&self) -> TypeEmbedSpecsModel {
        TypeEmbedSpecsModel { label: self.label@, specs: views(self.specs@) }
    }
}

/// What a run is asked for.
#[derive(Debug)]
pub struct EmbedOptions {
    pub node_type: Option<String>,
    pub property: Option<String>,
    pub only_null: bool,
    pub limit: Option<usize>,
    pub reindex: bool,
    pub dry_run: bool,
}

pub struct EmbedOptionsModel {
    pub node_type: Option<Seq<char>>,
    pub property: Option<Seq<char>>,
    pub only_null: bool,
    pub limit: Option<usize>,
    pub reindex: bool,
    pub dry_run: bool,
}

impl View for EmbedOptions {
    type V = EmbedOptionsModel;

    open spec fn view(&self) -> EmbedOptionsModel {
        EmbedOptionsModel {
            node_type: opt_view(self.node_type),
            property: opt_view(self.property),
            only_null: self.only_null,
            limit: self.limit,
            reindex: self.reindex,
            dry_run: self.dry_run,
        }
    }
}

/// The rows of a node type.
#[derive(Debug)]
pub struct NodeRows {
    pub label: String,
    pub rows: Vec<Json>,
}

pub struct NodeRowsModel {
    pub label: Seq<char>,
    pub rows: Seq<JsonModel>,
}

impl View for NodeRows {
    type V = NodeRowsModel;

    open spec fn view(&self) -> NodeRowsModel {
        NodeRowsModel { label: self.label@, rows: views(self.rows@) }
    }
}

/// A property that a run fills.
#[derive(Debug)]
pub struct SelectedEmbedProp {
    pub target_prop: String,
    pub source_prop: String,
    pub dim: usize,
    pub indexed: bool,
}

pub struct SelectedPropModel {
    pub target_prop: Seq<char>,
    pub source_prop: Seq<char>,
    pub dim: usize,
    pub indexed: bool,
}

impl View for SelectedEmbedProp {
    type V = SelectedPropModel;

    open spec fn view(&self) -> SelectedPropModel {
        SelectedPropModel {
            target_prop: self.target_prop@,
            source_prop: self.source_prop@,
            dim: self.dim,
            indexed: self.indexed,
        }
    }
}

/// A node type with the properties that a run fills.
#[derive(Debug)]
pub struct SelectedType {
    pub label: String,
    pub props: Vec<SelectedEmbedProp>,
}

pub struct SelectedTypeModel {
    pub label: Seq<char>,
    pub props: Seq<SelectedPropModel>,
}

impl View for SelectedType {
    type V = SelectedTypeModel;

    open spec fn view(&self) -> SelectedTypeModel {
        SelectedTypeModel { label: self.label@, props: views(self.props@) }
    }
}

// ---------------------------------------------------------------------------
// The selection

/// The embedded properties of a type: the first entry of its label, from `i` on.
pub open spec fn specs_of(specs: Seq<TypeEmbedSpecsModel>, label: Seq<char>, i: int) -> Option<
    Seq<EmbedSpecModel>,
>
    decreases specs.len() - i,
{
    if i < 0 || i >= specs.len() {
        None
    } else if specs[i].label == label {
        Some(specs[i].specs)
    } else {
        specs_of(specs, label, i + 1)
    }
}

/// Whether the first property of a given name, from `i` on, is an indexed vector.
pub open spec fn indexed_vector(props: Seq<PropDefModel>, name: Seq<char>, i: int) -> bool
    decreases props.len() - i,
{
    if i < 0 || i >= props.len() {
        false
    } else if props[i].name == name {
        props[i].index && (scalar_named(props[i].scalar_type) matches Some(s) && s is Vector)
    } else {
        indexed_vector(props, name, i + 1)
    }
}

pub open spec fn selected_prop(node: NodeTypeDefModel, spec_: EmbedSpecModel) -> SelectedPropModel {
    SelectedPropModel {
        target_prop: spec_.target_prop,
        source_prop: spec_.source_prop,
        dim: spec_.dim,
        indexed: indexed_vector(node.properties, spec_.target_prop, 0),
    }
}

/// Of the first `n` embedded properties of a type those that are asked for.
pub open spec fn selected_props(
    node: NodeTypeDefModel,
    specs: Seq<EmbedSpecModel>,
    property: Option<Seq<char>>,
    n: int,
) -> Seq<SelectedPropModel>
    decreases n,
{
    if n <= 0 {
        Seq::empty()
    } else {
        let before = selected_props(node, specs, property, n - 1);
        if property matches Some(p) ==> specs[n - 1].target_prop == p {
            before.push(selected_prop(node, specs[n - 1]))
        } else {
            before
        }
    }
}

/// The properties of a node type that are asked for.
pub open spec fn node_selection(
    node: NodeTypeDefModel,
    specs: Seq<TypeEmbedSpecsModel>,
    node_type: Option<Seq<char>>,
    property: Option<Seq<char>>,
) -> Seq<SelectedPropModel> {
    if node_type matches Some(t) && node.name != t {
        Seq::empty()
    } else {
        match specs_of(specs, node.name, 0) {
            None => Seq::empty(),
            Some(s) => selected_props(node, s, property, s.len() as int),
        }
    }
}

/// Of the first `n` node types those with a property that is asked for.
pub open spec fn selected_types(
    nodes: Seq<NodeTypeDefModel>,
    specs: Seq<TypeEmbedSpecsModel>,
    node_type: Option<Seq<char>>,
    property: Option<Seq<char>>,
    n: int,
) -> Seq<SelectedTypeModel>
    decreases n,
{
    if n <= 0 {
        Seq::empty()
    } else {
        let before = selected_types(nodes, specs, node_type, property, n - 1);
        let props = node_selection(nodes[n - 1], specs, node_type, property);
        if props.len() == 0 {
            before
        } else {
            before.push(SelectedTypeModel { label: nodes[n - 1].name, props })
        }
    }
}

/// The message of a selection that selects nothing.
pub open spec fn nothing_selected(
    node_type: Option<Seq<char>>,
    property: Option<Seq<char>>,
) -> Seq<char> {
    match (node_type, property) {
        (Some(t), Some(p)) => "type "@ + t + " has no @embed property "@ + p,
        (Some(t), None) => "type "@ + t + " has no @embed properties"@,
        (None, Some(p)) => "no @embed properties named "@ + p + " found"@,
        (None, None) => "schema has no @embed properties"@,
    }
}

/// The node types and properties that are asked for.
pub open spec fn embed_selection(
    schema: SchemaIrModel,
    specs: Seq<TypeEmbedSpecsModel>,
    node_type: Option<Seq<char>>,
    property: Option<Seq<char>>,
) -> Result<Seq<SelectedTypeModel>, Seq<char>> {
    let selected = selected_types(
        schema.nodes,
        specs,
        node_type,
        property,
        schema.nodes.len() as int,
    );
    if selected.len() == 0 {
        Err(nothing_selected(node_type, property))
    } else {
        Ok(selected)
    }
}

fn find_specs<'a>(specs: &'a Vec<TypeEmbedSpecs>, label: &str) -> (r: Option<&'a Vec<EmbedSpec>>)
    ensures
        match r {
            Some(v) => specs_of(views(specs@), label@, 0) == Some(views(v@)),
            None => specs_of(views(specs@), label@, 0) is None,
        },
{
    let mut i: usize = 0;
    while i < specs.len()
        invariant
            i <= specs@.len(),
            specs_of(views(specs@), label@, 0) == specs_of(views(specs@), label@, i as int),
        decreases specs@.len() - i,
    {
        assert(views(specs@)[i as int] == specs@[i as int]@);
        if same(&specs[i].label, label) {
            return Some(&specs[i].specs);
        }
        i = i + 1;
    }
    None
}

fn is_indexed_vector(props: &Vec<PropDef>, name: &str) -> (r: bool)
    ensures
        r == indexed_vector(views(props@), name@, 0),
{
    let mut i: usize = 0;
    while i < props.len()
        invariant
            i <= props@.len(),
            indexed_vector(views(props@), name@, 0) == indexed_vector(
                views(props@),
                name@,
                i as int,
            ),
        decreases props@.len() - i,
    {
        assert(views(props@)[i as int] == props@[i as int]@);
        if same(&props[i].name, name) {
            let vector = match ScalarType::from_str_name(&props[i].scalar_type) {
                Some(ScalarType::Vector(_)) => true,
                _ => false,
            };
            return props[i].index && vector;
        }
        i = i + 1;
    }
    false
}

fn select_props(node: &NodeTypeDef, specs: &Vec<EmbedSpec>, property: Option<&String>) -> (r: Vec<
    SelectedEmbedProp,
>)
    ensures
        views(r@) == selected_props(
            node@,
            views(specs@),
            match property {
                Some(p) => Some(p@),
                None => None,
            },
            specs@.len() as int,
        ),
{
    let ghost wanted = match property {
        Some(p) => Some(p@),
        None => None::<Seq<char>>,
    };
    let mut out: Vec<SelectedEmbedProp> = Vec::new();
    assert(views(out@) =~= Seq::<SelectedPropModel>::empty());
    let mut i: usize = 0;
    while i < specs.len()
        invariant
            i <= specs@.len(),
            wanted == (match property {
                Some(p) => Some(p@),
                None => None::<Seq<char>>,
            }),
            views(out@) == selected_props(node@, views(specs@), wanted, i as int),
        decreases specs@.len() - i,
    {
        let s = &specs[i];
        assert(views(specs@)[i as int] == s@);
        let take = match property {
            Some(p) => same(&s.target_prop, p),
            None => true,
        };
        if take {
            let x = SelectedEmbedProp {
                target_prop: s.target_prop.clone(),
                source_prop: s.source_prop.clone(),
                dim: s.dim,
                indexed: is_indexed_vector(&node.properties, &s.target_prop),
            };
            proof {
                lemma_views_push(out@, x);
            }
            out.push(x);
        }
        i = i + 1;
    }
    out
}

/// Selects the node types and properties that are asked for.
pub fn select_embed_types(
    schema: &SchemaIr,
    specs: &Vec<TypeEmbedSpecs>,
    node_type: Option<&String>,
    property: Option<&String>,
) -> (r: Result<Vec<SelectedType>, NanoError>)
    ensures
        ({
            let expected = embed_selection(
                schema@,
                views(specs@),
                match node_type {
                    Some(t) => Some(t@),
                    None => None,
                },
                match property {
                    Some(p) => Some(p@),
                    None => None,
                },
            );
            match r {
                Ok(v) => expected == Ok::<Seq<SelectedTypeModel>, Seq<char>>(views(v@)),
                Err(NanoError::Execution(m)) => expected == Err::<
                    Seq<SelectedTypeModel>,
                    Seq<char>,
                >(m@),
                Err(_) => false,
            }
        }),
{
    let ghost wanted_type = match node_type {
        Some(t) => Some(t@),
        None => None::<Seq<char>>,
    };
    let ghost wanted_prop = match property {
        Some(p) => Some(p@),
        None => None::<Seq<char>>,
    };
    let mut out: Vec<SelectedType> = Vec::new();
    assert(views(out@) =~= Seq::<SelectedTypeModel>::empty());
    let mut i: usize = 0;
    while i < schema.nodes.len()
        invariant
            i <= schema.nodes@.len(),
            wanted_type == (match node_type {
                Some(t) => Some(t@),
                None => None::<Seq<char>>,
            }),
            wanted_prop == (match property {
                Some(p) => Some(p@),
                None => None::<Seq<char>>,
            }),
            views(out@) == selected_types(
                schema@.nodes,
                views(specs@),
                wanted_type,
                wanted_prop,
                i as int,
            ),
        decreases schema.nodes@.len() - i,
    {
        let node = &schema.nodes[i];
        assert(schema@.nodes[i as int] == node@);
        let skip = match node_type {
            Some(t) => !same(&node.name, t),
            None => false,
        };
        if !skip {
            if let Some(s) = find_specs(specs, &node.name) {
                let props = select_props(node, s, property);
                assert(views(props@).len() == props@.len());
                if props.len() > 0 {
                    let x = SelectedType { label: node.name.clone(), props };
                    proof {
                        lemma_views_push(out@, x);
                    }
                    out.push(x);
                }
            }
        }
        i = i + 1;
    }
    assert(views(out@).len() == out@.len());
    if out.len() > 0 {
        return Ok(out);
    }
    let message = match (node_type, property) {
        (Some(t), Some(p)) => cat4("type ", t, " has no @embed property ", p),
        (Some(t), None) => cat3("type ", t, " has no @embed properties"),
        (None, Some(p)) => cat3("no @embed properties named ", p, " found"),
        (None, None) => "schema has no @embed properties".to_owned(),
    };
    Err(NanoError::Execution(message))
}

// ---------------------------------------------------------------------------
// The requests

/// A vector to generate.
#[derive(Debug)]
pub struct EmbedRequest {
    /// The position of the type among the selected types.
    pub type_index: usize,
    pub row: usize,
    pub target_prop: String,
    pub source_text: String,
    pub dim: usize,
}

pub struct EmbedRequestModel {
    pub type_index: usize,
    pub row: usize,
    pub target_prop: Seq<char>,
    pub source_text: Seq<char>,
    pub dim: usize,
}

impl View for EmbedRequest {
    type V = EmbedRequestModel;

    open spec fn view(&self) -> EmbedRequestModel {
        EmbedRequestModel {
            type_index: self.type_index,
            row: self.row,
            target_prop: self.target_prop@,
            source_text: self.source_text@,
            dim: self.dim,
        }
    }
}

/// Whether a row's property is to be filled: always, or only while it is null.
pub open spec fn wants_vector(row: JsonModel, prop: SelectedPropModel, only_null: bool) -> bool {
    only_null ==> (json_get(row, prop.target_prop) matches Some(v) ==> v is Null)
}

/// The requests of a row for its properties from `i` on, behind those in `acc`, or the
/// message that its source is no text.
pub open spec fn row_requests(
    t: SelectedTypeModel,
    type_index: usize,
    row: JsonModel,
    row_index: usize,
    only_null: bool,
    i: int,
    acc: Seq<EmbedRequestModel>,
) -> Result<Seq<EmbedRequestModel>, Seq<char>>
    decreases t.props.len() - i,
{
    if i < 0 || i >= t.props.len() {
        Ok(acc)
    } else if !wants_vector(row, t.props[i], only_null) {
        row_requests(t, type_index, row, row_index, only_null, i + 1, acc)
    } else {
        let p = t.props[i];
        match json_get(row, p.source_prop) {
            Some(JsonModel::Text(text)) => row_requests(
                t,
                type_index,
                row,
                row_index,
                only_null,
                i + 1,
                acc.push(
                    EmbedRequestModel {
                        type_index,
                        row: row_index,
                        target_prop: p.target_prop,
                        source_text: text,
                        dim: p.dim,
                    },
                ),
            ),
            _ => Err(
                "cannot embed "@ + t.label + "."@ + p.target_prop + ": source property "@
                    + p.source_prop + " must be a String"@,
            ),
        }
    }
}

/// The state of a run: what it has requested, and how many more rows it may select.
#[verifier::ext_equal]
pub struct ScanModel {
    pub requests: Seq<EmbedRequestModel>,
    pub rows_selected: int,
    pub remaining: int,
}

/// The state behind the rows from `i` on: each row that wants a vector is selected, until
/// no more rows may be.
pub open spec fn scan_rows(
    t: SelectedTypeModel,
    type_index: usize,
    rows: Seq<JsonModel>,
    only_null: bool,
    i: int,
    s: ScanModel,
) -> Result<ScanModel, Seq<char>>
    decreases rows.len() - i,
{
    if i < 0 || i >= rows.len() || s.remaining == 0 {
        Ok(s)
    } else {
        match row_requests(t, type_index, rows[i], i as usize, only_null, 0, s.requests) {
            Err(m) => Err(m),
            Ok(requests) => if requests.len() == s.requests.len() {
                scan_rows(t, type_index, rows, only_null, i + 1, s)
            } else {
                scan_rows(
                    t,
                    type_index,
                    rows,
                    only_null,
                    i + 1,
                    ScanModel {
                        requests,
                        rows_selected: s.rows_selected + 1,
                        remaining: s.remaining - 1,
                    },
                )
            },
        }
    }
}

/// The rows of a type: the first table of its label, from `i` on.
pub open spec fn rows_of(tables: Seq<NodeRowsModel>, label: Seq<char>, i: int) -> Option<
    Seq<JsonModel>,
>
    decreases tables.len() - i,
{
    if i < 0 || i >= tables.len() {
        None
    } else if tables[i].label == label {
        Some(tables[i].rows)
    } else {
        rows_of(tables, label, i + 1)
    }
}

/// The state behind the selected types from `i` on.
pub open spec fn scan_types(
    types: Seq<SelectedTypeModel>,
    tables: Seq<NodeRowsModel>,
    only_null: bool,
    i: int,
    s: ScanModel,
) -> Result<ScanModel, Seq<char>>
    decreases types.len() - i,
{
    if i < 0 || i >= types.len() || s.remaining == 0 {
        Ok(s)
    } else {
        match rows_of(tables, types[i].label, 0) {
            None => scan_types(types, tables, only_null, i + 1, s),
            Some(rows) => match scan_rows(types[i], i as usize, rows, only_null, 0, s) {
                Err(m) => Err(m),
                Ok(next) => scan_types(types, tables, only_null, i + 1, next),
            },
        }
    }
}

#[verifier::loop_isolation(false)]
fn request_row(
    t: &SelectedType,
    type_index: usize,
    row: &Json,
    row_index: usize,
    only_null: bool,
    acc: Vec<EmbedRequest>,
) -> (r: Result<Vec<EmbedRequest>, NanoError>)
    ensures
        ({
            let expected = row_requests(
                t@,
                type_index,
                row@,
                row_index,
                only_null,
                0,
                views(acc@),
            );
            match r {
                Ok(v) => expected == Ok::<Seq<EmbedRequestModel>, Seq<char>>(views(v@)) && v@.len()
                    >= acc@.len(),
                Err(NanoError::Execution(m)) => expected == Err::<
                    Seq<EmbedRequestModel>,
                    Seq<char>,
                >(m@),
                Err(_) => false,
            }
        }),
{
    let ghost start = views(acc@);
    let ghost expected = row_requests(t@, type_index, row@, row_index, only_null, 0, start);
    let mut out = acc;
    let mut i: usize = 0;
    while i < t.props.len()
        invariant
            i <= t.props@.len(),
            out@.len() >= start.len(),
            expected == row_requests(
                t@,
                type_index,
                row@,
                row_index,
                only_null,
                i as int,
                views(out@),
            ),
        decreases t.props@.len() - i,
    {
        let p = &t.props[i];
        assert(t@.props[i as int] == p@);
        let wanted = if only_null {
            match row.get(&p.target_prop) {
                Some(v) => v.is_null(),
                None => true,
            }
        } else {
            true
        };
        if wanted {
            let text = match row.get(&p.source_prop) {
                Some(v) => v.as_str(),
                None => None,
            };
            match text {
                Some(text) => {
                    let x = EmbedRequest {
                        type_index,
                        row: row_index,
                        target_prop: p.target_prop.clone(),
                        source_text: text.clone(),
                        dim: p.dim,
                    };
                    proof {
                        lemma_views_push(out@, x);
                    }
                    out.push(x);
                },
                None => {
                    let mut m = cat4("cannot embed ", &t.label, ".", &p.target_prop);
                    m.append(": source property ");
                    m.append(&p.source_prop);
                    m.append(" must be a String");
                    return Err(NanoError::Execution(m));
                },
            }
        }
        i = i + 1;
    }
    Ok(out)
}

/// The state of a run.
struct Scan {
    requests: Vec<EmbedRequest>,
    rows_selected: usize,
    remaining: usize,
}

impl View for Scan {
    type V = ScanModel;

    closed spec fn view(&self) -> ScanModel {
        ScanModel {
            requests: views(self.requests@),
            rows_selected: self.rows_selected as int,
            remaining: self.remaining as int,
        }
    }
}

#[verifier::loop_isolation(false)]
fn scan_table(t: &SelectedType, type_index: usize, rows: &Vec<Json>, only_null: bool, s: Scan) -> (r:
    Result<Scan, NanoError>)
    requires
        s.rows_selected + s.remaining <= usize::MAX,
    ensures
        ({
            let expected = scan_rows(t@, type_index, views(rows@), only_null, 0, s@);
            match r {
                Ok(next) => expected == Ok::<ScanModel, Seq<char>>(next@) && next.rows_selected
                    + next.remaining == s.rows_selected + s.remaining,
                Err(NanoError::Execution(m)) => expected == Err::<ScanModel, Seq<char>>(m@),
                Err(_) => false,
            }
        }),
{
    let ghost total = s.rows_selected + s.remaining;
    let ghost expected = scan_rows(t@, type_index, views(rows@), only_null, 0, s@);
    let mut requests = s.requests;
    let mut rows_selected: usize = s.rows_selected;
    let mut remaining: usize = s.remaining;
    let mut i: usize = 0;
    while i < rows.len()
        invariant
            i <= rows@.len(),
            rows_selected + remaining == total,
            total <= usize::MAX,
            expected == scan_rows(
                t@,
                type_index,
                views(rows@),
                only_null,
                i as int,
                (ScanModel {
                    requests: views(requests@),
                    rows_selected: rows_selected as int,
                    remaining: remaining as int,
                }),
            ),
        decreases rows@.len() - i,
    {
        if remaining == 0 {
            return Ok(Scan { requests, rows_selected, remaining });
        }
        assert(views(rows@)[i as int] == rows@[i as int]@);
        let before: usize = requests.len();
        let ghost start = views(requests@);
        requests = match request_row(t, type_index, &rows[i], i, only_null, requests) {
            Ok(v) => v,
            Err(e) => {
                return Err(e);
            },
        };
        assert(views(requests@).len() == requests@.len());
        if requests.len() > before {
            rows_selected = rows_selected + 1;
            remaining = remaining - 1;
        } else {
            proof {
                lemma_row_requests_extend(
                    t@,
                    type_index,
                    rows@[i as int]@,
                    i,
                    only_null,
                    0,
                    start,
                );
                assert(views(requests@) =~= start);
            }
        }
        i = i + 1;
    }
    Ok(Scan { requests, rows_selected, remaining })
}

/// The requests of a row stand behind those that were there.
proof fn lemma_row_requests_extend(
    t: SelectedTypeModel,
    type_index: usize,
    row: JsonModel,
    row_index: usize,
    only_null: bool,
    i: int,
    acc: Seq<EmbedRequestModel>,
)
    ensures
        row_requests(t, type_index, row, row_index, only_null, i, acc) matches Ok(v) ==> acc.len()
            <= v.len() && v.take(acc.len() as int) == acc && forall|k: int|
            acc.len() <= k < v.len() ==> (#[trigger] v[k]).type_index == type_index && v[k].row
                == row_index,
    decreases t.props.len() - i,
{
    assert(acc.take(acc.len() as int) =~= acc);
    if i < 0 || i >= t.props.len() {
    } else if !wants_vector(row, t.props[i], only_null) {
        lemma_row_requests_extend(t, type_index, row, row_index, only_null, i + 1, acc);
    } else {
        let p = t.props[i];
        if let Some(JsonModel::Text(text)) = json_get(row, p.source_prop) {
            let x = EmbedRequestModel {
                type_index,
                row: row_index,
                target_prop: p.target_prop,
                source_text: text,
                dim: p.dim,
            };
            lemma_row_requests_extend(
                t,
                type_index,
                row,
                row_index,
                only_null,
                i + 1,
                acc.push(x),
            );
            if let Ok(v) = row_requests(
                t,
                type_index,
                row,
                row_index,
                only_null,
                i + 1,
                acc.push(x),
            ) {
                assert(v.take(acc.len() as int) =~= v.take(acc.len() as int + 1).take(
                    acc.len() as int,
                ));
                assert(acc.push(x).take(acc.len() as int) =~= acc);
                assert(v[acc.len() as int] == v.take(acc.len() as int + 1)[acc.len() as int]);
            }
        }
    }
}

fn find_rows<'a>(tables: &'a Vec<NodeRows>, label: &str) -> (r: Option<&'a Vec<Json>>)
    ensures
        match r {
            Some(v) => rows_of(views(tables@), label@, 0) == Some(views(v@)),
            None => rows_of(views(tables@), label@, 0) is None,
        },
{
    let mut i: usize = 0;
    while i < tables.len()
        invariant
            i <= tables@.len(),
            rows_of(views(tables@), label@, 0) == rows_of(views(tables@), label@, i as int),
        decreases tables@.len() - i,
    {
        assert(views(tables@)[i as int] == tables@[i as int]@);
        if same(&tables[i].label, label) {
            return Some(&tables[i].rows);
        }
        i = i + 1;
    }
    None
}

#[verifier::loop_isolation(false)]
fn scan_all(types: &Vec<SelectedType>, tables: &Vec<NodeRows>, only_null: bool, limit: usize) -> (r:
    Result<Scan, NanoError>)
    ensures
        ({
            let expected = scan_types(
                views(types@),
                views(tables@),
                only_null,
                0,
                (ScanModel {
                    requests: Seq::empty(),
                    rows_selected: 0,
                    remaining: limit as int,
                }),
            );
            match r {
                Ok(s) => expected == Ok::<ScanModel, Seq<char>>(s@),
                Err(NanoError::Execution(m)) => expected == Err::<ScanModel, Seq<char>>(m@),
                Err(_) => false,
            }
        }),
{
    let mut s = Scan { requests: Vec::new(), rows_selected: 0, remaining: limit };
    assert(s@.requests =~= Seq::<EmbedRequestModel>::empty());
    let ghost expected = scan_types(views(types@), views(tables@), only_null, 0, s@);
    let mut i: usize = 0;
    while i < types.len()
        invariant
            i <= types@.len(),
            s.rows_selected + s.remaining == limit,
            expected == scan_types(views(types@), views(tables@), only_null, i as int, s@),
        decreases types@.len() - i,
    {
        if s.remaining == 0 {
            return Ok(s);
        }
        let t = &types[i];
        assert(views(types@)[i as int] == t@);
        if let Some(rows) = find_rows(tables, &t.label) {
            s = match scan_table(t, i, rows, only_null, s) {
                Ok(next) => next,
                Err(e) => {
                    return Err(e);
                },
            };
        }
        i = i + 1;
    }
    Ok(s)
}

// ---------------------------------------------------------------------------
// The plan of a run

/// What follows once the vectors of a run are there.
#[derive(Debug)]
pub enum EmbedFollowUp {
    /// Nothing is written; this many types would be indexed again.
    Report(usize),
    /// The filled rows are committed, which indexes this many types again.
    Commit(usize),
    /// No row was filled, and the indexes of these types are built again.
    Rebuild(Vec<String>),
    Nothing,
}

pub enum EmbedFollowUpModel {
    Report(nat),
    Commit(nat),
    Rebuild(Seq<Seq<char>>),
    Nothing,
}

impl View for EmbedFollowUp {
    type V = EmbedFollowUpModel;

    open spec fn view(&self) -> EmbedFollowUpModel {
        match *self {
            EmbedFollowUp::Report(n) => EmbedFollowUpModel::Report(n as nat),
            EmbedFollowUp::Commit(n) => EmbedFollowUpModel::Commit(n as nat),
            EmbedFollowUp::Rebuild(v) => EmbedFollowUpModel::Rebuild(views(v@)),
            EmbedFollowUp::Nothing => EmbedFollowUpModel::Nothing,
        }
    }
}

/// What a run does.
#[derive(Debug)]
pub struct EmbedPlan {
    pub selected: Vec<SelectedType>,
    pub requests: Vec<EmbedRequest>,
    pub rows_selected: usize,
    pub properties_selected: usize,
    pub follow_up: EmbedFollowUp,
    pub dry_run: bool,
}

pub struct EmbedPlanModel {
    pub selected: Seq<SelectedTypeModel>,
    pub requests: Seq<EmbedRequestModel>,
    pub rows_selected: nat,
    pub properties_selected: nat,
    pub follow_up: EmbedFollowUpModel,
    pub dry_run: bool,
}

impl View for EmbedPlan {
    type V = EmbedPlanModel;

    open spec fn view(&self) -> EmbedPlanModel {
        EmbedPlanModel {
            selected: views(self.selected@),
            requests: views(self.requests@),
            rows_selected: self.rows_selected as nat,
            properties_selected: self.properties_selected as nat,
            follow_up: self.follow_up@,
            dry_run: self.dry_run,
        }
    }
}

/// Whether a selected type has an indexed vector.
pub open spec fn has_indexed(t: SelectedTypeModel) -> bool {
    exists|i: int| 0 <= i < t.props.len() && (#[trigger] t.props[i]).indexed
}

/// The names, each once, of the first `n` selected types with an indexed vector.
pub open spec fn reindexable(types: Seq<SelectedTypeModel>, n: int) -> Seq<Seq<char>>
    decreases n,
{
    if n <= 0 {
        Seq::empty()
    } else {
        let before = reindexable(types, n - 1);
        if has_indexed(types[n - 1]) && !before.contains(types[n - 1].label) {
            before.push(types[n - 1].label)
        } else {
            before
        }
    }
}

/// Whether a request is for a type of the given name.
pub open spec fn touched(
    types: Seq<SelectedTypeModel>,
    requests: Seq<EmbedRequestModel>,
    label: Seq<char>,
) -> bool {
    exists|k: int|
        0 <= k < requests.len() && (#[trigger] requests[k]).type_index < types.len()
            && types[requests[k].type_index as int].label == label
}

/// How many of the first `n` names have a request.
pub open spec fn touched_count(
    types: Seq<SelectedTypeModel>,
    requests: Seq<EmbedRequestModel>,
    names: Seq<Seq<char>>,
    n: int,
) -> nat
    decreases n,
{
    if n <= 0 {
        0
    } else {
        touched_count(types, requests, names, n - 1) + if touched(types, requests, names[n - 1]) {
            1nat
        } else {
            0nat
        }
    }
}

/// How many properties the first `n` selected types have together.
pub open spec fn prop_count(types: Seq<SelectedTypeModel>, n: int) -> nat
    decreases n,
{
    if n <= 0 {
        0
    } else {
        prop_count(types, n - 1) + types[n - 1].props.len()
    }
}

/// A count that a machine word holds.
pub open spec fn capped(n: nat) -> nat {
    if n <= usize::MAX {
        n
    } else {
        usize::MAX as nat
    }
}

/// What follows once the vectors of a run are there.
pub open spec fn follow_up(
    types: Seq<SelectedTypeModel>,
    requests: Seq<EmbedRequestModel>,
    reindex: bool,
    dry_run: bool,
) -> EmbedFollowUpModel {
    let names = reindexable(types, types.len() as int);
    let count = touched_count(types, requests, names, names.len() as int);
    if dry_run {
        EmbedFollowUpModel::Report(
            if reindex {
                names.len()
            } else {
                count
            },
        )
    } else if requests.len() > 0 {
        EmbedFollowUpModel::Commit(count)
    } else if reindex {
        EmbedFollowUpModel::Rebuild(names)
    } else {
        EmbedFollowUpModel::Nothing
    }
}

/// What a run does, or the message with which it is refused.
pub open spec fn embed_outcome(
    schema: SchemaIrModel,
    options: EmbedOptionsModel,
    specs: Seq<TypeEmbedSpecsModel>,
    tables: Seq<NodeRowsModel>,
) -> Result<EmbedPlanModel, Seq<char>> {
    if options.property is Some && options.node_type is None {
        Err("--property requires --type for `nanograph embed`"@)
    } else {
        match embed_selection(schema, specs, options.node_type, options.property) {
            Err(m) => Err(m),
            Ok(selected) => {
                let limit = match options.limit {
                    Some(n) => n,
                    None => usize::MAX,
                };
                let start = ScanModel {
                    requests: Seq::empty(),
                    rows_selected: 0,
                    remaining: limit as int,
                };
                match scan_types(selected, tables, options.only_null, 0, start) {
                    Err(m) => Err(m),
                    Ok(s) => Ok(
                        EmbedPlanModel {
                            selected,
                            requests: s.requests,
                            rows_selected: s.rows_selected as nat,
                            properties_selected: capped(
                                prop_count(selected, selected.len() as int),
                            ),
                            follow_up: follow_up(
                                selected,
                                s.requests,
                                options.reindex,
                                options.dry_run,
                            ),
                            dry_run: options.dry_run,
                        },
                    ),
                }
            },
        }
    }
}

fn type_has_indexed(t: &SelectedType) -> (r: bool)
    ensures
        r == has_indexed(t@),
{
    let mut i: usize = 0;
    while i < t.props.len()
        invariant
            i <= t.props@.len(),
            forall|k: int| 0 <= k < i ==> !(#[trigger] t@.props[k]).indexed,
        decreases t.props@.len() - i,
    {
        assert(t@.props[i as int] == t.props@[i as int]@);
        if t.props[i].indexed {
            return true;
        }
        i = i + 1;
    }
    false
}

fn holds_name(names: &Vec<String>, name: &str) -> (r: bool)
    ensures
        r == views(names@).contains(name@),
{
    let mut i: usize = 0;
    while i < names.len()
        invariant
            i <= names@.len(),
            forall|k: int| 0 <= k < i ==> #[trigger] views(names@)[k] != name@,
        decreases names@.len() - i,
    {
        if same(&names[i], name) {
            assert(views(names@)[i as int] == name@);
            return true;
        }
        i = i + 1;
    }
    false
}

fn collect_reindexable(types: &Vec<SelectedType>) -> (r: Vec<String>)
    ensures
        views(r@) == reindexable(views(types@), types@.len() as int),
{
    let mut out: Vec<String> = Vec::new();
    assert(views(out@) =~= Seq::<Seq<char>>::empty());
    let mut i: usize = 0;
    while i < types.len()
        invariant
            i <= types@.len(),
            views(out@) == reindexable(views(types@), i as int),
        decreases types@.len() - i,
    {
        assert(views(types@)[i as int] == types@[i as int]@);
        if type_has_indexed(&types[i]) && !holds_name(&out, &types[i].label) {
            let name = types[i].label.clone();
            proof {
                lemma_views_push(out@, name);
            }
            out.push(name);
        }
        i = i + 1;
    }
    out
}

fn is_touched(types: &Vec<SelectedType>, requests: &Vec<EmbedRequest>, label: &str) -> (r: bool)
    ensures
        r == touched(views(types@), views(requests@), label@),
{
    let mut k: usize = 0;
    while k < requests.len()
        invariant
            k <= requests@.len(),
            forall|j: int|
                0 <= j < k ==> !((#[trigger] views(requests@)[j]).type_index < types@.len()
                    && views(types@)[views(requests@)[j].type_index as int].label == label@),
        decreases requests@.len() - k,
    {
        let t: usize = requests[k].type_index;
        assert(views(requests@)[k as int].type_index == t);
        if t < types.len() {
            assert(views(types@)[t as int] == types@[t as int]@);
            if same(&types[t].label, label) {
                return true;
            }
        }
        k = k + 1;
    }
    false
}

fn count_touched(types: &Vec<SelectedType>, requests: &Vec<EmbedRequest>, names: &Vec<String>) -> (r:
    usize)
    ensures
        r == touched_count(views(types@), views(requests@), views(names@), names@.len() as int),
{
    let mut count: usize = 0;
    let mut i: usize = 0;
    while i < names.len()
        invariant
            count <= i <= names@.len(),
            count == touched_count(views(types@), views(requests@), views(names@), i as int),
        decreases names@.len() - i,
    {
        assert(views(names@)[i as int] == names@[i as int]@);
        if is_touched(types, requests, &names[i]) {
            count = count + 1;
        }
        i = i + 1;
    }
    count
}

fn count_props(types: &Vec<SelectedType>) -> (r: usize)
    ensures
        r == capped(prop_count(views(types@), types@.len() as int)),
{
    let mut count: usize = 0;
    let mut i: usize = 0;
    while i < types.len()
        invariant
            i <= types@.len(),
            count == capped(prop_count(views(types@), i as int)),
        decreases types@.len() - i,
    {
        assert(views(types@)[i as int] == types@[i as int]@);
        assert(views(types@)[i as int].props.len() == types@[i as int].props@.len());
        count = count.saturating_add(types[i].props.len());
        i = i + 1;
    }
    count
}

/// Whether every request is for a row of one of the selected types.
pub open spec fn requests_fit(
    types: Seq<SelectedTypeModel>,
    tables: Seq<NodeRowsModel>,
    requests: Seq<EmbedRequestModel>,
) -> bool {
    forall|k: int|
        0 <= k < requests.len() ==> {
            let r = #[trigger] requests[k];
            r.type_index < types.len() && (rows_of(
                tables,
                types[r.type_index as int].label,
                0,
            ) matches Some(rows) && r.row < rows.len())
        }
}

/// Plans a run: which vectors are generated from which texts, and what follows.
pub fn plan_embed(
    schema: &SchemaIr,
    options: &EmbedOptions,
    specs: &Vec<TypeEmbedSpecs>,
    tables: &Vec<NodeRows>,
) -> (r: Result<EmbedPlan, NanoError>)
    ensures
        ({
            let expected = embed_outcome(schema@, options@, views(specs@), views(tables@));
            match r {
                Ok(plan) => expected == Ok::<EmbedPlanModel, Seq<char>>(plan@),
                Err(NanoError::Execution(m)) => expected == Err::<EmbedPlanModel, Seq<char>>(m@),
                Err(_) => false,
            }
        }),
        r matches Ok(plan) ==> requests_fit(plan@.selected, views(tables@), plan@.requests),
{
    if options.property.is_some() && options.node_type.is_none() {
        return Err(
            NanoError::Execution("--property requires --type for `nanograph embed`".to_owned()),
        );
    }
    let selected = match select_embed_types(
        schema,
        specs,
        options.node_type.as_ref(),
        options.property.as_ref(),
    ) {
        Ok(selected) => selected,
        Err(e) => {
            return Err(e);
        },
    };
    let limit: usize = match options.limit {
        Some(n) => n,
        None => usize::MAX,
    };
    let scan = match scan_all(&selected, tables, options.only_null, limit) {
        Ok(s) => s,
        Err(e) => {
            return Err(e);
        },
    };
    let names = collect_reindexable(&selected);
    let count = count_touched(&selected, &scan.requests, &names);
    assert(views(names@).len() == names@.len());
    assert(views(scan.requests@).len() == scan.requests@.len());
    let follow_up = if options.dry_run {
        EmbedFollowUp::Report(
            if options.reindex {
                names.len()
            } else {
                count
            },
        )
    } else if scan.requests.len() > 0 {
        EmbedFollowUp::Commit(count)
    } else if options.reindex {
        EmbedFollowUp::Rebuild(names)
    } else {
        EmbedFollowUp::Nothing
    };
    let properties_selected = count_props(&selected);
    proof {
        assert(views(selected@).len() == selected.len());
        assert forall|k: int| 0 <= k < views(tables@).len() implies (#[trigger] views(
            tables@,
        )[k]).rows.len() <= usize::MAX by {
            assert(views(tables@)[k].rows.len() == tables@[k].rows.len());
        }
        lemma_plan_requests(schema@, options@, views(specs@), views(tables@));
    }
    Ok(
        EmbedPlan {
            selected,
            requests: scan.requests,
            rows_selected: scan.rows_selected,
            properties_selected,
            follow_up,
            dry_run: options.dry_run,
        },
    )
}

/// The types whose indexes are built again, in the order of the schema: those that are
/// asked for and have a table.
pub open spec fn rebuild_order(
    nodes: Seq<NodeTypeDefModel>,
    names: Seq<Seq<char>>,
    available: Seq<Seq<char>>,
    n: int,
) -> Seq<Seq<char>>
    decreases n,
{
    if n <= 0 {
        Seq::empty()
    } else {
        let before = rebuild_order(nodes, names, available, n - 1);
        if names.contains(nodes[n - 1].name) && available.contains(nodes[n - 1].name) {
            before.push(nodes[n - 1].name)
        } else {
            before
        }
    }
}

/// The types whose vector indexes are built again.
pub fn rebuild_targets(schema: &SchemaIr, names: &Vec<String>, available: &Vec<String>) -> (r: Vec<
    String,
>)
    ensures
        views(r@) == rebuild_order(
            schema@.nodes,
            views(names@),
            views(available@),
            schema@.nodes.len() as int,
        ),
{
    let mut out: Vec<String> = Vec::new();
    assert(views(out@) =~= Seq::<Seq<char>>::empty());
    let mut i: usize = 0;
    while i < schema.nodes.len()
        invariant
            i <= schema.nodes@.len(),
            views(out@) == rebuild_order(
                schema@.nodes,
                views(names@),
                views(available@),
                i as int,
            ),
        decreases schema.nodes@.len() - i,
    {
        assert(schema@.nodes[i as int] == schema.nodes@[i as int]@);
        if holds_name(names, &schema.nodes[i].name) && holds_name(
            available,
            &schema.nodes[i].name,
        ) {
            let name = schema.nodes[i].name.clone();
            proof {
                lemma_views_push(out@, name);
            }
            out.push(name);
        }
        i = i + 1;
    }
    out
}

/// What a run reports.
#[derive(Debug, Clone, Copy, PartialEq, Eq, Structural)]
pub struct EmbedResult {
    pub node_types_considered: usize,
    pub properties_selected: usize,
    pub rows_selected: usize,
    pub embeddings_generated: usize,
    pub reindexed_types: usize,
    pub dry_run: bool,
}

/// What a run reports; `rebuilt` is the number of types whose indexes were built again
/// where the plan asks for that.
pub fn embed_result(plan: &EmbedPlan, rebuilt: usize) -> (r: EmbedResult)
    ensures
        r.node_types_considered == plan@.selected.len(),
        r.properties_selected == plan@.properties_selected,
        r.rows_selected == plan@.rows_selected,
        r.embeddings_generated == plan@.requests.len(),
        r.reindexed_types == (match plan@.follow_up {
            EmbedFollowUpModel::Report(n) => n,
            EmbedFollowUpModel::Commit(n) => n,
            EmbedFollowUpModel::Rebuild(_) => rebuilt as nat,
            EmbedFollowUpModel::Nothing => 0,
        }),
        r.dry_run == plan@.dry_run,
{
    let reindexed_types: usize = match &plan.follow_up {
        EmbedFollowUp::Report(n) => *n,
        EmbedFollowUp::Commit(n) => *n,
        EmbedFollowUp::Rebuild(_) => rebuilt,
        EmbedFollowUp::Nothing => 0,
    };
    EmbedResult {
        node_types_considered: plan.selected.len(),
        properties_selected: plan.properties_selected,
        rows_selected: plan.rows_selected,
        embeddings_generated: plan.requests.len(),
        reindexed_types,
        dry_run: plan.dry_run,
    }
}

// ---------------------------------------------------------------------------
// Laws

/// Whether a request is for a row that may be filled, with the text that the row has for
/// the selected property.
pub open spec fn asked_by_row(
    t: SelectedTypeModel,
    row: JsonModel,
    only_null: bool,
    r: EmbedRequestModel,
) -> bool {
    exists|p: int|
        0 <= p < t.props.len() && (#[trigger] t.props[p]).target_prop == r.target_prop
            && t.props[p].dim == r.dim && wants_vector(row, t.props[p], only_null) && json_get(
            row,
            t.props[p].source_prop,
        ) == Some(JsonModel::Text(r.source_text))
}

/// Whether a request is for a row of one of the selected types.
pub open spec fn asked(
    types: Seq<SelectedTypeModel>,
    tables: Seq<NodeRowsModel>,
    only_null: bool,
    r: EmbedRequestModel,
) -> bool {
    &&& r.type_index < types.len()
    &&& rows_of(tables, types[r.type_index as int].label, 0) matches Some(rows) && r.row < rows.len()
        && asked_by_row(types[r.type_index as int], rows[r.row as int], only_null, r)
}

proof fn lemma_row_requests(
    t: SelectedTypeModel,
    type_index: usize,
    row: JsonModel,
    row_index: usize,
    only_null: bool,
    i: int,
    acc: Seq<EmbedRequestModel>,
)
    requires
        0 <= i,
    ensures
        row_requests(t, type_index, row, row_index, only_null, i, acc) matches Ok(out) ==> {
            &&& out.len() >= acc.len()
            &&& out.take(acc.len() as int) == acc
            &&& forall|k: int|
                acc.len() <= k < out.len() ==> (#[trigger] out[k]).type_index == type_index
                    && out[k].row == row_index && asked_by_row(t, row, only_null, out[k])
        },
    decreases t.props.len() - i,
{
    if i >= t.props.len() {
        assert(acc.take(acc.len() as int) =~= acc);
    } else if !wants_vector(row, t.props[i], only_null) {
        lemma_row_requests(t, type_index, row, row_index, only_null, i + 1, acc);
    } else {
        let p = t.props[i];
        if let Some(JsonModel::Text(text)) = json_get(row, p.source_prop) {
            let r = EmbedRequestModel {
                type_index,
                row: row_index,
                target_prop: p.target_prop,
                source_text: text,
                dim: p.dim,
            };
            let more = acc.push(r);
            lemma_row_requests(t, type_index, row, row_index, only_null, i + 1, more);
            if let Ok(out) = row_requests(t, type_index, row, row_index, only_null, i, acc) {
                assert(out.take(more.len() as int) == more);
                assert(out.take(acc.len() as int) =~= acc) by {
                    assert forall|k: int| 0 <= k < acc.len() implies out[k] == acc[k] by {
                        assert(out.take(more.len() as int)[k] == more[k]);
                    }
                }
                assert(out[acc.len() as int] == r) by {
                    assert(out.take(more.len() as int)[acc.len() as int] == more[acc.len() as int]);
                }
                assert(asked_by_row(t, row, only_null, r));
            }
        }
    }
}

proof fn lemma_scan_rows(
    t: SelectedTypeModel,
    type_index: usize,
    rows: Seq<JsonModel>,
    only_null: bool,
    i: int,
    s: ScanModel,
)
    requires
        0 <= i,
        rows.len() <= usize::MAX,
        0 <= s.remaining,
    ensures
        scan_rows(t, type_index, rows, only_null, i, s) matches Ok(e) ==> {
            &&& e.rows_selected + e.remaining == s.rows_selected + s.remaining
            &&& 0 <= e.remaining
            &&& s.rows_selected <= e.rows_selected
            &&& e.requests.len() >= s.requests.len()
            &&& e.requests.take(s.requests.len() as int) == s.requests
            &&& forall|k: int|
                s.requests.len() <= k < e.requests.len() ==> (#[trigger] e.requests[k]).type_index
                    == type_index && e.requests[k].row < rows.len() && asked_by_row(
                    t,
                    rows[e.requests[k].row as int],
                    only_null,
                    e.requests[k],
                )
        },
    decreases rows.len() - i,
{
    if i >= rows.len() || s.remaining == 0 {
        assert(s.requests.take(s.requests.len() as int) =~= s.requests);
    } else {
        lemma_row_requests(t, type_index, rows[i], i as usize, only_null, 0, s.requests);
        if let Ok(requests) = row_requests(
            t,
            type_index,
            rows[i],
            i as usize,
            only_null,
            0,
            s.requests,
        ) {
            if requests.len() == s.requests.len() {
                lemma_scan_rows(t, type_index, rows, only_null, i + 1, s);
            } else {
                let next = ScanModel {
                    requests,
                    rows_selected: s.rows_selected + 1,
                    remaining: s.remaining - 1,
                };
                lemma_scan_rows(t, type_index, rows, only_null, i + 1, next);
                if let Ok(e) = scan_rows(t, type_index, rows, only_null, i, s) {
                    assert forall|k: int|
                        s.requests.len() <= k < requests.len() implies #[trigger] e.requests[k]
                        == requests[k] by {
                        assert(e.requests.take(requests.len() as int)[k] == requests[k]);
                    }
                    assert(e.requests.take(s.requests.len() as int) =~= s.requests) by {
                        assert forall|k: int| 0 <= k < s.requests.len() implies e.requests[k]
                            == s.requests[k] by {
                            assert(e.requests.take(requests.len() as int)[k] == requests[k]);
                            assert(requests.take(s.requests.len() as int)[k] == s.requests[k]);
                        }
                    }
                }
            }
        }
    }
}

proof fn lemma_scan_types(
    types: Seq<SelectedTypeModel>,
    tables: Seq<NodeRowsModel>,
    only_null: bool,
    i: int,
    s: ScanModel,
)
    requires
        0 <= i,
        types.len() <= usize::MAX,
        forall|k: int| 0 <= k < tables.len() ==> (#[trigger] tables[k]).rows.len() <= usize::MAX,
        0 <= s.remaining,
        forall|k: int|
            0 <= k < s.requests.len() ==> asked(types, tables, only_null, #[trigger] s.requests[k]),
    ensures
        scan_types(types, tables, only_null, i, s) matches Ok(e) ==> {
            &&& e.rows_selected + e.remaining == s.rows_selected + s.remaining
            &&& 0 <= e.remaining
            &&& s.rows_selected <= e.rows_selected
            &&& forall|k: int|
                0 <= k < e.requests.len() ==> asked(
                    types,
                    tables,
                    only_null,
                    #[trigger] e.requests[k],
                )
        },
    decreases types.len() - i,
{
    if i >= types.len() || s.remaining == 0 {
    } else {
        lemma_rows_of(tables, types[i].label, 0);
        match rows_of(tables, types[i].label, 0) {
            None => {
                lemma_scan_types(types, tables, only_null, i + 1, s);
            },
            Some(rows) => {
                lemma_scan_rows(types[i], i as usize, rows, only_null, 0, s);
                if let Ok(next) = scan_rows(types[i], i as usize, rows, only_null, 0, s) {
                    assert forall|k: int| 0 <= k < next.requests.len() implies asked(
                        types,
                        tables,
                        only_null,
                        #[trigger] next.requests[k],
                    ) by {
                        if k < s.requests.len() {
                            assert(next.requests.take(s.requests.len() as int)[k] == s.requests[k]);
                        }
                    }
                    lemma_scan_types(types, tables, only_null, i + 1, next);
                }
            },
        }
    }
}

proof fn lemma_rows_of(tables: Seq<NodeRowsModel>, label: Seq<char>, i: int)
    requires
        forall|k: int| 0 <= k < tables.len() ==> (#[trigger] tables[k]).rows.len() <= usize::MAX,
    ensures
        rows_of(tables, label, i) matches Some(rows) ==> rows.len() <= usize::MAX,
    decreases tables.len() - i,
{
    if i < 0 || i >= tables.len() || tables[i].label == label {
    } else {
        lemma_rows_of(tables, label, i + 1);
    }
}

/// Whether tables and selections fit in memory.
pub open spec fn in_memory(
    schema: SchemaIrModel,
    options: EmbedOptionsModel,
    specs: Seq<TypeEmbedSpecsModel>,
    tables: Seq<NodeRowsModel>,
) -> bool {
    &&& embed_selection(schema, specs, options.node_type, options.property) matches Ok(selected)
        ==> selected.len() <= usize::MAX
    &&& forall|k: int| 0 <= k < tables.len() ==> (#[trigger] tables[k]).rows.len() <= usize::MAX
}

/// No more rows are selected than the limit allows.
pub proof fn law_limit_is_kept(
    schema: SchemaIrModel,
    options: EmbedOptionsModel,
    specs: Seq<TypeEmbedSpecsModel>,
    tables: Seq<NodeRowsModel>,
)
    requires
        in_memory(schema, options, specs, tables),
    ensures
        embed_outcome(schema, options, specs, tables) matches Ok(plan) ==> (
        options.limit matches Some(n) ==> plan.rows_selected <= n),
{
    lemma_plan_requests(schema, options, specs, tables);
}

proof fn lemma_plan_requests(
    schema: SchemaIrModel,
    options: EmbedOptionsModel,
    specs: Seq<TypeEmbedSpecsModel>,
    tables: Seq<NodeRowsModel>,
)
    requires
        in_memory(schema, options, specs, tables),
    ensures
        embed_outcome(schema, options, specs, tables) matches Ok(plan) ==> {
            &&& options.limit matches Some(n) ==> plan.rows_selected <= n
            &&& forall|k: int|
                0 <= k < plan.requests.len() ==> asked(
                    plan.selected,
                    tables,
                    options.only_null,
                    #[trigger] plan.requests[k],
                )
        },
{
    if let Ok(selected) = embed_selection(schema, specs, options.node_type, options.property) {
        let limit = match options.limit {
            Some(n) => n,
            None => usize::MAX,
        };
        let start = ScanModel {
            requests: Seq::empty(),
            rows_selected: 0,
            remaining: limit as int,
        };
        lemma_scan_types(selected, tables, options.only_null, 0, start);
    }
}

/// Every vector that is asked for is for a row of a selected type, and from the text that
/// the row has for it.
pub proof fn law_requests_carry_the_text_of_their_row(
    schema: SchemaIrModel,
    options: EmbedOptionsModel,
    specs: Seq<TypeEmbedSpecsModel>,
    tables: Seq<NodeRowsModel>,
    k: int,
)
    requires
        in_memory(schema, options, specs, tables),
        embed_outcome(schema, options, specs, tables) matches Ok(plan) && 0 <= k
            < plan.requests.len(),
    ensures
        embed_outcome(schema, options, specs, tables) matches Ok(plan) && asked(
            plan.selected,
            tables,
            options.only_null,
            plan.requests[k],
        ),
{
    lemma_plan_requests(schema, options, specs, tables);
}

/// With `only_null` no vector that is there is asked for again: the selected property of
/// the row is null or missing.
pub proof fn law_only_null_keeps_vectors(
    schema: SchemaIrModel,
    options: EmbedOptionsModel,
    specs: Seq<TypeEmbedSpecsModel>,
    tables: Seq<NodeRowsModel>,
    k: int,
)
    requires
        in_memory(schema, options, specs, tables),
        options.only_null,
        embed_outcome(schema, options, specs, tables) matches Ok(plan) && 0 <= k
            < plan.requests.len(),
    ensures
        ({
            let plan = embed_outcome(schema, options, specs, tables)->Ok_0;
            let r = plan.requests[k];
            rows_of(tables, plan.selected[r.type_index as int].label, 0) matches Some(rows) && (
            json_get(rows[r.row as int], r.target_prop) matches Some(v) ==> v is Null)
        }),
{
    lemma_plan_requests(schema, options, specs, tables);
    let plan = embed_outcome(schema, options, specs, tables)->Ok_0;
    assert(asked(plan.selected, tables, options.only_null, plan.requests[k]));
}

/// A preview writes nothing.
pub proof fn law_preview_writes_nothing(
    schema: SchemaIrModel,
    options: EmbedOptionsModel,
    specs: Seq<TypeEmbedSpecsModel>,
    tables: Seq<NodeRowsModel>,
)
    requires
        options.dry_run,
    ensures
        embed_outcome(schema, options, specs, tables) matches Ok(plan) ==> plan.follow_up is Report
            || plan.follow_up is Nothing,
{
}

} // verus!
