//! The description of a database as text.

use crate::cli::lines::{empty_line, join, join_of, push_line, show_number};
use crate::json::{items_of, json_at, json_text, json_true, json_u64, number_or_zero, text_or_empty, Json, JsonModel};
use crate::text::{cat2, cat3, cat4, cat5, cat7, decimal, decimal_u64, views};
use vstd::prelude::*;

verus! {

/// The version of a table, or a dash where it is not known.
pub open spec fn version_text(j: JsonModel) -> Seq<char> {
    match json_u64(j) {
        Some(v) => decimal(v as nat),
        None => "-"@,
    }
}

/// A text, or a dash where there is none.
pub open spec fn text_or_dash(j: JsonModel) -> Seq<char> {
    match json_text(j) {
        Some(s) => s,
        None => "-"@,
    }
}

/// The lines, and behind them one for a text where there is one.
pub open spec fn with_text(acc: Seq<Seq<char>>, label: Seq<char>, j: JsonModel) -> Seq<Seq<char>> {
    match json_text(j) {
        Some(s) => acc.push(label + s),
        None => acc,
    }
}

/// The texts among the first `n` items.
pub open spec fn texts_among(items: Seq<JsonModel>, n: int) -> Seq<Seq<char>>
    decreases n,
{
    if n <= 0 || n > items.len() {
        Seq::empty()
    } else {
        match json_text(items[n - 1]) {
            Some(s) => texts_among(items, n - 1).push(s),
            None => texts_among(items, n - 1),
        }
    }
}

/// The names of some edges, each with the type at its other end.
pub open spec fn edge_texts(items: Seq<JsonModel>, arrow: Seq<char>, other: Seq<char>) -> Seq<
    Seq<char>,
> {
    Seq::new(
        items.len(),
        |i: int|
            text_or_empty(json_at(items[i], "name"@)) + arrow + text_or_empty(
                json_at(items[i], other),
            ),
    )
}

/// The annotations of a property, as a schema has them.
pub open spec fn annotation_texts(prop: JsonModel) -> Seq<Seq<char>> {
    let a: Seq<Seq<char>> = Seq::empty();
    let b = if json_true(json_at(prop, "key"@)) {
        a.push("@key"@)
    } else {
        a
    };
    let c = if json_true(json_at(prop, "unique"@)) {
        b.push("@unique"@)
    } else {
        b
    };
    let d = if json_true(json_at(prop, "index"@)) {
        c.push("@index"@)
    } else {
        c
    };
    match json_text(json_at(prop, "embed_source"@)) {
        Some(s) => d.push("@embed("@ + s + ")"@),
        None => d,
    }
}

/// The annotations of a property with a blank before each.
pub open spec fn annotation_suffix(prop: JsonModel) -> Seq<char> {
    if annotation_texts(prop).len() == 0 {
        Seq::empty()
    } else {
        " "@ + join_of(annotation_texts(prop), " "@)
    }
}

/// The lines, and behind them those of a property.
pub open spec fn with_prop(acc: Seq<Seq<char>>, prop: JsonModel, suffix: Seq<char>) -> Seq<Seq<char>> {
    with_text(
        acc.push(
            "  - "@ + text_or_empty(json_at(prop, "name"@)) + ": "@ + text_or_empty(
                json_at(prop, "type"@),
            ) + suffix,
        ),
        "    description: "@,
        json_at(prop, "description"@),
    )
}

/// The lines, and behind them those of the properties from `i` on.
pub open spec fn with_props(
    acc: Seq<Seq<char>>,
    props: Seq<JsonModel>,
    annotated: bool,
    i: int,
) -> Seq<Seq<char>>
    decreases props.len() - i,
{
    if i < 0 || i >= props.len() {
        acc
    } else {
        let suffix = if annotated {
            annotation_suffix(props[i])
        } else {
            Seq::empty()
        };
        with_props(with_prop(acc, props[i], suffix), props, annotated, i + 1)
    }
}

/// The lines, and behind them one that lists the parts, where there are items.
pub open spec fn with_list(
    acc: Seq<Seq<char>>,
    label: Seq<char>,
    items: Seq<JsonModel>,
    parts: Seq<Seq<char>>,
) -> Seq<Seq<char>> {
    if items.len() == 0 {
        acc
    } else {
        acc.push(label + join_of(parts, ", "@))
    }
}

/// The lines, and behind them those of a node type.
pub open spec fn with_node(acc: Seq<Seq<char>>, node: JsonModel) -> Seq<Seq<char>> {
    let unique = items_of(json_at(node, "unique_properties"@));
    let outgoing = items_of(json_at(node, "outgoing_edges"@));
    let incoming = items_of(json_at(node, "incoming_edges"@));
    let a = acc.push(
        "- "@ + text_or_empty(json_at(node, "name"@)) + " (type_id="@ + decimal(
            number_or_zero(json_at(node, "type_id"@)),
        ) + ", rows="@ + decimal(number_or_zero(json_at(node, "rows"@))) + ", dataset_version="@
            + version_text(json_at(node, "dataset_version"@)) + ")"@,
    );
    let b = with_text(a, "  description: "@, json_at(node, "description"@));
    let c = with_text(b, "  instruction: "@, json_at(node, "instruction"@));
    let d = with_text(c, "  key: "@, json_at(node, "key_property"@));
    let e = with_list(d, "  unique: "@, unique, texts_among(unique, unique.len() as int));
    let f = with_list(e, "  outgoing: "@, outgoing, edge_texts(outgoing, " -> "@, "to_type"@));
    let g = with_list(f, "  incoming: "@, incoming, edge_texts(incoming, " <- "@, "from_type"@));
    with_props(g, items_of(json_at(node, "properties"@)), true, 0)
}

/// The lines, and behind them those of an edge type.
pub open spec fn with_edge(acc: Seq<Seq<char>>, edge: JsonModel) -> Seq<Seq<char>> {
    let a = acc.push(
        "- "@ + text_or_empty(json_at(edge, "name"@)) + ": "@ + text_or_empty(
            json_at(edge, "src_type"@),
        ) + " -> "@ + text_or_empty(json_at(edge, "dst_type"@)) + " (type_id="@ + decimal(
            number_or_zero(json_at(edge, "type_id"@)),
        ) + ", rows="@ + decimal(number_or_zero(json_at(edge, "rows"@))) + ", dataset_version="@
            + version_text(json_at(edge, "dataset_version"@)) + ")"@,
    );
    let b = with_text(a, "  description: "@, json_at(edge, "description"@));
    let c = with_text(b, "  instruction: "@, json_at(edge, "instruction"@));
    let keys = json_at(edge, "endpoint_keys"@);
    let d = if keys is Object {
        c.push(
            "  endpoint keys: "@ + text_or_dash(json_at(keys, "src"@)) + " -> "@ + text_or_dash(
                json_at(keys, "dst"@),
            ),
        )
    } else {
        c
    };
    with_props(d, items_of(json_at(edge, "properties"@)), false, 0)
}

/// The lines, and behind them those of the types from `i` on.
pub open spec fn with_types(
    acc: Seq<Seq<char>>,
    types: Seq<JsonModel>,
    nodes: bool,
    i: int,
) -> Seq<Seq<char>>
    decreases types.len() - i,
{
    if i < 0 || i >= types.len() {
        acc
    } else if nodes {
        with_types(with_node(acc, types[i]), types, nodes, i + 1)
    } else {
        with_types(with_edge(acc, types[i]), types, nodes, i + 1)
    }
}

/// The lines of a description.
pub open spec fn describe_lines(payload: JsonModel) -> Seq<Seq<char>> {
    let manifest = json_at(payload, "manifest"@);
    let head = Seq::<Seq<char>>::empty().push(
        "Database: "@ + text_or_empty(json_at(payload, "db_path"@)),
    ).push(
        "Manifest: format v"@ + decimal(number_or_zero(json_at(manifest, "format_version"@)))
            + ", db_version "@ + decimal(number_or_zero(json_at(manifest, "db_version"@))),
    ).push(
        "Last TX: "@ + text_or_empty(json_at(manifest, "last_tx_id"@)) + " @ "@ + text_or_empty(
            json_at(manifest, "committed_at"@),
        ),
    ).push(
        "Schema: ir_version "@ + decimal(number_or_zero(json_at(payload, "schema_ir_version"@)))
            + ", hash "@ + text_or_empty(json_at(manifest, "schema_ir_hash"@)),
    ).push(Seq::empty()).push("Node Types"@);
    let nodes = with_types(head, items_of(json_at(payload, "nodes"@)), true, 0);
    let middle = nodes.push(Seq::empty()).push("Edge Types"@);
    with_types(middle, items_of(json_at(payload, "edges"@)), false, 0)
}

// ---------------------------------------------------------------------------
// Printing

fn show_version(j: &Json) -> (r: String)
    ensures
        r@ == version_text(j@),
{
    match j.as_u64() {
        Some(v) => decimal_u64(v),
        None => "-".to_owned(),
    }
}

fn show_or_dash(j: &Json) -> (r: String)
    ensures
        r@ == text_or_dash(j@),
{
    match j.as_str() {
        Some(s) => s.clone(),
        None => "-".to_owned(),
    }
}

fn push_text(out: &mut Vec<String>, label: &str, j: &Json)
    ensures
        views(final(out)@) == with_text(views(old(out)@), label@, j@),
{
    match j.as_str() {
        Some(s) => push_line(out, cat2(label, s)),
        None => {},
    }
}

fn items(j: &Json) -> (r: Option<&Vec<Json>>)
    ensures
        match r {
            Some(v) => views(v@) == items_of(j@) && v@.len() == items_of(j@).len(),
            None => items_of(j@).len() == 0,
        },
{
    let r = j.as_array();
    if let Some(v) = r {
        assert(views(v@).len() == v@.len());
    }
    r
}

fn list_texts(v: &Vec<Json>) -> (r: Vec<String>)
    ensures
        views(r@) == texts_among(views(v@), v@.len() as int),
{
    let mut out: Vec<String> = Vec::new();
    let mut i: usize = 0;
    assert(views(out@) =~= Seq::<Seq<char>>::empty());
    while i < v.len()
        invariant
            i <= v@.len(),
            views(out@) == texts_among(views(v@), i as int),
        decreases v@.len() - i,
    {
        assert(views(v@)[i as int] == v@[i as int]@);
        match v[i].as_str() {
            Some(s) => push_line(&mut out, s.clone()),
            None => {},
        }
        i = i + 1;
    }
    out
}

fn list_edges(v: &Vec<Json>, arrow: &str, other: &str) -> (r: Vec<String>)
    ensures
        views(r@) == edge_texts(views(v@), arrow@, other@),
{
    let mut out: Vec<String> = Vec::new();
    let mut i: usize = 0;
    let ghost expected = edge_texts(views(v@), arrow@, other@);
    assert(views(out@) =~= expected.take(0));
    while i < v.len()
        invariant
            i <= v@.len(),
            expected == edge_texts(views(v@), arrow@, other@),
            views(out@) == expected.take(i as int),
        decreases v@.len() - i,
    {
        assert(views(v@)[i as int] == v@[i as int]@);
        let line = cat3(
            &v[i].at("name").text_or_empty(),
            arrow,
            &v[i].at(other).text_or_empty(),
        );
        assert(expected.take(i as int + 1) =~= expected.take(i as int).push(line@));
        push_line(&mut out, line);
        i = i + 1;
    }
    assert(expected.take(v@.len() as int) =~= expected);
    out
}

fn list_annotations(prop: &Json) -> (r: Vec<String>)
    ensures
        views(r@) == annotation_texts(prop@),
{
    let mut out: Vec<String> = Vec::new();
    assert(views(out@) =~= Seq::<Seq<char>>::empty());
    if prop.at("key").is_true() {
        push_line(&mut out, "@key".to_owned());
    }
    if prop.at("unique").is_true() {
        push_line(&mut out, "@unique".to_owned());
    }
    if prop.at("index").is_true() {
        push_line(&mut out, "@index".to_owned());
    }
    match prop.at("embed_source").as_str() {
        Some(s) => push_line(&mut out, cat3("@embed(", s, ")")),
        None => {},
    }
    out
}

fn show_annotations(prop: &Json) -> (r: String)
    ensures
        r@ == annotation_suffix(prop@),
{
    let list = list_annotations(prop);
    assert(views(list@).len() == list@.len());
    if list.len() == 0 {
        empty_line()
    } else {
        cat2(" ", &join(&list, " "))
    }
}

fn push_props(out: &mut Vec<String>, props: &Json, annotated: bool)
    ensures
        views(final(out)@) == with_props(views(old(out)@), items_of(props@), annotated, 0),
{
    match items(props) {
        Some(v) => {
            let ghost before = views(out@);
            let mut i: usize = 0;
            while i < v.len()
                invariant
                    i <= v@.len(),
                    v@.len() == items_of(props@).len(),
                    views(v@) == items_of(props@),
                    with_props(before, items_of(props@), annotated, 0) == with_props(
                        views(out@),
                        items_of(props@),
                        annotated,
                        i as int,
                    ),
                decreases v@.len() - i,
            {
                let prop = &v[i];
                assert(items_of(props@)[i as int] == prop@);
                let suffix = if annotated {
                    show_annotations(prop)
                } else {
                    empty_line()
                };
                let name = prop.at("name").text_or_empty();
                let kind = prop.at("type").text_or_empty();
                push_line(out, cat5("  - ", &name, ": ", &kind, &suffix));
                push_text(out, "    description: ", prop.at("description"));
                i = i + 1;
            }
        },
        None => {},
    }
}

fn push_node(out: &mut Vec<String>, node: &Json)
    ensures
        views(final(out)@) == with_node(views(old(out)@), node@),
{
    let mut line = cat4(
        "- ",
        &node.at("name").text_or_empty(),
        " (type_id=",
        &show_number(node.at("type_id")),
    );
    line.append(", rows=");
    line.append(show_number(node.at("rows")).as_str());
    line.append(", dataset_version=");
    line.append(show_version(node.at("dataset_version")).as_str());
    line.append(")");
    push_line(out, line);
    push_text(out, "  description: ", node.at("description"));
    push_text(out, "  instruction: ", node.at("instruction"));
    push_text(out, "  key: ", node.at("key_property"));
    match items(node.at("unique_properties")) {
        Some(v) => {
            if v.len() > 0 {
                push_line(out, cat2("  unique: ", &join(&list_texts(v), ", ")));
            }
        },
        None => {},
    }
    match items(node.at("outgoing_edges")) {
        Some(v) => {
            if v.len() > 0 {
                let list = list_edges(v, " -> ", "to_type");
                push_line(out, cat2("  outgoing: ", &join(&list, ", ")));
            }
        },
        None => {},
    }
    match items(node.at("incoming_edges")) {
        Some(v) => {
            if v.len() > 0 {
                let list = list_edges(v, " <- ", "from_type");
                push_line(out, cat2("  incoming: ", &join(&list, ", ")));
            }
        },
        None => {},
    }
    push_props(out, node.at("properties"), true);
}

fn push_edge(out: &mut Vec<String>, edge: &Json)
    ensures
        views(final(out)@) == with_edge(views(old(out)@), edge@),
{
    let mut line = cat7(
        "- ",
        &edge.at("name").text_or_empty(),
        ": ",
        &edge.at("src_type").text_or_empty(),
        " -> ",
        &edge.at("dst_type").text_or_empty(),
        " (type_id=",
    );
    line.append(show_number(edge.at("type_id")).as_str());
    line.append(", rows=");
    line.append(show_number(edge.at("rows")).as_str());
    line.append(", dataset_version=");
    line.append(show_version(edge.at("dataset_version")).as_str());
    line.append(")");
    push_line(out, line);
    push_text(out, "  description: ", edge.at("description"));
    push_text(out, "  instruction: ", edge.at("instruction"));
    let keys = edge.at("endpoint_keys");
    if keys.is_object() {
        push_line(
            out,
            cat4(
                "  endpoint keys: ",
                &show_or_dash(keys.at("src")),
                " -> ",
                &show_or_dash(keys.at("dst")),
            ),
        );
    }
    push_props(out, edge.at("properties"), false);
}

fn push_types(out: &mut Vec<String>, types: &Json, nodes: bool)
    ensures
        views(final(out)@) == with_types(views(old(out)@), items_of(types@), nodes, 0),
{
    match items(types) {
        Some(v) => {
            let ghost before = views(out@);
            let mut i: usize = 0;
            while i < v.len()
                invariant
                    i <= v@.len(),
                    v@.len() == items_of(types@).len(),
                    views(v@) == items_of(types@),
                    with_types(before, items_of(types@), nodes, 0) == with_types(
                        views(out@),
                        items_of(types@),
                        nodes,
                        i as int,
                    ),
                decreases v@.len() - i,
            {
                assert(items_of(types@)[i as int] == v@[i as int]@);
                if nodes {
                    push_node(out, &v[i]);
                } else {
                    push_edge(out, &v[i]);
                }
                i = i + 1;
            }
        },
        None => {},
    }
}

/// The lines of a description.
pub fn print_describe_table(payload: &Json) -> (r: Vec<String>)
    ensures
        views(r@) == describe_lines(payload@),
{
    let mut out: Vec<String> = Vec::new();
    assert(views(out@) =~= Seq::<Seq<char>>::empty());
    let manifest = payload.at("manifest");
    push_line(&mut out, cat2("Database: ", &payload.at("db_path").text_or_empty()));
    push_line(
        &mut out,
        cat4(
            "Manifest: format v",
            &show_number(manifest.at("format_version")),
            ", db_version ",
            &show_number(manifest.at("db_version")),
        ),
    );
    push_line(
        &mut out,
        cat4(
            "Last TX: ",
            &manifest.at("last_tx_id").text_or_empty(),
            " @ ",
            &manifest.at("committed_at").text_or_empty(),
        ),
    );
    push_line(
        &mut out,
        cat4(
            "Schema: ir_version ",
            &show_number(payload.at("schema_ir_version")),
            ", hash ",
            &manifest.at("schema_ir_hash").text_or_empty(),
        ),
    );
    push_line(&mut out, empty_line());
    push_line(&mut out, "Node Types".to_owned());
    push_types(&mut out, payload.at("nodes"), true);
    push_line(&mut out, empty_line());
    push_line(&mut out, "Edge Types".to_owned());
    push_types(&mut out, payload.at("edges"), false);
    out
}

} // verus!
