//! What the printed description of a database shows of what it holds.

use crate::cli::describe::{edge_payload, edge_prop_payload, edge_summaries, key_of_type, node_payload, node_prop_payload, prop_type_text, unique_names};
use crate::cli::describe_table::{annotation_suffix, annotation_texts, edge_texts, text_or_dash, texts_among, version_text, with_edge, with_list, with_node, with_prop, with_props, with_text};
use crate::cli::lines::join_of;
use crate::cli::payload_laws::{law_described_edge_properties_are_their_own, law_described_edges_are_their_own, law_described_nodes_are_their_own, law_described_properties_are_their_own, tells_edge};
use crate::json::{items_of, json_at, member, number_or_zero, text_or_empty, JsonModel};
use crate::store::manifest::ManifestModel;
use crate::store::schema_ir::{EdgeTypeDefModel, NodeTypeDefModel, PropDefModel, SchemaIrModel};
use crate::store::tables::{rows_of, StoredGraphModel};
use crate::text::{decimal, law_decimals_are_read_back};
use vstd::prelude::*;

verus! {

/// A version is printed by its number, and by a dash where there is none; so is a text.
pub proof fn law_what_is_missing_is_a_dash(n: u64, s: Seq<char>)
    ensures
        version_text(JsonModel::Number(decimal(n as nat))) == decimal(n as nat),
        version_text(JsonModel::Null) == "-"@,
        text_or_dash(JsonModel::Text(s)) == s,
        text_or_dash(JsonModel::Null) == "-"@,
{
    law_decimals_are_read_back(n as nat, u64::MAX as int);
}

/// A text that is there is printed behind its label; one that is missing takes no line.
pub proof fn law_missing_texts_take_no_line(acc: Seq<Seq<char>>, label: Seq<char>, s: Seq<char>)
    ensures
        with_text(acc, label, JsonModel::Text(s)) == acc.push(label + s),
        with_text(acc, label, JsonModel::Null) == acc,
{
}

/// An edge is printed with its name, the arrow and the type at its other end.
pub proof fn law_printed_edges_lead_to_their_other_end(
    items: Seq<JsonModel>,
    arrow: Seq<char>,
    end: Seq<char>,
    i: int,
    name: Seq<char>,
    other: Seq<char>,
)
    requires
        0 <= i < items.len(),
        tells_edge(items[i], name, end, other),
    ensures
        edge_texts(items, arrow, end).len() == items.len(),
        edge_texts(items, arrow, end)[i] == name + arrow + other,
{
}

proof fn lemma_props_behind(acc: Seq<Seq<char>>, props: Seq<JsonModel>, annotated: bool, i: int)
    requires
        0 <= i <= props.len(),
    ensures
        with_props(acc, props, annotated, i).len() >= acc.len() + props.len() - i,
        forall|j: int|
            0 <= j < acc.len() ==> #[trigger] with_props(acc, props, annotated, i)[j] == acc[j],
    decreases props.len() - i,
{
    if i < props.len() {
        let suffix = if annotated {
            annotation_suffix(props[i])
        } else {
            Seq::empty()
        };
        let next = with_prop(acc, props[i], suffix);
        lemma_props_behind(next, props, annotated, i + 1);
        let all = with_props(acc, props, annotated, i);
        assert forall|j: int| 0 <= j < acc.len() implies #[trigger] all[j] == acc[j] by {
            assert(next[j] == acc[j]);
        }
    }
}

/// The marks of a property are printed behind its type: `@key`, `@unique`, `@index` and the
/// source that it is embedded from, each exactly where the property has it, in this order.
pub proof fn law_printed_marks_are_those_of_the_property(p: PropDefModel)
    ensures
        annotation_texts(node_prop_payload(p)).contains("@key"@) <==> p.key,
        annotation_texts(node_prop_payload(p)).contains("@unique"@) <==> p.unique,
        annotation_texts(node_prop_payload(p)).contains("@index"@) <==> p.index,
        p.embed_source matches Some(s) ==> annotation_texts(node_prop_payload(p)).last()
            == "@embed("@ + s + ")"@,
        annotation_texts(node_prop_payload(p)).len() == (if p.key {
            1int
        } else {
            0
        }) + (if p.unique {
            1int
        } else {
            0
        }) + (if p.index {
            1int
        } else {
            0
        }) + (if p.embed_source is Some {
            1int
        } else {
            0
        }),
        p.key ==> annotation_texts(node_prop_payload(p))[0] == "@key"@,
{
    law_described_properties_are_their_own(p);
    reveal_strlit("@key");
    reveal_strlit("@unique");
    reveal_strlit("@index");
    reveal_strlit("@embed(");
    assert("@key"@.len() == 4 && "@key"@[1] == 'k');
    assert("@unique"@.len() == 7 && "@unique"@[1] == 'u');
    assert("@index"@.len() == 6 && "@index"@[1] == 'i');
    assert("@embed("@.len() == 7 && "@embed("@[1] == 'e');
    let a: Seq<Seq<char>> = Seq::empty();
    let b = if p.key {
        a.push("@key"@)
    } else {
        a
    };
    let c = if p.unique {
        b.push("@unique"@)
    } else {
        b
    };
    let d = if p.index {
        c.push("@index"@)
    } else {
        c
    };
    let t = annotation_texts(node_prop_payload(p));
    let e = match p.embed_source {
        Some(s) => d.push("@embed("@ + s + ")"@),
        None => d,
    };
    assert(t == e);
    if let Some(s) = p.embed_source {
        assert(("@embed("@ + s + ")"@)[1] == 'e');
    }
    if p.key {
        assert(t[0] == "@key"@);
    }
    if p.unique {
        assert(t[b.len() as int] == "@unique"@);
    }
    if p.index {
        assert(t[c.len() as int] == "@index"@);
    }
    assert forall|i: int| 0 <= i < t.len() implies (t[i] == "@key"@ ==> p.key) && (t[i] == "@unique"@
        ==> p.unique) && (t[i] == "@index"@ ==> p.index) by {
        if i < b.len() {
            assert(t[i] == "@key"@);
        } else if i < c.len() {
            assert(t[i] == "@unique"@);
        } else if i < d.len() {
            assert(t[i] == "@index"@);
        }
    }
}

/// A property is printed by its name and its type, with what describes it in the next line.
pub proof fn law_printed_properties_are_their_own(
    acc: Seq<Seq<char>>,
    p: PropDefModel,
    suffix: Seq<char>,
)
    ensures
        with_prop(acc, node_prop_payload(p), suffix).len() == acc.len() + (if p.description is Some {
            2int
        } else {
            1
        }),
        with_prop(acc, node_prop_payload(p), suffix)[acc.len() as int] == "  - "@ + p.name + ": "@
            + prop_type_text(p) + suffix,
        p.description matches Some(d) ==> with_prop(
            acc,
            node_prop_payload(p),
            suffix,
        )[acc.len() as int + 1] == "    description: "@ + d,
        with_prop(acc, edge_prop_payload(p), suffix) == with_prop(acc, node_prop_payload(p), suffix),
{
    law_described_properties_are_their_own(p);
    law_described_edge_properties_are_their_own(p);
}

/// A node type is printed by its name, its identity and its rows, behind what is printed
/// already.
pub proof fn law_printed_nodes_are_their_own(
    acc: Seq<Seq<char>>,
    node: NodeTypeDefModel,
    schema: SchemaIrModel,
    graph: StoredGraphModel,
    manifest: ManifestModel,
)
    requires
        rows_of(graph.nodes, node.name) <= u64::MAX,
    ensures
        ({
            let payload = node_payload(node, schema, graph, manifest);
            let lines = with_node(acc, payload);
            &&& lines.len() > acc.len() + node.properties.len()
            &&& forall|j: int| 0 <= j < acc.len() ==> #[trigger] lines[j] == acc[j]
            &&& lines[acc.len() as int] == "- "@ + node.name + " (type_id="@ + decimal(
                node.type_id as nat,
            ) + ", rows="@ + decimal(rows_of(graph.nodes, node.name)) + ", dataset_version="@
                + version_text(json_at(payload, "dataset_version"@)) + ")"@
            &&& node.description matches Some(d) ==> lines[acc.len() as int + 1]
                == "  description: "@ + d
        }),
{
    law_described_nodes_are_their_own(node, schema, graph, manifest);
    law_decimals_are_read_back(node.type_id as nat, u64::MAX as int);
    law_decimals_are_read_back(rows_of(graph.nodes, node.name), u64::MAX as int);
    let payload = node_payload(node, schema, graph, manifest);
    let unique = items_of(json_at(payload, "unique_properties"@));
    let outgoing = items_of(json_at(payload, "outgoing_edges"@));
    let incoming = items_of(json_at(payload, "incoming_edges"@));
    let a = acc.push(
        "- "@ + node.name + " (type_id="@ + decimal(node.type_id as nat) + ", rows="@ + decimal(
            rows_of(graph.nodes, node.name),
        ) + ", dataset_version="@ + version_text(json_at(payload, "dataset_version"@)) + ")"@,
    );
    let b = with_text(a, "  description: "@, json_at(payload, "description"@));
    let c = with_text(b, "  instruction: "@, json_at(payload, "instruction"@));
    let d = with_text(c, "  key: "@, json_at(payload, "key_property"@));
    let e = with_list(d, "  unique: "@, unique, texts_among(unique, unique.len() as int));
    let f = with_list(e, "  outgoing: "@, outgoing, edge_texts(outgoing, " -> "@, "to_type"@));
    let g = with_list(f, "  incoming: "@, incoming, edge_texts(incoming, " <- "@, "from_type"@));
    let props = items_of(json_at(payload, "properties"@));
    let lines = with_node(acc, payload);
    assert(lines == with_props(g, props, true, 0));
    lemma_props_behind(g, props, true, 0);
    assert(props.len() == node.properties.len());
    lemma_starts(acc, a);
    lemma_starts(a, b);
    lemma_starts(b, c);
    lemma_starts(c, d);
    lemma_starts(d, e);
    lemma_starts(e, f);
    lemma_starts(f, g);
    assert forall|j: int| 0 <= j < a.len() implies #[trigger] lines[j] == a[j] by {
        assert(g[j] == a[j]);
    }
    assert forall|j: int| 0 <= j < acc.len() implies #[trigger] lines[j] == acc[j] by {
        assert(a[j] == acc[j]);
    }
    assert(lines[acc.len() as int] == a[acc.len() as int]);
    if node.description is Some {
        assert(b[acc.len() as int + 1] == "  description: "@ + node.description->Some_0);
        assert(g[acc.len() as int + 1] == b[acc.len() as int + 1]);
        assert(lines[acc.len() as int + 1] == g[acc.len() as int + 1]);
    }
}

/// What a line is added to stays in front of it.
proof fn lemma_starts(a: Seq<Seq<char>>, b: Seq<Seq<char>>)
    requires
        b == a || b == a.push(b.last()),
    ensures
        a.len() <= b.len(),
        forall|j: int| 0 <= j < a.len() ==> #[trigger] b[j] == a[j],
{
}

/// An edge type is printed by its name, its source before its target, its identity and its
/// rows, and with the keys of both ends in the same order.
pub proof fn law_printed_edges_run_along_their_arrow(
    acc: Seq<Seq<char>>,
    edge: EdgeTypeDefModel,
    schema: SchemaIrModel,
    graph: StoredGraphModel,
    manifest: ManifestModel,
)
    requires
        rows_of(graph.edges, edge.name) <= u64::MAX,
        edge.description is None,
        edge.instruction is None,
    ensures
        ({
            let payload = edge_payload(edge, schema, graph, manifest);
            let lines = with_edge(acc, payload);
            &&& lines.len() >= acc.len() + 2 + edge.properties.len()
            &&& forall|j: int| 0 <= j < acc.len() ==> #[trigger] lines[j] == acc[j]
            &&& lines[acc.len() as int] == "- "@ + edge.name + ": "@ + edge.src_type + " -> "@
                + edge.dst_type + " (type_id="@ + decimal(edge.type_id as nat) + ", rows="@
                + decimal(rows_of(graph.edges, edge.name)) + ", dataset_version="@ + version_text(
                json_at(payload, "dataset_version"@),
            ) + ")"@
            &&& lines[acc.len() as int + 1] == "  endpoint keys: "@ + (match key_of_type(
                schema,
                edge.src_type,
            ) {
                Some(k) => k,
                None => "-"@,
            }) + " -> "@ + (match key_of_type(schema, edge.dst_type) {
                Some(k) => k,
                None => "-"@,
            })
        }),
{
    law_described_edges_are_their_own(edge, schema, graph, manifest);
    law_decimals_are_read_back(edge.type_id as nat, u64::MAX as int);
    law_decimals_are_read_back(rows_of(graph.edges, edge.name), u64::MAX as int);
    reveal_strlit("src");
    reveal_strlit("dst");
    assert("src"@[0] == 's' && "dst"@[0] == 'd');
    reveal_with_fuel(member, 3);
    let payload = edge_payload(edge, schema, graph, manifest);
    let keys = json_at(payload, "endpoint_keys"@);
    assert(json_at(keys, "src"@) == crate::json::optional_text(key_of_type(schema, edge.src_type)));
    assert(json_at(keys, "dst"@) == crate::json::optional_text(key_of_type(schema, edge.dst_type)));
    let a = acc.push(
        "- "@ + edge.name + ": "@ + edge.src_type + " -> "@ + edge.dst_type + " (type_id="@
            + decimal(edge.type_id as nat) + ", rows="@ + decimal(rows_of(graph.edges, edge.name))
            + ", dataset_version="@ + version_text(json_at(payload, "dataset_version"@)) + ")"@,
    );
    let d = a.push(
        "  endpoint keys: "@ + text_or_dash(json_at(keys, "src"@)) + " -> "@ + text_or_dash(
            json_at(keys, "dst"@),
        ),
    );
    let props = items_of(json_at(payload, "properties"@));
    let lines = with_edge(acc, payload);
    assert(lines == with_props(d, props, false, 0));
    lemma_props_behind(d, props, false, 0);
    assert(props.len() == edge.properties.len());
    assert forall|j: int| 0 <= j < acc.len() implies #[trigger] lines[j] == acc[j] by {
        assert(d[j] == acc[j]);
    }
    assert(lines[acc.len() as int] == d[acc.len() as int]);
    assert(lines[acc.len() as int + 1] == d[acc.len() as int + 1]);
}

/// The edges that leave a node type are printed before those that reach it, each list in one
/// line: with an arrow towards the type that they lead to, or from the one that they come
/// from.
pub proof fn law_printed_edges_are_listed_by_direction(
    acc: Seq<Seq<char>>,
    node: NodeTypeDefModel,
    schema: SchemaIrModel,
    graph: StoredGraphModel,
    manifest: ManifestModel,
)
    requires
        node.description is None,
        node.instruction is None,
        crate::store::schema_ir::key_prop_of(node) is None,
        unique_names(node.properties, node.properties.len() as int).len() == 0,
        edge_summaries(schema.edges, node.name, true, schema.edges.len() as int).len() > 0,
        edge_summaries(schema.edges, node.name, false, schema.edges.len() as int).len() > 0,
    ensures
        ({
            let leaving = edge_summaries(
                schema.edges,
                node.name,
                true,
                schema.edges.len() as int,
            );
            let reaching = edge_summaries(
                schema.edges,
                node.name,
                false,
                schema.edges.len() as int,
            );
            let lines = with_node(acc, node_payload(node, schema, graph, manifest));
            &&& lines.len() >= acc.len() + 3
            &&& lines[acc.len() as int + 1] == "  outgoing: "@ + join_of(
                edge_texts(leaving, " -> "@, "to_type"@),
                ", "@,
            )
            &&& lines[acc.len() as int + 2] == "  incoming: "@ + join_of(
                edge_texts(reaching, " <- "@, "from_type"@),
                ", "@,
            )
        }),
{
    law_described_nodes_are_their_own(node, schema, graph, manifest);
    let payload = node_payload(node, schema, graph, manifest);
    let unique = items_of(json_at(payload, "unique_properties"@));
    let outgoing = items_of(json_at(payload, "outgoing_edges"@));
    let incoming = items_of(json_at(payload, "incoming_edges"@));
    assert(unique.len() == 0);
    let a = acc.push(
        "- "@ + text_or_empty(json_at(payload, "name"@)) + " (type_id="@ + decimal(
            number_or_zero(json_at(payload, "type_id"@)),
        ) + ", rows="@ + decimal(number_or_zero(json_at(payload, "rows"@))) + ", dataset_version="@
            + version_text(json_at(payload, "dataset_version"@)) + ")"@,
    );
    let f = a.push("  outgoing: "@ + join_of(edge_texts(outgoing, " -> "@, "to_type"@), ", "@));
    let g = f.push("  incoming: "@ + join_of(edge_texts(incoming, " <- "@, "from_type"@), ", "@));
    let props = items_of(json_at(payload, "properties"@));
    let lines = with_node(acc, payload);
    assert(lines == with_props(g, props, true, 0));
    lemma_props_behind(g, props, true, 0);
    assert(lines[acc.len() as int + 1] == g[acc.len() as int + 1]);
    assert(lines[acc.len() as int + 2] == g[acc.len() as int + 2]);
}

} // verus!
