//! What holds of every schema that is accepted.

use crate::schema::ast::{AnnotationModel, NodeDeclModel, PropDeclModel, SchemaDeclModel};
use crate::schema::grammar::schema_syntax;
use crate::schema::parser::schema_meaning;
use crate::schema::validate::{decl_error, edge_annotation_check, edge_prop_annotation_check, edge_prop_error, embed_check, find_prop, has_annotation, is_property_only, is_string, is_text, is_vector, keyed_before, lemma_first_error, media_uri_check, node_annotation_check, node_error, node_prop_annotation_check, node_prop_error, schema_error, seen_before, string_annotation_check, string_annotation_error, two_keys_before};
use crate::text::is_blank;
use vstd::prelude::*;

verus! {

/// A schema is accepted exactly if each of its declarations is.
pub proof fn law_declarations_are_judged_alone(schema: Seq<SchemaDeclModel>)
    ensures
        schema_error(schema) is None <==> forall|i: int|
            0 <= i < schema.len() ==> decl_error(#[trigger] schema[i]) is None,
{
    let check = |i: int| decl_error(schema[i]);
    lemma_first_error(schema.len(), check, 0);
    if schema_error(schema) is None {
        assert forall|i: int| 0 <= i < schema.len() implies decl_error(#[trigger] schema[i]) is None by {
            assert(check(i) is None);
        }
    }
}

/// The property of an accepted node has no error.
proof fn lemma_node_prop(node: NodeDeclModel, i: int)
    requires
        node_error(node) is None,
        0 <= i < node.properties.len(),
    ensures
        node_prop_error(node, i) is None,
        !two_keys_before(node, node.properties.len() as int),
{
    let check = |i: int| node_prop_error(node, i);
    lemma_first_error(node.properties.len(), check, 0);
    assert(check(i) is None);
}

/// An annotation of a property of an accepted node passes its checks.
proof fn lemma_node_annotation(node: NodeDeclModel, i: int, k: int)
    requires
        node_error(node) is None,
        0 <= i < node.properties.len(),
        0 <= k < node.properties[i].annotations.len(),
    ensures
        node_prop_annotation_check(node, node.properties[i], k) is None,
        media_uri_check(node.name, node.properties[i], node.properties, k) is None,
{
    let prop = node.properties[i];
    lemma_node_prop(node, i);
    let a = |k: int| node_prop_annotation_check(node, prop, k);
    lemma_first_error(prop.annotations.len(), a, 0);
    assert(a(k) is None);
    let b = |k: int| media_uri_check(node.name, prop, node.properties, k);
    lemma_first_error(prop.annotations.len(), b, 0);
    assert(b(k) is None);
}

/// A node type has at most one key.
pub proof fn law_one_key(node: NodeDeclModel, i: int, j: int)
    requires
        node_error(node) is None,
        0 <= i < j < node.properties.len(),
    ensures
        !(has_annotation(node.properties[i].annotations, "key"@) && has_annotation(
            node.properties[j].annotations,
            "key"@,
        )),
{
    lemma_node_prop(node, j);
    if has_annotation(node.properties[i].annotations, "key"@) && has_annotation(
        node.properties[j].annotations,
        "key"@,
    ) {
        assert(keyed_before(node, j));
        assert(two_keys_before(node, node.properties.len() as int));
    }
}

/// A key, and what is unique on its own, is neither a list nor a vector.
pub proof fn law_keys_are_single_values(node: NodeDeclModel, i: int, k: int)
    requires
        node_error(node) is None,
        0 <= i < node.properties.len(),
        0 <= k < node.properties[i].annotations.len(),
        node.properties[i].annotations[k].name == "key"@ || node.properties[i].annotations[k].name
            == "unique"@,
    ensures
        !node.properties[i].prop_type.list,
        !is_vector(node.properties[i]),
        node.properties[i].annotations[k].value is None,
{
    lemma_node_annotation(node, i, k);
    reveal_strlit("instruction");
    reveal_strlit("key");
    reveal_strlit("unique");
    assert("key"@.len() != "instruction"@.len());
    assert("unique"@.len() != "instruction"@.len());
}

proof fn lemma_find_prop(props: Seq<PropDeclModel>, name: Seq<char>, i: int)
    ensures
        find_prop(props, name, i) matches Some(p) ==> exists|j: int|
            i <= j < props.len() && #[trigger] props[j] == p && p.name == name,
    decreases props.len() - i,
{
    if i < 0 || i >= props.len() {
    } else if props[i].name == name {
        assert(props[i] == find_prop(props, name, i)->Some_0);
    } else {
        lemma_find_prop(props, name, i + 1);
    }
}

/// What is embedded is a text: `@embed` stands on a vector, and names a property of the
/// same node that holds a text.
pub proof fn law_embeddings_come_from_texts(node: NodeDeclModel, i: int, k: int)
    requires
        node_error(node) is None,
        0 <= i < node.properties.len(),
        0 <= k < node.properties[i].annotations.len(),
        node.properties[i].annotations[k].name == "embed"@,
    ensures
        is_vector(node.properties[i]) && !node.properties[i].prop_type.list,
        node.properties[i].annotations[k].value is Some,
        exists|j: int|
            0 <= j < node.properties.len() && #[trigger] node.properties[j].name
                == node.properties[i].annotations[k].value->0 && is_text(node.properties[j]),
{
    lemma_node_annotation(node, i, k);
    reveal_strlit("instruction");
    reveal_strlit("key");
    reveal_strlit("unique");
    reveal_strlit("index");
    reveal_strlit("embed");
    assert("embed"@.len() == 5);
    assert("index"@[0] == 'i' && "embed"@[0] == 'e');
    assert(embed_check(node.name, node.properties[i], node.properties, k) is None);
    lemma_find_prop(node.properties, node.properties[i].annotations[k].value->0, 0);
}

/// What points to media is a `String` property, and names another one of the same node
/// for its media type.
pub proof fn law_media_have_a_type(node: NodeDeclModel, i: int, k: int)
    requires
        node_error(node) is None,
        0 <= i < node.properties.len(),
        0 <= k < node.properties[i].annotations.len(),
        node.properties[i].annotations[k].name == "media_uri"@,
    ensures
        is_string(node.properties[i]),
        node.properties[i].annotations[k].value is Some,
        node.properties[i].annotations[k].value->0 != node.properties[i].name,
        exists|j: int|
            0 <= j < node.properties.len() && #[trigger] node.properties[j].name
                == node.properties[i].annotations[k].value->0 && is_string(node.properties[j]),
{
    lemma_node_annotation(node, i, k);
    lemma_find_prop(node.properties, node.properties[i].annotations[k].value->0, 0);
}

/// Keys, indexes, embeddings and media belong to the properties of nodes: no node type,
/// no edge type and no property of an edge has them.
pub proof fn law_markers_belong_to_node_properties(schema: Seq<SchemaDeclModel>, i: int)
    requires
        schema_error(schema) is None,
        0 <= i < schema.len(),
    ensures
        match schema[i] {
            SchemaDeclModel::Node(n) => forall|k: int|
                0 <= k < n.annotations.len() ==> !is_property_only(
                    (#[trigger] n.annotations[k]).name,
                ),
            SchemaDeclModel::Edge(e) => {
                &&& forall|k: int|
                    0 <= k < e.annotations.len() ==> !is_property_only(
                        (#[trigger] e.annotations[k]).name,
                    )
                &&& forall|p: int, k: int|
                    0 <= p < e.properties.len() && 0 <= k < e.properties[p].annotations.len()
                        ==> !is_property_only(
                        (#[trigger] e.properties[p].annotations[k]).name,
                    )
            },
        },
{
    law_declarations_are_judged_alone(schema);
    assert(decl_error(schema[i]) is None);
    match schema[i] {
        SchemaDeclModel::Node(n) => {
            let a = |k: int| node_annotation_check(n, k);
            lemma_first_error(n.annotations.len(), a, 0);
            assert forall|k: int| 0 <= k < n.annotations.len() implies !is_property_only(
                (#[trigger] n.annotations[k]).name,
            ) by {
                assert(a(k) is None);
            }
        },
        SchemaDeclModel::Edge(e) => {
            let a = |k: int| edge_annotation_check(e, k);
            lemma_first_error(e.annotations.len(), a, 0);
            assert forall|k: int| 0 <= k < e.annotations.len() implies !is_property_only(
                (#[trigger] e.annotations[k]).name,
            ) by {
                assert(a(k) is None);
            }
            assert forall|p: int, k: int|
                0 <= p < e.properties.len() && 0 <= k
                    < e.properties[p].annotations.len() implies !is_property_only(
                (#[trigger] e.properties[p].annotations[k]).name,
            ) by {
                let b = |i: int| edge_prop_error(e, i);
                lemma_first_error(e.properties.len(), b, 0);
                assert(b(p) is None);
                let prop = e.properties[p];
                let c = |k: int| edge_prop_annotation_check(e, prop, k);
                lemma_first_error(prop.annotations.len(), c, 0);
                assert(c(k) is None);
            }
        },
    }
}

proof fn lemma_string_annotation(
    anns: Seq<AnnotationModel>,
    annotation: Seq<char>,
    target: Seq<char>,
    k: int,
)
    requires
        string_annotation_error(anns, annotation, target) is None,
        0 <= k < anns.len(),
        anns[k].name == annotation,
    ensures
        anns[k].value is Some && !is_blank(anns[k].value->0),
        forall|j: int| 0 <= j < k ==> (#[trigger] anns[j]).name != annotation,
{
    let check = |k: int| string_annotation_check(anns, annotation, target, k);
    lemma_first_error(anns.len(), check, 0);
    assert(check(k) is None);
    assert(!seen_before(anns, annotation, k));
    assert forall|j: int| 0 <= j < k implies (#[trigger] anns[j]).name != annotation by {
        if anns[j].name == annotation {
            assert(seen_before(anns, annotation, k));
        }
    }
}

/// A description or an instruction of a type says something, and stands once.
pub proof fn law_descriptions_say_something(schema: Seq<SchemaDeclModel>, i: int, k: int)
    requires
        schema_error(schema) is None,
        0 <= i < schema.len(),
        0 <= k < annotations_of(schema[i]).len(),
        annotations_of(schema[i])[k].name == "description"@ || annotations_of(schema[i])[k].name
            == "instruction"@,
    ensures
        annotations_of(schema[i])[k].value is Some,
        !is_blank(annotations_of(schema[i])[k].value->0),
        forall|j: int|
            0 <= j < k ==> (#[trigger] annotations_of(schema[i])[j]).name != annotations_of(
                schema[i],
            )[k].name,
{
    law_declarations_are_judged_alone(schema);
    assert(decl_error(schema[i]) is None);
    let anns = annotations_of(schema[i]);
    match schema[i] {
        SchemaDeclModel::Node(n) => {
            lemma_string_annotation(anns, anns[k].name, "node "@ + n.name, k);
        },
        SchemaDeclModel::Edge(e) => {
            lemma_string_annotation(anns, anns[k].name, "edge "@ + e.name, k);
        },
    }
}

/// The annotations of a declared type.
pub open spec fn annotations_of(decl: SchemaDeclModel) -> Seq<AnnotationModel> {
    match decl {
        SchemaDeclModel::Node(n) => n.annotations,
        SchemaDeclModel::Edge(e) => e.annotations,
    }
}

/// What is parsed from a text is an accepted schema.
pub proof fn law_parsed_schemas_are_accepted(text: Seq<char>)
    ensures
        schema_meaning(text) matches Ok(schema) ==> schema_error(schema) is None,
{
}

/// A refusal has a place in the text exactly if the text is outside the grammar.
pub proof fn law_only_syntax_has_a_place(text: Seq<char>)
    ensures
        schema_meaning(text) matches Err(d) ==> (d.span is Some <==> schema_syntax(text) is Err),
        schema_syntax(text) is Err ==> schema_meaning(text) is Err,
{
}

} // verus!
