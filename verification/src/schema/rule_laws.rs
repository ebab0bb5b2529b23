//! The rules on annotations, as a whole: a declaration is accepted exactly where it keeps them.

use crate::schema::ast::{AnnotationModel, EdgeDeclModel, NodeDeclModel, PropDeclModel};
use crate::schema::validate::{edge_annotation_check, edge_error, edge_prop_annotation_check, edge_prop_error, find_prop, has_annotation, keyed_before, lemma_first_error, media_uri_check, media_uri_error, node_annotation_check, node_error, node_prop_annotation_check, node_prop_annotations_error, node_prop_error, seen_before, string_annotation_check, string_annotation_error, two_keys_before};
use crate::text::is_blank;
use crate::types::ScalarType;
use vstd::prelude::*;

verus! {

/// Whether an annotation says something of one property.
pub open spec fn is_marker(name: Seq<char>) -> bool {
    name == "key"@ || name == "unique"@ || name == "index"@ || name == "embed"@ || name
        == "media_uri"@
}

/// Whether an annotation comes for the first time.
pub open spec fn comes_first(anns: Seq<AnnotationModel>, k: int) -> bool {
    forall|j: int| 0 <= j < k ==> (#[trigger] anns[j]).name != anns[k].name
}

/// Whether an annotation holds a text with something in it.
pub open spec fn says_something(a: AnnotationModel) -> bool {
    a.value matches Some(v) && !is_blank(v)
}

/// Whether an annotation, where it is given, is given once and with a text.
pub open spec fn texts_are_sound(anns: Seq<AnnotationModel>, name: Seq<char>) -> bool {
    forall|k: int|
        0 <= k < anns.len() && (#[trigger] anns[k]).name == name ==> comes_first(anns, k)
            && says_something(anns[k])
}

/// Whether the first property of a name holds one string; an enumeration only where that is
/// permitted.
pub open spec fn names_a_text(props: Seq<PropDeclModel>, name: Seq<char>, may_be_enum: bool) -> bool {
    exists|j: int|
        0 <= j < props.len() && (#[trigger] props[j]).name == name && (forall|i: int|
            0 <= i < j ==> (#[trigger] props[i]).name != name) && !props[j].prop_type.list
            && props[j].prop_type.scalar == ScalarType::String && (may_be_enum
            || props[j].prop_type.enum_values is None)
}

/// Whether an annotation of a property of a node keeps the rules.
pub open spec fn annotation_is_sound(node: NodeDeclModel, p: PropDeclModel, k: int) -> bool {
    let a = p.annotations[k];
    &&& a.name != "instruction"@
    &&& p.prop_type.list ==> !is_marker(a.name)
    &&& p.prop_type.scalar is Vector ==> a.name != "key"@ && a.name != "unique"@
    &&& is_marker(a.name) ==> comes_first(p.annotations, k)
    &&& a.name == "key"@ || a.name == "unique"@ || a.name == "index"@ ==> a.value is None
    &&& a.name == "embed"@ ==> p.prop_type.scalar is Vector && says_something(a) && names_a_text(
        node.properties,
        a.value->Some_0,
        true,
    )
    &&& a.name == "media_uri"@ ==> p.prop_type.scalar == ScalarType::String
        && p.prop_type.enum_values is None && says_something(a) && a.value->Some_0 != p.name
        && names_a_text(node.properties, a.value->Some_0, false)
}

/// Whether a property of a node keeps the rules.
pub open spec fn prop_is_sound(node: NodeDeclModel, p: PropDeclModel) -> bool {
    &&& texts_are_sound(p.annotations, "description"@)
    &&& forall|k: int|
        #![trigger p.annotations[k]]
        0 <= k < p.annotations.len() ==> annotation_is_sound(node, p, k)
}

/// Whether a property is marked as the key.
pub open spec fn is_key(p: PropDeclModel) -> bool {
    exists|k: int| 0 <= k < p.annotations.len() && (#[trigger] p.annotations[k]).name == "key"@
}

/// Whether a node type keeps the rules.
pub open spec fn node_is_sound(node: NodeDeclModel) -> bool {
    &&& forall|k: int|
        0 <= k < node.annotations.len() ==> !is_marker((#[trigger] node.annotations[k]).name)
    &&& texts_are_sound(node.annotations, "description"@)
    &&& texts_are_sound(node.annotations, "instruction"@)
    &&& forall|i: int|
        0 <= i < node.properties.len() ==> prop_is_sound(node, #[trigger] node.properties[i])
    &&& forall|i: int, j: int|
        0 <= i < j < node.properties.len() ==> !(is_key(#[trigger] node.properties[i]) && is_key(
            #[trigger] node.properties[j],
        ))
}

/// Whether an edge type keeps the rules.
pub open spec fn edge_is_sound(edge: EdgeDeclModel) -> bool {
    &&& forall|k: int|
        0 <= k < edge.annotations.len() ==> !is_marker((#[trigger] edge.annotations[k]).name)
    &&& texts_are_sound(edge.annotations, "description"@)
    &&& texts_are_sound(edge.annotations, "instruction"@)
    &&& forall|i: int|
        0 <= i < edge.properties.len() ==> edge_prop_is_sound(#[trigger] edge.properties[i])
}

/// Whether a property of an edge keeps the rules.
pub open spec fn edge_prop_is_sound(p: PropDeclModel) -> bool {
    &&& texts_are_sound(p.annotations, "description"@)
    &&& forall|k: int|
        0 <= k < p.annotations.len() ==> !is_marker((#[trigger] p.annotations[k]).name)
            && p.annotations[k].name != "instruction"@
}

proof fn lemma_texts(anns: Seq<AnnotationModel>, name: Seq<char>, target: Seq<char>)
    ensures
        string_annotation_error(anns, name, target) is None <==> texts_are_sound(anns, name),
{
    let check = |k: int| string_annotation_check(anns, name, target, k);
    lemma_first_error(anns.len(), check, 0);
    assert forall|k: int| 0 <= k < anns.len() implies (#[trigger] check(k) is None <==> (anns[k].name
        == name ==> comes_first(anns, k) && says_something(anns[k]))) by {
        if anns[k].name == name {
            assert(seen_before(anns, name, k) <==> !comes_first(anns, k));
        }
    }
    if string_annotation_error(anns, name, target) is None {
        assert forall|k: int|
            0 <= k < anns.len() && (#[trigger] anns[k]).name == name implies comes_first(anns, k)
            && says_something(anns[k]) by {
            assert(check(k) is None);
        }
    }
}

proof fn lemma_first_named(props: Seq<PropDeclModel>, name: Seq<char>, from: int)
    requires
        0 <= from <= props.len(),
    ensures
        match find_prop(props, name, from) {
            Some(p) => exists|j: int|
                from <= j < props.len() && #[trigger] props[j] == p && p.name == name && forall|i: int|
                    from <= i < j ==> (#[trigger] props[i]).name != name,
            None => forall|j: int| from <= j < props.len() ==> (#[trigger] props[j]).name != name,
        },
    decreases props.len() - from,
{
    if from < props.len() {
        if props[from].name == name {
            assert(props[from] == props[from]);
        } else {
            lemma_first_named(props, name, from + 1);
            if let Some(p) = find_prop(props, name, from + 1) {
                let j = choose|j: int|
                    from + 1 <= j < props.len() && #[trigger] props[j] == p && p.name == name
                        && forall|i: int| from + 1 <= i < j ==> (#[trigger] props[i]).name != name;
                assert(props[j] == p);
            }
        }
    }
}

proof fn lemma_names_a_text(props: Seq<PropDeclModel>, name: Seq<char>, may_be_enum: bool)
    ensures
        names_a_text(props, name, may_be_enum) <==> (find_prop(props, name, 0) matches Some(p)
            && !p.prop_type.list && p.prop_type.scalar == ScalarType::String && (may_be_enum
            || p.prop_type.enum_values is None)),
{
    lemma_first_named(props, name, 0);
    if let Some(p) = find_prop(props, name, 0) {
        let j = choose|j: int|
            0 <= j < props.len() && #[trigger] props[j] == p && p.name == name && forall|i: int|
                0 <= i < j ==> (#[trigger] props[i]).name != name;
        if names_a_text(props, name, may_be_enum) {
            let m = choose|m: int|
                0 <= m < props.len() && (#[trigger] props[m]).name == name && (forall|i: int|
                    0 <= i < m ==> (#[trigger] props[i]).name != name) && !props[m].prop_type.list
                    && props[m].prop_type.scalar == ScalarType::String && (may_be_enum
                    || props[m].prop_type.enum_values is None);
            assert(!(m < j) && !(j < m)) by {
                assert(props[m].name == name && props[j].name == name);
            }
        }
        assert(props[j].name == name);
    }
}

proof fn lemma_names_differ()
    ensures
        "key"@.len() == 3,
        "unique"@.len() == 6,
        "index"@.len() == 5 && "index"@[0] == 'i',
        "embed"@.len() == 5 && "embed"@[0] == 'e',
        "media_uri"@.len() == 9,
        "instruction"@.len() == 11 && "instruction"@[0] == 'i',
        "description"@.len() == 11 && "description"@[0] == 'd',
{
    reveal_strlit("key");
    reveal_strlit("unique");
    reveal_strlit("index");
    reveal_strlit("embed");
    reveal_strlit("media_uri");
    reveal_strlit("instruction");
    reveal_strlit("description");
}

proof fn lemma_annotation_rules(node: NodeDeclModel, p: PropDeclModel, k: int)
    requires
        0 <= k < p.annotations.len(),
    ensures
        node_prop_annotation_check(node, p, k) is None && media_uri_check(
            node.name,
            p,
            node.properties,
            k,
        ) is None <==> annotation_is_sound(node, p, k),
{
    lemma_names_differ();
    let a = p.annotations[k];
    assert(seen_before(p.annotations, a.name, k) <==> !comes_first(p.annotations, k));
    if a.value is Some {
        lemma_names_a_text(node.properties, a.value->Some_0, true);
        lemma_names_a_text(node.properties, a.value->Some_0, false);
    }
}

proof fn lemma_prop_rules(node: NodeDeclModel, i: int)
    requires
        0 <= i < node.properties.len(),
    ensures
        node_prop_error(node, i) is None <==> prop_is_sound(node, node.properties[i]),
{
    let p = node.properties[i];
    lemma_texts(
        p.annotations,
        "description"@,
        "property "@ + crate::schema::validate::dotted(node.name, p.name),
    );
    let a = |k: int| node_prop_annotation_check(node, p, k);
    let b = |k: int| media_uri_check(node.name, p, node.properties, k);
    lemma_first_error(p.annotations.len(), a, 0);
    lemma_first_error(p.annotations.len(), b, 0);
    assert(node_prop_annotations_error(node, p) == crate::schema::validate::first_error(
        p.annotations.len(),
        a,
        0,
    ));
    assert(media_uri_error(node.name, p, node.properties) == crate::schema::validate::first_error(
        p.annotations.len(),
        b,
        0,
    ));
    assert forall|k: int| 0 <= k < p.annotations.len() implies (#[trigger] a(k) is None && b(k)
        is None <==> annotation_is_sound(node, p, k)) by {
        lemma_annotation_rules(node, p, k);
    }
    if node_prop_error(node, i) is None {
        assert forall|k: int|
            #![trigger p.annotations[k]]
            0 <= k < p.annotations.len() implies annotation_is_sound(node, p, k) by {
            assert(a(k) is None);
            assert(b(k) is None);
        }
    }
    if prop_is_sound(node, p) {
        assert forall|k: int| 0 <= k < p.annotations.len() implies #[trigger] a(k) is None by {
            assert(p.annotations[k] == p.annotations[k]);
        }
        assert forall|k: int| 0 <= k < p.annotations.len() implies #[trigger] b(k) is None by {
            assert(p.annotations[k] == p.annotations[k]);
            assert(a(k) is None);
        }
    }
}

proof fn lemma_keys(node: NodeDeclModel)
    ensures
        !two_keys_before(node, node.properties.len() as int) <==> forall|i: int, j: int|
            0 <= i < j < node.properties.len() ==> !(is_key(#[trigger] node.properties[i])
                && is_key(#[trigger] node.properties[j])),
{
    let n = node.properties.len() as int;
    assert forall|i: int| 0 <= i < n implies #[trigger] has_annotation(
        node.properties[i].annotations,
        "key"@,
    ) == is_key(node.properties[i]) by {
        let anns = node.properties[i].annotations;
        if has_annotation(anns, "key"@) {
            let k = choose|k: int| 0 <= k < anns.len() && #[trigger] anns[k].name == "key"@;
            assert(node.properties[i].annotations[k].name == "key"@);
        }
        if is_key(node.properties[i]) {
            let p = node.properties[i];
            let k = choose|k: int|
                0 <= k < p.annotations.len() && (#[trigger] p.annotations[k]).name == "key"@;
            assert(anns[k].name == "key"@);
        }
    }
    if two_keys_before(node, n) {
        let j = choose|j: int|
            0 <= j < n && has_annotation(#[trigger] node.properties[j].annotations, "key"@)
                && keyed_before(node, j);
        let i = choose|i: int|
            0 <= i < j && has_annotation(#[trigger] node.properties[i].annotations, "key"@);
        assert(has_annotation(node.properties[i].annotations, "key"@));
        assert(has_annotation(node.properties[j].annotations, "key"@));
        assert(is_key(node.properties[i]) && is_key(node.properties[j]));
    } else {
        assert forall|i: int, j: int| 0 <= i < j < n implies !(is_key(#[trigger] node.properties[i])
            && is_key(#[trigger] node.properties[j])) by {
            if is_key(node.properties[i]) && is_key(node.properties[j]) {
                assert(has_annotation(node.properties[i].annotations, "key"@));
                assert(has_annotation(node.properties[j].annotations, "key"@));
                assert(keyed_before(node, j));
            }
        }
    }
}

/// A node type is accepted exactly where it keeps the rules: no annotation of a property
/// stands on the type itself; descriptions and instructions come once and say something; an
/// instruction stands on no property; a list has no markers; a vector is neither a key nor
/// unique; a marker comes once, and `key`, `unique` and `index` without a value; a vector is
/// embedded from a string of its node, and media have a type in another string of it; and
/// at most one property is the key.
pub proof fn law_nodes_that_keep_the_rules_are_accepted(node: NodeDeclModel)
    ensures
        node_error(node) is None <==> node_is_sound(node),
{
    let on_type = |k: int| node_annotation_check(node, k);
    let on_props = |i: int| node_prop_error(node, i);
    lemma_first_error(node.annotations.len(), on_type, 0);
    lemma_first_error(node.properties.len(), on_props, 0);
    lemma_texts(node.annotations, "description"@, "node "@ + node.name);
    lemma_texts(node.annotations, "instruction"@, "node "@ + node.name);
    lemma_keys(node);
    assert forall|k: int| 0 <= k < node.annotations.len() implies (#[trigger] on_type(k) is None
        <==> !is_marker(node.annotations[k].name)) by {}
    assert forall|i: int| 0 <= i < node.properties.len() implies (#[trigger] on_props(i) is None
        <==> prop_is_sound(node, node.properties[i])) by {
        lemma_prop_rules(node, i);
    }
    if node_error(node) is None {
        assert forall|k: int| 0 <= k < node.annotations.len() implies !is_marker(
            (#[trigger] node.annotations[k]).name,
        ) by {
            assert(on_type(k) is None);
        }
        assert forall|i: int| 0 <= i < node.properties.len() implies prop_is_sound(
            node,
            #[trigger] node.properties[i],
        ) by {
            assert(on_props(i) is None);
        }
    }
    if node_is_sound(node) {
        assert forall|k: int| 0 <= k < node.annotations.len() implies #[trigger] on_type(k) is None by {
            assert(!is_marker(node.annotations[k].name));
        }
        assert forall|i: int| 0 <= i < node.properties.len() implies #[trigger] on_props(i) is None by {
            assert(prop_is_sound(node, node.properties[i]));
        }
    }
}

proof fn lemma_edge_prop_rules(edge: EdgeDeclModel, i: int)
    requires
        0 <= i < edge.properties.len(),
    ensures
        edge_prop_error(edge, i) is None <==> edge_prop_is_sound(edge.properties[i]),
{
    let p = edge.properties[i];
    lemma_texts(
        p.annotations,
        "description"@,
        "property "@ + crate::schema::validate::dotted(edge.name, p.name),
    );
    let check = |k: int| edge_prop_annotation_check(edge, p, k);
    lemma_first_error(p.annotations.len(), check, 0);
    assert forall|k: int| 0 <= k < p.annotations.len() implies (#[trigger] check(k) is None <==> (
    !is_marker(p.annotations[k].name) && p.annotations[k].name != "instruction"@)) by {}
    if edge_prop_error(edge, i) is None {
        assert forall|k: int| 0 <= k < p.annotations.len() implies !is_marker(
            (#[trigger] p.annotations[k]).name,
        ) && p.annotations[k].name != "instruction"@ by {
            assert(check(k) is None);
        }
    }
    if edge_prop_is_sound(p) {
        assert forall|k: int| 0 <= k < p.annotations.len() implies #[trigger] check(k) is None by {
            assert(!is_marker(p.annotations[k].name));
        }
    }
}

/// An edge type is accepted exactly where it keeps the rules: it has no annotations of node
/// properties, neither on itself nor on its properties; descriptions and instructions come
/// once and say something; and an instruction stands on no property.
pub proof fn law_edges_that_keep_the_rules_are_accepted(edge: EdgeDeclModel)
    ensures
        edge_error(edge) is None <==> edge_is_sound(edge),
{
    let on_type = |k: int| edge_annotation_check(edge, k);
    let on_props = |i: int| edge_prop_error(edge, i);
    lemma_first_error(edge.annotations.len(), on_type, 0);
    lemma_first_error(edge.properties.len(), on_props, 0);
    lemma_texts(edge.annotations, "description"@, "edge "@ + edge.name);
    lemma_texts(edge.annotations, "instruction"@, "edge "@ + edge.name);
    assert forall|k: int| 0 <= k < edge.annotations.len() implies (#[trigger] on_type(k) is None
        <==> !is_marker(edge.annotations[k].name)) by {}
    assert forall|i: int| 0 <= i < edge.properties.len() implies (#[trigger] on_props(i) is None
        <==> edge_prop_is_sound(edge.properties[i])) by {
        lemma_edge_prop_rules(edge, i);
    }
    if edge_error(edge) is None {
        assert forall|k: int| 0 <= k < edge.annotations.len() implies !is_marker(
            (#[trigger] edge.annotations[k]).name,
        ) by {
            assert(on_type(k) is None);
        }
        assert forall|i: int| 0 <= i < edge.properties.len() implies edge_prop_is_sound(
            #[trigger] edge.properties[i],
        ) by {
            assert(on_props(i) is None);
        }
    }
    if edge_is_sound(edge) {
        assert forall|k: int| 0 <= k < edge.annotations.len() implies #[trigger] on_type(k) is None by {
            assert(!is_marker(edge.annotations[k].name));
        }
        assert forall|i: int| 0 <= i < edge.properties.len() implies #[trigger] on_props(i) is None by {
            assert(edge_prop_is_sound(edge.properties[i]));
        }
    }
}

} // verus!
