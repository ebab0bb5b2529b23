//! The rules on annotations.
//!
//! Each rule is a check of one item at a time; a schema is reported by the first
//! check that fails, in the order of the source.

use crate::error::NanoError;
use crate::schema::ast::{Annotation, AnnotationModel, EdgeDecl, EdgeDeclModel, NodeDecl, NodeDeclModel, PropDecl, PropDeclModel, SchemaDecl, SchemaDeclModel, SchemaFile};
use crate::text::{blank, cat2, cat3, cat4, cat5, is_blank, same, views};
use crate::types::ScalarType;
use vstd::prelude::*;

verus! {

// ---------------------------------------------------------------------------
// The first failing check

/// The first error that `check` gives on the positions `i..n`.
pub open spec fn first_error(
    n: nat,
    check: spec_fn(int) -> Option<Seq<char>>,
    i: int,
) -> Option<Seq<char>>
    decreases n - i,
{
    if i >= n {
        None
    } else if check(i) is Some {
        check(i)
    } else {
        first_error(n, check, i + 1)
    }
}

/// The first of two errors.
pub open spec fn or_else(a: Option<Seq<char>>, b: Option<Seq<char>>) -> Option<Seq<char>> {
    if a is Some {
        a
    } else {
        b
    }
}

/// No error is given on `i..n` exactly if no position there fails its check.
pub proof fn lemma_first_error(n: nat, check: spec_fn(int) -> Option<Seq<char>>, i: int)
    ensures
        first_error(n, check, i) is None <==> forall|k: int| i <= k < n ==> #[trigger] check(k) is None,
    decreases n - i,
{
    if i < n && check(i) is None {
        lemma_first_error(n, check, i + 1);
    }
}

/// Whether a result reports exactly the error `e`.
pub open spec fn reports(r: Result<(), NanoError>, e: Option<Seq<char>>) -> bool {
    match r {
        Ok(()) => e is None,
        Err(NanoError::Parse(m)) => e == Some(m@),
        Err(_) => false,
    }
}

// ---------------------------------------------------------------------------
// The checks

/// The annotations that only a property of a node may carry.
pub open spec fn is_property_only(name: Seq<char>) -> bool {
    name == "key"@ || name == "unique"@ || name == "index"@ || name == "embed"@ || name
        == "media_uri"@
}

pub open spec fn is_vector(p: PropDeclModel) -> bool {
    p.prop_type.scalar is Vector
}

pub open spec fn is_text(p: PropDeclModel) -> bool {
    !p.prop_type.list && p.prop_type.scalar == ScalarType::String
}

/// Whether a property is a `String` or a `String?`: a text that is not one of an enum.
pub open spec fn is_string(p: PropDeclModel) -> bool {
    is_text(p) && p.prop_type.enum_values is None
}

/// Whether an annotation named `name` stands before position `k`.
pub open spec fn seen_before(anns: Seq<AnnotationModel>, name: Seq<char>, k: int) -> bool {
    exists|j: int| 0 <= j < k && #[trigger] anns[j].name == name
}

pub open spec fn has_annotation(anns: Seq<AnnotationModel>, name: Seq<char>) -> bool {
    seen_before(anns, name, anns.len() as int)
}

/// `Owner.property`.
pub open spec fn dotted(owner: Seq<char>, prop: Seq<char>) -> Seq<char> {
    owner + "."@ + prop
}

/// The first property of a given name.
pub open spec fn find_prop(props: Seq<PropDeclModel>, name: Seq<char>, i: int) -> Option<
    PropDeclModel,
>
    decreases props.len() - i,
{
    if i < 0 || i >= props.len() {
        None
    } else if props[i].name == name {
        Some(props[i])
    } else {
        find_prop(props, name, i + 1)
    }
}

/// An annotation with a text occurs once and its text is not blank.
pub open spec fn string_annotation_check(
    anns: Seq<AnnotationModel>,
    annotation: Seq<char>,
    target: Seq<char>,
    k: int,
) -> Option<Seq<char>> {
    if anns[k].name != annotation {
        None
    } else if seen_before(anns, annotation, k) {
        Some(target + " declares @"@ + annotation + " multiple times"@)
    } else if anns[k].value is None || is_blank(anns[k].value->0) {
        Some("@"@ + annotation + " on "@ + target + " requires a non-empty value"@)
    } else {
        None
    }
}

pub open spec fn string_annotation_error(
    anns: Seq<AnnotationModel>,
    annotation: Seq<char>,
    target: Seq<char>,
) -> Option<Seq<char>> {
    first_error(anns.len(), |k: int| string_annotation_check(anns, annotation, target, k), 0)
}

/// `@media_uri(mime)` stands once, on a `String` property, and names another one.
pub open spec fn media_uri_check(
    owner: Seq<char>,
    prop: PropDeclModel,
    props: Seq<PropDeclModel>,
    k: int,
) -> Option<Seq<char>> {
    let label = dotted(owner, prop.name);
    let value = prop.annotations[k].value;
    if prop.annotations[k].name != "media_uri"@ {
        None
    } else if seen_before(prop.annotations, "media_uri"@, k) {
        Some("property "@ + label + " declares @media_uri multiple times"@)
    } else if !is_string(prop) {
        Some("@media_uri is only supported on String properties ("@ + label + ")"@)
    } else if value is None {
        Some("@media_uri on "@ + label + " requires a mime property name"@)
    } else if is_blank(value->0) {
        Some("@media_uri on "@ + label + " requires a non-empty mime property name"@)
    } else if value->0 == prop.name {
        Some(
            "@media_uri on "@ + label + " must reference a sibling mime property, not itself"@,
        )
    } else {
        match find_prop(props, value->0, 0) {
            None => Some(
                "@media_uri on "@ + label + " references unknown mime property "@ + value->0,
            ),
            Some(mime) => if !is_string(mime) {
                Some(
                    "@media_uri mime property "@ + dotted(owner, value->0) + " must be String"@,
                )
            } else {
                None
            },
        }
    }
}

pub open spec fn media_uri_error(
    owner: Seq<char>,
    prop: PropDeclModel,
    props: Seq<PropDeclModel>,
) -> Option<Seq<char>> {
    first_error(prop.annotations.len(), |k: int| media_uri_check(owner, prop, props, k), 0)
}

/// `@key`, `@unique` and `@index` stand once and take no value.
pub open spec fn marker_check(owner: Seq<char>, prop: PropDeclModel, k: int) -> Option<Seq<char>> {
    let label = dotted(owner, prop.name);
    let name = prop.annotations[k].name;
    if prop.annotations[k].value is Some {
        Some("@"@ + name + " on "@ + label + " does not accept a value"@)
    } else if seen_before(prop.annotations, name, k) {
        Some("property "@ + label + " declares @"@ + name + " multiple times"@)
    } else {
        None
    }
}

/// `@embed(source)` stands once, on a vector property, and names a text property.
pub open spec fn embed_check(
    owner: Seq<char>,
    prop: PropDeclModel,
    props: Seq<PropDeclModel>,
    k: int,
) -> Option<Seq<char>> {
    let label = dotted(owner, prop.name);
    let value = prop.annotations[k].value;
    if seen_before(prop.annotations, "embed"@, k) {
        Some("property "@ + label + " declares @embed multiple times"@)
    } else if !is_vector(prop) {
        Some("@embed is only supported on vector properties ("@ + label + ")"@)
    } else if value is None {
        Some("@embed on "@ + label + " requires a source property name"@)
    } else if is_blank(value->0) {
        Some("@embed on "@ + label + " requires a non-empty source property name"@)
    } else {
        match find_prop(props, value->0, 0) {
            None => Some(
                "@embed on "@ + label + " references unknown source property "@ + value->0,
            ),
            Some(source) => if !is_text(source) {
                Some("@embed source property "@ + dotted(owner, value->0) + " must be String"@)
            } else {
                None
            },
        }
    }
}

/// The check of one annotation of a node's property.
pub open spec fn node_prop_annotation_check(
    node: NodeDeclModel,
    prop: PropDeclModel,
    k: int,
) -> Option<Seq<char>> {
    let label = dotted(node.name, prop.name);
    let name = prop.annotations[k].name;
    if prop.prop_type.list && is_property_only(name) {
        Some("@"@ + name + " is not supported on list property "@ + label)
    } else if is_vector(prop) && (name == "key"@ || name == "unique"@) {
        Some("@"@ + name + " is not supported on vector property "@ + label)
    } else if name == "instruction"@ {
        Some(
            "@instruction is only supported on node and edge types (property "@ + label + ")"@,
        )
    } else if name == "key"@ || name == "unique"@ || name == "index"@ {
        marker_check(node.name, prop, k)
    } else if name == "embed"@ {
        embed_check(node.name, prop, node.properties, k)
    } else {
        None
    }
}

pub open spec fn node_prop_annotations_error(
    node: NodeDeclModel,
    prop: PropDeclModel,
) -> Option<Seq<char>> {
    first_error(
        prop.annotations.len(),
        |k: int| node_prop_annotation_check(node, prop, k),
        0,
    )
}

/// The first error of a node's property.
pub open spec fn node_prop_error(node: NodeDeclModel, i: int) -> Option<Seq<char>> {
    let prop = node.properties[i];
    or_else(
        string_annotation_error(
            prop.annotations,
            "description"@,
            "property "@ + dotted(node.name, prop.name),
        ),
        or_else(
            node_prop_annotations_error(node, prop),
            media_uri_error(node.name, prop, node.properties),
        ),
    )
}

/// Whether a property before position `i` is a key.
pub open spec fn keyed_before(node: NodeDeclModel, i: int) -> bool {
    exists|j: int| 0 <= j < i && has_annotation(#[trigger] node.properties[j].annotations, "key"@)
}

/// Whether two properties before position `i` are keys.
pub open spec fn two_keys_before(node: NodeDeclModel, i: int) -> bool {
    exists|j: int|
        0 <= j < i && has_annotation(#[trigger] node.properties[j].annotations, "key"@)
            && keyed_before(node, j)
}

pub open spec fn node_annotation_check(node: NodeDeclModel, k: int) -> Option<Seq<char>> {
    if is_property_only(node.annotations[k].name) {
        Some(
            "@"@ + node.annotations[k].name + " is only supported on node properties (node "@
                + node.name + ")"@,
        )
    } else {
        None
    }
}

/// The first error of a node declaration.
pub open spec fn node_error(node: NodeDeclModel) -> Option<Seq<char>> {
    let target = "node "@ + node.name;
    or_else(
        first_error(node.annotations.len(), |k: int| node_annotation_check(node, k), 0),
        or_else(
            string_annotation_error(node.annotations, "description"@, target),
            or_else(
                string_annotation_error(node.annotations, "instruction"@, target),
                or_else(
                    first_error(node.properties.len(), |i: int| node_prop_error(node, i), 0),
                    if two_keys_before(node, node.properties.len() as int) {
                        Some(
                            "node type "@ + node.name
                                + " has multiple @key properties; only one is currently supported"@,
                        )
                    } else {
                        None
                    },
                ),
            ),
        ),
    )
}

pub open spec fn edge_annotation_check(edge: EdgeDeclModel, k: int) -> Option<Seq<char>> {
    if is_property_only(edge.annotations[k].name) {
        Some(
            "@"@ + edge.annotations[k].name + " is not supported on edges (edge "@ + edge.name
                + ")"@,
        )
    } else {
        None
    }
}

/// The check of one annotation of an edge's property.
pub open spec fn edge_prop_annotation_check(
    edge: EdgeDeclModel,
    prop: PropDeclModel,
    k: int,
) -> Option<Seq<char>> {
    let label = dotted(edge.name, prop.name);
    let name = prop.annotations[k].name;
    if is_property_only(name) {
        Some("@"@ + name + " is not supported on edge properties (edge "@ + label + ")"@)
    } else if name == "instruction"@ {
        Some(
            "@instruction is only supported on node and edge types (property "@ + label + ")"@,
        )
    } else {
        None
    }
}

/// The first error of an edge's property.
pub open spec fn edge_prop_error(edge: EdgeDeclModel, i: int) -> Option<Seq<char>> {
    let prop = edge.properties[i];
    or_else(
        string_annotation_error(
            prop.annotations,
            "description"@,
            "property "@ + dotted(edge.name, prop.name),
        ),
        first_error(
            prop.annotations.len(),
            |k: int| edge_prop_annotation_check(edge, prop, k),
            0,
        ),
    )
}

/// The first error of an edge declaration.
pub open spec fn edge_error(edge: EdgeDeclModel) -> Option<Seq<char>> {
    let target = "edge "@ + edge.name;
    or_else(
        first_error(edge.annotations.len(), |k: int| edge_annotation_check(edge, k), 0),
        or_else(
            string_annotation_error(edge.annotations, "description"@, target),
            or_else(
                string_annotation_error(edge.annotations, "instruction"@, target),
                first_error(edge.properties.len(), |i: int| edge_prop_error(edge, i), 0),
            ),
        ),
    )
}

pub open spec fn decl_error(decl: SchemaDeclModel) -> Option<Seq<char>> {
    match decl {
        SchemaDeclModel::Node(node) => node_error(node),
        SchemaDeclModel::Edge(edge) => edge_error(edge),
    }
}

/// The first error of a schema.
pub open spec fn schema_error(schema: Seq<SchemaDeclModel>) -> Option<Seq<char>> {
    first_error(schema.len(), |i: int| decl_error(schema[i]), 0)
}

// ---------------------------------------------------------------------------
// The validator

fn fail(m: String) -> (r: Result<(), NanoError>)
    ensures
        reports(r, Some(m@)),
        r is Err,
{
    Err(NanoError::Parse(m))
}

fn property_only(name: &str) -> (r: bool)
    ensures
        r == is_property_only(name@),
{
    same(name, "key") || same(name, "unique") || same(name, "index") || same(name, "embed")
        || same(name, "media_uri")
}

fn vector_prop(p: &PropDecl) -> (r: bool)
    ensures
        r == is_vector(p@),
{
    match p.prop_type.scalar {
        ScalarType::Vector(_) => true,
        _ => false,
    }
}

fn text_prop(p: &PropDecl) -> (r: bool)
    ensures
        r == is_text(p@),
{
    !p.prop_type.list && p.prop_type.scalar == ScalarType::String
}

fn string_prop(p: &PropDecl) -> (r: bool)
    ensures
        r == is_string(p@),
{
    text_prop(p) && p.prop_type.enum_values.is_none()
}

fn occurs_before(anns: &Vec<Annotation>, name: &str, k: usize) -> (r: bool)
    requires
        k <= anns@.len(),
    ensures
        r == seen_before(views(anns@), name@, k as int),
{
    let mut j: usize = 0;
    while j < k
        invariant
            j <= k <= anns@.len(),
            !seen_before(views(anns@), name@, j as int),
        decreases k - j,
    {
        if same(&anns[j].name, name) {
            assert(views(anns@)[j as int].name == name@);
            return true;
        }
        j = j + 1;
    }
    false
}

fn lookup_prop<'a>(props: &'a Vec<PropDecl>, name: &str) -> (r: Option<&'a PropDecl>)
    ensures
        match r {
            Some(p) => find_prop(views(props@), name@, 0) == Some(p@),
            None => find_prop(views(props@), name@, 0) is None,
        },
{
    let mut i: usize = 0;
    while i < props.len()
        invariant
            i <= props@.len(),
            find_prop(views(props@), name@, 0) == find_prop(views(props@), name@, i as int),
        decreases props@.len() - i,
    {
        if same(&props[i].name, name) {
            return Some(&props[i]);
        }
        i = i + 1;
    }
    None
}

fn dotted_label(owner: &str, prop: &str) -> (r: String)
    ensures
        r@ == dotted(owner@, prop@),
{
    cat3(owner, ".", prop)
}

/// Checks that an annotation with a text occurs at most once, with a text that is not blank.
pub fn validate_string_annotation(
    annotations: &Vec<Annotation>,
    annotation: &str,
    target: &str,
) -> (r: Result<(), NanoError>)
    ensures
        reports(r, string_annotation_error(views(annotations@), annotation@, target@)),
{
    let ghost anns = views(annotations@);
    let ghost check = |k: int| string_annotation_check(anns, annotation@, target@, k);
    let mut seen = false;
    let mut k: usize = 0;
    while k < annotations.len()
        invariant
            k <= annotations@.len(),
            anns == views(annotations@),
            check == (|k: int| string_annotation_check(anns, annotation@, target@, k)),
            first_error(anns.len(), check, 0) == first_error(anns.len(), check, k as int),
            seen == seen_before(anns, annotation@, k as int),
        decreases annotations@.len() - k,
    {
        let ann = &annotations[k];
        assert(anns[k as int] == ann@);
        if same(&ann.name, annotation) {
            if seen {
                return fail(cat4(target, " declares @", annotation, " multiple times"));
            }
            let empty = match &ann.value {
                Some(value) => blank(value),
                None => true,
            };
            if empty {
                return fail(cat5("@", annotation, " on ", target, " requires a non-empty value"));
            }
            seen = true;
        }
        assert(seen_before(anns, annotation@, k + 1) == seen);
        k = k + 1;
    }
    Ok(())
}

/// Checks the `@media_uri` annotations of one property of a node.
pub fn validate_media_uri_annotation(
    node_name: &str,
    prop: &PropDecl,
    all_props: &Vec<PropDecl>,
) -> (r: Result<(), NanoError>)
    ensures
        reports(r, media_uri_error(node_name@, prop@, views(all_props@))),
{
    let ghost anns = views(prop.annotations@);
    let ghost check = |k: int| media_uri_check(node_name@, prop@, views(all_props@), k);
    let label = dotted_label(node_name, &prop.name);
    let mut k: usize = 0;
    while k < prop.annotations.len()
        invariant
            k <= prop.annotations@.len(),
            anns == prop@.annotations,
            anns == views(prop.annotations@),
            label@ == dotted(node_name@, prop@.name),
            check == (|k: int| media_uri_check(node_name@, prop@, views(all_props@), k)),
            first_error(anns.len(), check, 0) == first_error(anns.len(), check, k as int),
        decreases prop.annotations@.len() - k,
    {
        let ann = &prop.annotations[k];
        assert(anns[k as int] == ann@);
        if same(&ann.name, "media_uri") {
            if occurs_before(&prop.annotations, "media_uri", k) {
                return fail(cat3("property ", &label, " declares @media_uri multiple times"));
            }
            if !string_prop(prop) {
                return fail(
                    cat3("@media_uri is only supported on String properties (", &label, ")"),
                );
            }
            let mime_name = match &ann.value {
                Some(value) => value,
                None => {
                    return fail(
                        cat3("@media_uri on ", &label, " requires a mime property name"),
                    );
                },
            };
            if blank(mime_name) {
                return fail(
                    cat3("@media_uri on ", &label, " requires a non-empty mime property name"),
                );
            }
            if same(mime_name, &prop.name) {
                return fail(
                    cat3(
                        "@media_uri on ",
                        &label,
                        " must reference a sibling mime property, not itself",
                    ),
                );
            }
            match lookup_prop(all_props, mime_name) {
                None => {
                    return fail(
                        cat4(
                            "@media_uri on ",
                            &label,
                            " references unknown mime property ",
                            mime_name,
                        ),
                    );
                },
                Some(mime) => {
                    if !string_prop(mime) {
                        let mime_label = dotted_label(node_name, mime_name);
                        return fail(
                            cat3("@media_uri mime property ", &mime_label, " must be String"),
                        );
                    }
                },
            }
        }
        k = k + 1;
    }
    Ok(())
}

fn validate_marker(owner: &str, prop: &PropDecl, k: usize) -> (r: Result<(), NanoError>)
    requires
        k < prop.annotations@.len(),
    ensures
        reports(r, marker_check(owner@, prop@, k as int)),
{
    let label = dotted_label(owner, &prop.name);
    let ann = &prop.annotations[k];
    assert(prop@.annotations[k as int] == ann@);
    if ann.value.is_some() {
        return fail(cat5("@", &ann.name, " on ", &label, " does not accept a value"));
    }
    if occurs_before(&prop.annotations, &ann.name, k) {
        return fail(cat5("property ", &label, " declares @", &ann.name, " multiple times"));
    }
    Ok(())
}

fn validate_embed(owner: &str, prop: &PropDecl, all_props: &Vec<PropDecl>, k: usize) -> (r: Result<
    (),
    NanoError,
>)
    requires
        k < prop.annotations@.len(),
    ensures
        reports(r, embed_check(owner@, prop@, views(all_props@), k as int)),
{
    let label = dotted_label(owner, &prop.name);
    let ann = &prop.annotations[k];
    assert(prop@.annotations[k as int] == ann@);
    if occurs_before(&prop.annotations, "embed", k) {
        return fail(cat3("property ", &label, " declares @embed multiple times"));
    }
    if !vector_prop(prop) {
        return fail(cat3("@embed is only supported on vector properties (", &label, ")"));
    }
    let source_name = match &ann.value {
        Some(value) => value,
        None => {
            return fail(cat3("@embed on ", &label, " requires a source property name"));
        },
    };
    if blank(source_name) {
        return fail(cat3("@embed on ", &label, " requires a non-empty source property name"));
    }
    match lookup_prop(all_props, source_name) {
        None => fail(
            cat4("@embed on ", &label, " references unknown source property ", source_name),
        ),
        Some(source) => {
            if !text_prop(source) {
                let source_label = dotted_label(owner, source_name);
                return fail(cat3("@embed source property ", &source_label, " must be String"));
            }
            Ok(())
        },
    }
}

fn validate_node_prop_annotation(node: &NodeDecl, prop: &PropDecl, k: usize) -> (r: Result<
    (),
    NanoError,
>)
    requires
        k < prop.annotations@.len(),
    ensures
        reports(r, node_prop_annotation_check(node@, prop@, k as int)),
{
    let label = dotted_label(&node.name, &prop.name);
    let ann = &prop.annotations[k];
    assert(prop@.annotations[k as int] == ann@);
    if prop.prop_type.list && property_only(&ann.name) {
        return fail(cat4("@", &ann.name, " is not supported on list property ", &label));
    }
    if vector_prop(prop) && (same(&ann.name, "key") || same(&ann.name, "unique")) {
        return fail(cat4("@", &ann.name, " is not supported on vector property ", &label));
    }
    if same(&ann.name, "instruction") {
        return fail(
            cat3(
                "@instruction is only supported on node and edge types (property ",
                &label,
                ")",
            ),
        );
    }
    if same(&ann.name, "key") || same(&ann.name, "unique") || same(&ann.name, "index") {
        return validate_marker(&node.name, prop, k);
    }
    if same(&ann.name, "embed") {
        return validate_embed(&node.name, prop, &node.properties, k);
    }
    Ok(())
}

fn validate_node_prop(node: &NodeDecl, i: usize) -> (r: Result<(), NanoError>)
    requires
        i < node.properties@.len(),
    ensures
        reports(r, node_prop_error(node@, i as int)),
{
    let prop = &node.properties[i];
    assert(node@.properties[i as int] == prop@);
    let label = dotted_label(&node.name, &prop.name);
    let target = cat2("property ", &label);
    validate_string_annotation(&prop.annotations, "description", &target)?;
    let ghost anns = prop@.annotations;
    let ghost check = |k: int| node_prop_annotation_check(node@, prop@, k);
    let mut k: usize = 0;
    while k < prop.annotations.len()
        invariant
            k <= prop.annotations@.len(),
            anns == prop@.annotations,
            prop@ == node@.properties[i as int],
            check == (|k: int| node_prop_annotation_check(node@, prop@, k)),
            first_error(anns.len(), check, 0) == first_error(anns.len(), check, k as int),
            string_annotation_error(
                anns,
                "description"@,
                "property "@ + dotted(node@.name, prop@.name),
            ) is None,
        decreases prop.annotations@.len() - k,
    {
        validate_node_prop_annotation(node, prop, k)?;
        k = k + 1;
    }
    validate_media_uri_annotation(&node.name, prop, &node.properties)
}

fn validate_node(node: &NodeDecl) -> (r: Result<(), NanoError>)
    ensures
        reports(r, node_error(node@)),
{
    let ghost anns = node@.annotations;
    let ghost check = |k: int| node_annotation_check(node@, k);
    let mut k: usize = 0;
    while k < node.annotations.len()
        invariant
            k <= node.annotations@.len(),
            anns == node@.annotations,
            check == (|k: int| node_annotation_check(node@, k)),
            first_error(anns.len(), check, 0) == first_error(anns.len(), check, k as int),
        decreases node.annotations@.len() - k,
    {
        let ann = &node.annotations[k];
        assert(anns[k as int] == ann@);
        if property_only(&ann.name) {
            return fail(
                cat5(
                    "@",
                    &ann.name,
                    " is only supported on node properties (node ",
                    &node.name,
                    ")",
                ),
            );
        }
        k = k + 1;
    }
    let target = cat2("node ", &node.name);
    validate_string_annotation(&node.annotations, "description", &target)?;
    validate_string_annotation(&node.annotations, "instruction", &target)?;

    let ghost prop_check = |i: int| node_prop_error(node@, i);
    let mut keyed = false;
    let mut several = false;
    let mut i: usize = 0;
    while i < node.properties.len()
        invariant
            i <= node.properties@.len(),
            anns == node@.annotations,
            check == (|k: int| node_annotation_check(node@, k)),
            first_error(anns.len(), check, 0) is None,
            string_annotation_error(anns, "description"@, "node "@ + node@.name) is None,
            string_annotation_error(anns, "instruction"@, "node "@ + node@.name) is None,
            prop_check == (|i: int| node_prop_error(node@, i)),
            first_error(node@.properties.len(), prop_check, 0) == first_error(
                node@.properties.len(),
                prop_check,
                i as int,
            ),
            keyed == keyed_before(node@, i as int),
            several == two_keys_before(node@, i as int),
        decreases node.properties@.len() - i,
    {
        validate_node_prop(node, i)?;
        let props_anns = &node.properties[i].annotations;
        let here = occurs_before(props_anns, "key", props_anns.len());
        assert(here == has_annotation(node@.properties[i as int].annotations, "key"@));
        if here {
            if keyed {
                several = true;
            }
            keyed = true;
        }
        assert(keyed_before(node@, i + 1) == keyed);
        assert(two_keys_before(node@, i + 1) == several);
        i = i + 1;
    }
    if several {
        return fail(
            cat3(
                "node type ",
                &node.name,
                " has multiple @key properties; only one is currently supported",
            ),
        );
    }
    Ok(())
}

fn validate_edge_prop(edge: &EdgeDecl, i: usize) -> (r: Result<(), NanoError>)
    requires
        i < edge.properties@.len(),
    ensures
        reports(r, edge_prop_error(edge@, i as int)),
{
    let prop = &edge.properties[i];
    assert(edge@.properties[i as int] == prop@);
    let label = dotted_label(&edge.name, &prop.name);
    let target = cat2("property ", &label);
    validate_string_annotation(&prop.annotations, "description", &target)?;
    let ghost anns = prop@.annotations;
    let ghost check = |k: int| edge_prop_annotation_check(edge@, prop@, k);
    let mut k: usize = 0;
    while k < prop.annotations.len()
        invariant
            k <= prop.annotations@.len(),
            anns == prop@.annotations,
            prop@ == edge@.properties[i as int],
            label@ == dotted(edge@.name, prop@.name),
            check == (|k: int| edge_prop_annotation_check(edge@, prop@, k)),
            first_error(anns.len(), check, 0) == first_error(anns.len(), check, k as int),
            string_annotation_error(
                anns,
                "description"@,
                "property "@ + dotted(edge@.name, prop@.name),
            ) is None,
        decreases prop.annotations@.len() - k,
    {
        let ann = &prop.annotations[k];
        assert(anns[k as int] == ann@);
        if property_only(&ann.name) {
            return fail(
                cat5(
                    "@",
                    &ann.name,
                    " is not supported on edge properties (edge ",
                    &label,
                    ")",
                ),
            );
        }
        if same(&ann.name, "instruction") {
            return fail(
                cat3(
                    "@instruction is only supported on node and edge types (property ",
                    &label,
                    ")",
                ),
            );
        }
        k = k + 1;
    }
    Ok(())
}

fn validate_edge(edge: &EdgeDecl) -> (r: Result<(), NanoError>)
    ensures
        reports(r, edge_error(edge@)),
{
    let ghost anns = edge@.annotations;
    let ghost check = |k: int| edge_annotation_check(edge@, k);
    let mut k: usize = 0;
    while k < edge.annotations.len()
        invariant
            k <= edge.annotations@.len(),
            anns == edge@.annotations,
            check == (|k: int| edge_annotation_check(edge@, k)),
            first_error(anns.len(), check, 0) == first_error(anns.len(), check, k as int),
        decreases edge.annotations@.len() - k,
    {
        let ann = &edge.annotations[k];
        assert(anns[k as int] == ann@);
        if property_only(&ann.name) {
            return fail(
                cat5("@", &ann.name, " is not supported on edges (edge ", &edge.name, ")"),
            );
        }
        k = k + 1;
    }
    let target = cat2("edge ", &edge.name);
    validate_string_annotation(&edge.annotations, "description", &target)?;
    validate_string_annotation(&edge.annotations, "instruction", &target)?;

    let ghost prop_check = |i: int| edge_prop_error(edge@, i);
    let mut i: usize = 0;
    while i < edge.properties.len()
        invariant
            i <= edge.properties@.len(),
            anns == edge@.annotations,
            check == (|k: int| edge_annotation_check(edge@, k)),
            first_error(anns.len(), check, 0) is None,
            string_annotation_error(anns, "description"@, "edge "@ + edge@.name) is None,
            string_annotation_error(anns, "instruction"@, "edge "@ + edge@.name) is None,
            prop_check == (|i: int| edge_prop_error(edge@, i)),
            first_error(edge@.properties.len(), prop_check, 0) == first_error(
                edge@.properties.len(),
                prop_check,
                i as int,
            ),
        decreases edge.properties@.len() - i,
    {
        validate_edge_prop(edge, i)?;
        i = i + 1;
    }
    Ok(())
}

/// Checks every annotation of a schema; the first failing check in source order is reported.
pub fn validate_schema_annotations(schema: &SchemaFile) -> (r: Result<(), NanoError>)
    ensures
        reports(r, schema_error(schema@)),
{
    let ghost decls = schema@;
    let ghost check = |i: int| decl_error(decls[i]);
    let mut i: usize = 0;
    while i < schema.declarations.len()
        invariant
            i <= schema.declarations@.len(),
            decls == schema@,
            check == (|i: int| decl_error(decls[i])),
            first_error(decls.len(), check, 0) == first_error(decls.len(), check, i as int),
        decreases schema.declarations@.len() - i,
    {
        assert(decls[i as int] == schema.declarations@[i as int]@);
        match &schema.declarations[i] {
            SchemaDecl::Node(node) => validate_node(node)?,
            SchemaDecl::Edge(edge) => validate_edge(edge)?,
        }
        i = i + 1;
    }
    Ok(())
}

} // verus!
