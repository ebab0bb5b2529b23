//! Schemas as texts: what is written down is what is read.

use crate::schema::ast::{AnnotationModel, EdgeDeclModel, NodeDeclModel, PropDeclModel, SchemaDeclModel};
use crate::schema::grammar::{annotation_at, annotations_at, argument_at, arrow_after, char_at, core_type_at, decl_at, decls_at, digits_at, enum_value_at, enum_values_at, expect_at, ident_at, is_gap, is_value_char, is_word, lemma_decl, parent_at, prop_at, props_at, run_end, schema_syntax, skip, string_end, text_at, type_at, type_ident_at, AnnotationSyntaxModel, CoreTypeModel, DeclSyntaxModel, EdgeSyntaxModel, NodeSyntaxModel, PropSyntaxModel, TypeSyntaxModel};
use crate::schema::parser::{all_distinct, annotation_meaning, annotations_meaning, decl_meaning, decls_meaning, prop_meaning, props_meaning, schema_meaning, type_meaning};
use crate::schema::validate::schema_error;
use crate::sort::{in_rank_order, law_sorting_keeps_what_is_in_order};
use crate::text::{decimal, is_alnum, is_digit, is_lower, is_upper, law_decimals_are_read_back, lemma_decimal_digits};
use crate::types::{scalar_named, PropTypeModel, ScalarType};
use vstd::prelude::*;

verus! {

// ---------------------------------------------------------------------------
// Writing

/// A name that starts with an upper case letter.
pub open spec fn is_type_word(w: Seq<char>) -> bool {
    w.len() > 0 && is_upper(w[0]) && forall|k: int| 0 < k < w.len() ==> is_word(#[trigger] w[k])
}

/// A name that starts with a lower case letter or `_`.
pub open spec fn is_ident_word(w: Seq<char>) -> bool {
    w.len() > 0 && (is_lower(w[0]) || w[0] == '_') && forall|k: int|
        0 < k < w.len() ==> is_word(#[trigger] w[k])
}

/// A value of an enumeration.
pub open spec fn is_enum_word(w: Seq<char>) -> bool {
    w.len() > 0 && forall|k: int| 0 <= k < w.len() ==> is_value_char(#[trigger] w[k])
}

/// Whether an annotation can be written: its value, where it has one, needs no escape.
pub open spec fn writable_annotation(a: AnnotationModel) -> bool {
    is_ident_word(a.name) && (a.value matches Some(v) ==> forall|k: int|
        0 <= k < v.len() ==> #[trigger] v[k] != '"' && v[k] != '\\')
}

/// An annotation as text.
pub open spec fn annotation_text(a: AnnotationModel) -> Seq<char> {
    seq![' ', '@'] + a.name + match a.value {
        None => Seq::empty(),
        Some(v) => seq![' ', '(', ' ', '"'] + v + seq!['"', ' ', ')'],
    }
}

/// Annotations from the one at `i` on as text.
pub open spec fn annotations_text(a: Seq<AnnotationModel>, i: int) -> Seq<char>
    decreases a.len() - i,
{
    if i < 0 || i >= a.len() {
        Seq::empty()
    } else {
        annotation_text(a[i]) + annotations_text(a, i + 1)
    }
}

/// The name of a type of single values.
pub open spec fn scalar_word(s: ScalarType) -> Seq<char> {
    match s {
        ScalarType::String => "String"@,
        ScalarType::Bool => "Bool"@,
        ScalarType::I32 => "I32"@,
        ScalarType::I64 => "I64"@,
        ScalarType::U32 => "U32"@,
        ScalarType::U64 => "U64"@,
        ScalarType::F32 => "F32"@,
        ScalarType::F64 => "F64"@,
        ScalarType::Date => "Date"@,
        ScalarType::DateTime => "DateTime"@,
        ScalarType::Vector(_) => "Vector"@,
    }
}

/// Whether a property type can be written: values of an enumeration are words, each once and
/// in order, and vectors are not in lists.
pub open spec fn writable_type(t: PropTypeModel) -> bool {
    match t.enum_values {
        Some(values) => {
            &&& t.scalar == ScalarType::String
            &&& !t.list
            &&& values.len() > 0
            &&& all_distinct(values)
            &&& in_rank_order::<String>(values)
            &&& forall|k: int| 0 <= k < values.len() ==> is_enum_word(#[trigger] values[k])
        },
        None => match t.scalar {
            ScalarType::Vector(dim) => !t.list && 0 < dim <= i32::MAX,
            _ => true,
        },
    }
}

/// Values from the one at `i` on, with the bracket that closes them.
pub open spec fn values_text(values: Seq<Seq<char>>, i: int) -> Seq<char>
    decreases values.len() - i,
{
    if i < 0 || i >= values.len() {
        Seq::empty()
    } else if i == values.len() - 1 {
        seq![' '] + values[i] + seq![' ', ')']
    } else {
        seq![' '] + values[i] + seq![' ', ','] + values_text(values, i + 1)
    }
}

/// A type as text, without the mark of nullability.
pub open spec fn core_text(t: PropTypeModel) -> Seq<char> {
    match t.enum_values {
        Some(values) => seq![' ', 'e', 'n', 'u', 'm', ' ', '('] + values_text(values, 0),
        None => match t.scalar {
            ScalarType::Vector(dim) => seq![' ', 'V', 'e', 'c', 't', 'o', 'r', ' ', '(', ' ']
                + decimal(dim as nat) + seq![' ', ')'],
            _ => if t.list {
                seq![' ', '[', ' '] + scalar_word(t.scalar) + seq![' ', ']']
            } else {
                seq![' '] + scalar_word(t.scalar)
            },
        },
    }
}

/// A type as text.
pub open spec fn type_text(t: PropTypeModel) -> Seq<char> {
    core_text(t) + if t.nullable {
        seq![' ', '?']
    } else {
        Seq::empty()
    }
}

/// Whether a property can be written.
pub open spec fn writable_prop(p: PropDeclModel) -> bool {
    is_ident_word(p.name) && writable_type(p.prop_type) && forall|k: int|
        0 <= k < p.annotations.len() ==> writable_annotation(#[trigger] p.annotations[k])
}

/// A property as text.
pub open spec fn prop_text(p: PropDeclModel) -> Seq<char> {
    seq![' '] + p.name + seq![' ', ':'] + type_text(p.prop_type) + annotations_text(
        p.annotations,
        0,
    )
}

/// Properties from the one at `i` on as text, with the brace that closes them.
pub open spec fn props_text(props: Seq<PropDeclModel>, i: int) -> Seq<char>
    decreases props.len() - i,
{
    if i < 0 || i >= props.len() {
        seq![' ', '}']
    } else {
        prop_text(props[i]) + props_text(props, i + 1)
    }
}

/// Whether a declaration can be written.
pub open spec fn writable_decl(d: SchemaDeclModel) -> bool {
    match d {
        SchemaDeclModel::Node(n) => {
            &&& is_type_word(n.name)
            &&& n.parent matches Some(p) ==> is_type_word(p)
            &&& forall|k: int|
                0 <= k < n.annotations.len() ==> writable_annotation(#[trigger] n.annotations[k])
            &&& forall|k: int|
                0 <= k < n.properties.len() ==> writable_prop(#[trigger] n.properties[k])
        },
        SchemaDeclModel::Edge(e) => {
            &&& is_type_word(e.name)
            &&& is_type_word(e.from_type)
            &&& is_type_word(e.to_type)
            &&& forall|k: int|
                0 <= k < e.annotations.len() ==> writable_annotation(#[trigger] e.annotations[k])
            &&& forall|k: int|
                0 <= k < e.properties.len() ==> writable_prop(#[trigger] e.properties[k])
        },
    }
}

/// The parent of a node as text.
pub open spec fn parent_text(parent: Option<Seq<char>>) -> Seq<char> {
    match parent {
        Some(p) => seq![' ', ':', ' '] + p,
        None => Seq::empty(),
    }
}

/// A node as text: `node Name @annotation : Parent { name : Type @annotation }`.
pub open spec fn node_text(n: NodeDeclModel) -> Seq<char> {
    seq![' ', 'n', 'o', 'd', 'e', ' '] + n.name + annotations_text(n.annotations, 0) + parent_text(
        n.parent,
    ) + seq![' ', '{'] + props_text(n.properties, 0)
}

/// An edge as text: `edge Name : From -> To @annotation { name : Type @annotation }`.
pub open spec fn edge_text(e: EdgeDeclModel) -> Seq<char> {
    seq![' ', 'e', 'd', 'g', 'e', ' '] + e.name + seq![' ', ':', ' '] + e.from_type
        + seq![' ', '-', '>', ' '] + e.to_type + annotations_text(e.annotations, 0)
        + seq![' ', '{'] + props_text(e.properties, 0)
}

/// A declaration as text.
pub open spec fn decl_text(d: SchemaDeclModel) -> Seq<char> {
    match d {
        SchemaDeclModel::Node(n) => node_text(n),
        SchemaDeclModel::Edge(e) => edge_text(e),
    }
}

/// Declarations from the one at `i` on as text.
pub open spec fn schema_text(decls: Seq<SchemaDeclModel>, i: int) -> Seq<char>
    decreases decls.len() - i,
{
    if i < 0 || i >= decls.len() {
        Seq::empty()
    } else {
        decl_text(decls[i]) + schema_text(decls, i + 1)
    }
}

// ---------------------------------------------------------------------------
// The trees of what is written

spec fn annotation_tree(a: AnnotationModel) -> AnnotationSyntaxModel {
    AnnotationSyntaxModel {
        name: a.name,
        argument: match a.value {
            None => None,
            Some(v) => Some(seq!['"'] + v + seq!['"']),
        },
    }
}

spec fn annotations_tree(a: Seq<AnnotationModel>) -> Seq<AnnotationSyntaxModel> {
    Seq::new(a.len(), |i: int| annotation_tree(a[i]))
}

spec fn core_tree(t: PropTypeModel) -> CoreTypeModel {
    match t.enum_values {
        Some(values) => CoreTypeModel::Enum(values),
        None => match t.scalar {
            ScalarType::Vector(dim) => CoreTypeModel::Vector(decimal(dim as nat)),
            _ => if t.list {
                CoreTypeModel::List(scalar_word(t.scalar))
            } else {
                CoreTypeModel::Base(scalar_word(t.scalar))
            },
        },
    }
}

spec fn prop_tree(p: PropDeclModel) -> PropSyntaxModel {
    PropSyntaxModel {
        name: p.name,
        type_ref: TypeSyntaxModel { core: core_tree(p.prop_type), nullable: p.prop_type.nullable },
        annotations: annotations_tree(p.annotations),
    }
}

spec fn props_tree(props: Seq<PropDeclModel>) -> Seq<PropSyntaxModel> {
    Seq::new(props.len(), |i: int| prop_tree(props[i]))
}

spec fn decl_tree(d: SchemaDeclModel) -> DeclSyntaxModel {
    match d {
        SchemaDeclModel::Node(n) => DeclSyntaxModel::Node(
            NodeSyntaxModel {
                name: n.name,
                annotations: annotations_tree(n.annotations),
                parent: n.parent,
                properties: props_tree(n.properties),
            },
        ),
        SchemaDeclModel::Edge(e) => DeclSyntaxModel::Edge(
            EdgeSyntaxModel {
                name: e.name,
                from_type: e.from_type,
                to_type: e.to_type,
                annotations: annotations_tree(e.annotations),
                properties: props_tree(e.properties),
            },
        ),
    }
}

spec fn decls_tree(decls: Seq<SchemaDeclModel>) -> Seq<DeclSyntaxModel> {
    Seq::new(decls.len(), |i: int| decl_tree(decls[i]))
}

// ---------------------------------------------------------------------------
// Reading it: tokens

proof fn lemma_at(s: Seq<char>, p: int, w: Seq<char>)
    requires
        text_at(s, p, w),
    ensures
        0 <= p,
        p + w.len() <= s.len(),
        forall|k: int| 0 <= k < w.len() ==> s[p + k] == #[trigger] w[k],
{
    assert forall|k: int| 0 <= k < w.len() implies s[p + k] == #[trigger] w[k] by {
        assert(s.subrange(p, p + w.len() as int)[k] == w[k]);
    }
}

proof fn lemma_split(s: Seq<char>, p: int, a: Seq<char>, b: Seq<char>)
    requires
        text_at(s, p, a + b),
    ensures
        text_at(s, p, a),
        text_at(s, p + a.len(), b),
{
    lemma_at(s, p, a + b);
    assert forall|k: int| 0 <= k < a.len() implies s.subrange(p, p + a.len() as int)[k] == a[k] by {
        assert((a + b)[k] == a[k]);
    }
    assert(s.subrange(p, p + a.len() as int) =~= a);
    let q = p + a.len();
    assert forall|k: int| 0 <= k < b.len() implies s.subrange(q, q + b.len() as int)[k] == b[k] by {
        assert((a + b)[a.len() + k] == b[k]);
    }
    assert(s.subrange(q, q + b.len() as int) =~= b);
}

/// Whether a token starts with `c` behind a space at position `e`.
spec fn token_at(s: Seq<char>, e: int, c: char) -> bool {
    0 <= e && e + 1 < s.len() && s[e] == ' ' && s[e + 1] == c && !is_gap(c) && c != '/'
}

proof fn lemma_skip_none(s: Seq<char>, i: int)
    requires
        0 <= i < s.len(),
        !is_gap(s[i]),
        s[i] != '/',
    ensures
        skip(s, i) == i,
{
}

proof fn lemma_skip_space(s: Seq<char>, e: int, c: char)
    requires
        token_at(s, e, c),
    ensures
        skip(s, e) == e + 1,
{
    lemma_skip_none(s, e + 1);
}

proof fn lemma_word_char(c: char)
    ensures
        is_word(c) ==> !is_gap(c) && c != '/' && c != '(' && c != '@',
        is_value_char(c) ==> !is_gap(c) && c != '/',
        is_upper(c) ==> is_word(c),
        is_lower(c) ==> is_word(c),
        is_digit(c) ==> is_word(c),
{
}

proof fn lemma_run(s: Seq<char>, p: int, w: Seq<char>, k: int, class: spec_fn(char) -> bool)
    requires
        text_at(s, p, w),
        0 <= k <= w.len(),
        forall|j: int| k <= j < w.len() ==> class(#[trigger] w[j]),
        p + w.len() < s.len() ==> !class(s[p + w.len()]),
    ensures
        run_end(s, p + k, class) == p + w.len(),
    decreases w.len() - k,
{
    lemma_at(s, p, w);
    if k < w.len() {
        assert(s[p + k] == w[k]);
        lemma_run(s, p, w, k + 1, class);
    }
}

proof fn lemma_ident_read(s: Seq<char>, i: int, p: int, w: Seq<char>)
    requires
        text_at(s, p, w),
        is_ident_word(w),
        i == p || (i == p - 1 && 0 <= i && s[i] == ' '),
        p + w.len() < s.len() ==> s[p + w.len()] == ' ',
    ensures
        ident_at(s, i) == Ok::<(Seq<char>, int), int>((w, p + w.len())),
{
    lemma_at(s, p, w);
    assert(s[p] == w[0]);
    lemma_word_char(w[0]);
    if i == p {
        lemma_skip_none(s, p);
    } else {
        lemma_skip_space(s, i, w[0]);
    }
    lemma_run(s, p, w, 1, |c: char| is_word(c));
}

proof fn lemma_type_ident_read(s: Seq<char>, i: int, p: int, w: Seq<char>)
    requires
        text_at(s, p, w),
        is_type_word(w),
        i == p || (i == p - 1 && 0 <= i && s[i] == ' '),
        p + w.len() < s.len() ==> s[p + w.len()] == ' ',
    ensures
        type_ident_at(s, i) == Ok::<(Seq<char>, int), int>((w, p + w.len())),
{
    lemma_at(s, p, w);
    assert(s[p] == w[0]);
    lemma_word_char(w[0]);
    if i == p {
        lemma_skip_none(s, p);
    } else {
        lemma_skip_space(s, i, w[0]);
    }
    lemma_run(s, p, w, 1, |c: char| is_word(c));
}

proof fn lemma_string_read(s: Seq<char>, p: int, v: Seq<char>, k: int)
    requires
        text_at(s, p, v),
        0 <= k <= v.len(),
        forall|j: int| 0 <= j < v.len() ==> #[trigger] v[j] != '"' && v[j] != '\\',
        p + v.len() < s.len(),
        s[p + v.len()] == '"',
    ensures
        string_end(s, p + k) == Some(p + v.len() + 1),
    decreases v.len() - k,
{
    lemma_at(s, p, v);
    if k < v.len() {
        assert(s[p + k] == v[k]);
        lemma_string_read(s, p, v, k + 1);
    }
}

proof fn lemma_annotation_read(s: Seq<char>, p: int, a: AnnotationModel, c: char)
    requires
        text_at(s, p, annotation_text(a)),
        writable_annotation(a),
        token_at(s, p + annotation_text(a).len(), c),
        c != '(',
    ensures
        char_at(s, skip(s, p), '@'),
        annotation_at(s, p) == Ok::<(AnnotationSyntaxModel, int), int>(
            (annotation_tree(a), p + annotation_text(a).len()),
        ),
{
    let head = seq![' ', '@'];
    let tail = match a.value {
        None => Seq::empty(),
        Some(v) => seq![' ', '(', ' ', '"'] + v + seq!['"', ' ', ')'],
    };
    let e = p + annotation_text(a).len();
    lemma_split(s, p, head + a.name, tail);
    lemma_split(s, p, head, a.name);
    lemma_at(s, p, head);
    assert(s[p + 0] == head[0] && s[p + 1] == head[1]);
    lemma_skip_space(s, p, '@');
    let q = p + 2;
    let k = q + a.name.len();
    match a.value {
        None => {
            assert(s[e] == ' ');
            lemma_ident_read(s, q, q, a.name);
            lemma_skip_space(s, k, c);
        },
        Some(v) => {
            let open = seq![' ', '(', ' ', '"'];
            let close = seq!['"', ' ', ')'];
            lemma_split(s, k, open + v, close);
            lemma_split(s, k, open, v);
            lemma_at(s, k, open);
            lemma_at(s, k + 4, v);
            let m = k + 4 + v.len();
            lemma_at(s, m, close);
            assert(s[k + 0] == open[0] && s[k + 1] == open[1] && s[k + 2] == open[2] && s[k + 3]
                == open[3]);
            assert(s[m + 0] == close[0] && s[m + 1] == close[1] && s[m + 2] == close[2]);
            lemma_ident_read(s, q, q, a.name);
            lemma_skip_space(s, k, '(');
            lemma_skip_space(s, k + 2, '"');
            lemma_string_read(s, k + 4, v, 0);
            lemma_skip_space(s, m + 1, ')');
            assert(s.subrange(k + 3, m + 1) =~= seq!['"'] + v + seq!['"']) by {
                assert forall|j: int| 0 <= j < v.len() implies s.subrange(k + 3, m + 1)[j + 1]
                    == v[j] by {
                    assert(s[k + 4 + j] == v[j]);
                }
            }
            assert(argument_at(s, k + 2) == Ok::<(Seq<char>, int), int>(
                (seq!['"'] + v + seq!['"'], m + 1),
            ));
            assert(expect_at(s, m + 1, ')') == Ok::<int, int>(m + 3));
        },
    }
}

proof fn lemma_annotations_read(
    s: Seq<char>,
    p: int,
    a: Seq<AnnotationModel>,
    i: int,
    acc: Seq<AnnotationSyntaxModel>,
    c: char,
)
    requires
        0 <= i <= a.len(),
        text_at(s, p, annotations_text(a, i)),
        forall|k: int| 0 <= k < a.len() ==> writable_annotation(#[trigger] a[k]),
        token_at(s, p + annotations_text(a, i).len(), c),
        c != '(' && c != '@',
    ensures
        annotations_at(s, p, acc) == Ok::<(Seq<AnnotationSyntaxModel>, int), int>(
            (acc + annotations_tree(a).skip(i), p + annotations_text(a, i).len()),
        ),
    decreases a.len() - i,
{
    if i == a.len() {
        lemma_skip_space(s, p, c);
        assert(acc + annotations_tree(a).skip(i) =~= acc);
    } else {
        let w = annotation_text(a[i]);
        let rest = annotations_text(a, i + 1);
        lemma_split(s, p, w, rest);
        let e = p + w.len();
        if i + 1 < a.len() {
            lemma_annotation_starts(s, e, a, i + 1);
            lemma_annotation_read(s, p, a[i], '@');
        } else {
            lemma_annotation_read(s, p, a[i], c);
        }
        lemma_annotations_read(s, e, a, i + 1, acc.push(annotation_tree(a[i])), c);
        assert(acc.push(annotation_tree(a[i])) + annotations_tree(a).skip(i + 1) =~= acc
            + annotations_tree(a).skip(i));
    }
}

proof fn lemma_annotation_starts(s: Seq<char>, e: int, a: Seq<AnnotationModel>, i: int)
    requires
        0 <= i < a.len(),
        text_at(s, e, annotations_text(a, i)),
    ensures
        token_at(s, e, '@'),
{
    let w = annotation_text(a[i]);
    lemma_at(s, e, annotations_text(a, i));
    assert(annotations_text(a, i)[0] == ' ');
    assert(annotations_text(a, i)[1] == '@');
    assert(s[e + 0] == ' ' && s[e + 1] == '@');
}

// ---------------------------------------------------------------------------
// Reading it: types

proof fn lemma_value_read(s: Seq<char>, p: int, w: Seq<char>)
    requires
        0 <= p,
        text_at(s, p + 1, w),
        s[p] == ' ',
        is_enum_word(w),
        p + 1 + w.len() < s.len(),
        s[p + 1 + w.len()] == ' ',
    ensures
        enum_value_at(s, p) == Ok::<(Seq<char>, int), int>((w, p + 1 + w.len())),
{
    lemma_at(s, p + 1, w);
    assert(s[p + 1 + 0] == w[0]);
    lemma_word_char(w[0]);
    lemma_skip_space(s, p, w[0]);
    lemma_run(s, p + 1, w, 0, |c: char| is_value_char(c));
}

proof fn lemma_values_read(
    s: Seq<char>,
    p: int,
    values: Seq<Seq<char>>,
    i: int,
    acc: Seq<Seq<char>>,
)
    requires
        0 <= i < values.len(),
        text_at(s, p, values_text(values, i)),
        forall|k: int| 0 <= k < values.len() ==> is_enum_word(#[trigger] values[k]),
    ensures
        enum_values_at(s, p, acc) == Ok::<(Seq<Seq<char>>, int), int>(
            (acc + values.skip(i), p + values_text(values, i).len()),
        ),
    decreases values.len() - i,
{
    let w = values[i];
    let one = seq![' '];
    let e = p + 1 + w.len();
    if i == values.len() - 1 {
        let end = seq![' ', ')'];
        lemma_split(s, p, one + w, end);
        lemma_split(s, p, one, w);
        lemma_at(s, p, one);
        lemma_at(s, e, end);
        assert(s[p + 0] == one[0] && s[e + 0] == end[0] && s[e + 1] == end[1]);
        lemma_value_read(s, p, w);
        lemma_skip_space(s, e, ')');
        assert(acc.push(w) =~= acc + values.skip(i));
    } else {
        let end = seq![' ', ','];
        let rest = values_text(values, i + 1);
        lemma_split(s, p, one + w + end, rest);
        lemma_split(s, p, one + w, end);
        lemma_split(s, p, one, w);
        lemma_at(s, p, one);
        lemma_at(s, e, end);
        assert(s[p + 0] == one[0] && s[e + 0] == end[0] && s[e + 1] == end[1]);
        lemma_value_read(s, p, w);
        lemma_skip_space(s, e, ',');
        lemma_values_read(s, e + 2, values, i + 1, acc.push(w));
        assert(acc.push(w) + values.skip(i + 1) =~= acc + values.skip(i));
    }
}

proof fn lemma_scalar_words()
    ensures
        "String"@ == seq!['S', 't', 'r', 'i', 'n', 'g'],
        "Bool"@ == seq!['B', 'o', 'o', 'l'],
        "I32"@ == seq!['I', '3', '2'],
        "I64"@ == seq!['I', '6', '4'],
        "U32"@ == seq!['U', '3', '2'],
        "U64"@ == seq!['U', '6', '4'],
        "F32"@ == seq!['F', '3', '2'],
        "F64"@ == seq!['F', '6', '4'],
        "Date"@ == seq!['D', 'a', 't', 'e'],
        "DateTime"@ == seq!['D', 'a', 't', 'e', 'T', 'i', 'm', 'e'],
        "Vector"@ == seq!['V', 'e', 'c', 't', 'o', 'r'],
        "enum"@ == seq!['e', 'n', 'u', 'm'],
{
    reveal_strlit("String");
    reveal_strlit("Bool");
    reveal_strlit("I32");
    reveal_strlit("I64");
    reveal_strlit("U32");
    reveal_strlit("U64");
    reveal_strlit("F32");
    reveal_strlit("F64");
    reveal_strlit("Date");
    reveal_strlit("DateTime");
    reveal_strlit("Vector");
    reveal_strlit("enum");
    assert("String"@ =~= seq!['S', 't', 'r', 'i', 'n', 'g']);
    assert("Bool"@ =~= seq!['B', 'o', 'o', 'l']);
    assert("I32"@ =~= seq!['I', '3', '2']);
    assert("I64"@ =~= seq!['I', '6', '4']);
    assert("U32"@ =~= seq!['U', '3', '2']);
    assert("U64"@ =~= seq!['U', '6', '4']);
    assert("F32"@ =~= seq!['F', '3', '2']);
    assert("F64"@ =~= seq!['F', '6', '4']);
    assert("Date"@ =~= seq!['D', 'a', 't', 'e']);
    assert("DateTime"@ =~= seq!['D', 'a', 't', 'e', 'T', 'i', 'm', 'e']);
    assert("Vector"@ =~= seq!['V', 'e', 'c', 't', 'o', 'r']);
    assert("enum"@ =~= seq!['e', 'n', 'u', 'm']);
}

/// The name of a type of single values stands for that type.
pub proof fn law_scalar_names_lead_back(s: ScalarType)
    requires
        !(s is Vector),
    ensures
        scalar_named(scalar_word(s)) == Some(s),
        is_type_word(scalar_word(s)),
        scalar_word(s)[0] != 'V',
{
    lemma_scalar_words();
    let w = scalar_word(s);
    assert("String"@.len() == 6 && "Bool"@.len() == 4 && "I32"@.len() == 3 && "I64"@.len() == 3
        && "U32"@.len() == 3 && "U64"@.len() == 3 && "F32"@.len() == 3 && "F64"@.len() == 3
        && "Date"@.len() == 4 && "DateTime"@.len() == 8);
    assert("Bool"@[0] == 'B' && "Date"@[0] == 'D');
    assert("I32"@[0] == 'I' && "I64"@[0] == 'I' && "I32"@[1] == '3' && "I64"@[1] == '6');
    assert("U32"@[0] == 'U' && "U64"@[0] == 'U' && "U32"@[1] == '3' && "U64"@[1] == '6');
    assert("F32"@[0] == 'F' && "F64"@[0] == 'F' && "F32"@[1] == '3' && "F64"@[1] == '6');
    assert(is_type_word(w)) by {
        assert forall|k: int| 0 < k < w.len() implies is_word(#[trigger] w[k]) by {
            assert(is_alnum(w[k]));
        }
    }
}

proof fn lemma_no_keyword(s: Seq<char>, p: int, c: char)
    requires
        0 <= p < s.len(),
        s[p] == c,
    ensures
        c != 'e' ==> !text_at(s, p, "enum"@),
        c != 'V' ==> !text_at(s, p, "Vector"@),
{
    lemma_scalar_words();
    if text_at(s, p, "enum"@) {
        lemma_at(s, p, "enum"@);
        assert(s[p + 0] == "enum"@[0]);
    }
    if text_at(s, p, "Vector"@) {
        lemma_at(s, p, "Vector"@);
        assert(s[p + 0] == "Vector"@[0]);
    }
}

proof fn lemma_core_read(s: Seq<char>, p: int, t: PropTypeModel)
    requires
        text_at(s, p, core_text(t)),
        writable_type(t),
        p + core_text(t).len() < s.len(),
        s[p + core_text(t).len()] == ' ',
    ensures
        core_type_at(s, p) == Ok::<(CoreTypeModel, int), int>(
            (core_tree(t), p + core_text(t).len()),
        ),
{
    lemma_scalar_words();
    let e = p + core_text(t).len();
    match t.enum_values {
        Some(values) => {
            let head = seq![' ', 'e', 'n', 'u', 'm', ' ', '('];
            lemma_split(s, p, head, values_text(values, 0));
            lemma_at(s, p, head);
            assert(s[p + 0] == head[0] && s[p + 1] == head[1] && s[p + 2] == head[2] && s[p + 3]
                == head[3] && s[p + 4] == head[4] && s[p + 5] == head[5] && s[p + 6] == head[6]);
            lemma_skip_space(s, p, 'e');
            assert(s.subrange(p + 1, p + 5) =~= "enum"@);
            lemma_skip_space(s, p + 5, '(');
            lemma_values_read(s, p + 7, values, 0, Seq::empty());
            assert(Seq::<Seq<char>>::empty() + values.skip(0) =~= values);
        },
        None => match t.scalar {
            ScalarType::Vector(dim) => {
                let head = seq![' ', 'V', 'e', 'c', 't', 'o', 'r', ' ', '(', ' '];
                let d = decimal(dim as nat);
                let end = seq![' ', ')'];
                lemma_split(s, p, head + d, end);
                lemma_split(s, p, head, d);
                lemma_at(s, p, head);
                assert(s[p + 0] == head[0] && s[p + 1] == head[1] && s[p + 2] == head[2] && s[p + 3]
                    == head[3] && s[p + 4] == head[4] && s[p + 5] == head[5] && s[p + 6] == head[6]
                    && s[p + 7] == head[7] && s[p + 8] == head[8] && s[p + 9] == head[9]);
                let q = p + 10 + d.len();
                lemma_at(s, q, end);
                assert(s[q + 0] == end[0] && s[q + 1] == end[1]);
                lemma_skip_space(s, p, 'V');
                lemma_no_keyword(s, p + 1, 'V');
                assert(s.subrange(p + 1, p + 7) =~= "Vector"@);
                lemma_skip_space(s, p + 7, '(');
                lemma_decimal_digits(dim as nat);
                lemma_at(s, p + 10, d);
                assert(s[p + 10 + 0] == d[0]);
                lemma_word_char(d[0]);
                lemma_skip_space(s, p + 9, d[0]);
                lemma_run(s, p + 10, d, 0, |c: char| is_digit(c));
                assert(digits_at(s, p + 9) == Ok::<(Seq<char>, int), int>((d, q)));
                lemma_skip_space(s, q, ')');
            },
            _ => {
                let w = scalar_word(t.scalar);
                law_scalar_names_lead_back(t.scalar);
                lemma_word_char(w[0]);
                if t.list {
                    let head = seq![' ', '[', ' '];
                    let end = seq![' ', ']'];
                    lemma_split(s, p, head + w, end);
                    lemma_split(s, p, head, w);
                    lemma_at(s, p, head);
                    assert(s[p + 0] == head[0] && s[p + 1] == head[1] && s[p + 2] == head[2]);
                    let q = p + 3 + w.len();
                    lemma_at(s, q, end);
                    assert(s[q + 0] == end[0] && s[q + 1] == end[1]);
                    lemma_skip_space(s, p, '[');
                    lemma_type_ident_read(s, p + 2, p + 3, w);
                    lemma_skip_space(s, q, ']');
                } else {
                    let head = seq![' '];
                    lemma_split(s, p, head, w);
                    lemma_at(s, p, head);
                    lemma_at(s, p + 1, w);
                    assert(s[p + 0] == head[0] && s[p + 1 + 0] == w[0]);
                    lemma_skip_space(s, p, w[0]);
                    lemma_no_keyword(s, p + 1, w[0]);
                    lemma_type_ident_read(s, p + 1, p + 1, w);
                }
            },
        },
    }
}

proof fn lemma_type_read(s: Seq<char>, p: int, t: PropTypeModel, c: char)
    requires
        text_at(s, p, type_text(t)),
        writable_type(t),
        token_at(s, p + type_text(t).len(), c),
        c != '?',
    ensures
        type_at(s, p) == Ok::<(TypeSyntaxModel, int), int>(
            (
                TypeSyntaxModel { core: core_tree(t), nullable: t.nullable },
                p + type_text(t).len(),
            ),
        ),
{
    let core = core_text(t);
    let q = p + core.len();
    if t.nullable {
        let mark = seq![' ', '?'];
        lemma_split(s, p, core, mark);
        lemma_at(s, q, mark);
        assert(s[q + 0] == mark[0] && s[q + 1] == mark[1]);
        lemma_core_read(s, p, t);
        lemma_skip_space(s, q, '?');
    } else {
        assert(type_text(t) =~= core);
        lemma_core_read(s, p, t);
        lemma_skip_space(s, q, c);
    }
}

// ---------------------------------------------------------------------------
// Reading it: declarations

/// Whether what follows a property follows at position `e`: another property, or the brace
/// that closes them.
spec fn ends_prop(s: Seq<char>, e: int) -> bool {
    0 <= e && e + 1 < s.len() && s[e] == ' ' && (is_lower(s[e + 1]) || s[e + 1] == '_' || s[e + 1]
        == '}')
}

proof fn lemma_prop_read(s: Seq<char>, p: int, x: PropDeclModel)
    requires
        text_at(s, p, prop_text(x)),
        writable_prop(x),
        ends_prop(s, p + prop_text(x).len()),
    ensures
        prop_at(s, p) == Ok::<(PropSyntaxModel, int), int>(
            (prop_tree(x), p + prop_text(x).len()),
        ),
        !char_at(s, skip(s, p), '}'),
{
    let e = p + prop_text(x).len();
    let c = s[e + 1];
    let one = seq![' '];
    let colon = seq![' ', ':'];
    let ty = type_text(x.prop_type);
    let anns = annotations_text(x.annotations, 0);
    lemma_word_char(c);
    lemma_split(s, p, one + x.name + colon + ty, anns);
    lemma_split(s, p, one + x.name + colon, ty);
    lemma_split(s, p, one + x.name, colon);
    lemma_split(s, p, one, x.name);
    lemma_at(s, p, one);
    let a = p + 1 + x.name.len();
    lemma_at(s, a, colon);
    lemma_at(s, p + 1, x.name);
    assert(s[p + 0] == one[0] && s[a + 0] == colon[0] && s[a + 1] == colon[1]);
    assert(s[p + 1 + 0] == x.name[0]);
    lemma_word_char(x.name[0]);
    lemma_skip_space(s, p, x.name[0]);
    lemma_ident_read(s, p, p + 1, x.name);
    lemma_skip_space(s, a, ':');
    let b = a + 2;
    let q = b + ty.len();
    if x.annotations.len() > 0 {
        lemma_annotation_starts(s, q, x.annotations, 0);
        lemma_type_read(s, b, x.prop_type, '@');
    } else {
        lemma_type_read(s, b, x.prop_type, c);
    }
    lemma_annotations_read(s, q, x.annotations, 0, Seq::empty(), c);
    assert(Seq::<AnnotationSyntaxModel>::empty() + annotations_tree(x.annotations).skip(0)
        =~= annotations_tree(x.annotations));
}

proof fn lemma_props_start(s: Seq<char>, p: int, props: Seq<PropDeclModel>, i: int)
    requires
        0 <= i <= props.len(),
        text_at(s, p, props_text(props, i)),
        forall|k: int| 0 <= k < props.len() ==> writable_prop(#[trigger] props[k]),
    ensures
        ends_prop(s, p),
{
    lemma_at(s, p, props_text(props, i));
    if i == props.len() {
        let end = seq![' ', '}'];
        assert(props_text(props, i) == end);
        assert(s[p + 0] == end[0] && s[p + 1] == end[1]);
    } else {
        let x = props[i];
        let w = props_text(props, i);
        assert(writable_prop(x));
        assert(w[0] == ' ');
        assert(w[1] == x.name[0]);
        assert(s[p + 0] == w[0] && s[p + 1] == w[1]);
    }
}

proof fn lemma_props_read(
    s: Seq<char>,
    p: int,
    props: Seq<PropDeclModel>,
    i: int,
    acc: Seq<PropSyntaxModel>,
)
    requires
        0 <= i <= props.len(),
        text_at(s, p, props_text(props, i)),
        forall|k: int| 0 <= k < props.len() ==> writable_prop(#[trigger] props[k]),
    ensures
        props_at(s, p, acc) == Ok::<(Seq<PropSyntaxModel>, int), int>(
            (acc + props_tree(props).skip(i), p + props_text(props, i).len()),
        ),
    decreases props.len() - i,
{
    lemma_at(s, p, props_text(props, i));
    if i == props.len() {
        let end = seq![' ', '}'];
        assert(props_text(props, i) == end);
        assert(s[p + 0] == end[0] && s[p + 1] == end[1]);
        lemma_skip_space(s, p, '}');
        assert(acc + props_tree(props).skip(i) =~= acc);
    } else {
        let w = prop_text(props[i]);
        lemma_split(s, p, w, props_text(props, i + 1));
        lemma_props_start(s, p + w.len(), props, i + 1);
        lemma_prop_read(s, p, props[i]);
        lemma_props_read(s, p + w.len(), props, i + 1, acc.push(prop_tree(props[i])));
        assert(acc.push(prop_tree(props[i])) + props_tree(props).skip(i + 1) =~= acc
            + props_tree(props).skip(i));
    }
}

proof fn lemma_node_read(s: Seq<char>, p: int, n: NodeDeclModel)
    requires
        text_at(s, p, node_text(n)),
        writable_decl(SchemaDeclModel::Node(n)),
    ensures
        token_at(s, p, 'n'),
        decl_at(s, p + 1) == Ok::<(DeclSyntaxModel, int), int>(
            (decl_tree(SchemaDeclModel::Node(n)), p + node_text(n).len()),
        ),
{
    let head = seq![' ', 'n', 'o', 'd', 'e', ' '];
    let anns = annotations_text(n.annotations, 0);
    let par = parent_text(n.parent);
    let open = seq![' ', '{'];
    let props = props_text(n.properties, 0);
    lemma_split(s, p, head + n.name + anns + par + open, props);
    lemma_split(s, p, head + n.name + anns + par, open);
    lemma_split(s, p, head + n.name + anns, par);
    lemma_split(s, p, head + n.name, anns);
    lemma_split(s, p, head, n.name);
    lemma_at(s, p, head);
    assert(s[p + 0] == head[0] && s[p + 1] == head[1] && s[p + 2] == head[2] && s[p + 3] == head[3]
        && s[p + 4] == head[4] && s[p + 5] == head[5]);
    let a = p + 6 + n.name.len();
    let b = a + anns.len();
    let c = b + par.len();
    lemma_at(s, c, open);
    assert(s[c + 0] == open[0] && s[c + 1] == open[1]);
    reveal_strlit("node");
    assert("node"@ =~= seq!['n', 'o', 'd', 'e']);
    assert(s.subrange(p + 1, p + 5) =~= "node"@);
    match n.parent {
        Some(w) => {
            let colon = seq![' ', ':', ' '];
            lemma_split(s, b, colon, w);
            lemma_at(s, b, colon);
            assert(s[b + 0] == colon[0] && s[b + 1] == colon[1] && s[b + 2] == colon[2]);
            if n.annotations.len() > 0 {
                lemma_annotation_starts(s, a, n.annotations, 0);
            }
            lemma_annotations_read(s, a, n.annotations, 0, Seq::empty(), ':');
            lemma_skip_space(s, b, ':');
            lemma_type_ident_read(s, b + 2, b + 3, w);
        },
        None => {
            assert(par.len() == 0);
            if n.annotations.len() > 0 {
                lemma_annotation_starts(s, a, n.annotations, 0);
            }
            lemma_annotations_read(s, a, n.annotations, 0, Seq::empty(), '{');
            lemma_skip_space(s, b, '{');
        },
    }
    assert(parent_at(s, b) == Ok::<(Option<Seq<char>>, int), int>((n.parent, c)));
    lemma_type_ident_read(s, p + 5, p + 6, n.name);
    lemma_skip_space(s, c, '{');
    lemma_props_read(s, c + 2, n.properties, 0, Seq::empty());
    assert(Seq::<AnnotationSyntaxModel>::empty() + annotations_tree(n.annotations).skip(0)
        =~= annotations_tree(n.annotations));
    assert(Seq::<PropSyntaxModel>::empty() + props_tree(n.properties).skip(0) =~= props_tree(
        n.properties,
    ));
}

proof fn lemma_edge_read(s: Seq<char>, p: int, x: EdgeDeclModel)
    requires
        text_at(s, p, edge_text(x)),
        writable_decl(SchemaDeclModel::Edge(x)),
    ensures
        token_at(s, p, 'e'),
        decl_at(s, p + 1) == Ok::<(DeclSyntaxModel, int), int>(
            (decl_tree(SchemaDeclModel::Edge(x)), p + edge_text(x).len()),
        ),
{
    let head = seq![' ', 'e', 'd', 'g', 'e', ' '];
    let colon = seq![' ', ':', ' '];
    let arrow = seq![' ', '-', '>', ' '];
    let anns = annotations_text(x.annotations, 0);
    let open = seq![' ', '{'];
    let props = props_text(x.properties, 0);
    lemma_split(
        s,
        p,
        head + x.name + colon + x.from_type + arrow + x.to_type + anns + open,
        props,
    );
    lemma_split(s, p, head + x.name + colon + x.from_type + arrow + x.to_type + anns, open);
    lemma_split(s, p, head + x.name + colon + x.from_type + arrow + x.to_type, anns);
    lemma_split(s, p, head + x.name + colon + x.from_type + arrow, x.to_type);
    lemma_split(s, p, head + x.name + colon + x.from_type, arrow);
    lemma_split(s, p, head + x.name + colon, x.from_type);
    lemma_split(s, p, head + x.name, colon);
    lemma_split(s, p, head, x.name);
    lemma_at(s, p, head);
    assert(s[p + 0] == head[0] && s[p + 1] == head[1] && s[p + 2] == head[2] && s[p + 3] == head[3]
        && s[p + 4] == head[4] && s[p + 5] == head[5]);
    reveal_strlit("node");
    reveal_strlit("edge");
    assert("edge"@ =~= seq!['e', 'd', 'g', 'e']);
    assert(s.subrange(p + 1, p + 5) =~= "edge"@);
    assert(!text_at(s, p + 1, "node"@)) by {
        if text_at(s, p + 1, "node"@) {
            lemma_at(s, p + 1, "node"@);
            assert(s[p + 1 + 0] == "node"@[0]);
        }
    }
    let a = p + 6 + x.name.len();
    lemma_at(s, a, colon);
    assert(s[a + 0] == colon[0] && s[a + 1] == colon[1] && s[a + 2] == colon[2]);
    let c = a + 3 + x.from_type.len();
    lemma_at(s, c, arrow);
    assert(s[c + 0] == arrow[0] && s[c + 1] == arrow[1] && s[c + 2] == arrow[2] && s[c + 3]
        == arrow[3]);
    let f = c + 4 + x.to_type.len();
    let g = f + anns.len();
    lemma_at(s, g, open);
    assert(s[g + 0] == open[0] && s[g + 1] == open[1]);
    lemma_type_ident_read(s, p + 5, p + 6, x.name);
    lemma_skip_space(s, a, ':');
    lemma_type_ident_read(s, a + 2, a + 3, x.from_type);
    lemma_skip_space(s, c, '-');
    assert(arrow_after(s, c) == Ok::<int, int>(c + 3));
    if x.annotations.len() > 0 {
        lemma_annotation_starts(s, f, x.annotations, 0);
    }
    lemma_type_ident_read(s, c + 3, c + 4, x.to_type);
    lemma_annotations_read(s, f, x.annotations, 0, Seq::empty(), '{');
    lemma_skip_space(s, g, '{');
    lemma_props_read(s, g + 2, x.properties, 0, Seq::empty());
    assert(Seq::<AnnotationSyntaxModel>::empty() + annotations_tree(x.annotations).skip(0)
        =~= annotations_tree(x.annotations));
    assert(Seq::<PropSyntaxModel>::empty() + props_tree(x.properties).skip(0) =~= props_tree(
        x.properties,
    ));
}

proof fn lemma_decls_read(
    s: Seq<char>,
    p: int,
    decls: Seq<SchemaDeclModel>,
    i: int,
    acc: Seq<DeclSyntaxModel>,
)
    requires
        0 <= i <= decls.len(),
        text_at(s, p, schema_text(decls, i)),
        p + schema_text(decls, i).len() == s.len(),
        forall|k: int| 0 <= k < decls.len() ==> writable_decl(#[trigger] decls[k]),
    ensures
        decls_at(s, p, acc) == Ok::<Seq<DeclSyntaxModel>, int>(acc + decls_tree(decls).skip(i)),
    decreases decls.len() - i,
{
    if i == decls.len() {
        assert(acc + decls_tree(decls).skip(i) =~= acc);
    } else {
        let w = decl_text(decls[i]);
        lemma_split(s, p, w, schema_text(decls, i + 1));
        match decls[i] {
            SchemaDeclModel::Node(n) => {
                lemma_node_read(s, p, n);
                lemma_skip_space(s, p, 'n');
            },
            SchemaDeclModel::Edge(e) => {
                lemma_edge_read(s, p, e);
                lemma_skip_space(s, p, 'e');
            },
        }
        lemma_decl(s, p + 1);
        lemma_decls_read(s, p + w.len(), decls, i + 1, acc.push(decl_tree(decls[i])));
        assert(acc.push(decl_tree(decls[i])) + decls_tree(decls).skip(i + 1) =~= acc + decls_tree(
            decls,
        ).skip(i));
    }
}

// ---------------------------------------------------------------------------
// What it means

proof fn lemma_annotations_mean(a: Seq<AnnotationModel>)
    ensures
        annotations_meaning(annotations_tree(a)) == a,
{
    assert forall|i: int| 0 <= i < a.len() implies annotation_meaning(annotation_tree(a[i]))
        == a[i] by {
        if let Some(v) = a[i].value {
            let q = seq!['"'] + v + seq!['"'];
            assert(q.subrange(1, q.len() - 1) =~= v);
        }
    }
    assert(annotations_meaning(annotations_tree(a)) =~= a);
}

proof fn lemma_type_means(t: PropTypeModel)
    requires
        writable_type(t),
    ensures
        type_meaning(TypeSyntaxModel { core: core_tree(t), nullable: t.nullable }) == Ok::<
            PropTypeModel,
            Seq<char>,
        >(t),
{
    match t.enum_values {
        Some(values) => {
            law_sorting_keeps_what_is_in_order::<String>(values);
        },
        None => match t.scalar {
            ScalarType::Vector(dim) => {
                law_decimals_are_read_back(dim as nat, u32::MAX as int);
            },
            _ => {
                law_scalar_names_lead_back(t.scalar);
            },
        },
    }
}

proof fn lemma_props_mean(props: Seq<PropDeclModel>, n: int)
    requires
        0 <= n <= props.len(),
        forall|k: int| 0 <= k < props.len() ==> writable_prop(#[trigger] props[k]),
    ensures
        props_meaning(props_tree(props), n) == Ok::<Seq<PropDeclModel>, Seq<char>>(props.take(n)),
    decreases n,
{
    if n > 0 {
        lemma_props_mean(props, n - 1);
        let p = props[n - 1];
        assert(writable_prop(p));
        lemma_type_means(p.prop_type);
        lemma_annotations_mean(p.annotations);
        assert(prop_meaning(prop_tree(p)) == Ok::<PropDeclModel, Seq<char>>(p));
        assert(props.take(n) =~= props.take(n - 1).push(p));
    } else {
        assert(props.take(0) =~= Seq::<PropDeclModel>::empty());
    }
}

proof fn lemma_decls_mean(decls: Seq<SchemaDeclModel>, n: int)
    requires
        0 <= n <= decls.len(),
        forall|k: int| 0 <= k < decls.len() ==> writable_decl(#[trigger] decls[k]),
    ensures
        decls_meaning(decls_tree(decls), n) == Ok::<Seq<SchemaDeclModel>, Seq<char>>(decls.take(n)),
    decreases n,
{
    if n > 0 {
        lemma_decls_mean(decls, n - 1);
        let d = decls[n - 1];
        assert(writable_decl(d));
        match d {
            SchemaDeclModel::Node(x) => {
                lemma_props_mean(x.properties, x.properties.len() as int);
                lemma_annotations_mean(x.annotations);
                assert(x.properties.take(x.properties.len() as int) =~= x.properties);
            },
            SchemaDeclModel::Edge(x) => {
                lemma_props_mean(x.properties, x.properties.len() as int);
                lemma_annotations_mean(x.annotations);
                assert(x.properties.take(x.properties.len() as int) =~= x.properties);
            },
        }
        assert(decl_meaning(decl_tree(d)) == Ok::<SchemaDeclModel, Seq<char>>(d));
        assert(decls.take(n) =~= decls.take(n - 1).push(d));
    } else {
        assert(decls.take(0) =~= Seq::<SchemaDeclModel>::empty());
    }
}

/// A schema that is written down is read as it was: parsing its text gives back its
/// declarations, each with its name, its parent or its two ends, its annotations and its
/// properties with their types.
pub proof fn law_written_schemas_are_read(decls: Seq<SchemaDeclModel>)
    requires
        forall|k: int| 0 <= k < decls.len() ==> writable_decl(#[trigger] decls[k]),
        schema_error(decls) is None,
    ensures
        schema_meaning(schema_text(decls, 0)) matches Ok(read) && read == decls,
{
    let s = schema_text(decls, 0);
    let n = decls.len() as int;
    assert(s.subrange(0, s.len() as int) =~= s);
    lemma_decls_read(s, 0, decls, 0, Seq::empty());
    assert(Seq::<DeclSyntaxModel>::empty() + decls_tree(decls).skip(0) =~= decls_tree(decls));
    assert(schema_syntax(s) == Ok::<Seq<DeclSyntaxModel>, int>(decls_tree(decls)));
    lemma_decls_mean(decls, n);
    assert(decls.take(n) =~= decls);
}

/// An edge declaration without annotations and properties.
spec fn plain_edge(name: Seq<char>, from: Seq<char>, to: Seq<char>) -> EdgeDeclModel {
    EdgeDeclModel {
        name,
        from_type: from,
        to_type: to,
        annotations: Seq::empty(),
        properties: Seq::empty(),
    }
}

proof fn lemma_plain_edge_text(name: Seq<char>, from: Seq<char>, to: Seq<char>)
    ensures
        schema_text(seq![SchemaDeclModel::Edge(plain_edge(name, from, to))], 0) == seq![
            ' ',
            'e',
            'd',
            'g',
            'e',
            ' ',
        ] + name + seq![' ', ':', ' '] + from + seq![' ', '-', '>', ' '] + to + seq![
            ' ',
            '{',
            ' ',
            '}',
        ],
{
    let e = plain_edge(name, from, to);
    let decls = seq![SchemaDeclModel::Edge(e)];
    let front = seq![' ', 'e', 'd', 'g', 'e', ' '] + name + seq![' ', ':', ' '] + from + seq![
        ' ',
        '-',
        '>',
        ' ',
    ] + to;
    assert(decls.len() == 1);
    assert(schema_text(decls, 1) == Seq::<char>::empty());
    assert(schema_text(decls, 0) == edge_text(e) + schema_text(decls, 1));
    assert(annotations_text(e.annotations, 0) == Seq::<char>::empty());
    assert(props_text(e.properties, 0) == seq![' ', '}']);
    assert(front + Seq::<char>::empty() =~= front);
    assert(front + seq![' ', '{'] + seq![' ', '}'] =~= front + seq![' ', '{', ' ', '}']);
    assert(schema_text(decls, 0) =~= edge_text(e));
}

/// An edge runs along its arrow: a text `edge Name : From -> To { }` declares an edge of that
/// name from the type left of the arrow to the type right of it, and nothing else.
pub proof fn law_edges_run_along_their_arrow(name: Seq<char>, from: Seq<char>, to: Seq<char>)
    requires
        is_type_word(name),
        is_type_word(from),
        is_type_word(to),
    ensures
        ({
            let text = seq![' ', 'e', 'd', 'g', 'e', ' '] + name + seq![' ', ':', ' '] + from
                + seq![' ', '-', '>', ' '] + to + seq![' ', '{', ' ', '}'];
            schema_syntax(text) matches Ok(tree) && tree.len() == 1 && (decl_meaning(
                tree[0],
            ) matches Ok(SchemaDeclModel::Edge(e)) && e.name == name && e.from_type == from
                && e.to_type == to && e.annotations.len() == 0 && e.properties.len() == 0)
        }),
{
    let d = SchemaDeclModel::Edge(plain_edge(name, from, to));
    let decls = seq![d];
    lemma_plain_edge_text(name, from, to);
    lemma_one_decl(d);
}

proof fn lemma_one_decl(d: SchemaDeclModel)
    requires
        writable_decl(d),
    ensures
        schema_syntax(schema_text(seq![d], 0)) == Ok::<Seq<DeclSyntaxModel>, int>(
            seq![decl_tree(d)],
        ),
        decl_meaning(decl_tree(d)) == Ok::<SchemaDeclModel, Seq<char>>(d),
{
    let decls = seq![d];
    let s = schema_text(decls, 0);
    assert(s.subrange(0, s.len() as int) =~= s);
    lemma_decls_read(s, 0, decls, 0, Seq::empty());
    assert(Seq::<DeclSyntaxModel>::empty() + decls_tree(decls).skip(0) =~= seq![decl_tree(d)]);
    lemma_decls_mean(decls, 1);
    assert(decls_tree(decls)[0] == decl_tree(d));
    assert(decls.take(1)[0] == d);
    assert(decls_meaning(decls_tree(decls), 0) == Ok::<Seq<SchemaDeclModel>, Seq<char>>(
        Seq::empty(),
    ));
    match decl_meaning(decl_tree(d)) {
        Ok(x) => {
            assert(decls_meaning(decls_tree(decls), 1)->Ok_0 == Seq::<
                SchemaDeclModel,
            >::empty().push(x));
            assert(Seq::<SchemaDeclModel>::empty().push(x)[0] == x);
        },
        Err(m) => {},
    }
}

} // verus!
