//! From schema text to a validated schema.

use crate::error::{error_text, ErrorModel, NanoError, ParseDiagnostic, SourceSpan};
use crate::schema::ast::{Annotation, AnnotationModel, EdgeDecl, EdgeDeclModel, NodeDecl, NodeDeclModel, PropDecl, PropDeclModel, SchemaDecl, SchemaDeclModel, SchemaFile};
use crate::schema::grammar::{parse_syntax, schema_syntax, AnnotationSyntax, AnnotationSyntaxModel, CoreType, CoreTypeModel, DeclSyntax, DeclSyntaxModel, EdgeSyntax, EdgeSyntaxModel, NodeSyntax, NodeSyntaxModel, PropSyntax, PropSyntaxModel, TypeSyntax, TypeSyntaxModel};
use crate::schema::validate::{schema_error, validate_schema_annotations};
use crate::text::{cat2, cat3, chars_of, decimal, decimal_u64, int_error_text, lemma_views_push, opt_view, parse_int, read_int, same, string_of, views};
use crate::types::{enum_type, list_type, scalar_named, scalar_type, PropType, PropTypeModel, ScalarType};
use vstd::prelude::*;
use vstd::utf8::encode_utf8;

verus! {

// ---------------------------------------------------------------------------
// What a tree means

/// Whether no value occurs twice.
pub open spec fn all_distinct(values: Seq<Seq<char>>) -> bool {
    forall|i: int, j: int| 0 <= i < j < values.len() ==> values[i] != values[j]
}

/// The property type that a written type stands for, or the message that refuses it.
pub open spec fn type_meaning(t: TypeSyntaxModel) -> Result<PropTypeModel, Seq<char>> {
    match t.core {
        CoreTypeModel::Base(name) => match scalar_named(name) {
            Some(scalar) => Ok(scalar_type(scalar, t.nullable)),
            None => Err("unknown type: "@ + name),
        },
        CoreTypeModel::Vector(digits) => {
            match read_int(digits, 0, u32::MAX as int) {
                Err(e) => Err("invalid Vector dimension: "@ + int_error_text(e)),
                Ok(dim) => if dim == 0 {
                    Err("Vector dimension must be greater than zero"@)
                } else if dim > i32::MAX {
                    Err(
                        "Vector dimension "@ + decimal(dim as nat)
                            + " exceeds maximum supported 2147483647"@,
                    )
                } else {
                    Ok(scalar_type(ScalarType::Vector(dim as u32), t.nullable))
                },
            }
        },
        CoreTypeModel::List(name) => match scalar_named(name) {
            Some(scalar) => Ok(list_type(scalar, t.nullable)),
            None => Err("unknown list element type: "@ + name),
        },
        CoreTypeModel::Enum(values) => if values.len() == 0 {
            Err("enum type must include at least one value"@)
        } else if !all_distinct(values) {
            Err("enum type cannot include duplicate values"@)
        } else {
            Ok(enum_type(values, t.nullable))
        },
    }
}

/// A text without the double quotes around it.
pub open spec fn unquoted(s: Seq<char>) -> Seq<char> {
    if s.len() >= 2 && s[0] == '"' && s.last() == '"' {
        s.subrange(1, s.len() - 1)
    } else {
        s
    }
}

pub open spec fn annotation_meaning(a: AnnotationSyntaxModel) -> AnnotationModel {
    AnnotationModel {
        name: a.name,
        value: match a.argument {
            Some(s) => Some(unquoted(s)),
            None => None,
        },
    }
}

pub open spec fn annotations_meaning(s: Seq<AnnotationSyntaxModel>) -> Seq<AnnotationModel> {
    Seq::new(s.len(), |i: int| annotation_meaning(s[i]))
}

pub open spec fn prop_meaning(p: PropSyntaxModel) -> Result<PropDeclModel, Seq<char>> {
    match type_meaning(p.type_ref) {
        Err(m) => Err(m),
        Ok(prop_type) => Ok(
            PropDeclModel {
                name: p.name,
                prop_type,
                annotations: annotations_meaning(p.annotations),
            },
        ),
    }
}

/// The first `n` properties, or the message that refuses the first of them that is refused.
pub open spec fn props_meaning(s: Seq<PropSyntaxModel>, n: int) -> Result<
    Seq<PropDeclModel>,
    Seq<char>,
>
    decreases n,
{
    if n <= 0 {
        Ok(Seq::empty())
    } else {
        match props_meaning(s, n - 1) {
            Err(m) => Err(m),
            Ok(done) => match prop_meaning(s[n - 1]) {
                Err(m) => Err(m),
                Ok(p) => Ok(done.push(p)),
            },
        }
    }
}

pub open spec fn node_meaning(n: NodeSyntaxModel) -> Result<NodeDeclModel, Seq<char>> {
    match props_meaning(n.properties, n.properties.len() as int) {
        Err(m) => Err(m),
        Ok(properties) => Ok(
            NodeDeclModel {
                name: n.name,
                annotations: annotations_meaning(n.annotations),
                parent: n.parent,
                properties,
            },
        ),
    }
}

pub open spec fn edge_meaning(e: EdgeSyntaxModel) -> Result<EdgeDeclModel, Seq<char>> {
    match props_meaning(e.properties, e.properties.len() as int) {
        Err(m) => Err(m),
        Ok(properties) => Ok(
            EdgeDeclModel {
                name: e.name,
                from_type: e.from_type,
                to_type: e.to_type,
                annotations: annotations_meaning(e.annotations),
                properties,
            },
        ),
    }
}

pub open spec fn decl_meaning(d: DeclSyntaxModel) -> Result<SchemaDeclModel, Seq<char>> {
    match d {
        DeclSyntaxModel::Node(n) => match node_meaning(n) {
            Err(m) => Err(m),
            Ok(node) => Ok(SchemaDeclModel::Node(node)),
        },
        DeclSyntaxModel::Edge(e) => match edge_meaning(e) {
            Err(m) => Err(m),
            Ok(edge) => Ok(SchemaDeclModel::Edge(edge)),
        },
    }
}

/// The first `n` declarations, or the message that refuses the first of them that is refused.
pub open spec fn decls_meaning(s: Seq<DeclSyntaxModel>, n: int) -> Result<
    Seq<SchemaDeclModel>,
    Seq<char>,
>
    decreases n,
{
    if n <= 0 {
        Ok(Seq::empty())
    } else {
        match decls_meaning(s, n - 1) {
            Err(m) => Err(m),
            Ok(done) => match decl_meaning(s[n - 1]) {
                Err(m) => Err(m),
                Ok(d) => Ok(done.push(d)),
            },
        }
    }
}

/// The mathematical value of a `ParseDiagnostic`.
pub struct DiagnosticModel {
    pub message: Seq<char>,
    pub span: Option<(nat, nat)>,
}

impl View for ParseDiagnostic {
    type V = DiagnosticModel;

    open spec fn view(&self) -> DiagnosticModel {
        DiagnosticModel {
            message: self.message@,
            span: match self.span {
                Some(s) => Some((s.start as nat, s.end as nat)),
                None => None,
            },
        }
    }
}

/// What is said of a text that goes wrong at character `p`.
pub open spec fn syntax_message(s: Seq<char>, p: int) -> Seq<char> {
    if p < s.len() {
        "unexpected character '"@ + seq![s[p]] + "'"@
    } else {
        "unexpected end of schema"@
    }
}

/// The rendering of a message at a byte offset of a text; nothing where no character starts
/// there.
pub uninterp spec fn pest_rendered(message: Seq<char>, source: Seq<char>, offset: nat) -> Option<
    Seq<char>,
>;

/// `pest::error::Error::new_from_pos` of a message of the caller's at the place that
/// `pest::Position::new` gives, as text: the line and column, the line marked at that
/// column, and the message. There is no such place where the offset is behind the text or
/// inside a character.
#[verifier::external_body]
fn render_syntax_error(message: &str, source: &str, offset: usize) -> (r: Option<String>)
    ensures
        match r {
            Some(t) => pest_rendered(message@, source@, offset as nat) == Some(t@),
            None => pest_rendered(message@, source@, offset as nat) is None,
        },
{
    let position = pest::Position::new(source, offset)?;
    let message = message.to_string();
    let variant = pest::error::ErrorVariant::<u8>::CustomError { message };
    Some(pest::error::Error::new_from_pos(variant, position).to_string())
}

/// The diagnostic of a message at a byte offset, by its rendering.
pub open spec fn placed_diagnostic(message: Seq<char>, offset: nat, rendered: Option<Seq<char>>) -> DiagnosticModel {
    DiagnosticModel {
        message: match rendered {
            Some(t) => t,
            None => message,
        },
        span: Some((offset, offset)),
    }
}

/// The diagnostic of a message at a byte offset: its rendering where there is one, and the
/// offset as the span.
pub fn syntax_diagnostic_at(message: String, offset: usize, rendered: Option<String>) -> (r:
    ParseDiagnostic)
    ensures
        r@ == placed_diagnostic(message@, offset as nat, opt_view(rendered)),
{
    let text = match rendered {
        Some(t) => t,
        None => message,
    };
    ParseDiagnostic::new(text, Some(SourceSpan::new(offset, offset)))
}

/// The diagnostic of a text that goes wrong at character `p`: its byte offset is the span.
pub open spec fn syntax_diagnostic(s: Seq<char>, p: int) -> DiagnosticModel {
    let offset = encode_utf8(s.take(p)).len();
    placed_diagnostic(syntax_message(s, p), offset, pest_rendered(syntax_message(s, p), s, offset))
}

/// The diagnostic of a text whose declarations are refused with a message.
pub open spec fn refusal_diagnostic(message: Seq<char>) -> DiagnosticModel {
    DiagnosticModel { message: error_text(ErrorModel::Parse(message)), span: None }
}

/// What a schema text stands for. A text outside the grammar is refused before the
/// meaning of any declaration is looked at, and that before any annotation is checked.
pub open spec fn schema_meaning(s: Seq<char>) -> Result<Seq<SchemaDeclModel>, DiagnosticModel> {
    match schema_syntax(s) {
        Err(p) => Err(syntax_diagnostic(s, p)),
        Ok(tree) => match decls_meaning(tree, tree.len() as int) {
            Err(m) => Err(refusal_diagnostic(m)),
            Ok(schema) => match schema_error(schema) {
                Some(m) => Err(refusal_diagnostic(m)),
                None => Ok(schema),
            },
        },
    }
}

/// Whether a result is the value, or the refusal with the message, that a spec gives.
pub open spec fn means<T: View>(r: Result<T, NanoError>, m: Result<T::V, Seq<char>>) -> bool {
    match r {
        Ok(x) => m == Ok::<T::V, Seq<char>>(x@),
        Err(NanoError::Parse(text)) => m == Err::<T::V, Seq<char>>(text@),
        Err(_) => false,
    }
}

// ---------------------------------------------------------------------------
// From the tree to the schema

fn distinct(values: &Vec<String>) -> (r: bool)
    ensures
        r == all_distinct(views(values@)),
{
    let ghost all = views(values@);
    let mut j: usize = 0;
    while j < values.len()
        invariant
            all == views(values@),
            j <= values@.len(),
            forall|a: int, b: int| 0 <= a < b < j ==> all[a] != all[b],
        decreases values@.len() - j,
    {
        let mut i: usize = 0;
        while i < j
            invariant
                all == views(values@),
                i <= j < values@.len(),
                forall|a: int| 0 <= a < i ==> all[a] != all[j as int],
            decreases j - i,
        {
            if same(&values[i], &values[j]) {
                assert(all[i as int] == all[j as int]);
                return false;
            }
            i = i + 1;
        }
        j = j + 1;
    }
    true
}

/// The property type that a written type stands for.
pub fn parse_type_ref(t: TypeSyntax) -> (r: Result<PropType, NanoError>)
    ensures
        means(r, type_meaning(t@)),
{
    let nullable = t.nullable;
    match t.core {
        CoreType::Base(name) => match ScalarType::from_str_name(&name) {
            Some(scalar) => Ok(PropType::scalar(scalar, nullable)),
            None => Err(NanoError::Parse(cat2("unknown type: ", &name))),
        },
        CoreType::Vector(digits) => {
            let dim: u64 = match parse_int(&digits, 0, u32::MAX as i128) {
                Ok(n) => n as u64,
                Err(e) => {
                    return Err(NanoError::Parse(cat2("invalid Vector dimension: ", e.message())));
                },
            };
            if dim == 0 {
                return Err(
                    NanoError::Parse("Vector dimension must be greater than zero".to_owned()),
                );
            }
            if dim > i32::MAX as u64 {
                return Err(
                    NanoError::Parse(
                        cat3(
                            "Vector dimension ",
                            &decimal_u64(dim),
                            " exceeds maximum supported 2147483647",
                        ),
                    ),
                );
            }
            Ok(PropType::scalar(ScalarType::Vector(dim as u32), nullable))
        },
        CoreType::List(name) => match ScalarType::from_str_name(&name) {
            Some(scalar) => Ok(PropType::list_of(scalar, nullable)),
            None => Err(NanoError::Parse(cat2("unknown list element type: ", &name))),
        },
        CoreType::Enum(values) => {
            if values.len() == 0 {
                return Err(
                    NanoError::Parse("enum type must include at least one value".to_owned()),
                );
            }
            if !distinct(&values) {
                return Err(
                    NanoError::Parse("enum type cannot include duplicate values".to_owned()),
                );
            }
            Ok(PropType::enum_type(values, nullable))
        },
    }
}

fn strip_quotes(s: &str) -> (r: String)
    ensures
        r@ == unquoted(s@),
{
    let v = chars_of(s);
    if v.len() >= 2 && v[0] == '"' && v[v.len() - 1] == '"' {
        string_of(&v, 1, v.len() - 1)
    } else {
        s.to_owned()
    }
}

/// An annotation, its argument freed of quotes.
pub fn parse_annotation(a: AnnotationSyntax) -> (r: Annotation)
    ensures
        r@ == annotation_meaning(a@),
{
    let value = match &a.argument {
        Some(s) => Some(strip_quotes(s)),
        None => None,
    };
    Annotation { name: a.name, value }
}

fn parse_annotation_list(anns: Vec<AnnotationSyntax>) -> (r: Vec<Annotation>)
    ensures
        views(r@) == annotations_meaning(views(anns@)),
{
    let ghost all = views(anns@);
    let ghost written = anns@;
    let mut out: Vec<Annotation> = Vec::new();
    for a in it: anns
        invariant
            it.seq() == written,
            all == views(written),
            views(out@) == annotations_meaning(all).take(it.index() as int),
    {
        let ghost n = it.index() as int;
        let x = parse_annotation(a);
        proof {
            lemma_views_push(out@, x);
            assert(annotations_meaning(all).take(n + 1) =~= annotations_meaning(all).take(n).push(
                x@,
            ));
        }
        out.push(x);
    }
    assert(annotations_meaning(all).take(all.len() as int) =~= annotations_meaning(all));
    out
}

/// A declared property.
pub fn parse_prop_decl(p: PropSyntax) -> (r: Result<PropDecl, NanoError>)
    ensures
        means(r, prop_meaning(p@)),
{
    let prop_type = match parse_type_ref(p.type_ref) {
        Ok(t) => t,
        Err(e) => {
            return Err(e);
        },
    };
    let annotations = parse_annotation_list(p.annotations);
    Ok(PropDecl { name: p.name, prop_type, annotations })
}

/// Whether a result is the list, or the refusal with the message, that a spec gives.
pub open spec fn means_list<T: View>(
    r: Result<Vec<T>, NanoError>,
    m: Result<Seq<T::V>, Seq<char>>,
) -> bool {
    match r {
        Ok(x) => m == Ok::<Seq<T::V>, Seq<char>>(views(x@)),
        Err(NanoError::Parse(text)) => m == Err::<Seq<T::V>, Seq<char>>(text@),
        Err(_) => false,
    }
}

proof fn lemma_props_refused(s: Seq<PropSyntaxModel>, n: int, k: int)
    requires
        0 <= k <= n,
        props_meaning(s, k) is Err,
    ensures
        props_meaning(s, n) == props_meaning(s, k),
    decreases n,
{
    if k < n {
        lemma_props_refused(s, n - 1, k);
    }
}

proof fn lemma_decls_refused(s: Seq<DeclSyntaxModel>, n: int, k: int)
    requires
        0 <= k <= n,
        decls_meaning(s, k) is Err,
    ensures
        decls_meaning(s, n) == decls_meaning(s, k),
    decreases n,
{
    if k < n {
        lemma_decls_refused(s, n - 1, k);
    }
}

fn parse_prop_list(props: Vec<PropSyntax>) -> (r: Result<Vec<PropDecl>, NanoError>)
    ensures
        means_list(r, props_meaning(views(props@), props@.len() as int)),
{
    let ghost all = views(props@);
    let ghost written = props@;
    let mut out: Vec<PropDecl> = Vec::new();
    assert(views(out@) =~= Seq::<PropDeclModel>::empty());
    for p in it: props
        invariant
            it.seq() == written,
            all == views(written),
            written == props@,
            props_meaning(all, it.index() as int) == Ok::<Seq<PropDeclModel>, Seq<char>>(
                views(out@),
            ),
    {
        let ghost n = it.index() as int;
        assert(all[n] == p@);
        match parse_prop_decl(p) {
            Err(e) => {
                proof {
                    lemma_props_refused(all, all.len() as int, n + 1);
                }
                return Err(e);
            },
            Ok(x) => {
                proof {
                    lemma_views_push(out@, x);
                }
                out.push(x);
            },
        }
    }
    Ok(out)
}

/// A node declaration.
pub fn parse_node_decl(n: NodeSyntax) -> (r: Result<NodeDecl, NanoError>)
    ensures
        means(r, node_meaning(n@)),
{
    let annotations = parse_annotation_list(n.annotations);
    match parse_prop_list(n.properties) {
        Err(e) => Err(e),
        Ok(properties) => Ok(NodeDecl { name: n.name, annotations, parent: n.parent, properties }),
    }
}

/// An edge declaration.
pub fn parse_edge_decl(e: EdgeSyntax) -> (r: Result<EdgeDecl, NanoError>)
    ensures
        means(r, edge_meaning(e@)),
{
    let annotations = parse_annotation_list(e.annotations);
    match parse_prop_list(e.properties) {
        Err(err) => Err(err),
        Ok(properties) => Ok(
            EdgeDecl {
                name: e.name,
                from_type: e.from_type,
                to_type: e.to_type,
                annotations,
                properties,
            },
        ),
    }
}

/// A declaration.
pub fn parse_schema_decl(d: DeclSyntax) -> (r: Result<SchemaDecl, NanoError>)
    ensures
        means(r, decl_meaning(d@)),
{
    match d {
        DeclSyntax::Node(n) => match parse_node_decl(n) {
            Err(err) => Err(err),
            Ok(node) => Ok(SchemaDecl::Node(node)),
        },
        DeclSyntax::Edge(e) => match parse_edge_decl(e) {
            Err(err) => Err(err),
            Ok(edge) => Ok(SchemaDecl::Edge(edge)),
        },
    }
}

fn parse_decl_list(decls: Vec<DeclSyntax>) -> (r: Result<Vec<SchemaDecl>, NanoError>)
    ensures
        means_list(r, decls_meaning(views(decls@), decls@.len() as int)),
{
    let ghost all = views(decls@);
    let ghost written = decls@;
    let mut out: Vec<SchemaDecl> = Vec::new();
    assert(views(out@) =~= Seq::<SchemaDeclModel>::empty());
    for d in it: decls
        invariant
            it.seq() == written,
            all == views(written),
            written == decls@,
            decls_meaning(all, it.index() as int) == Ok::<Seq<SchemaDeclModel>, Seq<char>>(
                views(out@),
            ),
    {
        let ghost n = it.index() as int;
        assert(all[n] == d@);
        match parse_schema_decl(d) {
            Err(e) => {
                proof {
                    lemma_decls_refused(all, all.len() as int, n + 1);
                }
                return Err(e);
            },
            Ok(x) => {
                proof {
                    lemma_views_push(out@, x);
                }
                out.push(x);
            },
        }
    }
    Ok(out)
}

/// The diagnostic of an error that has no place in the source.
pub fn nano_error_to_diagnostic(err: NanoError) -> (r: ParseDiagnostic)
    ensures
        r@ == (DiagnosticModel { message: error_text(err@), span: None }),
{
    ParseDiagnostic::new(err.to_string(), None)
}

/// The diagnostic of a text that goes wrong at character `p`.
fn syntax_error_to_diagnostic(input: &str, chars: &Vec<char>, p: usize) -> (r: ParseDiagnostic)
    requires
        chars@ == input@,
        p <= chars@.len(),
    ensures
        r@ == syntax_diagnostic(input@, p as int),
{
    let prefix = input.substring_char(0, p);
    assert(prefix@ =~= input@.take(p as int));
    let offset: usize = prefix.as_bytes().len();
    let message = if p < chars.len() {
        let mut m = "unexpected character '".to_owned();
        let c = string_of(chars, p, p + 1);
        assert(c@ =~= seq![input@[p as int]]);
        m.append(&c);
        m.append("'");
        m
    } else {
        "unexpected end of schema".to_owned()
    };
    let rendered = render_syntax_error(&message, input, offset);
    syntax_diagnostic_at(message, offset, rendered)
}

/// Parses and validates a schema text; a refusal carries its place where it has one.
pub fn parse_schema_diagnostic(input: &str) -> (r: Result<SchemaFile, ParseDiagnostic>)
    ensures
        match r {
            Ok(schema) => schema_meaning(input@) == Ok::<Seq<SchemaDeclModel>, DiagnosticModel>(
                schema@,
            ),
            Err(d) => schema_meaning(input@) == Err::<Seq<SchemaDeclModel>, DiagnosticModel>(d@),
        },
{
    let chars = chars_of(input);
    let tree = match parse_syntax(&chars) {
        Ok(tree) => tree,
        Err(p) => {
            return Err(syntax_error_to_diagnostic(input, &chars, p));
        },
    };
    let declarations = match parse_decl_list(tree) {
        Ok(declarations) => declarations,
        Err(e) => {
            return Err(nano_error_to_diagnostic(e));
        },
    };
    let schema = SchemaFile { declarations };
    match validate_schema_annotations(&schema) {
        Ok(()) => Ok(schema),
        Err(e) => Err(nano_error_to_diagnostic(e)),
    }
}

/// Parses and validates a schema text.
pub fn parse_schema(input: &str) -> (r: Result<SchemaFile, NanoError>)
    ensures
        match r {
            Ok(schema) => schema_meaning(input@) == Ok::<Seq<SchemaDeclModel>, DiagnosticModel>(
                schema@,
            ),
            Err(e) => schema_meaning(input@) matches Err(d) && e@ == ErrorModel::Parse(d.message),
        },
{
    match parse_schema_diagnostic(input) {
        Ok(schema) => Ok(schema),
        Err(d) => Err(NanoError::Parse(d.to_string())),
    }
}

} // verus!
