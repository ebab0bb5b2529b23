//! The concrete syntax of a schema.
//!
//! Spec functions define the language over character sequences. Each takes the
//! text and a position and gives either what stands there with the position
//! behind it, or the position at which the text goes wrong. The executable
//! parser computes exactly these functions.
//!
//! ```text
//! schema     := declaration*
//! node       := "node" TypeName annotation* (":" TypeName)? "{" property* "}"
//! edge       := "edge" TypeName ":" TypeName "->" TypeName annotation* ("{" property* "}")?
//! property   := ident ":" type annotation*
//! type       := ("[" TypeName "]" | "enum" "(" value ("," value)* ")"
//!                | "Vector" "(" digits ")" | TypeName) "?"?
//! annotation := "@" ident ("(" (string | number | ident) ")")?
//! ```
//!
//! White space, `// ..` and `/* .. */` may stand between any two tokens.

use crate::text::{alnum, digit, is_alnum, is_digit, is_lower, is_upper, lemma_views_push, lower, opt_view, string_of, upper, views};
use vstd::prelude::*;

verus! {

// ---------------------------------------------------------------------------
// The tree

/// `@name` or `@name(argument)`; the argument as written, quotes included.
#[derive(Debug)]
pub struct AnnotationSyntax {
    pub name: String,
    pub argument: Option<String>,
}

pub struct AnnotationSyntaxModel {
    pub name: Seq<char>,
    pub argument: Option<Seq<char>>,
}

impl View for AnnotationSyntax {
    type V = AnnotationSyntaxModel;

    open spec fn view(&self) -> AnnotationSyntaxModel {
        AnnotationSyntaxModel { name: self.name@, argument: opt_view(self.argument) }
    }
}

/// A type as written, without the mark of nullability.
#[derive(Debug)]
pub enum CoreType {
    Base(String),
    Vector(String),
    List(String),
    Enum(Vec<String>),
}

pub enum CoreTypeModel {
    Base(Seq<char>),
    Vector(Seq<char>),
    List(Seq<char>),
    Enum(Seq<Seq<char>>),
}

impl View for CoreType {
    type V = CoreTypeModel;

    open spec fn view(&self) -> CoreTypeModel {
        match *self {
            CoreType::Base(n) => CoreTypeModel::Base(n@),
            CoreType::Vector(d) => CoreTypeModel::Vector(d@),
            CoreType::List(n) => CoreTypeModel::List(n@),
            CoreType::Enum(v) => CoreTypeModel::Enum(views(v@)),
        }
    }
}

/// A type as written.
#[derive(Debug)]
pub struct TypeSyntax {
    pub core: CoreType,
    pub nullable: bool,
}

pub struct TypeSyntaxModel {
    pub core: CoreTypeModel,
    pub nullable: bool,
}

impl View for TypeSyntax {
    type V = TypeSyntaxModel;

    open spec fn view(&self) -> TypeSyntaxModel {
        TypeSyntaxModel { core: self.core@, nullable: self.nullable }
    }
}

/// A property as written.
#[derive(Debug)]
pub struct PropSyntax {
    pub name: String,
    pub type_ref: TypeSyntax,
    pub annotations: Vec<AnnotationSyntax>,
}

pub struct PropSyntaxModel {
    pub name: Seq<char>,
    pub type_ref: TypeSyntaxModel,
    pub annotations: Seq<AnnotationSyntaxModel>,
}

impl View for PropSyntax {
    type V = PropSyntaxModel;

    open spec fn view(&self) -> PropSyntaxModel {
        PropSyntaxModel {
            name: self.name@,
            type_ref: self.type_ref@,
            annotations: views(self.annotations@),
        }
    }
}

/// A node declaration as written.
#[derive(Debug)]
pub struct NodeSyntax {
    pub name: String,
    pub annotations: Vec<AnnotationSyntax>,
    pub parent: Option<String>,
    pub properties: Vec<PropSyntax>,
}

pub struct NodeSyntaxModel {
    pub name: Seq<char>,
    pub annotations: Seq<AnnotationSyntaxModel>,
    pub parent: Option<Seq<char>>,
    pub properties: Seq<PropSyntaxModel>,
}

impl View for NodeSyntax {
    type V = NodeSyntaxModel;

    open spec fn view(&self) -> NodeSyntaxModel {
        NodeSyntaxModel {
            name: self.name@,
            annotations: views(self.annotations@),
            parent: opt_view(self.parent),
            properties: views(self.properties@),
        }
    }
}

/// An edge declaration as written.
#[derive(Debug)]
pub struct EdgeSyntax {
    pub name: String,
    pub from_type: String,
    pub to_type: String,
    pub annotations: Vec<AnnotationSyntax>,
    pub properties: Vec<PropSyntax>,
}

pub struct EdgeSyntaxModel {
    pub name: Seq<char>,
    pub from_type: Seq<char>,
    pub to_type: Seq<char>,
    pub annotations: Seq<AnnotationSyntaxModel>,
    pub properties: Seq<PropSyntaxModel>,
}

impl View for EdgeSyntax {
    type V = EdgeSyntaxModel;

    open spec fn view(&self) -> EdgeSyntaxModel {
        EdgeSyntaxModel {
            name: self.name@,
            from_type: self.from_type@,
            to_type: self.to_type@,
            annotations: views(self.annotations@),
            properties: views(self.properties@),
        }
    }
}

/// A declaration as written.
#[derive(Debug)]
pub enum DeclSyntax {
    Node(NodeSyntax),
    Edge(EdgeSyntax),
}

pub enum DeclSyntaxModel {
    Node(NodeSyntaxModel),
    Edge(EdgeSyntaxModel),
}

impl View for DeclSyntax {
    type V = DeclSyntaxModel;

    open spec fn view(&self) -> DeclSyntaxModel {
        match *self {
            DeclSyntax::Node(n) => DeclSyntaxModel::Node(n@),
            DeclSyntax::Edge(e) => DeclSyntaxModel::Edge(e@),
        }
    }
}

// ---------------------------------------------------------------------------
// Tokens

/// The characters that may stand between tokens.
pub open spec fn is_gap(c: char) -> bool {
    c == ' ' || c == '\t' || c == '\r' || c == '\n'
}

/// The characters of a name behind its first.
pub open spec fn is_word(c: char) -> bool {
    is_alnum(c) || c == '_'
}

/// The characters of an enumeration value.
pub open spec fn is_value_char(c: char) -> bool {
    is_word(c) || c == '-'
}

pub open spec fn char_at(s: Seq<char>, i: int, c: char) -> bool {
    0 <= i < s.len() && s[i] == c
}

/// Whether the characters `w` stand at position `i`.
pub open spec fn text_at(s: Seq<char>, i: int, w: Seq<char>) -> bool {
    0 <= i && i + w.len() <= s.len() && s.subrange(i, i + w.len() as int) == w
}

/// The end of the line that position `i` is on.
pub open spec fn line_end(s: Seq<char>, i: int) -> int
    decreases s.len() - i,
{
    if i >= s.len() || s[i] == '\n' {
        i
    } else {
        line_end(s, i + 1)
    }
}

/// The position behind the next `*/` from `i` on.
pub open spec fn block_end(s: Seq<char>, i: int) -> Option<int>
    decreases s.len() - i,
{
    if i + 1 >= s.len() {
        None
    } else if s[i] == '*' && s[i + 1] == '/' {
        Some(i + 2)
    } else {
        block_end(s, i + 1)
    }
}

pub proof fn lemma_line_end(s: Seq<char>, i: int)
    ensures
        i <= line_end(s, i),
        i <= s.len() ==> line_end(s, i) <= s.len(),
    decreases s.len() - i,
{
    if i >= s.len() || s[i] == '\n' {
    } else {
        lemma_line_end(s, i + 1);
    }
}

pub proof fn lemma_block_end(s: Seq<char>, i: int)
    ensures
        block_end(s, i) matches Some(e) ==> i < e <= s.len(),
    decreases s.len() - i,
{
    if i + 1 >= s.len() {
    } else if s[i] == '*' && s[i + 1] == '/' {
    } else {
        lemma_block_end(s, i + 1);
    }
}

/// The position of the next token: behind white space and comments.
pub open spec fn skip(s: Seq<char>, i: int) -> int
    decreases s.len() - i,
{
    proof {
        lemma_line_end(s, i + 2);
        lemma_block_end(s, i + 2);
    }
    if i < 0 || i >= s.len() {
        i
    } else if is_gap(s[i]) {
        skip(s, i + 1)
    } else if char_at(s, i, '/') && char_at(s, i + 1, '/') {
        skip(s, line_end(s, i + 2))
    } else if char_at(s, i, '/') && char_at(s, i + 1, '*') && block_end(s, i + 2) is Some {
        skip(s, block_end(s, i + 2)->0)
    } else {
        i
    }
}

pub proof fn lemma_skip(s: Seq<char>, i: int)
    ensures
        i <= skip(s, i),
        i <= s.len() ==> skip(s, i) <= s.len(),
    decreases s.len() - i,
{
    lemma_line_end(s, i + 2);
    lemma_block_end(s, i + 2);
    if i < 0 || i >= s.len() {
    } else if is_gap(s[i]) {
        lemma_skip(s, i + 1);
    } else if char_at(s, i, '/') && char_at(s, i + 1, '/') {
        lemma_skip(s, line_end(s, i + 2));
    } else if char_at(s, i, '/') && char_at(s, i + 1, '*') && block_end(s, i + 2) is Some {
        lemma_skip(s, block_end(s, i + 2)->0);
    }
}

/// The end of the run of characters of a class.
pub open spec fn run_end(s: Seq<char>, i: int, class: spec_fn(char) -> bool) -> int
    decreases s.len() - i,
{
    if 0 <= i < s.len() && class(s[i]) {
        run_end(s, i + 1, class)
    } else {
        i
    }
}

proof fn lemma_run_end(s: Seq<char>, i: int, class: spec_fn(char) -> bool)
    ensures
        i <= run_end(s, i, class),
        i <= s.len() ==> run_end(s, i, class) <= s.len(),
    decreases s.len() - i,
{
    if 0 <= i < s.len() && class(s[i]) {
        lemma_run_end(s, i + 1, class);
    }
}

pub open spec fn word_end(s: Seq<char>, i: int) -> int {
    run_end(s, i, |c: char| is_word(c))
}

pub open spec fn value_end(s: Seq<char>, i: int) -> int {
    run_end(s, i, |c: char| is_value_char(c))
}

pub open spec fn digits_end(s: Seq<char>, i: int) -> int {
    run_end(s, i, |c: char| is_digit(c))
}

/// The character `c` as the next token.
pub open spec fn expect_at(s: Seq<char>, i: int, c: char) -> Result<int, int> {
    let j = skip(s, i);
    if char_at(s, j, c) {
        Ok(j + 1)
    } else {
        Err(j)
    }
}

/// A name that starts with a lower case letter or `_`.
pub open spec fn ident_at(s: Seq<char>, i: int) -> Result<(Seq<char>, int), int> {
    let j = skip(s, i);
    if 0 <= j < s.len() && (is_lower(s[j]) || s[j] == '_') {
        Ok((s.subrange(j, word_end(s, j + 1)), word_end(s, j + 1)))
    } else {
        Err(j)
    }
}

/// A name that starts with an upper case letter.
pub open spec fn type_ident_at(s: Seq<char>, i: int) -> Result<(Seq<char>, int), int> {
    let j = skip(s, i);
    if 0 <= j < s.len() && is_upper(s[j]) {
        Ok((s.subrange(j, word_end(s, j + 1)), word_end(s, j + 1)))
    } else {
        Err(j)
    }
}

/// The position behind the quote that closes a string; a backslash escapes the next character.
pub open spec fn string_end(s: Seq<char>, i: int) -> Option<int>
    decreases s.len() - i,
{
    if i >= s.len() {
        None
    } else if s[i] == '"' {
        Some(i + 1)
    } else if s[i] == '\\' {
        if i + 1 < s.len() {
            string_end(s, i + 2)
        } else {
            None
        }
    } else {
        string_end(s, i + 1)
    }
}

proof fn lemma_string_end(s: Seq<char>, i: int)
    ensures
        string_end(s, i) matches Some(e) ==> i < e <= s.len(),
    decreases s.len() - i,
{
    if i >= s.len() {
    } else if s[i] == '"' {
    } else if s[i] == '\\' {
        if i + 1 < s.len() {
            lemma_string_end(s, i + 2);
        }
    } else {
        lemma_string_end(s, i + 1);
    }
}

/// The end of the digits of a number, a fraction included.
pub open spec fn number_end(s: Seq<char>, i: int) -> int {
    let e = digits_end(s, i);
    if char_at(s, e, '.') && 0 <= e + 1 < s.len() && is_digit(s[e + 1]) {
        digits_end(s, e + 1)
    } else {
        e
    }
}

/// The argument of an annotation: a string, a number or a name, as written.
pub open spec fn argument_at(s: Seq<char>, i: int) -> Result<(Seq<char>, int), int> {
    let j = skip(s, i);
    if char_at(s, j, '"') {
        match string_end(s, j + 1) {
            Some(e) => Ok((s.subrange(j, e), e)),
            None => Err(j),
        }
    } else if 0 <= j < s.len() && is_digit(s[j]) {
        Ok((s.subrange(j, number_end(s, j)), number_end(s, j)))
    } else if char_at(s, j, '-') && j + 1 < s.len() && is_digit(s[j + 1]) {
        Ok((s.subrange(j, number_end(s, j + 1)), number_end(s, j + 1)))
    } else {
        ident_at(s, j)
    }
}

pub open spec fn annotation_at(s: Seq<char>, i: int) -> Result<(AnnotationSyntaxModel, int), int> {
    match expect_at(s, i, '@') {
        Err(p) => Err(p),
        Ok(j) => match ident_at(s, j) {
            Err(p) => Err(p),
            Ok((name, k)) => if char_at(s, skip(s, k), '(') {
                match argument_at(s, skip(s, k) + 1) {
                    Err(p) => Err(p),
                    Ok((argument, q)) => match expect_at(s, q, ')') {
                        Err(p) => Err(p),
                        Ok(e) => Ok(
                            (AnnotationSyntaxModel { name, argument: Some(argument) }, e),
                        ),
                    },
                }
            } else {
                Ok((AnnotationSyntaxModel { name, argument: None }, k))
            },
        },
    }
}

// ---------------------------------------------------------------------------
// Every token moves forward

proof fn lemma_ident(s: Seq<char>, i: int)
    requires
        0 <= i <= s.len(),
    ensures
        match ident_at(s, i) {
            Ok((_, e)) => i < e <= s.len(),
            Err(p) => i <= p <= s.len(),
        },
        match type_ident_at(s, i) {
            Ok((_, e)) => i < e <= s.len(),
            Err(p) => i <= p <= s.len(),
        },
{
    lemma_skip(s, i);
    lemma_run_end(s, skip(s, i) + 1, |c: char| is_word(c));
}

proof fn lemma_argument(s: Seq<char>, i: int)
    requires
        0 <= i <= s.len(),
    ensures
        match argument_at(s, i) {
            Ok((_, e)) => i < e <= s.len(),
            Err(p) => i <= p <= s.len(),
        },
{
    lemma_skip(s, i);
    let j = skip(s, i);
    lemma_ident(s, j);
    lemma_string_end(s, j + 1);
    lemma_number_end(s, j);
    lemma_number_end(s, j + 1);
}

proof fn lemma_number_end(s: Seq<char>, i: int)
    ensures
        0 <= i < s.len() && is_digit(s[i]) ==> i < number_end(s, i) <= s.len(),
{
    let class = |c: char| is_digit(c);
    lemma_run_end(s, i, class);
    lemma_run_end(s, i + 1, class);
    lemma_run_end(s, digits_end(s, i) + 1, class);
}

pub proof fn lemma_annotation(s: Seq<char>, i: int)
    requires
        0 <= i <= s.len(),
    ensures
        match annotation_at(s, i) {
            Ok((_, e)) => i < e <= s.len(),
            Err(p) => i <= p <= s.len(),
        },
{
    lemma_skip(s, i);
    let j = skip(s, i) + 1;
    if char_at(s, j - 1, '@') {
        lemma_ident(s, j);
        if let Ok((_, k)) = ident_at(s, j) {
            lemma_skip(s, k);
            let p = skip(s, k);
            if char_at(s, p, '(') {
                lemma_argument(s, p + 1);
                if let Ok((_, q)) = argument_at(s, p + 1) {
                    lemma_skip(s, q);
                }
            }
        }
    }
}

// ---------------------------------------------------------------------------
// Phrases

/// As many annotations as follow, behind those in `acc`.
pub open spec fn annotations_at(
    s: Seq<char>,
    i: int,
    acc: Seq<AnnotationSyntaxModel>,
) -> Result<(Seq<AnnotationSyntaxModel>, int), int>
    decreases s.len() - i,
{
    proof {
        if 0 <= i <= s.len() {
            lemma_annotation(s, i);
        }
    }
    if 0 <= i <= s.len() && char_at(s, skip(s, i), '@') {
        match annotation_at(s, i) {
            Err(p) => Err(p),
            Ok((a, e)) => annotations_at(s, e, acc.push(a)),
        }
    } else {
        Ok((acc, i))
    }
}

proof fn lemma_annotations(s: Seq<char>, i: int, acc: Seq<AnnotationSyntaxModel>)
    requires
        0 <= i <= s.len(),
    ensures
        match annotations_at(s, i, acc) {
            Ok((_, e)) => i <= e <= s.len(),
            Err(p) => i <= p <= s.len(),
        },
    decreases s.len() - i,
{
    lemma_annotation(s, i);
    if char_at(s, skip(s, i), '@') {
        if let Ok((a, e)) = annotation_at(s, i) {
            lemma_annotations(s, e, acc.push(a));
        }
    }
}

/// One enumeration value.
pub open spec fn enum_value_at(s: Seq<char>, i: int) -> Result<(Seq<char>, int), int> {
    let j = skip(s, i);
    if 0 <= j < s.len() && is_value_char(s[j]) {
        Ok((s.subrange(j, value_end(s, j)), value_end(s, j)))
    } else {
        Err(j)
    }
}

pub proof fn lemma_enum_value(s: Seq<char>, i: int)
    requires
        0 <= i <= s.len(),
    ensures
        match enum_value_at(s, i) {
            Ok((_, e)) => i < e <= s.len(),
            Err(p) => i <= p <= s.len(),
        },
{
    lemma_skip(s, i);
    let j = skip(s, i);
    let class = |c: char| is_value_char(c);
    lemma_run_end(s, j, class);
    lemma_run_end(s, j + 1, class);
}

/// Enumeration values separated by commas, and the closing bracket.
pub open spec fn enum_values_at(s: Seq<char>, i: int, acc: Seq<Seq<char>>) -> Result<
    (Seq<Seq<char>>, int),
    int,
>
    decreases s.len() - i,
{
    proof {
        if 0 <= i <= s.len() {
            lemma_enum_value(s, i);
            if let Ok((_, e)) = enum_value_at(s, i) {
                lemma_skip(s, e);
            }
        }
    }
    if 0 <= i <= s.len() {
        match enum_value_at(s, i) {
            Err(p) => Err(p),
            Ok((v, e)) => {
                let p = skip(s, e);
                if char_at(s, p, ',') {
                    enum_values_at(s, p + 1, acc.push(v))
                } else if char_at(s, p, ')') {
                    Ok((acc.push(v), p + 1))
                } else {
                    Err(p)
                }
            },
        }
    } else {
        Err(i)
    }
}

proof fn lemma_enum_values(s: Seq<char>, i: int, acc: Seq<Seq<char>>)
    requires
        0 <= i <= s.len(),
    ensures
        match enum_values_at(s, i, acc) {
            Ok((_, e)) => i < e <= s.len(),
            Err(p) => i <= p <= s.len(),
        },
    decreases s.len() - i,
{
    lemma_enum_value(s, i);
    if let Ok((v, e)) = enum_value_at(s, i) {
        lemma_skip(s, e);
        let p = skip(s, e);
        if char_at(s, p, ',') {
            lemma_enum_values(s, p + 1, acc.push(v));
        }
    }
}

/// Decimal digits as the next token.
pub open spec fn digits_at(s: Seq<char>, i: int) -> Result<(Seq<char>, int), int> {
    let j = skip(s, i);
    if 0 <= j < s.len() && is_digit(s[j]) {
        Ok((s.subrange(j, digits_end(s, j)), digits_end(s, j)))
    } else {
        Err(j)
    }
}

proof fn lemma_digits(s: Seq<char>, i: int)
    requires
        0 <= i <= s.len(),
    ensures
        match digits_at(s, i) {
            Ok((_, e)) => i < e <= s.len(),
            Err(p) => i <= p <= s.len(),
        },
{
    lemma_skip(s, i);
    let j = skip(s, i);
    let class = |c: char| is_digit(c);
    lemma_run_end(s, j, class);
    lemma_run_end(s, j + 1, class);
}

/// A type without the mark of nullability.
pub open spec fn core_type_at(s: Seq<char>, i: int) -> Result<(CoreTypeModel, int), int> {
    let j = skip(s, i);
    if char_at(s, j, '[') {
        match type_ident_at(s, j + 1) {
            Err(p) => Err(p),
            Ok((name, k)) => match expect_at(s, k, ']') {
                Err(p) => Err(p),
                Ok(e) => Ok((CoreTypeModel::List(name), e)),
            },
        }
    } else if text_at(s, j, "enum"@) && char_at(s, skip(s, j + 4), '(') {
        match enum_values_at(s, skip(s, j + 4) + 1, Seq::empty()) {
            Err(p) => Err(p),
            Ok((values, e)) => Ok((CoreTypeModel::Enum(values), e)),
        }
    } else if text_at(s, j, "Vector"@) && char_at(s, skip(s, j + 6), '(') {
        match digits_at(s, skip(s, j + 6) + 1) {
            Err(p) => Err(p),
            Ok((digits, k)) => match expect_at(s, k, ')') {
                Err(p) => Err(p),
                Ok(e) => Ok((CoreTypeModel::Vector(digits), e)),
            },
        }
    } else {
        match type_ident_at(s, j) {
            Err(p) => Err(p),
            Ok((name, e)) => Ok((CoreTypeModel::Base(name), e)),
        }
    }
}

proof fn lemma_core_type(s: Seq<char>, i: int)
    requires
        0 <= i <= s.len(),
    ensures
        match core_type_at(s, i) {
            Ok((_, e)) => i < e <= s.len(),
            Err(p) => i <= p <= s.len(),
        },
{
    reveal_strlit("enum");
    reveal_strlit("Vector");
    lemma_skip(s, i);
    let j = skip(s, i);
    lemma_ident(s, j);
    if char_at(s, j, '[') {
        lemma_ident(s, j + 1);
        if let Ok((_, k)) = type_ident_at(s, j + 1) {
            lemma_skip(s, k);
        }
    }
    if text_at(s, j, "enum"@) {
        lemma_skip(s, j + 4);
        if char_at(s, skip(s, j + 4), '(') {
            lemma_enum_values(s, skip(s, j + 4) + 1, Seq::empty());
        }
    }
    if text_at(s, j, "Vector"@) {
        lemma_skip(s, j + 6);
        if char_at(s, skip(s, j + 6), '(') {
            lemma_digits(s, skip(s, j + 6) + 1);
            if let Ok((_, k)) = digits_at(s, skip(s, j + 6) + 1) {
                lemma_skip(s, k);
            }
        }
    }
}

/// A type.
pub open spec fn type_at(s: Seq<char>, i: int) -> Result<(TypeSyntaxModel, int), int> {
    match core_type_at(s, i) {
        Err(p) => Err(p),
        Ok((core, e)) => if char_at(s, skip(s, e), '?') {
            Ok((TypeSyntaxModel { core, nullable: true }, skip(s, e) + 1))
        } else {
            Ok((TypeSyntaxModel { core, nullable: false }, e))
        },
    }
}

/// A property.
pub open spec fn prop_at(s: Seq<char>, i: int) -> Result<(PropSyntaxModel, int), int> {
    match ident_at(s, i) {
        Err(p) => Err(p),
        Ok((name, a)) => match expect_at(s, a, ':') {
            Err(p) => Err(p),
            Ok(b) => match type_at(s, b) {
                Err(p) => Err(p),
                Ok((type_ref, c)) => match annotations_at(s, c, Seq::empty()) {
                    Err(p) => Err(p),
                    Ok((annotations, e)) => Ok((PropSyntaxModel { name, type_ref, annotations }, e)),
                },
            },
        },
    }
}

proof fn lemma_type(s: Seq<char>, i: int)
    requires
        0 <= i <= s.len(),
    ensures
        match type_at(s, i) {
            Ok((_, e)) => i < e <= s.len(),
            Err(p) => i <= p <= s.len(),
        },
{
    lemma_core_type(s, i);
    if let Ok((_, e)) = core_type_at(s, i) {
        lemma_skip(s, e);
    }
}

pub proof fn lemma_prop(s: Seq<char>, i: int)
    requires
        0 <= i <= s.len(),
    ensures
        match prop_at(s, i) {
            Ok((_, e)) => i < e <= s.len(),
            Err(p) => i <= p <= s.len(),
        },
{
    lemma_ident(s, i);
    if let Ok((_, a)) = ident_at(s, i) {
        lemma_skip(s, a);
        if let Ok(b) = expect_at(s, a, ':') {
            lemma_type(s, b);
            if let Ok((_, c)) = type_at(s, b) {
                lemma_annotations(s, c, Seq::empty());
            }
        }
    }
}

/// Properties up to the closing brace, which is consumed.
pub open spec fn props_at(s: Seq<char>, i: int, acc: Seq<PropSyntaxModel>) -> Result<
    (Seq<PropSyntaxModel>, int),
    int,
>
    decreases s.len() - i,
{
    proof {
        if 0 <= i <= s.len() {
            lemma_prop(s, i);
        }
    }
    if 0 <= i <= s.len() && !char_at(s, skip(s, i), '}') {
        match prop_at(s, i) {
            Err(p) => Err(p),
            Ok((prop, e)) => props_at(s, e, acc.push(prop)),
        }
    } else {
        Ok((acc, skip(s, i) + 1))
    }
}

proof fn lemma_props(s: Seq<char>, i: int, acc: Seq<PropSyntaxModel>)
    requires
        0 <= i <= s.len(),
    ensures
        match props_at(s, i, acc) {
            Ok((_, e)) => i < e <= s.len(),
            Err(p) => i <= p <= s.len(),
        },
    decreases s.len() - i,
{
    lemma_skip(s, i);
    lemma_prop(s, i);
    if !char_at(s, skip(s, i), '}') {
        if let Ok((prop, e)) = prop_at(s, i) {
            lemma_props(s, e, acc.push(prop));
        }
    }
}

/// What stands behind the name and the annotations of a node: an optional parent.
pub open spec fn parent_at(s: Seq<char>, i: int) -> Result<(Option<Seq<char>>, int), int> {
    if char_at(s, skip(s, i), ':') {
        match type_ident_at(s, skip(s, i) + 1) {
            Err(p) => Err(p),
            Ok((name, e)) => Ok((Some(name), e)),
        }
    } else {
        Ok((None, i))
    }
}

/// A node declaration, from behind the word `node`.
pub open spec fn node_at(s: Seq<char>, i: int) -> Result<(NodeSyntaxModel, int), int> {
    match type_ident_at(s, i) {
        Err(p) => Err(p),
        Ok((name, a)) => match annotations_at(s, a, Seq::empty()) {
            Err(p) => Err(p),
            Ok((annotations, b)) => match parent_at(s, b) {
                Err(p) => Err(p),
                Ok((parent, c)) => match expect_at(s, c, '{') {
                    Err(p) => Err(p),
                    Ok(d) => match props_at(s, d, Seq::empty()) {
                        Err(p) => Err(p),
                        Ok((properties, e)) => Ok(
                            (NodeSyntaxModel { name, annotations, parent, properties }, e),
                        ),
                    },
                },
            },
        },
    }
}

/// The arrow between the two ends of an edge.
pub open spec fn arrow_after(s: Seq<char>, i: int) -> Result<int, int> {
    let j = skip(s, i);
    if char_at(s, j, '-') && char_at(s, j + 1, '>') {
        Ok(j + 2)
    } else {
        Err(j)
    }
}

/// The optional body of an edge.
pub open spec fn body_at(s: Seq<char>, i: int) -> Result<(Seq<PropSyntaxModel>, int), int> {
    if char_at(s, skip(s, i), '{') {
        props_at(s, skip(s, i) + 1, Seq::empty())
    } else {
        Ok((Seq::empty(), i))
    }
}

/// An edge declaration, from behind the word `edge`.
pub open spec fn edge_at(s: Seq<char>, i: int) -> Result<(EdgeSyntaxModel, int), int> {
    match type_ident_at(s, i) {
        Err(p) => Err(p),
        Ok((name, a)) => match expect_at(s, a, ':') {
            Err(p) => Err(p),
            Ok(b) => match type_ident_at(s, b) {
                Err(p) => Err(p),
                Ok((from_type, c)) => match arrow_after(s, c) {
                    Err(p) => Err(p),
                    Ok(d) => match type_ident_at(s, d) {
                        Err(p) => Err(p),
                        Ok((to_type, f)) => match annotations_at(s, f, Seq::empty()) {
                            Err(p) => Err(p),
                            Ok((annotations, g)) => match body_at(s, g) {
                                Err(p) => Err(p),
                                Ok((properties, e)) => Ok(
                                    (
                                        EdgeSyntaxModel {
                                            name,
                                            from_type,
                                            to_type,
                                            annotations,
                                            properties,
                                        },
                                        e,
                                    ),
                                ),
                            },
                        },
                    },
                },
            },
        },
    }
}

proof fn lemma_parent(s: Seq<char>, i: int)
    requires
        0 <= i <= s.len(),
    ensures
        match parent_at(s, i) {
            Ok((_, e)) => i <= e <= s.len(),
            Err(p) => i <= p <= s.len(),
        },
{
    lemma_skip(s, i);
    if char_at(s, skip(s, i), ':') {
        lemma_ident(s, skip(s, i) + 1);
    }
}

proof fn lemma_node(s: Seq<char>, i: int)
    requires
        0 <= i <= s.len(),
    ensures
        match node_at(s, i) {
            Ok((_, e)) => i < e <= s.len(),
            Err(p) => i <= p <= s.len(),
        },
{
    lemma_ident(s, i);
    if let Ok((_, a)) = type_ident_at(s, i) {
        lemma_annotations(s, a, Seq::empty());
        if let Ok((_, b)) = annotations_at(s, a, Seq::empty()) {
            lemma_parent(s, b);
            if let Ok((_, c)) = parent_at(s, b) {
                lemma_skip(s, c);
                if let Ok(d) = expect_at(s, c, '{') {
                    lemma_props(s, d, Seq::empty());
                }
            }
        }
    }
}

proof fn lemma_body(s: Seq<char>, i: int)
    requires
        0 <= i <= s.len(),
    ensures
        match body_at(s, i) {
            Ok((_, e)) => i <= e <= s.len(),
            Err(p) => i <= p <= s.len(),
        },
{
    lemma_skip(s, i);
    if char_at(s, skip(s, i), '{') {
        lemma_props(s, skip(s, i) + 1, Seq::empty());
    }
}

proof fn lemma_edge(s: Seq<char>, i: int)
    requires
        0 <= i <= s.len(),
    ensures
        match edge_at(s, i) {
            Ok((_, e)) => i < e <= s.len(),
            Err(p) => i <= p <= s.len(),
        },
{
    lemma_ident(s, i);
    if let Ok((_, a)) = type_ident_at(s, i) {
        lemma_skip(s, a);
        if let Ok(b) = expect_at(s, a, ':') {
            lemma_ident(s, b);
            if let Ok((_, c)) = type_ident_at(s, b) {
                lemma_skip(s, c);
                if let Ok(d) = arrow_after(s, c) {
                    lemma_ident(s, d);
                    if let Ok((_, f)) = type_ident_at(s, d) {
                        lemma_annotations(s, f, Seq::empty());
                        if let Ok((_, g)) = annotations_at(s, f, Seq::empty()) {
                            lemma_body(s, g);
                        }
                    }
                }
            }
        }
    }
}

/// One declaration; position `i` is where its first word starts.
pub open spec fn decl_at(s: Seq<char>, i: int) -> Result<(DeclSyntaxModel, int), int> {
    if text_at(s, i, "node"@) {
        match node_at(s, i + 4) {
            Err(p) => Err(p),
            Ok((node, e)) => Ok((DeclSyntaxModel::Node(node), e)),
        }
    } else if text_at(s, i, "edge"@) {
        match edge_at(s, i + 4) {
            Err(p) => Err(p),
            Ok((edge, e)) => Ok((DeclSyntaxModel::Edge(edge), e)),
        }
    } else {
        Err(i)
    }
}

pub proof fn lemma_decl(s: Seq<char>, i: int)
    requires
        0 <= i <= s.len(),
    ensures
        match decl_at(s, i) {
            Ok((_, e)) => i < e <= s.len(),
            Err(p) => i <= p <= s.len(),
        },
{
    reveal_strlit("node");
    reveal_strlit("edge");
    if text_at(s, i, "node"@) {
        lemma_node(s, i + 4);
    }
    if text_at(s, i, "edge"@) {
        lemma_edge(s, i + 4);
    }
}

/// The declarations up to the end of the text, behind those in `acc`.
pub open spec fn decls_at(s: Seq<char>, i: int, acc: Seq<DeclSyntaxModel>) -> Result<
    Seq<DeclSyntaxModel>,
    int,
>
    decreases s.len() - i,
{
    let j = skip(s, i);
    proof {
        lemma_skip(s, i);
        if 0 <= i <= s.len() {
            lemma_decl(s, j);
        }
    }
    if 0 <= i <= s.len() && j < s.len() {
        match decl_at(s, j) {
            Err(p) => Err(p),
            Ok((decl, e)) => decls_at(s, e, acc.push(decl)),
        }
    } else {
        Ok(acc)
    }
}

/// The tree of a schema text, or the position at which the text goes wrong.
pub open spec fn schema_syntax(s: Seq<char>) -> Result<Seq<DeclSyntaxModel>, int> {
    decls_at(s, 0, Seq::empty())
}

// ---------------------------------------------------------------------------
// The parser

/// Whether a parser's result is what the grammar gives.
pub open spec fn agrees<T: View>(
    r: Result<(T, usize), usize>,
    m: Result<(T::V, int), int>,
    len: nat,
) -> bool {
    match r {
        Ok((x, e)) => m == Ok::<(T::V, int), int>((x@, e as int)) && e <= len,
        Err(p) => m == Err::<(T::V, int), int>(p as int) && p <= len,
    }
}

/// The same for a list of parsed values.
pub open spec fn agrees_list<T: View>(
    r: Result<(Vec<T>, usize), usize>,
    m: Result<(Seq<T::V>, int), int>,
    len: nat,
) -> bool {
    match r {
        Ok((x, e)) => m == Ok::<(Seq<T::V>, int), int>((views(x@), e as int)) && e <= len,
        Err(p) => m == Err::<(Seq<T::V>, int), int>(p as int) && p <= len,
    }
}

/// The same for a token without a value.
pub open spec fn agrees_end(r: Result<usize, usize>, m: Result<int, int>, len: nat) -> bool {
    match r {
        Ok(e) => m == Ok::<int, int>(e as int) && e <= len,
        Err(p) => m == Err::<int, int>(p as int) && p <= len,
    }
}

fn word(c: char) -> (r: bool)
    ensures
        r == is_word(c),
{
    alnum(c) || c == '_'
}

fn next_is(s: &Vec<char>, i: usize, c: char) -> (r: bool)
    ensures
        r == char_at(s@, i as int, c),
        r ==> i < usize::MAX,
{
    i < s.len() && s[i] == c
}

fn scan_line_end(s: &Vec<char>, i: usize) -> (r: usize)
    requires
        i <= s@.len(),
    ensures
        r == line_end(s@, i as int),
        i <= r <= s@.len(),
{
    let mut k: usize = i;
    while k < s.len() && s[k] != '\n'
        invariant
            i <= k <= s@.len(),
            line_end(s@, i as int) == line_end(s@, k as int),
        decreases s@.len() - k,
    {
        k = k + 1;
    }
    k
}

fn scan_block_end(s: &Vec<char>, i: usize) -> (r: Option<usize>)
    requires
        i <= s@.len(),
    ensures
        match r {
            Some(e) => block_end(s@, i as int) == Some(e as int) && i < e <= s@.len(),
            None => block_end(s@, i as int) is None,
        },
{
    let mut k: usize = i;
    while k < s.len() && s.len() - k > 1
        invariant
            i <= k <= s@.len(),
            block_end(s@, i as int) == block_end(s@, k as int),
        decreases s@.len() - k,
    {
        if s[k] == '*' && s[k + 1] == '/' {
            return Some(k + 2);
        }
        k = k + 1;
    }
    None
}

fn scan_skip(s: &Vec<char>, i: usize) -> (r: usize)
    requires
        i <= s@.len(),
    ensures
        r == skip(s@, i as int),
        i <= r <= s@.len(),
{
    let mut k: usize = i;
    while k < s.len()
        invariant
            i <= k <= s@.len(),
            skip(s@, i as int) == skip(s@, k as int),
        decreases s@.len() - k,
    {
        let c: char = s[k];
        if c == ' ' || c == '\t' || c == '\r' || c == '\n' {
            k = k + 1;
        } else if c == '/' && next_is(s, k + 1, '/') {
            k = scan_line_end(s, k + 2);
        } else if c == '/' && next_is(s, k + 1, '*') {
            match scan_block_end(s, k + 2) {
                Some(e) => {
                    k = e;
                },
                None => {
                    return k;
                },
            }
        } else {
            return k;
        }
    }
    k
}

fn scan_word_end(s: &Vec<char>, i: usize) -> (r: usize)
    requires
        i <= s@.len(),
    ensures
        r == word_end(s@, i as int),
        i <= r <= s@.len(),
{
    let mut k: usize = i;
    while k < s.len() && word(s[k])
        invariant
            i <= k <= s@.len(),
            word_end(s@, i as int) == word_end(s@, k as int),
        decreases s@.len() - k,
    {
        k = k + 1;
    }
    k
}

fn scan_value_end(s: &Vec<char>, i: usize) -> (r: usize)
    requires
        i <= s@.len(),
    ensures
        r == value_end(s@, i as int),
        i <= r <= s@.len(),
{
    let mut k: usize = i;
    while k < s.len() && (word(s[k]) || s[k] == '-')
        invariant
            i <= k <= s@.len(),
            value_end(s@, i as int) == value_end(s@, k as int),
        decreases s@.len() - k,
    {
        k = k + 1;
    }
    k
}

fn scan_digits_end(s: &Vec<char>, i: usize) -> (r: usize)
    requires
        i <= s@.len(),
    ensures
        r == digits_end(s@, i as int),
        i <= r <= s@.len(),
{
    let mut k: usize = i;
    while k < s.len() && digit(s[k])
        invariant
            i <= k <= s@.len(),
            digits_end(s@, i as int) == digits_end(s@, k as int),
        decreases s@.len() - k,
    {
        k = k + 1;
    }
    k
}

fn scan_number_end(s: &Vec<char>, i: usize) -> (r: usize)
    requires
        i <= s@.len(),
    ensures
        r == number_end(s@, i as int),
        i <= r <= s@.len(),
{
    let e = scan_digits_end(s, i);
    if next_is(s, e, '.') && e + 1 < s.len() && digit(s[e + 1]) {
        scan_digits_end(s, e + 1)
    } else {
        e
    }
}

fn scan_string_end(s: &Vec<char>, i: usize) -> (r: Option<usize>)
    requires
        i <= s@.len(),
    ensures
        match r {
            Some(e) => string_end(s@, i as int) == Some(e as int) && i < e <= s@.len(),
            None => string_end(s@, i as int) is None,
        },
{
    let mut k: usize = i;
    while k < s.len()
        invariant
            i <= k <= s@.len(),
            string_end(s@, i as int) == string_end(s@, k as int),
        decreases s@.len() - k,
    {
        if s[k] == '"' {
            return Some(k + 1);
        }
        if s[k] == '\\' {
            if s.len() - k > 1 {
                k = k + 2;
            } else {
                return None;
            }
        } else {
            k = k + 1;
        }
    }
    None
}

fn expect(s: &Vec<char>, i: usize, c: char) -> (r: Result<usize, usize>)
    requires
        i <= s@.len(),
    ensures
        agrees_end(r, expect_at(s@, i as int, c), s@.len()),
        r matches Ok(e) ==> i < e,
{
    let j = scan_skip(s, i);
    if next_is(s, j, c) {
        Ok(j + 1)
    } else {
        Err(j)
    }
}

fn parse_ident(s: &Vec<char>, i: usize) -> (r: Result<(String, usize), usize>)
    requires
        i <= s@.len(),
    ensures
        agrees(r, ident_at(s@, i as int), s@.len()),
{
    let j = scan_skip(s, i);
    if j < s.len() && (lower(s[j]) || s[j] == '_') {
        let e = scan_word_end(s, j + 1);
        Ok((string_of(s, j, e), e))
    } else {
        Err(j)
    }
}

fn parse_type_ident(s: &Vec<char>, i: usize) -> (r: Result<(String, usize), usize>)
    requires
        i <= s@.len(),
    ensures
        agrees(r, type_ident_at(s@, i as int), s@.len()),
{
    let j = scan_skip(s, i);
    if j < s.len() && upper(s[j]) {
        let e = scan_word_end(s, j + 1);
        Ok((string_of(s, j, e), e))
    } else {
        Err(j)
    }
}

fn parse_argument(s: &Vec<char>, i: usize) -> (r: Result<(String, usize), usize>)
    requires
        i <= s@.len(),
    ensures
        agrees(r, argument_at(s@, i as int), s@.len()),
{
    let j = scan_skip(s, i);
    if next_is(s, j, '"') {
        match scan_string_end(s, j + 1) {
            Some(e) => Ok((string_of(s, j, e), e)),
            None => Err(j),
        }
    } else if j < s.len() && digit(s[j]) {
        let e = scan_number_end(s, j);
        Ok((string_of(s, j, e), e))
    } else if next_is(s, j, '-') && j + 1 < s.len() && digit(s[j + 1]) {
        let e = scan_number_end(s, j + 1);
        Ok((string_of(s, j, e), e))
    } else {
        parse_ident(s, j)
    }
}

fn parse_annotation_syntax(s: &Vec<char>, i: usize) -> (r: Result<(AnnotationSyntax, usize), usize>)
    requires
        i <= s@.len(),
    ensures
        agrees(r, annotation_at(s@, i as int), s@.len()),
        r matches Ok((_, e)) ==> i < e,
{
    proof {
        lemma_annotation(s@, i as int);
    }
    let j = expect(s, i, '@')?;
    let (name, k) = parse_ident(s, j)?;
    let p = scan_skip(s, k);
    if next_is(s, p, '(') {
        let (argument, q) = parse_argument(s, p + 1)?;
        let e = expect(s, q, ')')?;
        Ok((AnnotationSyntax { name, argument: Some(argument) }, e))
    } else {
        Ok((AnnotationSyntax { name, argument: None }, k))
    }
}

fn parse_annotations(s: &Vec<char>, i: usize) -> (r: Result<(Vec<AnnotationSyntax>, usize), usize>)
    requires
        i <= s@.len(),
    ensures
        agrees_list(r, annotations_at(s@, i as int, Seq::empty()), s@.len()),
{
    let mut acc: Vec<AnnotationSyntax> = Vec::new();
    let mut k: usize = i;
    assert(views(acc@) =~= Seq::<AnnotationSyntaxModel>::empty());
    loop
        invariant
            k <= s@.len(),
            annotations_at(s@, i as int, Seq::empty()) == annotations_at(
                s@,
                k as int,
                views(acc@),
            ),
        decreases s@.len() - k,
    {
        let j = scan_skip(s, k);
        if !next_is(s, j, '@') {
            return Ok((acc, k));
        }
        let (a, e) = parse_annotation_syntax(s, k)?;
        proof {
            lemma_views_push(acc@, a);
        }
        acc.push(a);
        k = e;
    }
}

fn parse_enum_value(s: &Vec<char>, i: usize) -> (r: Result<(String, usize), usize>)
    requires
        i <= s@.len(),
    ensures
        agrees(r, enum_value_at(s@, i as int), s@.len()),
        r matches Ok((_, e)) ==> i < e,
{
    proof {
        lemma_enum_value(s@, i as int);
    }
    let j = scan_skip(s, i);
    if j < s.len() && (word(s[j]) || s[j] == '-') {
        let e = scan_value_end(s, j);
        Ok((string_of(s, j, e), e))
    } else {
        Err(j)
    }
}

fn parse_enum_values(s: &Vec<char>, i: usize) -> (r: Result<(Vec<String>, usize), usize>)
    requires
        i <= s@.len(),
    ensures
        agrees_list(r, enum_values_at(s@, i as int, Seq::empty()), s@.len()),
{
    let mut acc: Vec<String> = Vec::new();
    let mut k: usize = i;
    assert(views(acc@) =~= Seq::<Seq<char>>::empty());
    loop
        invariant
            k <= s@.len(),
            enum_values_at(s@, i as int, Seq::empty()) == enum_values_at(
                s@,
                k as int,
                views(acc@),
            ),
        decreases s@.len() - k,
    {
        let (v, e) = parse_enum_value(s, k)?;
        let p = scan_skip(s, e);
        proof {
            lemma_views_push(acc@, v);
        }
        acc.push(v);
        if next_is(s, p, ',') {
            k = p + 1;
        } else if next_is(s, p, ')') {
            return Ok((acc, p + 1));
        } else {
            return Err(p);
        }
    }
}

fn parse_digits(s: &Vec<char>, i: usize) -> (r: Result<(String, usize), usize>)
    requires
        i <= s@.len(),
    ensures
        agrees(r, digits_at(s@, i as int), s@.len()),
{
    let j = scan_skip(s, i);
    if j < s.len() && digit(s[j]) {
        let e = scan_digits_end(s, j);
        Ok((string_of(s, j, e), e))
    } else {
        Err(j)
    }
}

fn starts_text(s: &Vec<char>, i: usize, w: &str) -> (r: bool)
    requires
        i <= s@.len(),
    ensures
        r == text_at(s@, i as int, w@),
        r ==> i + w@.len() <= usize::MAX,
{
    let v = crate::text::chars_of(w);
    if s.len() - i < v.len() {
        return false;
    }
    let mut k: usize = 0;
    while k < v.len()
        invariant
            v@ == w@,
            k <= v@.len(),
            i + v@.len() <= s@.len(),
            i + v@.len() <= usize::MAX,
            forall|j: int| 0 <= j < k ==> s@[i + j] == w@[j],
        decreases v@.len() - k,
    {
        if s[i + k] != v[k] {
            assert(s@.subrange(i as int, i + w@.len() as int)[k as int] != w@[k as int]);
            return false;
        }
        k = k + 1;
    }
    assert(s@.subrange(i as int, i + w@.len() as int) =~= w@);
    true
}

fn parse_core_type(s: &Vec<char>, i: usize) -> (r: Result<(CoreType, usize), usize>)
    requires
        i <= s@.len(),
    ensures
        agrees(r, core_type_at(s@, i as int), s@.len()),
{
    proof {
        reveal_strlit("enum");
        reveal_strlit("Vector");
    }
    let j = scan_skip(s, i);
    if next_is(s, j, '[') {
        let (name, k) = parse_type_ident(s, j + 1)?;
        let e = expect(s, k, ']')?;
        return Ok((CoreType::List(name), e));
    }
    if starts_text(s, j, "enum") {
        let p = scan_skip(s, j + 4);
        if next_is(s, p, '(') {
            let (values, e) = parse_enum_values(s, p + 1)?;
            return Ok((CoreType::Enum(values), e));
        }
    }
    if starts_text(s, j, "Vector") {
        let p = scan_skip(s, j + 6);
        if next_is(s, p, '(') {
            let (digits, k) = parse_digits(s, p + 1)?;
            let e = expect(s, k, ')')?;
            return Ok((CoreType::Vector(digits), e));
        }
    }
    let (name, e) = parse_type_ident(s, j)?;
    Ok((CoreType::Base(name), e))
}

fn parse_type_syntax(s: &Vec<char>, i: usize) -> (r: Result<(TypeSyntax, usize), usize>)
    requires
        i <= s@.len(),
    ensures
        agrees(r, type_at(s@, i as int), s@.len()),
{
    let (core, e) = parse_core_type(s, i)?;
    let q = scan_skip(s, e);
    if next_is(s, q, '?') {
        Ok((TypeSyntax { core, nullable: true }, q + 1))
    } else {
        Ok((TypeSyntax { core, nullable: false }, e))
    }
}

fn parse_prop_syntax(s: &Vec<char>, i: usize) -> (r: Result<(PropSyntax, usize), usize>)
    requires
        i <= s@.len(),
    ensures
        agrees(r, prop_at(s@, i as int), s@.len()),
        r matches Ok((_, e)) ==> i < e,
{
    proof {
        lemma_prop(s@, i as int);
    }
    let (name, a) = parse_ident(s, i)?;
    let b = expect(s, a, ':')?;
    let (type_ref, c) = parse_type_syntax(s, b)?;
    let (annotations, e) = parse_annotations(s, c)?;
    Ok((PropSyntax { name, type_ref, annotations }, e))
}

fn parse_props(s: &Vec<char>, i: usize) -> (r: Result<(Vec<PropSyntax>, usize), usize>)
    requires
        i <= s@.len(),
    ensures
        agrees_list(r, props_at(s@, i as int, Seq::empty()), s@.len()),
{
    let mut acc: Vec<PropSyntax> = Vec::new();
    let mut k: usize = i;
    assert(views(acc@) =~= Seq::<PropSyntaxModel>::empty());
    loop
        invariant
            k <= s@.len(),
            props_at(s@, i as int, Seq::empty()) == props_at(s@, k as int, views(acc@)),
        decreases s@.len() - k,
    {
        let j = scan_skip(s, k);
        if next_is(s, j, '}') {
            return Ok((acc, j + 1));
        }
        let (prop, e) = parse_prop_syntax(s, k)?;
        proof {
            lemma_views_push(acc@, prop);
        }
        acc.push(prop);
        k = e;
    }
}

fn parse_node_syntax(s: &Vec<char>, i: usize) -> (r: Result<(NodeSyntax, usize), usize>)
    requires
        i <= s@.len(),
    ensures
        agrees(r, node_at(s@, i as int), s@.len()),
{
    let (name, a) = parse_type_ident(s, i)?;
    let (annotations, b) = parse_annotations(s, a)?;
    let mut parent: Option<String> = None;
    let mut c: usize = b;
    let p = scan_skip(s, b);
    if next_is(s, p, ':') {
        let (name, e) = parse_type_ident(s, p + 1)?;
        parent = Some(name);
        c = e;
    }
    let d = expect(s, c, '{')?;
    let (properties, e) = parse_props(s, d)?;
    Ok((NodeSyntax { name, annotations, parent, properties }, e))
}

fn parse_edge_syntax(s: &Vec<char>, i: usize) -> (r: Result<(EdgeSyntax, usize), usize>)
    requires
        i <= s@.len(),
    ensures
        agrees(r, edge_at(s@, i as int), s@.len()),
{
    let (name, a) = parse_type_ident(s, i)?;
    let b = expect(s, a, ':')?;
    let (from_type, c) = parse_type_ident(s, b)?;
    let j = scan_skip(s, c);
    if !(next_is(s, j, '-') && next_is(s, j + 1, '>')) {
        return Err(j);
    }
    let (to_type, f) = parse_type_ident(s, j + 2)?;
    let (annotations, g) = parse_annotations(s, f)?;
    let p = scan_skip(s, g);
    if next_is(s, p, '{') {
        let (properties, e) = parse_props(s, p + 1)?;
        Ok((EdgeSyntax { name, from_type, to_type, annotations, properties }, e))
    } else {
        let properties: Vec<PropSyntax> = Vec::new();
        assert(views(properties@) =~= Seq::<PropSyntaxModel>::empty());
        Ok((EdgeSyntax { name, from_type, to_type, annotations, properties }, g))
    }
}

fn parse_decl_syntax(s: &Vec<char>, i: usize) -> (r: Result<(DeclSyntax, usize), usize>)
    requires
        i <= s@.len(),
    ensures
        agrees(r, decl_at(s@, i as int), s@.len()),
        r matches Ok((_, e)) ==> i < e,
{
    proof {
        reveal_strlit("node");
        reveal_strlit("edge");
        lemma_decl(s@, i as int);
    }
    if starts_text(s, i, "node") {
        let (node, e) = parse_node_syntax(s, i + 4)?;
        Ok((DeclSyntax::Node(node), e))
    } else if starts_text(s, i, "edge") {
        let (edge, e) = parse_edge_syntax(s, i + 4)?;
        Ok((DeclSyntax::Edge(edge), e))
    } else {
        Err(i)
    }
}

/// Parses a whole schema text.
pub fn parse_syntax(s: &Vec<char>) -> (r: Result<Vec<DeclSyntax>, usize>)
    ensures
        match r {
            Ok(decls) => schema_syntax(s@) == Ok::<Seq<DeclSyntaxModel>, int>(views(decls@)),
            Err(p) => schema_syntax(s@) == Err::<Seq<DeclSyntaxModel>, int>(p as int) && p
                <= s@.len(),
        },
{
    let mut acc: Vec<DeclSyntax> = Vec::new();
    let mut k: usize = 0;
    assert(views(acc@) =~= Seq::<DeclSyntaxModel>::empty());
    loop
        invariant
            k <= s@.len(),
            schema_syntax(s@) == decls_at(s@, k as int, views(acc@)),
        decreases s@.len() - k,
    {
        let j = scan_skip(s, k);
        if j >= s.len() {
            return Ok(acc);
        }
        match parse_decl_syntax(s, j) {
            Err(p) => {
                return Err(p);
            },
            Ok((decl, e)) => {
                proof {
                    lemma_views_push(acc@, decl);
                }
                acc.push(decl);
                k = e;
            },
        }
    }
}

} // verus!
