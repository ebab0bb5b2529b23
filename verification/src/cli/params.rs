//! Arguments of queries, and the predicate of a deletion.

use crate::cli::error::CliError;
use crate::cli::lines::{join, join_of};
use crate::json::{json_read, read_json, JsonReading};
use crate::names::NameMap;
use crate::strings::{after_prefix, ascii_lowercase, find_from, find_text, has_prefix, lowered, strip_prefix, trim, trimmed};
use crate::text::{cat2, cat3, cat4, cat5, cat6, cat7, chars_of, decimal, decimal_u64, digit, is_digit, lemma_views_push, parse_int, read_int, same, string_of, views};
use vstd::prelude::*;

verus! {

// ---------------------------------------------------------------------------
// Single arguments

/// A text without the quotation marks around it, if it stands in two of a kind.
pub open spec fn unquoted(s: Seq<char>) -> Seq<char> {
    if s.len() >= 2 && ((s[0] == '"' && s.last() == '"') || (s[0] == '\'' && s.last() == '\'')) {
        s.subrange(1, s.len() - 1)
    } else {
        s
    }
}

/// A text without the quotation marks around it, if it stands in two of a kind.
pub fn strip_matching_quotes(input: &str) -> (r: String)
    ensures
        r@ == unquoted(input@),
{
    let v = chars_of(input);
    let n: usize = v.len();
    if n >= 2 && ((v[0] == '"' && v[n - 1] == '"') || (v[0] == '\'' && v[n - 1] == '\'')) {
        string_of(&v, 1, n - 1)
    } else {
        input.to_owned()
    }
}

/// The name and the value of an argument `key=value`.
pub open spec fn param_of(s: Seq<char>) -> Result<(Seq<char>, Seq<char>), Seq<char>> {
    match find_from(s, "="@, 0) {
        Some(i) => Ok((s.take(i), unquoted(s.skip(i + 1)))),
        None => Err("invalid param '"@ + s + "': expected key=value"@),
    }
}

/// Reads an argument `key=value`.
pub fn parse_param(s: &str) -> (r: Result<(String, String), String>)
    ensures
        match r {
            Ok((k, v)) => param_of(s@) == Ok::<(Seq<char>, Seq<char>), Seq<char>>((k@, v@)),
            Err(m) => param_of(s@) == Err::<(Seq<char>, Seq<char>), Seq<char>>(m@),
        },
{
    proof {
        reveal_strlit("=");
    }
    let v = chars_of(s);
    let n: usize = v.len();
    match find_text(&v, "=") {
        None => Err(cat3("invalid param '", s, "': expected key=value")),
        Some(i) => {
            let key = string_of(&v, 0, i);
            let value = string_of(&v, i + 1, n);
            assert(key@ =~= s@.take(i as int));
            assert(value@ =~= s@.skip(i + 1));
            Ok((key, strip_matching_quotes(&value)))
        },
    }
}

/// A name without `=`, then `=`, then a value that does not stand in quotation marks, is
/// read as that name and that value.
pub proof fn law_param_is_read(key: Seq<char>, value: Seq<char>)
    requires
        forall|i: int| 0 <= i < key.len() ==> key[i] != '=',
        unquoted(value) == value,
    ensures
        param_of(key + "="@ + value) == Ok::<(Seq<char>, Seq<char>), Seq<char>>((key, value)),
{
    reveal_strlit("=");
    let s = key + "="@ + value;
    lemma_first_equals(key, value, 0);
    assert(s.take(key.len() as int) =~= key);
    assert(s.skip(key.len() as int + 1) =~= value);
}

proof fn lemma_first_equals(key: Seq<char>, value: Seq<char>, i: int)
    requires
        forall|i: int| 0 <= i < key.len() ==> key[i] != '=',
        0 <= i <= key.len(),
    ensures
        find_from(key + "="@ + value, "="@, i) == Some(key.len() as int),
    decreases key.len() - i,
{
    reveal_strlit("=");
    let s = key + "="@ + value;
    let here = s.subrange(i, i + 1);
    if i < key.len() {
        assert(here[0] == key[i]);
        assert("="@[0] == '=');
        lemma_first_equals(key, value, i + 1);
    } else {
        assert(here =~= "="@);
    }
}

// ---------------------------------------------------------------------------
// Deletions

/// How a property is compared with a value.
#[derive(Debug, Clone, Copy, PartialEq, Eq, Structural)]
pub enum DeleteOp {
    Eq,
    Ne,
    Gt,
    Ge,
    Lt,
    Le,
}

/// Which nodes to delete.
#[derive(Debug)]
pub struct DeletePredicate {
    pub property: String,
    pub op: DeleteOp,
    pub value: String,
}

/// The mathematical value of a `DeletePredicate`.
pub struct PredicateModel {
    pub property: Seq<char>,
    pub op: DeleteOp,
    pub value: Seq<char>,
}

impl View for DeletePredicate {
    type V = PredicateModel;

    open spec fn view(&self) -> PredicateModel {
        PredicateModel { property: self.property@, op: self.op, value: self.value@ }
    }
}

/// The predicate whose operator is the text of `width` characters at position `i`.
pub open spec fn predicate_at(s: Seq<char>, i: int, width: int, op: DeleteOp) -> Result<
    PredicateModel,
    Seq<char>,
> {
    let property = trimmed(s.take(i));
    let value = trimmed(s.skip(i + width));
    if property.len() == 0 || value.len() == 0 {
        Err("invalid --where predicate '"@ + s + "': expected <property><op><value>"@)
    } else {
        Ok(PredicateModel { property, op, value: unquoted(value) })
    }
}

/// The predicate that a text stands for. The operators are looked for in the order `>=`,
/// `<=`, `!=`, `=`, `>`, `<`, and the first that occurs counts, where it first occurs.
pub open spec fn predicate_of(s: Seq<char>) -> Result<PredicateModel, Seq<char>> {
    match find_from(s, ">="@, 0) {
        Some(i) => predicate_at(s, i, 2, DeleteOp::Ge),
        None => match find_from(s, "<="@, 0) {
            Some(i) => predicate_at(s, i, 2, DeleteOp::Le),
            None => match find_from(s, "!="@, 0) {
                Some(i) => predicate_at(s, i, 2, DeleteOp::Ne),
                None => match find_from(s, "="@, 0) {
                    Some(i) => predicate_at(s, i, 1, DeleteOp::Eq),
                    None => match find_from(s, ">"@, 0) {
                        Some(i) => predicate_at(s, i, 1, DeleteOp::Gt),
                        None => match find_from(s, "<"@, 0) {
                            Some(i) => predicate_at(s, i, 1, DeleteOp::Lt),
                            None => Err(
                                "invalid --where predicate '"@ + s
                                    + "': supported operators are =, !=, >, >=, <, <="@,
                            ),
                        },
                    },
                },
            },
        },
    }
}

fn split_predicate(input: &str, v: &Vec<char>, i: usize, width: usize, op: DeleteOp) -> (r: Result<
    DeletePredicate,
    CliError,
>)
    requires
        v@ == input@,
        i + width <= v@.len(),
    ensures
        match r {
            Ok(p) => predicate_at(input@, i as int, width as int, op) == Ok::<
                PredicateModel,
                Seq<char>,
            >(p@),
            Err(e) => predicate_at(input@, i as int, width as int, op) == Err::<
                PredicateModel,
                Seq<char>,
            >(e@),
        },
{
    let n: usize = v.len();
    let left = string_of(v, 0, i);
    let right = string_of(v, i + width, n);
    assert(left@ =~= input@.take(i as int));
    assert(right@ =~= input@.skip(i + width));
    let property = trim(&left);
    let raw_value = trim(&right);
    if property.as_str().is_empty() || raw_value.as_str().is_empty() {
        return Err(
            CliError::new(
                cat3(
                    "invalid --where predicate '",
                    input,
                    "': expected <property><op><value>",
                ),
            ),
        );
    }
    let value = strip_matching_quotes(&raw_value);
    Ok(DeletePredicate { property, op, value })
}

/// Reads the predicate of a deletion.
pub fn parse_delete_predicate(input: &str) -> (r: Result<DeletePredicate, CliError>)
    ensures
        match r {
            Ok(p) => predicate_of(input@) == Ok::<PredicateModel, Seq<char>>(p@),
            Err(e) => predicate_of(input@) == Err::<PredicateModel, Seq<char>>(e@),
        },
{
    proof {
        reveal_strlit(">=");
        reveal_strlit("<=");
        reveal_strlit("!=");
        reveal_strlit("=");
        reveal_strlit(">");
        reveal_strlit("<");
    }
    let v = chars_of(input);
    if let Some(i) = find_text(&v, ">=") {
        return split_predicate(input, &v, i, 2, DeleteOp::Ge);
    }
    if let Some(i) = find_text(&v, "<=") {
        return split_predicate(input, &v, i, 2, DeleteOp::Le);
    }
    if let Some(i) = find_text(&v, "!=") {
        return split_predicate(input, &v, i, 2, DeleteOp::Ne);
    }
    if let Some(i) = find_text(&v, "=") {
        return split_predicate(input, &v, i, 1, DeleteOp::Eq);
    }
    if let Some(i) = find_text(&v, ">") {
        return split_predicate(input, &v, i, 1, DeleteOp::Gt);
    }
    if let Some(i) = find_text(&v, "<") {
        return split_predicate(input, &v, i, 1, DeleteOp::Lt);
    }
    Err(
        CliError::new(
            cat3(
                "invalid --where predicate '",
                input,
                "': supported operators are =, !=, >, >=, <, <=",
            ),
        ),
    )
}

// ---------------------------------------------------------------------------
// Floating-point texts

/// The position of the first character from `i` on that is no digit.
pub open spec fn digits_end(s: Seq<char>, i: int) -> int
    decreases s.len() - i,
{
    if i < 0 || i >= s.len() || !is_digit(s[i]) {
        i
    } else {
        digits_end(s, i + 1)
    }
}

/// Whether what stands from `i` on is nothing, or an exponent.
pub open spec fn exponent_from(s: Seq<char>, i: int) -> bool {
    if i >= s.len() {
        true
    } else if s[i] == 'e' || s[i] == 'E' {
        let k = if i + 1 < s.len() && (s[i + 1] == '+' || s[i + 1] == '-') {
            i + 2
        } else {
            i + 1
        };
        k < s.len() && digits_end(s, k) == s.len()
    } else {
        false
    }
}

/// Whether what stands from `i` on is a decimal number: digits, with a point among them
/// or at either end if wanted, and an exponent if wanted.
pub open spec fn number_from(s: Seq<char>, i: int) -> bool {
    let a = digits_end(s, i);
    if a < s.len() && s[a] == '.' {
        let b = digits_end(s, a + 1);
        (a > i || b > a + 1) && exponent_from(s, b)
    } else {
        a > i && exponent_from(s, a)
    }
}

/// Whether a text stands for a floating-point number: a decimal number, `inf`, `infinity`
/// or `nan` in any case, with a sign in front if wanted.
pub open spec fn is_float_text(s: Seq<char>) -> bool {
    let i: int = if s.len() > 0 && (s[0] == '+' || s[0] == '-') {
        1
    } else {
        0
    };
    let name = lowered(s.skip(i));
    number_from(s, i) || name == "inf"@ || name == "infinity"@ || name == "nan"@
}

fn skip_digits(v: &Vec<char>, i: usize) -> (r: usize)
    requires
        i <= v@.len(),
    ensures
        r == digits_end(v@, i as int),
        i <= r <= v@.len(),
{
    let mut k: usize = i;
    while k < v.len() && digit(v[k])
        invariant
            i <= k <= v@.len(),
            digits_end(v@, i as int) == digits_end(v@, k as int),
        decreases v@.len() - k,
    {
        k = k + 1;
    }
    k
}

fn is_exponent(v: &Vec<char>, i: usize) -> (r: bool)
    requires
        i <= v@.len(),
    ensures
        r == exponent_from(v@, i as int),
{
    let n: usize = v.len();
    if i >= n {
        return true;
    }
    if v[i] != 'e' && v[i] != 'E' {
        return false;
    }
    let k: usize = if i + 1 < n && (v[i + 1] == '+' || v[i + 1] == '-') {
        i + 2
    } else {
        i + 1
    };
    k < n && skip_digits(v, k) == n
}

fn is_number(v: &Vec<char>, i: usize) -> (r: bool)
    requires
        i <= v@.len(),
    ensures
        r == number_from(v@, i as int),
{
    let a = skip_digits(v, i);
    if a < v.len() && v[a] == '.' {
        let b = skip_digits(v, a + 1);
        (a > i || b > a + 1) && is_exponent(v, b)
    } else {
        a > i && is_exponent(v, a)
    }
}

fn is_float(s: &str) -> (r: bool)
    ensures
        r == is_float_text(s@),
{
    let v = chars_of(s);
    let i: usize = if v.len() > 0 && (v[0] == '+' || v[0] == '-') {
        1
    } else {
        0
    };
    if is_number(&v, i) {
        return true;
    }
    let rest = string_of(&v, i, v.len());
    assert(rest@ =~= s@.skip(i as int));
    let name = ascii_lowercase(&rest);
    same(&name, "inf") || same(&name, "infinity") || same(&name, "nan")
}

// ---------------------------------------------------------------------------
// Values of arguments

/// A value in a query. A floating-point number is held as its text.
#[derive(Debug)]
pub enum Literal {
    String(String),
    Integer(i64),
    Float(String),
    Bool(bool),
    Date(String),
    DateTime(String),
    List(Vec<Literal>),
}

/// The mathematical value of a `Literal`.
pub enum LiteralModel {
    String(Seq<char>),
    Integer(i64),
    Float(Seq<char>),
    Bool(bool),
    Date(Seq<char>),
    DateTime(Seq<char>),
    List(Seq<LiteralModel>),
}

/// The mathematical value of a literal.
pub open spec fn literal_model(l: Literal) -> LiteralModel
    decreases l,
{
    match l {
        Literal::String(s) => LiteralModel::String(s@),
        Literal::Integer(n) => LiteralModel::Integer(n),
        Literal::Float(s) => LiteralModel::Float(s@),
        Literal::Bool(b) => LiteralModel::Bool(b),
        Literal::Date(s) => LiteralModel::Date(s@),
        Literal::DateTime(s) => LiteralModel::DateTime(s@),
        Literal::List(v) => LiteralModel::List(
            Seq::new(
                v@.len(),
                |i: int|
                    if 0 <= i < v@.len() {
                        literal_model(v@[i])
                    } else {
                        LiteralModel::Bool(false)
                    },
            ),
        ),
    }
}

impl View for Literal {
    type V = LiteralModel;

    open spec fn view(&self) -> LiteralModel {
        literal_model(*self)
    }
}

/// A declared parameter of a query.
#[derive(Debug)]
pub struct Param {
    pub name: String,
    pub type_label: String,
    pub nullable: bool,
}

/// The mathematical value of a `Param`.
pub struct ParamModel {
    pub name: Seq<char>,
    pub type_label: Seq<char>,
    pub nullable: bool,
}

impl View for Param {
    type V = ParamModel;

    open spec fn view(&self) -> ParamModel {
        ParamModel { name: self.name@, type_label: self.type_label@, nullable: self.nullable }
    }
}

/// The number of dimensions of a type `Vector(N)`, if that is more than none.
pub open spec fn vector_width(label: Seq<char>) -> Option<int> {
    match after_prefix(label, "Vector("@) {
        Some(rest) => if rest.len() > 0 && rest.last() == ')' {
            match read_int(rest.drop_last(), 0, usize::MAX as int) {
                Ok(n) => if n == 0 {
                    None
                } else {
                    Some(n)
                },
                Err(_) => None,
            }
        } else {
            None
        },
        None => None,
    }
}

/// The number of dimensions of a type `Vector(N)`, if that is more than none.
pub fn parse_vector_dim_type(label: &str) -> (r: Option<usize>)
    ensures
        match r {
            Some(n) => vector_width(label@) == Some(n as int),
            None => vector_width(label@) is None,
        },
{
    match strip_prefix(label, "Vector(") {
        None => None,
        Some(rest) => {
            let v = chars_of(&rest);
            let n: usize = v.len();
            if n == 0 || v[n - 1] != ')' {
                return None;
            }
            let digits = string_of(&v, 0, n - 1);
            assert(digits@ =~= rest@.drop_last());
            match parse_int(&digits, 0, usize::MAX as i128) {
                Ok(k) => if k == 0 {
                    None
                } else {
                    Some(k as usize)
                },
                Err(_) => None,
            }
        },
    }
}

/// What every message on an argument begins with.
pub open spec fn param_prefix(key: Seq<char>) -> Seq<char> {
    "param '"@ + key + "': "@
}

/// The message of an argument of another kind.
pub open spec fn param_expected(key: Seq<char>, wanted: Seq<char>, value: Seq<char>) -> Seq<char> {
    param_prefix(key) + "expected "@ + wanted + ", got '"@ + value + "'"@
}

/// The numbers of the first `n` items of an array, or the message on the first item that
/// is none.
pub open spec fn vector_items(key: Seq<char>, items: Seq<(bool, Seq<char>)>, n: int) -> Result<
    Seq<LiteralModel>,
    Seq<char>,
>
    decreases n,
{
    if n <= 0 || n > items.len() {
        Ok(Seq::empty())
    } else {
        match vector_items(key, items, n - 1) {
            Err(e) => Err(e),
            Ok(s) => if items[n - 1].0 {
                Ok(s.push(LiteralModel::Float(items[n - 1].1)))
            } else {
                Err(param_prefix(key) + "vector element '"@ + items[n - 1].1 + "' is not numeric"@)
            },
        }
    }
}

/// The value of a vector argument, by what its text is as JSON.
pub open spec fn vector_literal(
    key: Seq<char>,
    label: Seq<char>,
    value: Seq<char>,
    read: Result<(Seq<char>, Option<Seq<(bool, Seq<char>)>>), Seq<char>>,
) -> Result<LiteralModel, Seq<char>> {
    match vector_width(label) {
        None => Err(
            param_prefix(key) + "invalid vector type '"@ + label + "' (expected Vector(N))"@,
        ),
        Some(width) => match read {
            Err(e) => Err(
                param_expected(key, "JSON array for "@ + label, value) + ": "@ + e,
            ),
            Ok((_, None)) => Err(param_expected(key, "JSON array for "@ + label, value)),
            Ok((_, Some(items))) => if items.len() != width {
                Err(
                    param_prefix(key) + "expected "@ + decimal(width as nat) + " values for "@
                        + label + ", got "@ + decimal(items.len()),
                )
            } else {
                match vector_items(key, items, items.len() as int) {
                    Ok(s) => Ok(LiteralModel::List(s)),
                    Err(e) => Err(e),
                }
            },
        },
    }
}

/// The value of an argument of a declared type.
pub open spec fn typed_literal(key: Seq<char>, label: Seq<char>, value: Seq<char>) -> Result<
    LiteralModel,
    Seq<char>,
> {
    if label == "String"@ {
        Ok(LiteralModel::String(value))
    } else if label == "I32"@ || label == "I64"@ {
        match read_int(value, i64::MIN as int, i64::MAX as int) {
            Ok(n) => Ok(LiteralModel::Integer(n as i64)),
            Err(_) => Err(param_expected(key, "integer"@, value)),
        }
    } else if label == "U32"@ {
        match read_int(value, 0, u32::MAX as int) {
            Ok(n) => Ok(LiteralModel::Integer(n as i64)),
            Err(_) => Err(param_expected(key, "unsigned integer"@, value)),
        }
    } else if label == "U64"@ {
        match read_int(value, 0, u64::MAX as int) {
            Ok(n) => if n <= i64::MAX {
                Ok(LiteralModel::Integer(n as i64))
            } else {
                Err(
                    param_prefix(key) + "value '"@ + value
                        + "' exceeds supported range for numeric literals (max 9223372036854775807)"@,
                )
            },
            Err(_) => Err(param_expected(key, "unsigned integer"@, value)),
        }
    } else if label == "F32"@ || label == "F64"@ {
        if is_float_text(value) {
            Ok(LiteralModel::Float(value))
        } else {
            Err(param_expected(key, "float"@, value))
        }
    } else if label == "Bool"@ {
        if value == "true"@ {
            Ok(LiteralModel::Bool(true))
        } else if value == "false"@ {
            Ok(LiteralModel::Bool(false))
        } else {
            Err(param_expected(key, "bool"@, value))
        }
    } else if label == "Date"@ {
        Ok(LiteralModel::Date(value))
    } else if label == "DateTime"@ {
        Ok(LiteralModel::DateTime(value))
    } else if has_prefix(label, "Vector("@) {
        vector_literal(key, label, value, json_read(value))
    } else {
        Ok(LiteralModel::String(value))
    }
}

/// The position from `i` on of the parameter of a name.
pub open spec fn param_position(params: Seq<ParamModel>, name: Seq<char>, i: int) -> Option<int>
    decreases params.len() - i,
{
    if i < 0 || i >= params.len() {
        None
    } else if params[i].name == name {
        Some(i)
    } else {
        param_position(params, name, i + 1)
    }
}

/// The value of an argument: that of its declared type, or a string where none is
/// declared.
pub open spec fn param_literal(params: Seq<ParamModel>, key: Seq<char>, value: Seq<char>) -> Result<
    LiteralModel,
    Seq<char>,
> {
    match param_position(params, key, 0) {
        Some(i) => typed_literal(key, params[i].type_label, value),
        None => Ok(LiteralModel::String(value)),
    }
}

/// The values of the first `n` arguments by name, where a later one of a name counts; or
/// the message on the first that has none.
pub open spec fn param_map(params: Seq<ParamModel>, raw: Seq<(Seq<char>, Seq<char>)>, n: int) -> Result<
    Map<Seq<char>, LiteralModel>,
    Seq<char>,
>
    decreases n,
{
    if n <= 0 || n > raw.len() {
        Ok(Map::empty())
    } else {
        match param_map(params, raw, n - 1) {
            Err(e) => Err(e),
            Ok(m) => match param_literal(params, raw[n - 1].0, raw[n - 1].1) {
                Ok(l) => Ok(m.insert(raw[n - 1].0, l)),
                Err(e) => Err(e),
            },
        }
    }
}

/// The texts of pairs of texts.
pub open spec fn pair_views(v: Seq<(String, String)>) -> Seq<(Seq<char>, Seq<char>)> {
    Seq::new(v.len(), |i: int| (v[i].0@, v[i].1@))
}

fn prefix(key: &str) -> (r: String)
    ensures
        r@ == param_prefix(key@),
{
    cat3("param '", key, "': ")
}

fn expected(key: &str, wanted: &str, value: &str) -> (r: CliError)
    ensures
        r@ == param_expected(key@, wanted@, value@),
{
    CliError::new(cat6(&prefix(key), "expected ", wanted, ", got '", value, "'"))
}

/// The value of a vector argument, by what its text is as JSON.
pub fn vector_param(
    key: &str,
    label: &str,
    value: &str,
    read: &Result<JsonReading, String>,
) -> (r: Result<Literal, CliError>)
    ensures
        match r {
            Ok(l) => vector_literal(key@, label@, value@, reading_view(*read)) == Ok::<
                LiteralModel,
                Seq<char>,
            >(l@),
            Err(e) => vector_literal(key@, label@, value@, reading_view(*read)) == Err::<
                LiteralModel,
                Seq<char>,
            >(e@),
        },
{
    let width = match parse_vector_dim_type(label) {
        Some(n) => n,
        None => {
            return Err(
                CliError::new(
                    cat4(&prefix(key), "invalid vector type '", label, "' (expected Vector(N))"),
                ),
            );
        },
    };
    let items = match read {
        Err(e) => {
            let m = expected(key, &cat2("JSON array for ", label), value);
            return Err(CliError::new(cat3(&m.message, ": ", e)));
        },
        Ok(reading) => match &reading.items {
            Some(items) => items,
            None => {
                return Err(expected(key, &cat2("JSON array for ", label), value));
            },
        },
    };
    let ghost list = reading_view(*read)->Ok_0.1->Some_0;
    if items.len() != width {
        return Err(
            CliError::new(
                cat7(
                    &prefix(key),
                    "expected ",
                    &decimal_u64(width as u64),
                    " values for ",
                    label,
                    ", got ",
                    &decimal_u64(items.len() as u64),
                ),
            ),
        );
    }
    let mut out: Vec<Literal> = Vec::new();
    let mut i: usize = 0;
    assert(views(out@) =~= Seq::<LiteralModel>::empty());
    while i < items.len()
        invariant
            i <= items@.len(),
            list == Seq::new(items@.len(), |k: int| (items@[k].0, items@[k].1@)),
            reading_view(*read) matches Ok((_, Some(l))) && l == list,
            vector_width(label@) == Some(width as int),
            items@.len() == width,
            vector_items(key@, list, i as int) == Ok::<Seq<LiteralModel>, Seq<char>>(views(out@)),
        decreases items@.len() - i,
    {
        assert(list[i as int] == (items@[i as int].0, items@[i as int].1@));
        if !items[i].0 {
            proof {
                lemma_vector_stops(key@, list, i as int + 1);
            }
            return Err(
                CliError::new(
                    cat4(&prefix(key), "vector element '", &items[i].1, "' is not numeric"),
                ),
            );
        }
        let l = Literal::Float(items[i].1.clone());
        proof {
            lemma_views_push(out@, l);
        }
        out.push(l);
        i = i + 1;
    }
    let r = Literal::List(out);
    assert(r@->List_0 =~= views(out@));
    Ok(r)
}

/// A message on an item is a message on every longer run of items.
proof fn lemma_vector_stops(key: Seq<char>, items: Seq<(bool, Seq<char>)>, n: int)
    requires
        0 <= n <= items.len(),
        vector_items(key, items, n) is Err,
    ensures
        vector_items(key, items, items.len() as int) == vector_items(key, items, n),
    decreases items.len() - n,
{
    if n < items.len() {
        lemma_vector_stops(key, items, n + 1);
    }
}

/// What is known of a JSON text that was read.
pub open spec fn reading_view(read: Result<JsonReading, String>) -> Result<
    (Seq<char>, Option<Seq<(bool, Seq<char>)>>),
    Seq<char>,
> {
    match read {
        Ok(reading) => Ok(reading@),
        Err(e) => Err(e@),
    }
}

fn typed_param(key: &str, label: &str, value: &str) -> (r: Result<Literal, CliError>)
    ensures
        match r {
            Ok(l) => typed_literal(key@, label@, value@) == Ok::<LiteralModel, Seq<char>>(l@),
            Err(e) => typed_literal(key@, label@, value@) == Err::<LiteralModel, Seq<char>>(e@),
        },
{
    if same(label, "String") {
        Ok(Literal::String(value.to_owned()))
    } else if same(label, "I32") || same(label, "I64") {
        match parse_int(value, i64::MIN as i128, i64::MAX as i128) {
            Ok(n) => Ok(Literal::Integer(n as i64)),
            Err(_) => Err(expected(key, "integer", value)),
        }
    } else if same(label, "U32") {
        match parse_int(value, 0, u32::MAX as i128) {
            Ok(n) => Ok(Literal::Integer(n as i64)),
            Err(_) => Err(expected(key, "unsigned integer", value)),
        }
    } else if same(label, "U64") {
        match parse_int(value, 0, u64::MAX as i128) {
            Ok(n) => if n <= i64::MAX as i128 {
                Ok(Literal::Integer(n as i64))
            } else {
                Err(
                    CliError::new(
                        cat4(
                            &prefix(key),
                            "value '",
                            value,
                            "' exceeds supported range for numeric literals (max 9223372036854775807)",
                        ),
                    ),
                )
            },
            Err(_) => Err(expected(key, "unsigned integer", value)),
        }
    } else if same(label, "F32") || same(label, "F64") {
        if is_float(value) {
            Ok(Literal::Float(value.to_owned()))
        } else {
            Err(expected(key, "float", value))
        }
    } else if same(label, "Bool") {
        if same(value, "true") {
            Ok(Literal::Bool(true))
        } else if same(value, "false") {
            Ok(Literal::Bool(false))
        } else {
            Err(expected(key, "bool", value))
        }
    } else if same(label, "Date") {
        Ok(Literal::Date(value.to_owned()))
    } else if same(label, "DateTime") {
        Ok(Literal::DateTime(value.to_owned()))
    } else {
        match strip_prefix(label, "Vector(") {
            None => Ok(Literal::String(value.to_owned())),
            Some(_) => {
                let read = read_json(value);
                vector_param(key, label, value, &read)
            },
        }
    }
}

/// The values of the arguments of a query, by the types that the query declares.
#[verifier::loop_isolation(false)]
pub fn build_param_map(query_params: &Vec<Param>, raw: &Vec<(String, String)>) -> (r: Result<
    NameMap<Literal>,
    CliError,
>)
    ensures
        match r {
            Ok(m) => param_map(views(query_params@), pair_views(raw@), raw@.len() as int) == Ok::<
                Map<Seq<char>, LiteralModel>,
                Seq<char>,
            >(m@),
            Err(e) => param_map(views(query_params@), pair_views(raw@), raw@.len() as int) == Err::<
                Map<Seq<char>, LiteralModel>,
                Seq<char>,
            >(e@),
        },
{
    let ghost params = views(query_params@);
    let ghost pairs = pair_views(raw@);
    let mut map: NameMap<Literal> = NameMap::new();
    let mut i: usize = 0;
    while i < raw.len()
        invariant
            i <= raw@.len(),
            param_map(params, pairs, i as int) == Ok::<Map<Seq<char>, LiteralModel>, Seq<char>>(
                map@,
            ),
        decreases raw@.len() - i,
    {
        let key = &raw[i].0;
        let value = &raw[i].1;
        assert(pairs[i as int] == (key@, value@));
        let mut j: usize = 0;
        while j < query_params.len() && !same(&query_params[j].name, key)
            invariant
                j <= query_params@.len(),
                param_position(params, key@, 0) == param_position(params, key@, j as int),
            decreases query_params@.len() - j,
        {
            assert(params[j as int] == query_params@[j as int]@);
            j = j + 1;
        }
        let found = if j < query_params.len() {
            assert(params[j as int] == query_params@[j as int]@);
            typed_param(key, &query_params[j].type_label, value)
        } else {
            Ok(Literal::String(value.clone()))
        };
        match found {
            Ok(l) => map.insert(key.clone(), l),
            Err(e) => {
                proof {
                    lemma_param_stops(params, pairs, i as int + 1);
                }
                return Err(e);
            },
        }
        i = i + 1;
    }
    Ok(map)
}

/// A message on an argument is a message on every longer run of arguments.
proof fn lemma_param_stops(params: Seq<ParamModel>, raw: Seq<(Seq<char>, Seq<char>)>, n: int)
    requires
        0 <= n <= raw.len(),
        param_map(params, raw, n) is Err,
    ensures
        param_map(params, raw, raw.len() as int) == param_map(params, raw, n),
    decreases raw.len() - n,
{
    if n < raw.len() {
        lemma_param_stops(params, raw, n + 1);
    }
}

/// Of two arguments of one name the later counts.
pub proof fn law_last_argument_counts(
    params: Seq<ParamModel>,
    raw: Seq<(Seq<char>, Seq<char>)>,
    n: int,
    i: int,
)
    requires
        0 <= i < n <= raw.len(),
        param_map(params, raw, n) is Ok,
        forall|k: int| i < k < n ==> (#[trigger] raw[k]).0 != raw[i].0,
    ensures
        param_literal(params, raw[i].0, raw[i].1) is Ok,
        param_map(params, raw, n)->Ok_0.contains_key(raw[i].0),
        param_map(params, raw, n)->Ok_0[raw[i].0] == param_literal(
            params,
            raw[i].0,
            raw[i].1,
        )->Ok_0,
    decreases n,
{
    if i < n - 1 {
        law_last_argument_counts(params, raw, n - 1, i);
    }
}

// ---------------------------------------------------------------------------
// Arguments by position

/// The arguments of a run: those given by position under the names that the alias of the
/// query has for them, then those given by name.
pub open spec fn merged_params(
    alias: Option<Seq<char>>,
    names: Seq<Seq<char>>,
    args: Seq<Seq<char>>,
    explicit: Seq<(Seq<char>, Seq<char>)>,
) -> Result<Seq<(Seq<char>, Seq<char>)>, Seq<char>> {
    if args.len() == 0 {
        Ok(explicit)
    } else {
        match alias {
            None => Err("positional query arguments require a configured query alias"@),
            Some(a) => if names.len() == 0 {
                Err(
                    "query alias `"@ + a
                        + "` does not declare args = [...] in nanograph.toml; use --param or add args"@,
                )
            } else if args.len() > names.len() {
                Err(
                    "query alias `"@ + a + "` accepts "@ + decimal(names.len())
                        + " positional argument(s) ("@ + join_of(names, ", "@) + ") but received "@
                        + decimal(args.len()),
                )
            } else {
                Ok(Seq::new(args.len(), |i: int| (names[i], args[i])) + explicit)
            },
        }
    }
}

/// The name of an alias.
pub open spec fn alias_view(alias: Option<&str>) -> Option<Seq<char>> {
    match alias {
        Some(a) => Some(a@),
        None => None,
    }
}

/// Puts the arguments of a run together.
pub fn merge_run_params(
    alias: Option<&str>,
    positional_param_names: &Vec<String>,
    positional_args: Vec<String>,
    explicit_params: Vec<(String, String)>,
) -> (r: Result<Vec<(String, String)>, CliError>)
    ensures
        match r {
            Ok(v) => merged_params(
                alias_view(alias),
                views(positional_param_names@),
                views(positional_args@),
                pair_views(explicit_params@),
            ) == Ok::<Seq<(Seq<char>, Seq<char>)>, Seq<char>>(pair_views(v@)),
            Err(e) => merged_params(
                alias_view(alias),
                views(positional_param_names@),
                views(positional_args@),
                pair_views(explicit_params@),
            ) == Err::<Seq<(Seq<char>, Seq<char>)>, Seq<char>>(e@),
        },
{
    let ghost names = views(positional_param_names@);
    let ghost args = views(positional_args@);
    let ghost explicit = pair_views(explicit_params@);
    if positional_args.len() == 0 {
        return Ok(explicit_params);
    }
    let alias_name = match alias {
        Some(a) => a,
        None => {
            return Err(
                CliError::new(
                    "positional query arguments require a configured query alias".to_owned(),
                ),
            );
        },
    };
    let given: usize = positional_args.len();
    let known: usize = positional_param_names.len();
    if known == 0 {
        return Err(
            CliError::new(
                cat3(
                    "query alias `",
                    alias_name,
                    "` does not declare args = [...] in nanograph.toml; use --param or add args",
                ),
            ),
        );
    }
    if given > known {
        let mut m = cat5(
            "query alias `",
            alias_name,
            "` accepts ",
            &decimal_u64(known as u64),
            " positional argument(s) (",
        );
        m.append(join(positional_param_names, ", ").as_str());
        m.append(") but received ");
        m.append(decimal_u64(given as u64).as_str());
        return Err(CliError::new(m));
    }
    let ghost first = Seq::new(args.len(), |i: int| (names[i], args[i]));
    let mut merged: Vec<(String, String)> = Vec::new();
    let mut i: usize = 0;
    while i < given
        invariant
            i <= given <= known,
            given == positional_args@.len(),
            known == positional_param_names@.len(),
            merged@.len() == i,
            forall|k: int|
                0 <= k < i ==> (#[trigger] merged@[k]).0@ == positional_param_names@[k]@
                    && merged@[k].1@ == positional_args@[k]@,
        decreases given - i,
    {
        merged.push((positional_param_names[i].clone(), positional_args[i].clone()));
        i = i + 1;
    }
    let mut j: usize = 0;
    while j < explicit_params.len()
        invariant
            j <= explicit_params@.len(),
            merged@.len() == given + j,
            given == positional_args@.len(),
            forall|k: int|
                0 <= k < given ==> (#[trigger] merged@[k]).0@ == positional_param_names@[k]@
                    && merged@[k].1@ == positional_args@[k]@,
            forall|k: int|
                given <= k < given + j ==> (#[trigger] merged@[k]).0@ == explicit_params@[k
                    - given].0@ && merged@[k].1@ == explicit_params@[k - given].1@,
        decreases explicit_params@.len() - j,
    {
        merged.push((explicit_params[j].0.clone(), explicit_params[j].1.clone()));
        j = j + 1;
    }
    assert(pair_views(merged@) =~= first + explicit);
    Ok(merged)
}

// ---------------------------------------------------------------------------
// Reading what was written

/// How an operator is written.
pub open spec fn op_text(op: DeleteOp) -> Seq<char> {
    match op {
        DeleteOp::Eq => "="@,
        DeleteOp::Ne => "!="@,
        DeleteOp::Gt => ">"@,
        DeleteOp::Ge => ">="@,
        DeleteOp::Lt => "<"@,
        DeleteOp::Le => "<="@,
    }
}

/// Whether a text holds no character that an operator is written with.
pub open spec fn free_of_ops(s: Seq<char>) -> bool {
    forall|i: int|
        0 <= i < s.len() ==> #[trigger] s[i] != '=' && s[i] != '!' && s[i] != '<' && s[i] != '>'
}

/// A text whose characters before `k` are not the first of `w`, and which has `w` at `k`.
proof fn lemma_found_at(s: Seq<char>, w: Seq<char>, i: int, k: int)
    requires
        0 <= i <= k,
        w.len() > 0,
        k + w.len() <= s.len(),
        s.subrange(k, k + w.len() as int) == w,
        forall|j: int| i <= j < k ==> #[trigger] s[j] != w[0],
    ensures
        find_from(s, w, i) == Some(k),
    decreases k - i,
{
    if i < k {
        assert(s.subrange(i, i + w.len() as int)[0] == s[i]);
        lemma_found_at(s, w, i + 1, k);
    }
}

/// Whether a text does not stand at a position.
spec fn differs_at(s: Seq<char>, w: Seq<char>, j: int) -> bool {
    exists|m: int| 0 <= m < w.len() && s[j + m] != #[trigger] w[m]
}

/// A text that stands at no position is not found.
proof fn lemma_not_found(s: Seq<char>, w: Seq<char>, i: int)
    requires
        0 <= i,
        w.len() > 0,
        forall|j: int| i <= j && j + w.len() <= s.len() ==> #[trigger] differs_at(s, w, j),
    ensures
        find_from(s, w, i) is None,
    decreases s.len() - i,
{
    if i + w.len() <= s.len() {
        assert(differs_at(s, w, i));
        let m = choose|m: int| 0 <= m < w.len() && s[i + m] != #[trigger] w[m];
        assert(s.subrange(i, i + w.len() as int)[m] == s[i + m]);
        lemma_not_found(s, w, i + 1);
    }
}

/// A property, an operator and a value, written one behind the other, are read as such:
/// where neither the property nor the value holds characters of operators or white space
/// at its ends, neither is empty, and the value does not stand in quotation marks.
pub proof fn law_predicates_are_read(property: Seq<char>, op: DeleteOp, value: Seq<char>)
    requires
        free_of_ops(property),
        free_of_ops(value),
        property.len() > 0,
        value.len() > 0,
        trimmed(property) == property,
        trimmed(value) == value,
        unquoted(value) == value,
    ensures
        predicate_of(property + op_text(op) + value) == Ok::<PredicateModel, Seq<char>>(
            PredicateModel { property, op, value },
        ),
{
    reveal_strlit(">=");
    reveal_strlit("<=");
    reveal_strlit("!=");
    reveal_strlit("=");
    reveal_strlit(">");
    reveal_strlit("<");
    let w = op_text(op);
    let s = property + w + value;
    let k = property.len() as int;
    assert(s.subrange(k, k + w.len() as int) =~= w);
    assert(s.take(k) =~= property);
    assert(s.skip(k + w.len() as int) =~= value);
    assert forall|j: int| 0 <= j < k implies #[trigger] s[j] != w[0] by {
        assert(s[j] == property[j]);
    }
    lemma_found_at(s, w, 0, k);
    lemma_other_op(property, op, value, ">="@);
    lemma_other_op(property, op, value, "<="@);
    lemma_other_op(property, op, value, "!="@);
    lemma_other_op(property, op, value, "="@);
    lemma_other_op(property, op, value, ">"@);
}

/// An operator that is looked for before the one that was written is not found.
proof fn lemma_other_op(property: Seq<char>, op: DeleteOp, value: Seq<char>, other: Seq<char>)
    requires
        free_of_ops(property),
        free_of_ops(value),
        value.len() > 0,
        other == ">="@ || other == "<="@ || other == "!="@ || other == "="@ || other == ">"@,
    ensures
        other == ">="@ && op != DeleteOp::Ge ==> find_from(
            property + op_text(op) + value,
            other,
            0,
        ) is None,
        other == "<="@ && op != DeleteOp::Le ==> find_from(
            property + op_text(op) + value,
            other,
            0,
        ) is None,
        other == "!="@ && op != DeleteOp::Ne ==> find_from(
            property + op_text(op) + value,
            other,
            0,
        ) is None,
        other == "="@ && (op == DeleteOp::Gt || op == DeleteOp::Lt) ==> find_from(
            property + op_text(op) + value,
            other,
            0,
        ) is None,
        other == ">"@ && op == DeleteOp::Lt ==> find_from(
            property + op_text(op) + value,
            other,
            0,
        ) is None,
{
    reveal_strlit(">=");
    reveal_strlit("<=");
    reveal_strlit("!=");
    reveal_strlit("=");
    reveal_strlit(">");
    reveal_strlit("<");
    let w = op_text(op);
    let s = property + w + value;
    let k = property.len() as int;
    let looked_for = (other == ">="@ && op != DeleteOp::Ge) || (other == "<="@ && op
        != DeleteOp::Le) || (other == "!="@ && op != DeleteOp::Ne) || (other == "="@ && (op
        == DeleteOp::Gt || op == DeleteOp::Lt)) || (other == ">"@ && op == DeleteOp::Lt);
    if looked_for {
        assert forall|j: int| 0 <= j && j + other.len() <= s.len() implies #[trigger] differs_at(
            s,
            other,
            j,
        ) by {
            if j < k {
                assert(s[j + 0] == property[j]);
                assert(s[j + 0] != other[0]);
            } else if j == k {
                assert(s[j + 0] == w[0]);
                if w[0] == other[0] {
                    assert(w.len() == 1);
                    assert(other.len() == 2);
                    assert(s[j + 1] == value[0]);
                    assert(s[j + 1] != other[1]);
                } else {
                    assert(s[j + 0] != other[0]);
                }
            } else if j < k + w.len() {
                assert(j == k + 1);
                assert(s[j + 0] == w[1]);
                assert(w[1] == '=');
                assert(s[j + 0] != other[0]);
            } else {
                assert(s[j + 0] == value[j - k - w.len()]);
                assert(s[j + 0] != other[0]);
            }
        }
        lemma_not_found(s, other, 0);
    }
}

} // verus!
