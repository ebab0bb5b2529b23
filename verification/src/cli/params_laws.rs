//! What the arguments of a query stand for.

use crate::cli::lines::join_of;
use crate::cli::params::{digits_end, free_of_ops, is_float_text, merged_params, param_literal, param_map, param_of, predicate_of, typed_literal, unquoted, vector_items, vector_literal, vector_width, DeleteOp, LiteralModel, ParamModel, PredicateModel};
use crate::cli::params::{law_predicates_are_read, param_position};
use crate::strings::{find_from, has_prefix, lemma_find, lowered, trimmed};
use crate::text::{decimal, law_decimals_are_read_back, law_integers_are_made_of_digits, law_signed_decimals_are_read_back};
use vstd::prelude::*;

verus! {

// ---------------------------------------------------------------------------
// Texts

/// A text in quotation marks of either kind is that text without them; one without
/// quotation marks at its ends is kept.
pub proof fn law_quotation_marks_come_off(s: Seq<char>)
    ensures
        unquoted(seq!['"'] + s + seq!['"']) == s,
        unquoted(seq!['\''] + s + seq!['\'']) == s,
        s.len() > 0 && s[0] != '"' && s[0] != '\'' ==> unquoted(s) == s,
        s.len() > 1 && s[0] != s.last() ==> unquoted(s) == s,
{
    let a = seq!['"'] + s + seq!['"'];
    let b = seq!['\''] + s + seq!['\''];
    assert(a[0] == '"' && a.last() == '"');
    assert(b[0] == '\'' && b.last() == '\'');
    assert(a.subrange(1, a.len() - 1) =~= s);
    assert(b.subrange(1, b.len() - 1) =~= s);
}

/// An argument without an equals sign is refused, and one with an equals sign is split at
/// the first: the name holds none, and the name, the sign and the value make up the text.
pub proof fn law_arguments_are_split_at_the_first_sign(s: Seq<char>)
    ensures
        s.contains('=') <==> param_of(s) is Ok,
        param_of(s) matches Ok((key, value)) ==> !key.contains('=') && key.len() < s.len() && s
            == key + "="@ + s.skip(key.len() as int + 1) && value == unquoted(s.skip(key.len() as int + 1)),
{
    reveal_strlit("=");
    lemma_find(s, "="@, 0);
    match find_from(s, "="@, 0) {
        Some(i) => {
            assert(s.subrange(i, i + 1)[0] == s[i]);
            assert(s[i] == '=');
            let key = s.take(i);
            assert forall|j: int| 0 <= j < i implies s[j] != '=' by {
                if s[j] == '=' {
                    assert(s.subrange(j, j + 1) =~= "="@);
                }
            }
            assert(s =~= key + "="@ + s.skip(i + 1));
        },
        None => {
            assert forall|j: int| 0 <= j < s.len() implies s[j] != '=' by {
                if s[j] == '=' {
                    assert(s.subrange(j, j + 1) =~= "="@);
                }
            }
        },
    }
}

/// Each sign of a predicate means its comparison.
pub proof fn law_signs_mean_their_comparison(property: Seq<char>, value: Seq<char>)
    requires
        free_of_ops(property),
        free_of_ops(value),
        property.len() > 0,
        value.len() > 0,
        trimmed(property) == property,
        trimmed(value) == value,
        unquoted(value) == value,
    ensures
        predicate_of(property + "="@ + value) == Ok::<PredicateModel, Seq<char>>(
            PredicateModel { property, op: DeleteOp::Eq, value },
        ),
        predicate_of(property + "!="@ + value) == Ok::<PredicateModel, Seq<char>>(
            PredicateModel { property, op: DeleteOp::Ne, value },
        ),
        predicate_of(property + ">"@ + value) == Ok::<PredicateModel, Seq<char>>(
            PredicateModel { property, op: DeleteOp::Gt, value },
        ),
        predicate_of(property + ">="@ + value) == Ok::<PredicateModel, Seq<char>>(
            PredicateModel { property, op: DeleteOp::Ge, value },
        ),
        predicate_of(property + "<"@ + value) == Ok::<PredicateModel, Seq<char>>(
            PredicateModel { property, op: DeleteOp::Lt, value },
        ),
        predicate_of(property + "<="@ + value) == Ok::<PredicateModel, Seq<char>>(
            PredicateModel { property, op: DeleteOp::Le, value },
        ),
{
    law_predicates_are_read(property, DeleteOp::Eq, value);
    law_predicates_are_read(property, DeleteOp::Ne, value);
    law_predicates_are_read(property, DeleteOp::Gt, value);
    law_predicates_are_read(property, DeleteOp::Ge, value);
    law_predicates_are_read(property, DeleteOp::Lt, value);
    law_predicates_are_read(property, DeleteOp::Le, value);
}

// ---------------------------------------------------------------------------
// Literals

/// The names of the types of parameters are different texts, and none of them is that of a
/// vector.
proof fn lemma_labels()
    ensures
        "String"@.len() == 6,
        "I32"@.len() == 3,
        "I32"@[0] == 'I',
        "I64"@.len() == 3,
        "I64"@[0] == 'I',
        "U32"@.len() == 3,
        "U32"@[0] == 'U',
        "U32"@[1] == '3',
        "U64"@.len() == 3,
        "U64"@[0] == 'U',
        "U64"@[1] == '6',
        "F32"@.len() == 3,
        "F32"@[0] == 'F',
        "F64"@.len() == 3,
        "F64"@[0] == 'F',
        "Bool"@.len() == 4,
        "Bool"@[0] == 'B',
        "Date"@.len() == 4,
        "Date"@[0] == 'D',
        "DateTime"@.len() == 8,
        "DateTime"@[0] == 'D',
        "Vector("@.len() == 7,
        "Vector("@[0] == 'V',
        "true"@.len() == 4,
        "false"@.len() == 5,
        "true"@[0] == 't',
        "false"@[0] == 'f',
{
    reveal_strlit("String");
    reveal_strlit("I32");
    reveal_strlit("I64");
    reveal_strlit("U32");
    reveal_strlit("U64");
    reveal_strlit("F32");
    reveal_strlit("F64");
    reveal_strlit("Bool");
    reveal_strlit("Date");
    reveal_strlit("DateTime");
    reveal_strlit("Vector(");
    reveal_strlit("true");
    reveal_strlit("false");
}

/// An integer parameter is given the number that its text writes, if the type holds it: of
/// the signed types every one of 64 bits, of the unsigned types none below zero, none above
/// 32 bits of the smaller one and none above what a literal holds of the larger one.
pub proof fn law_integer_arguments_are_their_number(key: Seq<char>, n: nat)
    ensures
        n <= i64::MAX ==> typed_literal(key, "I64"@, decimal(n)) == Ok::<LiteralModel, Seq<char>>(
            LiteralModel::Integer(n as i64),
        ),
        n <= i64::MAX ==> typed_literal(key, "I32"@, decimal(n)) == Ok::<LiteralModel, Seq<char>>(
            LiteralModel::Integer(n as i64),
        ),
        n > i64::MAX ==> typed_literal(key, "I64"@, decimal(n)) is Err && typed_literal(
            key,
            "I32"@,
            decimal(n),
        ) is Err,
        -n >= i64::MIN ==> typed_literal(key, "I64"@, seq!['-'] + decimal(n)) == Ok::<
            LiteralModel,
            Seq<char>,
        >(LiteralModel::Integer((-n) as i64)),
        -n >= i64::MIN ==> typed_literal(key, "I32"@, seq!['-'] + decimal(n)) == Ok::<
            LiteralModel,
            Seq<char>,
        >(LiteralModel::Integer((-n) as i64)),
        n <= u32::MAX ==> typed_literal(key, "U32"@, decimal(n)) == Ok::<LiteralModel, Seq<char>>(
            LiteralModel::Integer(n as i64),
        ),
        n > u32::MAX ==> typed_literal(key, "U32"@, decimal(n)) is Err,
        n <= i64::MAX ==> typed_literal(key, "U64"@, decimal(n)) == Ok::<LiteralModel, Seq<char>>(
            LiteralModel::Integer(n as i64),
        ),
        n > i64::MAX ==> typed_literal(key, "U64"@, decimal(n)) is Err,
        typed_literal(key, "U32"@, seq!['-'] + decimal(n)) is Err,
        typed_literal(key, "U64"@, seq!['-'] + decimal(n)) is Err,
{
    lemma_labels();
    law_signed_decimals_are_read_back(n, i64::MIN as int, i64::MAX as int);
    law_signed_decimals_are_read_back(n, 0, u32::MAX as int);
    law_signed_decimals_are_read_back(n, 0, u64::MAX as int);
}

/// Strings, dates and points in time are given the text itself; a truth value is given only
/// by `true` and `false`.
pub proof fn law_plain_arguments_are_their_text(key: Seq<char>, value: Seq<char>)
    ensures
        typed_literal(key, "String"@, value) == Ok::<LiteralModel, Seq<char>>(
            LiteralModel::String(value),
        ),
        typed_literal(key, "Date"@, value) == Ok::<LiteralModel, Seq<char>>(
            LiteralModel::Date(value),
        ),
        typed_literal(key, "DateTime"@, value) == Ok::<LiteralModel, Seq<char>>(
            LiteralModel::DateTime(value),
        ),
        typed_literal(key, "Bool"@, value) == Ok::<LiteralModel, Seq<char>>(
            LiteralModel::Bool(true),
        ) <==> value == "true"@,
        typed_literal(key, "Bool"@, value) == Ok::<LiteralModel, Seq<char>>(
            LiteralModel::Bool(false),
        ) <==> value == "false"@,
        typed_literal(key, "Bool"@, value) is Ok <==> value == "true"@ || value == "false"@,
{
    lemma_labels();
}

/// A float parameter keeps the text that it is given, or refuses it.
pub proof fn law_float_arguments_keep_their_text(key: Seq<char>, value: Seq<char>)
    ensures
        typed_literal(key, "F64"@, value) matches Ok(l) ==> l == LiteralModel::Float(value),
        typed_literal(key, "F32"@, value) == typed_literal(key, "F64"@, value),
{
    lemma_labels();
}

proof fn lemma_digits_end(s: Seq<char>, i: int, e: int)
    requires
        0 <= i <= e <= s.len(),
        forall|k: int| i <= k < e ==> '0' <= #[trigger] s[k] <= '9',
        e < s.len() ==> !('0' <= s[e] <= '9'),
    ensures
        digits_end(s, i) == e,
    decreases e - i,
{
    if i < e {
        assert('0' <= s[i] <= '9');
        lemma_digits_end(s, i + 1, e);
    }
}

/// Whether a text is made of digits, at least one.
pub open spec fn all_digits(s: Seq<char>) -> bool {
    s.len() > 0 && forall|k: int| 0 <= k < s.len() ==> '0' <= #[trigger] s[k] <= '9'
}

/// Digits, digits on both sides of a point, and either with an exponent are floats, also
/// behind a sign.
pub proof fn law_decimal_fractions_are_floats(a: Seq<char>, b: Seq<char>, sign: char)
    requires
        all_digits(a),
        all_digits(b),
        sign == '+' || sign == '-',
    ensures
        is_float_text(a),
        is_float_text(a + seq!['.'] + b),
        is_float_text(seq![sign] + a),
        is_float_text(seq![sign] + a + seq!['.'] + b),
        is_float_text(a + seq!['e'] + b),
        is_float_text(a + seq!['E', sign] + b),
{
    let n = a.len() as int;
    assert('0' <= a[0] <= '9');
    assert('0' <= b[0] <= '9');
    lemma_digits_end(a, 0, n);
    let p = a + seq!['.'] + b;
    assert forall|k: int| 0 <= k < n implies '0' <= #[trigger] p[k] <= '9' by {
        assert(p[k] == a[k]);
    }
    assert(p[n] == '.');
    lemma_digits_end(p, 0, n);
    assert forall|k: int| n + 1 <= k < p.len() implies '0' <= #[trigger] p[k] <= '9' by {
        assert(p[k] == b[k - n - 1]);
    }
    lemma_digits_end(p, n + 1, p.len() as int);
    assert(p[0] == a[0]);
    let q = seq![sign] + a;
    assert forall|k: int| 1 <= k < q.len() implies '0' <= #[trigger] q[k] <= '9' by {
        assert(q[k] == a[k - 1]);
    }
    lemma_digits_end(q, 1, q.len() as int);
    assert(q[0] == sign);
    let r = seq![sign] + a + seq!['.'] + b;
    assert(r[0] == sign);
    assert forall|k: int| 1 <= k < n + 1 implies '0' <= #[trigger] r[k] <= '9' by {
        assert(r[k] == a[k - 1]);
    }
    assert(r[n + 1] == '.');
    lemma_digits_end(r, 1, n + 1);
    assert forall|k: int| n + 2 <= k < r.len() implies '0' <= #[trigger] r[k] <= '9' by {
        assert(r[k] == b[k - n - 2]);
    }
    lemma_digits_end(r, n + 2, r.len() as int);
    let x = a + seq!['e'] + b;
    assert(x[0] == a[0]);
    assert forall|k: int| 0 <= k < n implies '0' <= #[trigger] x[k] <= '9' by {
        assert(x[k] == a[k]);
    }
    assert(x[n] == 'e');
    lemma_digits_end(x, 0, n);
    assert forall|k: int| n + 1 <= k < x.len() implies '0' <= #[trigger] x[k] <= '9' by {
        assert(x[k] == b[k - n - 1]);
    }
    assert(x[n + 1] == b[0]);
    lemma_digits_end(x, n + 1, x.len() as int);
    let y = a + seq!['E', sign] + b;
    assert(y[0] == a[0]);
    assert forall|k: int| 0 <= k < n implies '0' <= #[trigger] y[k] <= '9' by {
        assert(y[k] == a[k]);
    }
    assert(y[n] == 'E' && y[n + 1] == sign);
    lemma_digits_end(y, 0, n);
    assert forall|k: int| n + 2 <= k < y.len() implies '0' <= #[trigger] y[k] <= '9' by {
        assert(y[k] == b[k - n - 2]);
    }
    lemma_digits_end(y, n + 2, y.len() as int);
}

/// The end of a run of digits is in the text, and what stands before it is digits.
proof fn lemma_digits_between(s: Seq<char>, i: int)
    requires
        0 <= i <= s.len(),
    ensures
        i <= digits_end(s, i) <= s.len(),
        forall|k: int| i <= k < digits_end(s, i) ==> '0' <= #[trigger] s[k] <= '9',
    decreases s.len() - i,
{
    if i < s.len() && '0' <= s[i] <= '9' {
        lemma_digits_between(s, i + 1);
    }
}

/// What is read as a float is one of the three names, or made of digits, a point, an
/// exponent and signs, with at least one digit.
pub proof fn law_floats_are_made_of_digits(s: Seq<char>, k: int)
    requires
        is_float_text(s),
        0 <= k < s.len(),
        forall|i: int| 0 <= i <= 1 ==> lowered(#[trigger] s.skip(i)) != "inf"@ && lowered(s.skip(i))
            != "infinity"@ && lowered(s.skip(i)) != "nan"@,
    ensures
        '0' <= s[k] <= '9' || s[k] == '.' || s[k] == 'e' || s[k] == 'E' || s[k] == '+' || s[k]
            == '-',
        exists|d: int| 0 <= d < s.len() && '0' <= #[trigger] s[d] <= '9',
{
    let i: int = if s.len() > 0 && (s[0] == '+' || s[0] == '-') {
        1
    } else {
        0
    };
    assert(lowered(s.skip(i)) != "inf"@);
    lemma_digits_between(s, i);
    let a = digits_end(s, i);
    if a < s.len() && s[a] == '.' {
        lemma_digits_between(s, a + 1);
        let b = digits_end(s, a + 1);
        if b < s.len() {
            lemma_digits_between(s, b + 1);
            if b + 2 <= s.len() {
                lemma_digits_between(s, b + 2);
            }
        }
        if a > i {
            assert('0' <= s[i] <= '9');
        } else {
            assert('0' <= s[a + 1] <= '9');
        }
    } else {
        if a < s.len() {
            lemma_digits_between(s, a + 1);
            if a + 2 <= s.len() {
                lemma_digits_between(s, a + 2);
            }
        }
        assert('0' <= s[i] <= '9');
    }
}

/// The widths of vector types are read from their names: `Vector(n)` is `n` wide, for every
/// `n` that is not zero and fits the machine.
pub proof fn law_vector_types_have_their_width(n: nat)
    requires
        n <= usize::MAX,
    ensures
        n > 0 ==> vector_width("Vector("@ + decimal(n) + ")"@) == Some(n as int),
        n == 0 ==> vector_width("Vector("@ + decimal(n) + ")"@) is None,
        has_prefix("Vector("@ + decimal(n) + ")"@, "Vector("@),
{
    reveal_strlit("Vector(");
    reveal_strlit(")");
    let s = "Vector("@ + decimal(n) + ")"@;
    assert(s.take(7) =~= "Vector("@);
    assert(s.skip(7) =~= decimal(n) + ")"@);
    assert((decimal(n) + ")"@).drop_last() =~= decimal(n));
    assert((decimal(n) + ")"@).last() == ')');
    law_decimals_are_read_back(n, usize::MAX as int);
}

proof fn lemma_vector_items(key: Seq<char>, items: Seq<(bool, Seq<char>)>, n: int)
    requires
        0 <= n <= items.len(),
    ensures
        vector_items(key, items, n) is Ok <==> forall|k: int|
            0 <= k < n ==> (#[trigger] items[k]).0,
        vector_items(key, items, n) matches Ok(s) ==> s.len() == n && forall|k: int|
            0 <= k < n ==> #[trigger] s[k] == LiteralModel::Float(items[k].1),
    decreases n,
{
    if n > 0 {
        lemma_vector_items(key, items, n - 1);
        if vector_items(key, items, n) is Ok {
            assert(vector_items(key, items, n - 1) is Ok);
            assert(items[n - 1].0);
        } else if vector_items(key, items, n - 1) is Ok {
            assert(!items[n - 1].0);
        }
    }
}

/// A vector parameter is given every number of the JSON array that its text holds, in
/// order: exactly where the text holds an array, of as many items as the vector is wide,
/// each of them a number.
pub proof fn law_vector_arguments_hold_their_items(
    key: Seq<char>,
    label: Seq<char>,
    value: Seq<char>,
    width: int,
    whole: Seq<char>,
    items: Seq<(bool, Seq<char>)>,
)
    requires
        vector_width(label) == Some(width),
    ensures
        ({
            let r = vector_literal(key, label, value, Ok((whole, Some(items))));
            &&& r is Ok <==> items.len() == width && forall|k: int|
                0 <= k < items.len() ==> (#[trigger] items[k]).0
            &&& r matches Ok(l) ==> l is List && l->List_0.len() == width && forall|k: int|
                0 <= k < width ==> #[trigger] l->List_0[k] == LiteralModel::Float(items[k].1)
        }),
        vector_literal(key, label, value, Ok((whole, None))) is Err,
        forall|e: Seq<char>| #[trigger] vector_literal(key, label, value, Err(e)) is Err,
{
    lemma_vector_items(key, items, items.len() as int);
}

// ---------------------------------------------------------------------------
// Parameters

proof fn lemma_param_position(params: Seq<ParamModel>, name: Seq<char>, from: int)
    requires
        0 <= from <= params.len(),
    ensures
        match param_position(params, name, from) {
            Some(i) => from <= i < params.len() && params[i].name == name && forall|j: int|
                from <= j < i ==> (#[trigger] params[j]).name != name,
            None => forall|j: int|
                from <= j < params.len() ==> (#[trigger] params[j]).name != name,
        },
    decreases params.len() - from,
{
    if from < params.len() && params[from].name != name {
        lemma_param_position(params, name, from + 1);
    }
}

/// An argument is read as the type that its parameter is declared with, which is the first
/// of that name. One that no parameter declares is a string.
pub proof fn law_arguments_have_the_declared_type(
    params: Seq<ParamModel>,
    key: Seq<char>,
    value: Seq<char>,
    i: int,
)
    ensures
        0 <= i < params.len() && params[i].name == key && (forall|j: int|
            0 <= j < i ==> (#[trigger] params[j]).name != key) ==> param_literal(params, key, value)
            == typed_literal(key, params[i].type_label, value),
        (forall|j: int| 0 <= j < params.len() ==> (#[trigger] params[j]).name != key)
            ==> param_literal(params, key, value) == Ok::<LiteralModel, Seq<char>>(
            LiteralModel::String(value),
        ),
{
    lemma_param_position(params, key, 0);
    if 0 <= i < params.len() && params[i].name == key && (forall|j: int|
        0 <= j < i ==> (#[trigger] params[j]).name != key) {
        let k = param_position(params, key, 0)->Some_0;
        assert(params[k].name == key);
    }
}

/// Nothing but what was given is a parameter, and what cannot be read is refused.
pub proof fn law_no_argument_is_made_up(
    params: Seq<ParamModel>,
    raw: Seq<(Seq<char>, Seq<char>)>,
    n: int,
    key: Seq<char>,
)
    requires
        0 <= n <= raw.len(),
    ensures
        param_map(params, raw, n) matches Ok(m) ==> (m.contains_key(key) <==> exists|i: int|
            0 <= i < n && (#[trigger] raw[i]).0 == key),
        param_map(params, raw, n) is Err <==> exists|i: int|
            0 <= i < n && param_literal(params, (#[trigger] raw[i]).0, raw[i].1) is Err,
    decreases n,
{
    if n > 0 {
        law_no_argument_is_made_up(params, raw, n - 1, key);
        if param_map(params, raw, n) is Err {
            if param_map(params, raw, n - 1) is Err {
                let i = choose|i: int|
                    0 <= i < n - 1 && param_literal(params, (#[trigger] raw[i]).0, raw[i].1) is Err;
                assert(raw[i].0 == raw[i].0);
            } else {
                assert(param_literal(params, raw[n - 1].0, raw[n - 1].1) is Err);
            }
        } else {
            assert(param_map(params, raw, n - 1) is Ok);
            assert forall|i: int| 0 <= i < n implies param_literal(
                params,
                (#[trigger] raw[i]).0,
                raw[i].1,
            ) is Ok by {
                assert(raw[i].0 == raw[i].0);
            }
            let m = param_map(params, raw, n)->Ok_0;
            if m.contains_key(key) {
                if raw[n - 1].0 != key {
                    let i = choose|i: int| 0 <= i < n - 1 && (#[trigger] raw[i]).0 == key;
                    assert(raw[i].0 == key);
                }
            }
        }
    }
}

/// The positional arguments of an alias come first, each under the name at its position,
/// then what was given by name, unchanged. They are refused without an alias, and where the
/// alias names fewer.
pub proof fn law_positions_have_their_names(
    alias: Option<Seq<char>>,
    names: Seq<Seq<char>>,
    args: Seq<Seq<char>>,
    explicit: Seq<(Seq<char>, Seq<char>)>,
)
    ensures
        merged_params(alias, names, args, explicit) is Ok <==> args.len() == 0 || (alias is Some
            && args.len() <= names.len()),
        merged_params(alias, names, args, explicit) matches Ok(all) ==> {
            &&& all.len() == args.len() + explicit.len()
            &&& forall|i: int|
                0 <= i < args.len() ==> (#[trigger] all[i]).0 == names[i] && all[i].1 == args[i]
            &&& forall|i: int|
                0 <= i < explicit.len() ==> all[args.len() + i] == #[trigger] explicit[i]
        },
{
}

// ---------------------------------------------------------------------------
// Refusals

/// An argument that is refused is told by its name, what it should be and what it is.
pub proof fn law_refused_arguments_are_told(key: Seq<char>, value: Seq<char>)
    ensures
        typed_literal(key, "I64"@, value) matches Err(m) ==> m == "param '"@ + key + "': "@
            + "expected "@ + "integer"@ + ", got '"@ + value + "'"@,
        typed_literal(key, "I32"@, value) == typed_literal(key, "I64"@, value),
        typed_literal(key, "U32"@, value) matches Err(m) ==> m == "param '"@ + key + "': "@
            + "expected "@ + "unsigned integer"@ + ", got '"@ + value + "'"@,
        typed_literal(key, "F64"@, value) matches Err(m) ==> m == "param '"@ + key + "': "@
            + "expected "@ + "float"@ + ", got '"@ + value + "'"@,
        typed_literal(key, "Bool"@, value) matches Err(m) ==> m == "param '"@ + key + "': "@
            + "expected "@ + "bool"@ + ", got '"@ + value + "'"@,
        param_of(value) matches Err(m) ==> m == "invalid param '"@ + value
            + "': expected key=value"@,
{
    lemma_labels();
}

/// Too many positional arguments are refused with the name of the alias, how many it takes
/// and how many there are.
pub proof fn law_too_many_arguments_are_told(
    alias: Seq<char>,
    names: Seq<Seq<char>>,
    args: Seq<Seq<char>>,
    explicit: Seq<(Seq<char>, Seq<char>)>,
)
    requires
        0 < names.len() < args.len(),
    ensures
        merged_params(Some(alias), names, args, explicit) matches Err(m) && m == "query alias `"@
            + alias + "` accepts "@ + decimal(names.len()) + " positional argument(s) ("@
            + join_of(names, ", "@) + ") but received "@ + decimal(args.len()),
{
}

/// A predicate without an operator, and one without a property or a value, is refused with
/// its text.
pub proof fn law_refused_predicates_are_told(s: Seq<char>)
    ensures
        predicate_of(s) matches Err(m) ==> has_prefix(m, "invalid --where predicate '"@ + s),
        free_of_ops(s) ==> predicate_of(s) is Err,
{
    reveal_strlit(">=");
    reveal_strlit("<=");
    reveal_strlit("!=");
    reveal_strlit("=");
    reveal_strlit(">");
    reveal_strlit("<");
    let start = "invalid --where predicate '"@ + s;
    let a = start + "': expected <property><op><value>"@;
    let b = start + "': supported operators are =, !=, >, >=, <, <="@;
    assert(a.take(start.len() as int) =~= start);
    assert(b.take(start.len() as int) =~= start);
    if free_of_ops(s) {
        lemma_no_op(s, ">="@);
        lemma_no_op(s, "<="@);
        lemma_no_op(s, "!="@);
        lemma_no_op(s, "="@);
        lemma_no_op(s, ">"@);
        lemma_no_op(s, "<"@);
    }
}

proof fn lemma_no_op(s: Seq<char>, w: Seq<char>)
    requires
        free_of_ops(s),
        w.len() > 0,
        w[0] == '=' || w[0] == '!' || w[0] == '<' || w[0] == '>',
    ensures
        find_from(s, w, 0) is None,
{
    lemma_find(s, w, 0);
    if let Some(k) = find_from(s, w, 0) {
        assert(s.subrange(k, k + w.len() as int)[0] == s[k]);
    }
}

/// A type that has a width as a vector is named as one: `Vector(`, digits, a bracket.
pub proof fn law_only_vector_types_have_a_width(label: Seq<char>, k: int)
    requires
        vector_width(label) is Some,
    ensures
        label.len() > 8,
        label.take(7) == "Vector("@,
        label.last() == ')',
        7 <= k < label.len() - 1 ==> '0' <= label[k] <= '9' || (k == 7 && label[k] == '+'),
{
    reveal_strlit("Vector(");
    let rest = label.skip(7);
    let digits = rest.drop_last();
    assert(rest.last() == label.last());
    assert(digits.len() > 0);
    if 7 <= k < label.len() - 1 {
        law_integers_are_made_of_digits(digits, 0, usize::MAX as int, k - 7);
        assert(digits[k - 7] == label[k]);
    }
}

} // verus!
