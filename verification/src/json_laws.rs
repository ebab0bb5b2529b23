//! How JSON values are looked into, changed and written.

use crate::json::{escaped, escaped_text, items_of, json_at, json_get, json_text, json_true, json_u64, lemma_member_kept, lemma_member_set, member, number_or_zero, optional_text, quoted, text_or_empty, texts, with_value, written, written_items, written_member, written_members, JsonModel};
use crate::store::media_laws::hex_value;
use crate::text::{decimal, hex_digit, hex_fixed, law_signed_decimals_are_read_back};
use vstd::prelude::*;

verus! {

// ---------------------------------------------------------------------------
// Values

/// An unsigned number is read from a number in its decimal form, if it fits 64 bits, and
/// from nothing else but a number.
pub proof fn law_numbers_are_read(n: nat, j: JsonModel)
    ensures
        n <= u64::MAX ==> json_u64(JsonModel::Number(decimal(n))) == Some(n as int),
        n <= u64::MAX ==> number_or_zero(JsonModel::Number(decimal(n))) == n,
        n > u64::MAX ==> json_u64(JsonModel::Number(decimal(n))) is None,
        n > u64::MAX ==> number_or_zero(JsonModel::Number(decimal(n))) == 0,
        !(j is Number) ==> json_u64(j) is None && number_or_zero(j) == 0,
{
    law_signed_decimals_are_read_back(n, 0, u64::MAX as int);
}

/// A text is read from a text, the items of an array from an array, a truth from the truth
/// value alone, and nothing from a value of another kind.
pub proof fn law_values_are_read_by_their_kind(j: JsonModel, name: Seq<char>)
    ensures
        j matches JsonModel::Text(s) ==> json_text(j) == Some(s) && text_or_empty(j) == s,
        !(j is Text) ==> json_text(j) is None && text_or_empty(j) == Seq::<char>::empty(),
        j matches JsonModel::Array(v) ==> items_of(j) == v,
        !(j is Array) ==> items_of(j) == Seq::<JsonModel>::empty(),
        json_true(j) <==> j is Bool && j->Bool_0,
        !(j is Object) ==> json_get(j, name) is None && json_at(j, name) is Null,
{
}

/// What may be missing is a text where it is there, and null where it is not.
pub proof fn law_missing_texts_are_null(o: Option<Seq<char>>)
    ensures
        optional_text(o) is Null <==> o is None,
        o matches Some(s) ==> optional_text(o) == JsonModel::Text(s),
{
}

/// A list of texts is an array of as many texts, in order.
pub proof fn law_texts_are_an_array(v: Seq<Seq<char>>, i: int)
    requires
        0 <= i < v.len(),
    ensures
        texts(v) is Array,
        items_of(texts(v)).len() == v.len(),
        items_of(texts(v))[i] == JsonModel::Text(v[i]),
{
}

/// Setting a member of an object changes that member, or adds it, and no other; a value of
/// another kind stays as it is.
pub proof fn law_one_member_is_set(row: JsonModel, name: Seq<char>, value: JsonModel, other: Seq<char>)
    ensures
        row is Object ==> json_get(with_value(row, name, value), name) == Some(value),
        other != name ==> json_get(with_value(row, name, value), other) == json_get(row, other),
        !(row is Object) ==> with_value(row, name, value) == row,
{
    if let JsonModel::Object(o) = row {
        lemma_member_set(o, name, value);
        if other != name {
            lemma_member_kept(o, name, value, other);
        }
    }
}

// ---------------------------------------------------------------------------
// Texts

/// The number that some hexadecimal digits write.
pub open spec fn hex_number(s: Seq<char>) -> int
    decreases s.len(),
{
    if s.len() == 0 {
        0
    } else {
        hex_number(s.drop_last()) * 16 + hex_value(s.last())
    }
}

/// A number of at most so many hexadecimal digits is written with exactly so many, and they
/// write that number.
pub proof fn law_hexadecimal_forms_are_read_back(n: nat, width: nat)
    requires
        n < pow16(width),
    ensures
        hex_fixed(n, width).len() == width,
        hex_number(hex_fixed(n, width)) == n,
        forall|i: int| 0 <= i < width ==> hex_value(#[trigger] hex_fixed(n, width)[i]) >= 0,
    decreases width,
{
    if width > 0 {
        let s = hex_fixed(n, width);
        assert(pow16(width) == 16 * pow16((width - 1) as nat));
        assert(n / 16 < pow16((width - 1) as nat)) by (nonlinear_arith)
            requires
                n < 16 * pow16((width - 1) as nat),
        ;
        law_hexadecimal_forms_are_read_back(n / 16, (width - 1) as nat);
        assert(s == hex_fixed(n / 16, (width - 1) as nat).push(hex_digit(n as int % 16)));
        assert(s.drop_last() =~= hex_fixed(n / 16, (width - 1) as nat));
        assert(hex_value(hex_digit(n as int % 16)) == n as int % 16);
    }
}

/// The first number that needs more than so many hexadecimal digits.
pub open spec fn pow16(width: nat) -> nat
    decreases width,
{
    if width == 0 {
        1
    } else {
        16 * pow16((width - 1) as nat)
    }
}

/// Quotation marks, backslashes and characters that control a line are written behind a
/// backslash, by their letter or else by their number in four digits; every other character
/// is written as it is.
pub proof fn law_characters_are_escaped(c: char)
    ensures
        c == '"' ==> escaped(c) == seq!['\\', '"'],
        c == '\\' ==> escaped(c) == seq!['\\', '\\'],
        c == '\n' ==> escaped(c) == seq!['\\', 'n'],
        c == '\r' ==> escaped(c) == seq!['\\', 'r'],
        c == '\t' ==> escaped(c) == seq!['\\', 't'],
        c == '\u{8}' ==> escaped(c) == seq!['\\', 'b'],
        c == '\u{c}' ==> escaped(c) == seq!['\\', 'f'],
        c as nat >= 0x20 && c != '"' && c != '\\' ==> escaped(c) == seq![c],
        (c as nat) < 0x20 && c != '\n' && c != '\r' && c != '\t' && c != '\u{8}' && c != '\u{c}'
            ==> escaped(c).len() == 6 && escaped(c)[0] == '\\' && escaped(c)[1] == 'u' && hex_number(
            escaped(c).skip(2),
        ) == c as int,
{
    if (c as nat) < 0x20 && c != '\n' && c != '\r' && c != '\t' && c != '\u{8}' && c != '\u{c}' {
        reveal_with_fuel(pow16, 5);
        assert(pow16(4) == 65536);
        law_hexadecimal_forms_are_read_back(c as nat, 4);
        assert(escaped(c).skip(2) =~= hex_fixed(c as nat, 4));
    }
}

/// A text is written character by character, in order, between quotation marks.
pub proof fn law_texts_are_written_in_order(a: Seq<char>, b: Seq<char>, c: char)
    ensures
        escaped_text(a + b) == escaped_text(a) + escaped_text(b),
        escaped_text(seq![c]) == escaped(c),
        quoted(a) == seq!['"'] + escaped_text(a) + seq!['"'],
        written(JsonModel::Text(a)) == quoted(a),
    decreases b.len(),
{
    reveal_with_fuel(escaped_text, 2);
    assert(seq![c].drop_last() =~= Seq::<char>::empty());
    assert(Seq::<char>::empty() + escaped(c) =~= escaped(c));
    if b.len() == 0 {
        assert(a + b =~= a);
        assert(escaped_text(a) + escaped_text(b) =~= escaped_text(a));
    } else {
        law_texts_are_written_in_order(a, b.drop_last(), c);
        assert((a + b).drop_last() =~= a + b.drop_last());
        assert((a + b).last() == b.last());
        assert(escaped_text(a) + escaped_text(b.drop_last()) + escaped(b.last()) =~= escaped_text(a)
            + (escaped_text(b.drop_last()) + escaped(b.last())));
    }
}

// ---------------------------------------------------------------------------
// Written values

/// Null, truth values and numbers are written by their names and their digits.
pub proof fn law_plain_values_are_written(b: bool, n: Seq<char>)
    ensures
        written(JsonModel::Null) == "null"@,
        written(JsonModel::Bool(b)) == "true"@ <==> b,
        written(JsonModel::Bool(b)) == "false"@ <==> !b,
        written(JsonModel::Number(n)) == n,
{
    reveal_strlit("true");
    reveal_strlit("false");
    assert("true"@.len() == 4 && "false"@.len() == 5);
}

/// An array is written between brackets, its items in order with commas between them.
pub proof fn law_arrays_are_written_in_order(v: Seq<JsonModel>, n: int)
    ensures
        written(JsonModel::Array(v)) == "["@ + written_items(v, v.len() as int) + "]"@,
        v.len() == 0 ==> written_items(v, 0) == Seq::<char>::empty(),
        v.len() > 0 ==> written_items(v, 1) == written(v[0]),
        1 < n <= v.len() ==> written_items(v, n) == written_items(v, n - 1) + ","@ + written(
            v[n - 1],
        ),
{
}

/// An object is written between braces, its members in order with commas between them, each
/// by its name in quotation marks, a colon and its value.
pub proof fn law_objects_are_written_in_order(v: Seq<(Seq<char>, JsonModel)>, n: int)
    ensures
        written(JsonModel::Object(v)) == "{"@ + written_members(v, v.len() as int) + "}"@,
        v.len() == 0 ==> written_members(v, 0) == Seq::<char>::empty(),
        v.len() > 0 ==> written_members(v, 1) == quoted(v[0].0) + ":"@ + written(v[0].1),
        1 < n <= v.len() ==> written_members(v, n) == written_members(v, n - 1) + ","@ + (quoted(
            v[n - 1].0,
        ) + ":"@ + written(v[n - 1].1)),
{
    if v.len() > 0 {
        assert(written_member(v[0]) == quoted(v[0].0) + ":"@ + written(v[0].1));
    }
    if 1 < n <= v.len() {
        assert(written_member(v[n - 1]) == quoted(v[n - 1].0) + ":"@ + written(v[n - 1].1));
    }
}

} // verus!
