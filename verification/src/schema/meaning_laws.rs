//! What the parts of a schema text mean, and how a text that is none is refused.

use crate::schema::grammar::{argument_at, block_end, digits_end, lemma_block_end, lemma_line_end, line_end, run_end, schema_syntax, skip, string_end, text_at, AnnotationSyntaxModel, CoreTypeModel, DeclSyntaxModel, TypeSyntaxModel};
use crate::schema::parser::{annotation_meaning, schema_meaning, type_meaning};
use crate::sort::{in_rank_order, law_sorting_orders_and_keeps, lex_le};
use crate::text::{decimal, is_digit, law_signed_decimals_are_read_back};
use crate::types::{scalar_named, PropTypeModel, ScalarType};
use vstd::prelude::*;
use vstd::utf8::encode_utf8;

verus! {

// ---------------------------------------------------------------------------
// Gaps

proof fn lemma_line_ends(s: Seq<char>, i: int, e: int)
    requires
        0 <= i <= e <= s.len(),
        forall|k: int| i <= k < e ==> #[trigger] s[k] != '\n',
        e < s.len() ==> s[e] == '\n',
    ensures
        line_end(s, i) == e,
    decreases e - i,
{
    if i < e {
        lemma_line_ends(s, i + 1, e);
    }
}

proof fn lemma_block_ends(s: Seq<char>, i: int, e: int)
    requires
        0 <= i <= e,
        e + 1 < s.len(),
        s[e] == '*',
        s[e + 1] == '/',
        forall|k: int| i <= k < e ==> !(#[trigger] s[k] == '*' && s[k + 1] == '/'),
    ensures
        block_end(s, i) == Some(e + 2),
    decreases e - i,
{
    if i < e {
        assert(!(s[i] == '*' && s[i + 1] == '/'));
        lemma_block_ends(s, i + 1, e);
    }
}

/// Blanks, tabulators and line breaks are skipped; so is a comment behind two slashes up to
/// the end of its line, and one between a slash with an asterisk and the first asterisk with
/// a slash behind. Whatever else stands there is not.
pub proof fn law_comments_are_skipped(s: Seq<char>, i: int, e: int)
    requires
        0 <= i < s.len(),
    ensures
        s[i] == ' ' || s[i] == '\t' || s[i] == '\n' || s[i] == '\r' ==> skip(s, i) == skip(s, i + 1),
        i + 1 < s.len() && s[i] == '/' && s[i + 1] == '/' && i + 2 <= e <= s.len() && (forall|
            k: int,
        |
            i + 2 <= k < e ==> #[trigger] s[k] != '\n') && (e < s.len() ==> s[e] == '\n') ==> skip(
            s,
            i,
        ) == skip(s, e),
        i + 1 < s.len() && s[i] == '/' && s[i + 1] == '*' && i + 2 <= e && e + 1 < s.len() && s[e]
            == '*' && s[e + 1] == '/' && (forall|k: int|
            i + 2 <= k < e ==> !(#[trigger] s[k] == '*' && s[k + 1] == '/')) ==> skip(s, i) == skip(
            s,
            e + 2,
        ),
        s[i] != ' ' && s[i] != '\t' && s[i] != '\n' && s[i] != '\r' && s[i] != '/' ==> skip(s, i)
            == i,
        s[i] == '/' && (i + 1 == s.len() || (s[i + 1] != '/' && s[i + 1] != '*')) ==> skip(s, i)
            == i,
{
    lemma_line_end(s, i + 2);
    lemma_block_end(s, i + 2);
    if i + 1 < s.len() && s[i] == '/' && s[i + 1] == '/' && i + 2 <= e <= s.len() && (forall|k: int|
        i + 2 <= k < e ==> #[trigger] s[k] != '\n') && (e < s.len() ==> s[e] == '\n') {
        lemma_line_ends(s, i + 2, e);
    }
    if i + 1 < s.len() && s[i] == '/' && s[i + 1] == '*' && i + 2 <= e && e + 1 < s.len() && s[e]
        == '*' && s[e + 1] == '/' && (forall|k: int|
        i + 2 <= k < e ==> !(#[trigger] s[k] == '*' && s[k + 1] == '/')) {
        lemma_block_ends(s, i + 2, e);
    }
}

// ---------------------------------------------------------------------------
// Arguments

/// The text of a string with its escapes: a character behind a backslash where it is marked.
pub open spec fn string_body(units: Seq<(bool, char)>, i: int) -> Seq<char>
    decreases units.len() - i,
{
    if i < 0 || i >= units.len() {
        Seq::empty()
    } else if units[i].0 {
        seq!['\\', units[i].1] + string_body(units, i + 1)
    } else {
        seq![units[i].1] + string_body(units, i + 1)
    }
}

proof fn lemma_string_end(s: Seq<char>, at: int, units: Seq<(bool, char)>, i: int)
    requires
        0 <= i <= units.len(),
        0 <= at,
        at + string_body(units, i).len() < s.len(),
        s.subrange(at, at + string_body(units, i).len() as int) == string_body(units, i),
        s[at + string_body(units, i).len()] == '"',
        forall|k: int|
            0 <= k < units.len() && !(#[trigger] units[k]).0 ==> units[k].1 != '"' && units[k].1
                != '\\',
    ensures
        string_end(s, at) == Some(at + string_body(units, i).len() + 1),
    decreases units.len() - i,
{
    let b = string_body(units, i);
    if i < units.len() {
        let rest = string_body(units, i + 1);
        let w: int = if units[i].0 {
            2
        } else {
            1
        };
        assert(b.len() == w + rest.len());
        assert(s[at] == s.subrange(at, at + b.len() as int)[0]);
        assert(b[0] == (if units[i].0 {
            '\\'
        } else {
            units[i].1
        }));
        assert(s.subrange(at + w, at + w + rest.len() as int) =~= s.subrange(
            at,
            at + b.len() as int,
        ).skip(w));
        assert(b.skip(w) =~= rest);
        lemma_string_end(s, at + w, units, i + 1);
    }
}

/// A string ends at the first quotation mark that does not stand behind a backslash.
pub proof fn law_strings_end_at_their_mark(before: Seq<char>, units: Seq<(bool, char)>, behind: Seq<char>)
    requires
        forall|k: int|
            0 <= k < units.len() && !(#[trigger] units[k]).0 ==> units[k].1 != '"' && units[k].1
                != '\\',
    ensures
        string_end(
            before + string_body(units, 0) + seq!['"'] + behind,
            before.len() as int,
        ) == Some(before.len() as int + string_body(units, 0).len() + 1),
{
    let b = string_body(units, 0);
    let s = before + b + seq!['"'] + behind;
    let n = before.len() as int;
    assert(s.subrange(n, n + b.len() as int) =~= b);
    assert(s[n + b.len()] == '"');
    lemma_string_end(s, n, units, 0);
}

/// What an annotation is given in quotation marks is the text between them; anything else is
/// taken as it stands. An annotation without an argument has no value.
pub proof fn law_annotations_mean_their_argument(name: Seq<char>, text: Seq<char>)
    ensures
        annotation_meaning(
            AnnotationSyntaxModel { name, argument: Some(seq!['"'] + text + seq!['"']) },
        ).value == Some(text),
        text.len() > 0 && text[0] != '"' ==> annotation_meaning(
            AnnotationSyntaxModel { name, argument: Some(text) },
        ).value == Some(text),
        annotation_meaning(AnnotationSyntaxModel { name, argument: None }).value is None,
        annotation_meaning(AnnotationSyntaxModel { name, argument: Some(text) }).name == name,
        annotation_meaning(AnnotationSyntaxModel { name, argument: None }).name == name,
{
    let q = seq!['"'] + text + seq!['"'];
    assert(q[0] == '"' && q.last() == '"');
    assert(q.subrange(1, q.len() - 1) =~= text);
}

proof fn lemma_run(s: Seq<char>, i: int, e: int)
    requires
        0 <= i <= e <= s.len(),
        forall|k: int| i <= k < e ==> '0' <= #[trigger] s[k] <= '9',
        e < s.len() ==> !('0' <= s[e] <= '9'),
    ensures
        digits_end(s, i) == e,
    decreases e - i,
{
    let class = |c: char| is_digit(c);
    if i < e {
        assert('0' <= s[i] <= '9');
        lemma_run(s, i + 1, e);
        assert(run_end(s, i + 1, class) == digits_end(s, i + 1));
    }
}

/// A number that an annotation is given is read up to its last digit, with a minus in front
/// and with a fraction where it has them.
pub proof fn law_numbers_are_read_in_full(s: Seq<char>, i: int, a: int, e: int)
    requires
        0 <= i < a <= e <= s.len(),
        forall|k: int| i <= k < a ==> '0' <= #[trigger] s[k] <= '9',
        a == e || (s[a] == '.' && a + 1 < e && forall|k: int|
            a + 1 <= k < e ==> '0' <= #[trigger] s[k] <= '9'),
        e < s.len() ==> !('0' <= s[e] <= '9'),
        a == e && e < s.len() ==> s[e] != '.',
    ensures
        argument_at(s, i) == Ok::<(Seq<char>, int), int>((s.subrange(i, e), e)),
        i > 0 && s[i - 1] == '-' ==> argument_at(s, i - 1) == Ok::<(Seq<char>, int), int>(
            (s.subrange(i - 1, e), e),
        ),
{
    assert('0' <= s[i] <= '9');
    law_comments_are_skipped(s, i, 0);
    if i > 0 {
        law_comments_are_skipped(s, i - 1, 0);
    }
    lemma_run(s, i, a);
    if a < e {
        assert('0' <= s[a + 1] <= '9');
        lemma_run(s, a + 1, e);
    }
}

// ---------------------------------------------------------------------------
// Types

/// A type by its name is that type, one value of it, which may be missing exactly where the
/// name is followed by a question mark. A list by the name of its items is a list of them. A
/// name of no type is refused.
pub proof fn law_names_mean_their_type(name: Seq<char>, nullable: bool)
    ensures
        scalar_named(name) matches Some(scalar) ==> type_meaning(
            TypeSyntaxModel { core: CoreTypeModel::Base(name), nullable },
        ) == Ok::<PropTypeModel, Seq<char>>(
            PropTypeModel { scalar, nullable, list: false, enum_values: None },
        ) && type_meaning(TypeSyntaxModel { core: CoreTypeModel::List(name), nullable }) == Ok::<
            PropTypeModel,
            Seq<char>,
        >(PropTypeModel { scalar, nullable, list: true, enum_values: None }),
        scalar_named(name) is None ==> type_meaning(
            TypeSyntaxModel { core: CoreTypeModel::Base(name), nullable },
        ) is Err && type_meaning(TypeSyntaxModel { core: CoreTypeModel::List(name), nullable }) is Err,
{
}

/// A vector is as wide as its digits say, from 1 to 2147483647; other widths are refused.
pub proof fn law_vectors_mean_their_width(n: nat, nullable: bool)
    ensures
        0 < n <= 2147483647 ==> type_meaning(
            TypeSyntaxModel { core: CoreTypeModel::Vector(decimal(n)), nullable },
        ) == Ok::<PropTypeModel, Seq<char>>(
            PropTypeModel {
                scalar: ScalarType::Vector(n as u32),
                nullable,
                list: false,
                enum_values: None,
            },
        ),
        n == 0 || n > 2147483647 ==> type_meaning(
            TypeSyntaxModel { core: CoreTypeModel::Vector(decimal(n)), nullable },
        ) is Err,
{
    law_signed_decimals_are_read_back(n, 0, u32::MAX as int);
}

/// An enumeration is a string with the values that it lists, all of them and in order of
/// their characters; one without values, or with a value twice, is refused.
pub proof fn law_enumerations_hold_their_values(values: Seq<Seq<char>>, nullable: bool)
    ensures
        ({
            let r = type_meaning(TypeSyntaxModel { core: CoreTypeModel::Enum(values), nullable });
            &&& r is Ok <==> values.len() > 0 && values.no_duplicates()
            &&& r matches Ok(t) ==> {
                &&& t.scalar == ScalarType::String
                &&& !t.list
                &&& t.nullable == nullable
                &&& t.enum_values matches Some(v) && v.to_multiset() == values.to_multiset()
                    && forall|i: int, j: int|
                    0 <= i < j < v.len() ==> lex_le(#[trigger] v[i], #[trigger] v[j])
            }
        }),
{
    law_sorting_orders_and_keeps::<String>(values);
    if values.no_duplicates() {
        assert(crate::schema::parser::all_distinct(values));
    }
    if crate::schema::parser::all_distinct(values) {
        assert forall|i: int, j: int|
            0 <= i < values.len() && 0 <= j < values.len() && i != j implies values[i]
            != values[j] by {
            if i < j {
                assert(values[i] != values[j]);
            } else {
                assert(values[j] != values[i]);
            }
        }
    }
    let sorted = crate::sort::stably_sorted::<String>(values);
    assert(in_rank_order::<String>(sorted));
    assert forall|i: int, j: int| 0 <= i < j < sorted.len() implies lex_le(
        #[trigger] sorted[i],
        #[trigger] sorted[j],
    ) by {
        assert(<String as crate::sort::Ranked>::ranks_before(sorted[i], sorted[j]));
    }
}

// ---------------------------------------------------------------------------
// Refusals

/// Whatever stands at the start of a schema, behind gaps, is a declaration of a node or an
/// edge; a text of gaps alone declares nothing.
pub proof fn law_schemas_start_with_a_declaration(s: Seq<char>)
    ensures
        skip(s, 0) >= s.len() ==> schema_syntax(s) == Ok::<Seq<DeclSyntaxModel>, int>(Seq::empty()),
        skip(s, 0) < s.len() && schema_syntax(s) is Ok ==> text_at(s, skip(s, 0), "node"@)
            || text_at(s, skip(s, 0), "edge"@),
        skip(s, 0) < s.len() && !text_at(s, skip(s, 0), "node"@) && !text_at(
            s,
            skip(s, 0),
            "edge"@,
        ) ==> schema_syntax(s) == Err::<Seq<DeclSyntaxModel>, int>(skip(s, 0)),
{
}

/// A text that breaks the grammar is refused at the byte where it does; one that breaks a
/// rule is refused without a place.
pub proof fn law_faults_are_told_where_they_are(s: Seq<char>, p: int)
    ensures
        schema_syntax(s) == Err::<Seq<DeclSyntaxModel>, int>(p) ==> (schema_meaning(s) matches Err(d)
            && d.span == Some((encode_utf8(s.take(p)).len(), encode_utf8(s.take(p)).len()))),
        schema_syntax(s) is Ok ==> (schema_meaning(s) matches Err(d) ==> d.span is None),
{
}

} // verus!
