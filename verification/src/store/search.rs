//! Full text search: the queries that a search stands for, and the scores it gives.

use crate::error::{ErrorModel, NanoError};
use crate::store::batch::{batch_ok, column_named, lemma_column_named, Batch, BatchModel, ColumnData, ColumnModel};
use crate::strings::{ascii_lowercase, lowered};
use crate::text::{cat3, chars_of, lemma_views_push, string_of, views};
use vstd::prelude::*;

verus! {

/// Whether `char::is_alphanumeric` holds of a character.
pub uninterp spec fn char_alphanumeric(c: char) -> bool;

/// `char::is_alphanumeric`: whether Unicode counts a character as a letter or a number.
#[verifier::external_body]
fn is_alphanumeric(c: char) -> (r: bool)
    ensures
        r == char_alphanumeric(c),
{
    c.is_alphanumeric()
}

/// The end of the word that position `i` is in.
pub open spec fn term_end(s: Seq<char>, i: int) -> int
    decreases s.len() - i,
{
    if i < 0 || i >= s.len() || !char_alphanumeric(s[i]) {
        i
    } else {
        term_end(s, i + 1)
    }
}

pub proof fn lemma_term_end(s: Seq<char>, i: int)
    ensures
        i <= term_end(s, i),
        i <= s.len() ==> term_end(s, i) <= s.len(),
        0 <= i < s.len() && char_alphanumeric(s[i]) ==> i < term_end(s, i),
    decreases s.len() - i,
{
    if i < 0 || i >= s.len() || !char_alphanumeric(s[i]) {
    } else {
        lemma_term_end(s, i + 1);
    }
}

/// The words of a text from `i` on, in ASCII lower case, behind those in `acc`. A word is a
/// longest run of letters and numbers.
pub open spec fn terms_from(s: Seq<char>, i: int, acc: Seq<Seq<char>>) -> Seq<Seq<char>>
    decreases s.len() - i,
{
    proof {
        lemma_term_end(s, i);
    }
    if i < 0 || i >= s.len() {
        acc
    } else if !char_alphanumeric(s[i]) {
        terms_from(s, i + 1, acc)
    } else {
        let e = term_end(s, i);
        terms_from(s, e, acc.push(lowered(s.subrange(i, e))))
    }
}

/// The words of a text, in ASCII lower case.
pub open spec fn terms_of(s: Seq<char>) -> Seq<Seq<char>> {
    terms_from(s, 0, Seq::empty())
}

/// The words of a text, in ASCII lower case.
pub fn tokenize_native_text_terms(input: &str) -> (r: Vec<String>)
    ensures
        views(r@) == terms_of(input@),
{
    let v = chars_of(input);
    let mut out: Vec<String> = Vec::new();
    let mut i: usize = 0;
    assert(views(out@) =~= Seq::<Seq<char>>::empty());
    while i < v.len()
        invariant
            v@ == input@,
            i <= v@.len(),
            terms_of(input@) == terms_from(input@, i as int, views(out@)),
        decreases v@.len() - i,
    {
        if !is_alphanumeric(v[i]) {
            i = i + 1;
        } else {
            let mut e: usize = i + 1;
            while e < v.len() && is_alphanumeric(v[e])
                invariant
                    i < e <= v@.len(),
                    term_end(v@, i as int) == term_end(v@, e as int),
                decreases v@.len() - e,
            {
                e = e + 1;
            }
            let term = ascii_lowercase(&string_of(&v, i, e));
            proof {
                lemma_views_push(out@, term);
            }
            out.push(term);
            i = e;
        }
    }
    out
}

/// How a text is searched for.
#[derive(Debug, Clone, Copy, PartialEq, Eq, Structural)]
pub enum TextSearchKind {
    Search,
    Fuzzy { max_edits: Option<u32> },
    MatchText,
    Bm25,
}

/// A search in one column.
#[derive(Debug)]
pub enum NativeTextQuery {
    /// Every term occurs. Where edits are given, each term may differ by that many, and all
    /// its parts occur; `None` within lets the index choose.
    AllTerms { column: String, terms: Vec<String>, edits: Option<Option<u32>> },
    /// The words occur one behind the other.
    Phrase { column: String, text: String },
    /// Any of the words occurs.
    Match { column: String, text: String },
}

pub enum NativeTextQueryModel {
    AllTerms { column: Seq<char>, terms: Seq<Seq<char>>, edits: Option<Option<u32>> },
    Phrase { column: Seq<char>, text: Seq<char> },
    Match { column: Seq<char>, text: Seq<char> },
}

impl View for NativeTextQuery {
    type V = NativeTextQueryModel;

    open spec fn view(&self) -> NativeTextQueryModel {
        match *self {
            NativeTextQuery::AllTerms { column, terms, edits } => NativeTextQueryModel::AllTerms {
                column: column@,
                terms: views(terms@),
                edits,
            },
            NativeTextQuery::Phrase { column, text } => NativeTextQueryModel::Phrase {
                column: column@,
                text: text@,
            },
            NativeTextQuery::Match { column, text } => NativeTextQueryModel::Match {
                column: column@,
                text: text@,
            },
        }
    }
}

/// The query that a search stands for; none where words are wanted and there are none.
pub open spec fn text_query(column: Seq<char>, query: Seq<char>, kind: TextSearchKind) -> Option<
    NativeTextQueryModel,
> {
    let terms = terms_of(query);
    match kind {
        TextSearchKind::Search => if terms.len() == 0 {
            None
        } else {
            Some(NativeTextQueryModel::AllTerms { column, terms, edits: None })
        },
        TextSearchKind::Fuzzy { max_edits } => if terms.len() == 0 {
            None
        } else {
            Some(NativeTextQueryModel::AllTerms { column, terms, edits: Some(max_edits) })
        },
        TextSearchKind::MatchText => Some(NativeTextQueryModel::Phrase { column, text: query }),
        TextSearchKind::Bm25 => Some(NativeTextQueryModel::Match { column, text: query }),
    }
}

/// The query that a search in a column stands for.
pub fn build_native_text_query(column: &str, query: &str, kind: TextSearchKind) -> (r: Option<
    NativeTextQuery,
>)
    ensures
        match r {
            Some(q) => text_query(column@, query@, kind) == Some(q@),
            None => text_query(column@, query@, kind) is None,
        },
        kind is MatchText ==> (r matches Some(NativeTextQuery::Phrase { column: c, text }) && c@
            == column@ && text@ == query@),
        kind is Bm25 ==> (r matches Some(NativeTextQuery::Match { column: c, text }) && c@
            == column@ && text@ == query@),
{
    let edits: Option<Option<u32>> = match kind {
        TextSearchKind::Search => None,
        TextSearchKind::Fuzzy { max_edits } => Some(max_edits),
        TextSearchKind::MatchText => {
            return Some(
                NativeTextQuery::Phrase { column: column.to_owned(), text: query.to_owned() },
            );
        },
        TextSearchKind::Bm25 => {
            return Some(
                NativeTextQuery::Match { column: column.to_owned(), text: query.to_owned() },
            );
        },
    };
    let terms = tokenize_native_text_terms(query);
    assert(views(terms@).len() == terms@.len());
    if terms.len() == 0 {
        return None;
    }
    Some(NativeTextQuery::AllTerms { column: column.to_owned(), terms, edits })
}

/// The query that a search of a property stands for; one that stands for none is refused.
pub fn plan_native_text_search(
    property: &str,
    column: &str,
    query: &str,
    kind: TextSearchKind,
) -> (r: Result<NativeTextQuery, NanoError>)
    ensures
        match r {
            Ok(q) => text_query(column@, query@, kind) == Some(q@),
            Err(e) => text_query(column@, query@, kind) is None && e@ == ErrorModel::Execution(
                "could not build native text query for property `"@ + property@ + "`"@,
            ),
        },
{
    match build_native_text_query(column, query, kind) {
        Some(q) => Ok(q),
        None => Err(
            NanoError::Execution(
                cat3("could not build native text query for property `", property, "`"),
            ),
        ),
    }
}

// ---------------------------------------------------------------------------
// Scores

/// The rows and scores of a batch, or the message that it has the wrong shape. A row whose
/// identity is null is left out; a null score is zero. Scores are held as their bits.
pub open spec fn scores_of(b: BatchModel, id_field: Seq<char>) -> Result<
    Seq<(u64, u32)>,
    Seq<char>,
> {
    if b.num_rows == 0 {
        Ok(Seq::empty())
    } else {
        match column_named(b, id_field, 0) {
            None => Err("fts batch missing internal id column"@),
            Some(ColumnModel::UInt64(ids, known)) => match column_named(b, "_score"@, 0) {
                None => Err("fts batch missing _score column"@),
                Some(ColumnModel::Float32(bits, valid)) => Ok(
                    scored_rows(ids, known, bits, valid, b.num_rows as int),
                ),
                Some(_) => Err("fts _score column is not Float32"@),
            },
            Some(_) => Err("fts id column is not UInt64"@),
        }
    }
}

/// The scores of the first `n` rows.
pub open spec fn scored_rows(
    ids: Seq<u64>,
    known: Seq<bool>,
    bits: Seq<u32>,
    valid: Seq<bool>,
    n: int,
) -> Seq<(u64, u32)>
    decreases n,
{
    if n <= 0 {
        Seq::empty()
    } else {
        let before = scored_rows(ids, known, bits, valid, n - 1);
        if !known[n - 1] {
            before
        } else {
            before.push(
                (
                    ids[n - 1],
                    if valid[n - 1] {
                        bits[n - 1]
                    } else {
                        0
                    },
                ),
            )
        }
    }
}

/// The rows and scores of a batch of search results.
pub fn text_scores(batch: &Batch, id_field: &str) -> (r: Result<Vec<(u64, u32)>, NanoError>)
    requires
        batch_ok(batch@),
    ensures
        match r {
            Ok(v) => scores_of(batch@, id_field@) == Ok::<Seq<(u64, u32)>, Seq<char>>(v@),
            Err(e) => scores_of(batch@, id_field@) matches Err(m) && e@ == ErrorModel::Storage(m),
        },
{
    let mut out: Vec<(u64, u32)> = Vec::new();
    if batch.num_rows == 0 {
        assert(out@ =~= Seq::<(u64, u32)>::empty());
        return Ok(out);
    }
    proof {
        lemma_column_named(batch@, id_field@, 0);
        lemma_column_named(batch@, "_score"@, 0);
    }
    let (ids, known) = match batch.column_by_name(id_field) {
        None => {
            return Err(NanoError::Storage("fts batch missing internal id column".to_owned()));
        },
        Some(ColumnData::UInt64 { values, valid }) => (values, valid),
        Some(_) => {
            return Err(NanoError::Storage("fts id column is not UInt64".to_owned()));
        },
    };
    let (bits, valid) = match batch.column_by_name("_score") {
        None => {
            return Err(NanoError::Storage("fts batch missing _score column".to_owned()));
        },
        Some(ColumnData::Float32 { bits, valid }) => (bits, valid),
        Some(_) => {
            return Err(NanoError::Storage("fts _score column is not Float32".to_owned()));
        },
    };
    let n: usize = batch.num_rows;
    let mut i: usize = 0;
    while i < n
        invariant
            i <= n,
            ids@.len() == n,
            known@.len() == n,
            bits@.len() == n,
            valid@.len() == n,
            out@ == scored_rows(ids@, known@, bits@, valid@, i as int),
        decreases n - i,
    {
        if known[i] {
            let score: u32 = if valid[i] {
                bits[i]
            } else {
                0
            };
            out.push((ids[i], score));
        }
        i = i + 1;
    }
    Ok(out)
}

// ---------------------------------------------------------------------------
// Laws

proof fn lemma_term_chars(s: Seq<char>, i: int, k: int)
    requires
        0 <= i <= k < term_end(s, i),
    ensures
        k < s.len(),
        char_alphanumeric(s[k]),
    decreases s.len() - i,
{
    if i < s.len() && char_alphanumeric(s[i]) && i < k {
        lemma_term_chars(s, i + 1, k);
    }
}

/// Whether a text is a run of letters and numbers of another text, in ASCII lower case.
pub open spec fn is_word_of(s: Seq<char>, term: Seq<char>) -> bool {
    exists|a: int, b: int|
        0 <= a < b <= s.len() && term == lowered(#[trigger] s.subrange(a, b)) && forall|k: int|
            a <= k < b ==> char_alphanumeric(#[trigger] s[k])
}

proof fn lemma_terms(s: Seq<char>, i: int, acc: Seq<Seq<char>>)
    requires
        0 <= i,
        forall|k: int| 0 <= k < acc.len() ==> is_word_of(s, #[trigger] acc[k]),
    ensures
        forall|k: int|
            0 <= k < terms_from(s, i, acc).len() ==> is_word_of(
                s,
                #[trigger] terms_from(s, i, acc)[k],
            ),
    decreases s.len() - i,
{
    lemma_term_end(s, i);
    if i >= s.len() {
    } else if !char_alphanumeric(s[i]) {
        lemma_terms(s, i + 1, acc);
        assert(terms_from(s, i, acc) == terms_from(s, i + 1, acc));
    } else {
        let e = term_end(s, i);
        assert forall|k: int| i <= k < e implies char_alphanumeric(#[trigger] s[k]) by {
            lemma_term_chars(s, i, k);
        }
        let term = lowered(s.subrange(i, e));
        assert(is_word_of(s, term));
        lemma_terms(s, e, acc.push(term));
        assert(terms_from(s, i, acc) == terms_from(s, e, acc.push(term)));
    }
}

/// Every term of a text is a run of letters and numbers of it, of one character or more, in
/// ASCII lower case.
pub proof fn law_terms_are_words(s: Seq<char>, k: int)
    requires
        0 <= k < terms_of(s).len(),
    ensures
        is_word_of(s, terms_of(s)[k]),
        terms_of(s)[k].len() > 0,
{
    lemma_terms(s, 0, Seq::empty());
    assert(is_word_of(s, terms_of(s)[k]));
}

} // verus!
