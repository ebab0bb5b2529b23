//! What a check of queries reports.

use crate::cli::error::CliError;
use crate::cli::lines::push_line;
use crate::json::{json_array, json_number, json_string, unsigned, Json, JsonModel, Members};
use crate::text::{cat2, cat3, cat4, decimal, decimal_u64, views};
use vstd::prelude::*;

verus! {

/// What the type check says of a query.
#[derive(Debug)]
pub enum CheckVerdict {
    /// It is sound, and reads.
    Read,
    /// It is sound, and changes the graph.
    Mutation,
    /// It is not, and this is the message.
    Failed(String),
}

/// A query that was checked.
#[derive(Debug)]
pub struct CheckedQuery {
    pub name: String,
    pub has_mutation: bool,
    pub verdict: CheckVerdict,
}

/// The mathematical value of a `CheckedQuery`.
pub struct CheckModel {
    pub name: Seq<char>,
    pub has_mutation: bool,
    pub verdict: VerdictModel,
}

pub enum VerdictModel {
    Read,
    Mutation,
    Failed(Seq<char>),
}

impl View for CheckedQuery {
    type V = CheckModel;

    open spec fn view(&self) -> CheckModel {
        CheckModel {
            name: self.name@,
            has_mutation: self.has_mutation,
            verdict: match self.verdict {
                CheckVerdict::Read => VerdictModel::Read,
                CheckVerdict::Mutation => VerdictModel::Mutation,
                CheckVerdict::Failed(m) => VerdictModel::Failed(m@),
            },
        }
    }
}

/// How many of the first `n` queries failed.
pub open spec fn failures(queries: Seq<CheckModel>, n: int) -> nat
    decreases n,
{
    if n <= 0 || n > queries.len() {
        0
    } else if queries[n - 1].verdict is Failed {
        failures(queries, n - 1) + 1
    } else {
        failures(queries, n - 1)
    }
}

/// The line of a query.
pub open spec fn check_line(q: CheckModel) -> Seq<char> {
    match q.verdict {
        VerdictModel::Read => "OK: query `"@ + q.name + "` (read)"@,
        VerdictModel::Mutation => "OK: query `"@ + q.name + "` (mutation)"@,
        VerdictModel::Failed(m) => "ERROR: query `"@ + q.name + "`: "@ + m,
    }
}

/// What is told of a query.
pub open spec fn check_payload(q: CheckModel) -> JsonModel {
    match q.verdict {
        VerdictModel::Read => JsonModel::Object(
            seq![
                ("name"@, JsonModel::Text(q.name)),
                ("kind"@, JsonModel::Text("read"@)),
                ("status"@, JsonModel::Text("ok"@)),
            ],
        ),
        VerdictModel::Mutation => JsonModel::Object(
            seq![
                ("name"@, JsonModel::Text(q.name)),
                ("kind"@, JsonModel::Text("mutation"@)),
                ("status"@, JsonModel::Text("ok"@)),
            ],
        ),
        VerdictModel::Failed(m) => JsonModel::Object(
            seq![
                ("name"@, JsonModel::Text(q.name)),
                (
                    "kind"@,
                    JsonModel::Text(
                        if q.has_mutation {
                            "mutation"@
                        } else {
                            "read"@
                        },
                    ),
                ),
                ("status"@, JsonModel::Text("error"@)),
                ("error"@, JsonModel::Text(m)),
            ],
        ),
    }
}

/// What is told of a file of queries.
pub open spec fn checks_payload(query_path: Seq<char>, queries: Seq<CheckModel>) -> JsonModel {
    let failed = failures(queries, queries.len() as int);
    JsonModel::Object(
        seq![
            (
                "status"@,
                JsonModel::Text(
                    if failed == 0 {
                        "ok"@
                    } else {
                        "error"@
                    },
                ),
            ),
            ("query_path"@, JsonModel::Text(query_path)),
            ("queries_processed"@, unsigned(queries.len())),
            ("errors"@, unsigned(failed)),
            (
                "results"@,
                JsonModel::Array(Seq::new(queries.len(), |i: int| check_payload(queries[i]))),
            ),
        ],
    )
}

/// The lines on a file of queries: one for each query, then one on all of them.
pub open spec fn check_lines(queries: Seq<CheckModel>) -> Seq<Seq<char>> {
    Seq::new(queries.len(), |i: int| check_line(queries[i])).push(
        "Check complete: "@ + decimal(queries.len()) + " queries processed"@,
    )
}

fn show_check(q: &CheckedQuery) -> (r: String)
    ensures
        r@ == check_line(q@),
{
    match &q.verdict {
        CheckVerdict::Read => cat3("OK: query `", &q.name, "` (read)"),
        CheckVerdict::Mutation => cat3("OK: query `", &q.name, "` (mutation)"),
        CheckVerdict::Failed(m) => cat4("ERROR: query `", &q.name, "`: ", m),
    }
}

fn tell_check(q: &CheckedQuery) -> (r: Json)
    ensures
        r@ == check_payload(q@),
{
    let mut m = Members::new();
    m.push("name", json_string(&q.name));
    match &q.verdict {
        CheckVerdict::Read => {
            m.push("kind", json_string("read"));
            m.push("status", json_string("ok"));
        },
        CheckVerdict::Mutation => {
            m.push("kind", json_string("mutation"));
            m.push("status", json_string("ok"));
        },
        CheckVerdict::Failed(e) => {
            m.push(
                "kind",
                json_string(
                    if q.has_mutation {
                        "mutation"
                    } else {
                        "read"
                    },
                ),
            );
            m.push("status", json_string("error"));
            m.push("error", json_string(e));
        },
    }
    assert(m@ =~= check_payload(q@)->Object_0);
    m.object()
}

fn count_failures(queries: &Vec<CheckedQuery>) -> (r: usize)
    ensures
        r == failures(views(queries@), queries@.len() as int),
        r <= queries@.len(),
{
    let mut n: usize = 0;
    let mut i: usize = 0;
    while i < queries.len()
        invariant
            i <= queries@.len(),
            n <= i,
            n == failures(views(queries@), i as int),
        decreases queries@.len() - i,
    {
        assert(views(queries@)[i as int] == queries@[i as int]@);
        if let CheckVerdict::Failed(_) = &queries[i].verdict {
            n = n + 1;
        }
        i = i + 1;
    }
    n
}

/// The lines on a file of queries.
pub fn print_check_lines(queries: &Vec<CheckedQuery>) -> (r: Vec<String>)
    ensures
        views(r@) == check_lines(views(queries@)),
{
    let ghost all = Seq::new(queries@.len(), |i: int| check_line(views(queries@)[i]));
    let mut out: Vec<String> = Vec::new();
    let mut i: usize = 0;
    assert(views(out@) =~= all.take(0));
    while i < queries.len()
        invariant
            i <= queries@.len(),
            all == Seq::new(queries@.len(), |i: int| check_line(views(queries@)[i])),
            views(out@) == all.take(i as int),
        decreases queries@.len() - i,
    {
        let line = show_check(&queries[i]);
        assert(views(queries@)[i as int] == queries@[i as int]@);
        assert(all.take(i as int + 1) =~= all.take(i as int).push(line@));
        push_line(&mut out, line);
        i = i + 1;
    }
    assert(all.take(queries@.len() as int) =~= all);
    push_line(
        &mut out,
        cat3("Check complete: ", &decimal_u64(queries.len() as u64), " queries processed"),
    );
    out
}

/// What is told of a file of queries.
pub fn build_check_payload(query_path: &str, queries: &Vec<CheckedQuery>) -> (r: Json)
    ensures
        r@ == checks_payload(query_path@, views(queries@)),
{
    let failed = count_failures(queries);
    let mut results: Vec<Json> = Vec::new();
    let mut i: usize = 0;
    while i < queries.len()
        invariant
            i <= queries@.len(),
            results@.len() == i,
            forall|k: int| 0 <= k < i ==> (#[trigger] results@[k])@ == check_payload(queries@[k]@),
        decreases queries@.len() - i,
    {
        results.push(tell_check(&queries[i]));
        i = i + 1;
    }
    let ghost told = Seq::new(queries@.len(), |i: int| check_payload(views(queries@)[i]));
    assert(views(results@) =~= told);
    let mut m = Members::new();
    m.push(
        "status",
        json_string(
            if failed == 0 {
                "ok"
            } else {
                "error"
            },
        ),
    );
    m.push("query_path", json_string(query_path));
    m.push("queries_processed", json_number(queries.len() as u64));
    m.push("errors", json_number(failed as u64));
    m.push("results", json_array(results));
    assert(m@ =~= checks_payload(query_path@, views(queries@))->Object_0);
    m.object()
}

/// Whether a check ends well: with no query that failed.
pub fn check_result(queries: &Vec<CheckedQuery>) -> (r: Result<(), CliError>)
    ensures
        ({
            let failed = failures(views(queries@), queries@.len() as int);
            match r {
                Ok(()) => failed == 0,
                Err(e) => failed > 0 && e@ == decimal(failed) + " query(s) failed typecheck"@,
            }
        }),
{
    let failed = count_failures(queries);
    if failed > 0 {
        Err(CliError::new(cat2(&decimal_u64(failed as u64), " query(s) failed typecheck")))
    } else {
        Ok(())
    }
}

/// A check ends well exactly if every query is sound.
pub proof fn law_check_passes_when_all_are_sound(queries: Seq<CheckModel>, n: int)
    requires
        0 <= n <= queries.len(),
    ensures
        failures(queries, n) == 0 <==> forall|i: int|
            0 <= i < n ==> !((#[trigger] queries[i]).verdict is Failed),
        failures(queries, n) <= n,
    decreases n,
{
    if n > 0 {
        law_check_passes_when_all_are_sound(queries, n - 1);
    }
}

} // verus!
