//! The schema resolver and the row evaluator: column names are resolved
//! against the header row by first exact match, a filter expression is
//! evaluated against one row's cells with short-circuiting `and`/`or`, and a
//! projection list picks cells in its own order.

use crate::errors::AppError;
use crate::query_parser::Query;
use crate::query_parser::QueryModel;
use vstd::prelude::*;
use vstd::string::StringExecFns;

verus! {

/// First-match resolution: the lowest index whose header cell equals `name`,
/// or nothing when no cell does. Duplicate header names therefore resolve to
/// the first occurrence.
pub open spec fn spec_resolve(header: Seq<Seq<char>>, name: Seq<char>) -> Option<int>
    decreases header.len(),
{
    if header.len() == 0 {
        None
    } else if header[0] == name {
        Some(0)
    } else {
        match spec_resolve(header.drop_first(), name) {
            Some(i) => Some(i + 1),
            None => None,
        }
    }
}

/// The first-match law: a resolved index holds the name and no earlier index
/// does; an unresolved name occurs nowhere. As `spec_resolve` is a function
/// of the name and the schema alone, resolving the same name against the
/// same schema always yields the same index.
pub proof fn lemma_resolve_first_match(header: Seq<Seq<char>>, name: Seq<char>)
    ensures
        match spec_resolve(header, name) {
            Some(i) => 0 <= i < header.len() && header[i] == name && (forall|j: int|
                0 <= j < i ==> header[j] != name),
            None => forall|j: int| 0 <= j < header.len() ==> header[j] != name,
        },
    decreases header.len(),
{
    if header.len() > 0 && header[0] != name {
        let rest = header.drop_first();
        lemma_resolve_first_match(rest, name);
        match spec_resolve(rest, name) {
            Some(i) => {
                assert(header[i + 1] == rest[i]);
                assert forall|j: int| 0 <= j < i + 1 implies header[j] != name by {
                    if j > 0 {
                        assert(rest[j - 1] == header[j]);
                    }
                }
            },
            None => {
                assert forall|j: int| 0 <= j < header.len() implies header[j] != name by {
                    if j > 0 {
                        assert(rest[j - 1] == header[j]);
                    }
                }
            },
        }
    }
}

/// The converse: any index with those two properties is the resolved one.
pub proof fn lemma_resolve_complete(header: Seq<Seq<char>>, name: Seq<char>, i: int)
    requires
        0 <= i < header.len(),
        header[i] == name,
        forall|j: int| 0 <= j < i ==> header[j] != name,
    ensures
        spec_resolve(header, name) == Some(i),
{
    lemma_resolve_first_match(header, name);
    match spec_resolve(header, name) {
        Some(k) => {
            if k < i {
                assert(header[k] == name);
            } else if i < k {
                assert(header[i] != name);
            }
        },
        None => {
            assert(header[i] == name);
        },
    }
}

/// Resolves a column name against the header row by scanning for the first
/// exact match (case-sensitive, no trimming).
pub fn resolve_field(headers: &Vec<String>, name: &String) -> (r: Option<usize>)
    ensures
        match r {
            Some(i) => spec_resolve(headers.deep_view(), name@) == Some(i as int) && i
                < headers@.len(),
            None => spec_resolve(headers.deep_view(), name@) is None,
        },
{
    let ghost header = headers.deep_view();
    let mut i: usize = 0;
    while i < headers.len()
        invariant
            i <= headers@.len(),
            header == headers.deep_view(),
            forall|j: int| 0 <= j < i ==> header[j] != name@,
        decreases headers@.len() - i,
    {
        proof {
            assert(header[i as int] == headers@[i as int]@);
        }
        if headers[i].eq(name) {
            proof {
                lemma_resolve_complete(header, name@, i as int);
            }
            return Some(i);
        }
        i = i + 1;
    }
    proof {
        lemma_resolve_first_match(header, name@);
    }
    None
}

/// Evaluation of a filter expression against one row: a comparison looks the
/// field up and compares the cell text to the literal; `and` and `or`
/// short-circuit left to right, so a field name in an unevaluated branch is
/// never looked up. An unresolved field that is reached yields its name as
/// the error.
pub open spec fn spec_eval(q: QueryModel, header: Seq<Seq<char>>, row: Seq<Seq<char>>) -> Result<
    bool,
    Seq<char>,
>
    decreases q,
{
    match q {
        QueryModel::Equality(f, v) => match spec_resolve(header, f) {
            Some(i) => Ok(row[i] == v),
            None => Err(f),
        },
        QueryModel::Difference(f, v) => match spec_resolve(header, f) {
            Some(i) => Ok(row[i] != v),
            None => Err(f),
        },
        QueryModel::OrCombination(l, r) => match spec_eval(*l, header, row) {
            Ok(b) => if b {
                Ok(true)
            } else {
                spec_eval(*r, header, row)
            },
            Err(e) => Err(e),
        },
        QueryModel::AndCombination(l, r) => match spec_eval(*l, header, row) {
            Ok(b) => if !b {
                Ok(false)
            } else {
                spec_eval(*r, header, row)
            },
            Err(e) => Err(e),
        },
    }
}

/// An absent filter keeps every row; a present one is evaluated.
pub open spec fn spec_should_display(
    q: Option<QueryModel>,
    header: Seq<Seq<char>>,
    row: Seq<Seq<char>>,
) -> Result<bool, Seq<char>> {
    match q {
        Some(m) => spec_eval(m, header, row),
        None => Ok(true),
    }
}

/// The short-circuit law for `and`: when the left side evaluates to false,
/// the combination is false whatever the right side holds — even a right
/// side naming an unknown field raises no error.
pub proof fn lemma_and_short_circuit(
    l: QueryModel,
    r: QueryModel,
    header: Seq<Seq<char>>,
    row: Seq<Seq<char>>,
)
    requires
        spec_eval(l, header, row) == Ok::<bool, Seq<char>>(false),
    ensures
        spec_eval(QueryModel::AndCombination(Box::new(l), Box::new(r)), header, row) == Ok::<
            bool,
            Seq<char>,
        >(false),
{
}

/// The short-circuit law for `or`: when the left side evaluates to true, the
/// combination is true whatever the right side holds — even a right side
/// naming an unknown field raises no error.
pub proof fn lemma_or_short_circuit(
    l: QueryModel,
    r: QueryModel,
    header: Seq<Seq<char>>,
    row: Seq<Seq<char>>,
)
    requires
        spec_eval(l, header, row) == Ok::<bool, Seq<char>>(true),
    ensures
        spec_eval(QueryModel::OrCombination(Box::new(l), Box::new(r)), header, row) == Ok::<
            bool,
            Seq<char>,
        >(true),
{
}

/// Evaluates a filter expression against one row's cells.
pub fn eval_query(q: &Query, record: &Vec<String>, headers: &Vec<String>) -> (r: Result<
    bool,
    AppError,
>)
    requires
        record@.len() == headers@.len(),
    ensures
        ({
            let m = spec_eval(q@, headers.deep_view(), record.deep_view());
            match r {
                Ok(b) => m == Ok::<bool, Seq<char>>(b),
                Err(e) => e is InvalidFieldInWhereClause && m == Err::<bool, Seq<char>>(
                    e->InvalidFieldInWhereClause_0@,
                ),
            }
        }),
    decreases q,
{
    match q {
        Query::Equality(field, value) => match resolve_field(headers, field) {
            Some(i) => {
                proof {
                    assert(record.deep_view()[i as int] == record@[i as int]@);
                }
                Ok(record[i].eq(value))
            },
            None => Err(AppError::InvalidFieldInWhereClause(field.clone())),
        },
        Query::Difference(field, value) => match resolve_field(headers, field) {
            Some(i) => {
                proof {
                    assert(record.deep_view()[i as int] == record@[i as int]@);
                }
                Ok(!record[i].eq(value))
            },
            None => Err(AppError::InvalidFieldInWhereClause(field.clone())),
        },
        Query::OrCombination(left, right) => match eval_query(left, record, headers) {
            Ok(b) => if b {
                Ok(true)
            } else {
                eval_query(right, record, headers)
            },
            Err(e) => Err(e),
        },
        Query::AndCombination(left, right) => match eval_query(left, record, headers) {
            Ok(b) => if !b {
                Ok(false)
            } else {
                eval_query(right, record, headers)
            },
            Err(e) => Err(e),
        },
    }
}

/// Decides whether one row is kept: every row is kept when no filter is
/// present, else the filter decides. The row must be positionally aligned
/// with the header row.
pub fn should_display_record(record: &Vec<String>, query: &Option<Query>, headers: &Vec<String>)
    -> (r: Result<bool, AppError>)
    requires
        record@.len() == headers@.len(),
    ensures
        ({
            let m = spec_should_display(
                match query {
                    Some(q) => Some(q@),
                    None => None,
                },
                headers.deep_view(),
                record.deep_view(),
            );
            match r {
                Ok(b) => m == Ok::<bool, Seq<char>>(b),
                Err(e) => e is InvalidFieldInWhereClause && m == Err::<bool, Seq<char>>(
                    e->InvalidFieldInWhereClause_0@,
                ),
            }
        }),
{
    match query {
        Some(q) => eval_query(q, record, headers),
        None => Ok(true),
    }
}

/// Projection of one row: each name of the projection list, in order and
/// with duplicates kept, is resolved and picks its cell; the first name that
/// resolves nowhere is the error.
pub open spec fn spec_project(
    names: Seq<Seq<char>>,
    header: Seq<Seq<char>>,
    row: Seq<Seq<char>>,
) -> Result<Seq<Seq<char>>, Seq<char>>
    decreases names.len(),
{
    if names.len() == 0 {
        Ok(Seq::empty())
    } else {
        match spec_resolve(header, names[0]) {
            Some(i) => match spec_project(names.drop_first(), header, row) {
                Ok(rest) => Ok(seq![row[i]] + rest),
                Err(e) => Err(e),
            },
            None => Err(names[0]),
        }
    }
}

/// Picks the projected cells of one row, in the order the projection lists
/// them. The row must be positionally aligned with the header row.
pub fn row_for_record(
    record: &Vec<String>,
    headers: &Vec<String>,
    headers_to_display: &Vec<String>,
) -> (r: Result<Vec<String>, AppError>)
    requires
        record@.len() == headers@.len(),
    ensures
        ({
            let m = spec_project(
                headers_to_display.deep_view(),
                headers.deep_view(),
                record.deep_view(),
            );
            match r {
                Ok(cells) => m == Ok::<Seq<Seq<char>>, Seq<char>>(cells.deep_view()),
                Err(e) => e is InvalidFieldInSelectClause && m == Err::<Seq<Seq<char>>, Seq<char>>(
                    e->InvalidFieldInSelectClause_0@,
                ),
            }
        }),
{
    let ghost names = headers_to_display.deep_view();
    let ghost header = headers.deep_view();
    let ghost row = record.deep_view();
    proof {
        assert(names.skip(0) =~= names);
    }
    let mut cells: Vec<String> = Vec::new();
    let mut k: usize = 0;
    while k < headers_to_display.len()
        invariant
            k <= headers_to_display@.len(),
            names == headers_to_display.deep_view(),
            header == headers.deep_view(),
            row == record.deep_view(),
            record@.len() == headers@.len(),
            spec_project(names, header, row) == (match spec_project(
                names.skip(k as int),
                header,
                row,
            ) {
                Ok(rest) => Ok::<Seq<Seq<char>>, Seq<char>>(cells.deep_view() + rest),
                Err(e) => Err::<Seq<Seq<char>>, Seq<char>>(e),
            }),
        decreases headers_to_display@.len() - k,
    {
        proof {
            assert(names.skip(k as int)[0] == names[k as int]);
            assert(names.skip(k as int).drop_first() =~= names.skip(k as int + 1));
            assert(names[k as int] == headers_to_display@[k as int]@);
        }
        match resolve_field(headers, &headers_to_display[k]) {
            Some(i) => {
                let ghost old_cells = cells.deep_view();
                let cell = record[i].clone();
                cells.push(cell);
                proof {
                    assert(row[i as int] == record@[i as int]@);
                    assert(cells.deep_view() =~= old_cells.push(row[i as int]));
                    match spec_project(names.skip(k as int + 1), header, row) {
                        Ok(rest) => {
                            assert(old_cells + (seq![row[i as int]] + rest) =~= cells.deep_view()
                                + rest);
                        },
                        Err(_) => {},
                    }
                }
            },
            None => {
                return Err(AppError::InvalidFieldInSelectClause(headers_to_display[k].clone()));
            },
        }
        k = k + 1;
    }
    proof {
        assert(names.skip(k as int) =~= Seq::<Seq<char>>::empty());
        assert(cells.deep_view() + Seq::<Seq<char>>::empty() =~= cells.deep_view());
    }
    Ok(cells)
}

/// One left-aligned column specifier per displayed header, space-separated:
/// the table layout the renderer is handed.
pub open spec fn spec_row_spec(n: nat) -> Seq<char>
    decreases n,
{
    if n == 0 {
        Seq::empty()
    } else if n == 1 {
        "{:<}"@
    } else {
        spec_row_spec((n - 1) as nat) + " {:<}"@
    }
}

/// Builds the column-layout string for the displayed headers.
pub fn row_spec(headers: &Vec<String>) -> (r: String)
    ensures
        r@ == spec_row_spec(headers@.len()),
{
    let mut out = String::new();
    let mut i: usize = 0;
    while i < headers.len()
        invariant
            i <= headers@.len(),
            out@ == spec_row_spec(i as nat),
        decreases headers@.len() - i,
    {
        if i == 0 {
            out.append("{:<}");
            proof {
                assert(Seq::<char>::empty() + "{:<}"@ =~= "{:<}"@);
            }
        } else {
            out.append(" {:<}");
        }
        i = i + 1;
    }
    out
}

} // verus!
