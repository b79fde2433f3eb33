//! The filter-expression language: a boolean combination of field
//! comparisons, parsed by recursive descent with ordered alternatives.
//!
//! Grammar, lowest precedence first (`?` marks an optional suffix that is
//! dropped when its body fails to parse):
//!
//! ```text
//! or_expr    := and_expr ( "or" or_expr )?
//! and_expr   := primary ( "and" and_expr )?
//! primary    := comparison | "(" or_expr ")"
//! comparison := field ( "=" | "<>" ) "'" text-until-quote "'"
//! ```
//!
//! `and` binds tighter than `or`; both chains are right-recursive.
//! Whitespace is insignificant around tokens. Alternatives are ordered and
//! committing: `primary` tries `comparison` before a parenthesized group, so
//! an input whose opening parenthesis can be read as the start of a bare
//! field name is taken that way.

use crate::errors::ParseError;
use crate::field_ref::lemma_skip_ws_bounds;
use crate::field_ref::parse_field;
use crate::field_ref::skip_ws;
use crate::field_ref::spec_find;
use crate::field_ref::spec_parse_field;
use crate::field_ref::spec_skip_ws;
use crate::field_ref::find_char;
use vstd::prelude::*;
use vstd::string::StrSliceExecFns;

verus! {

/// A parsed filter expression: a leaf comparison of a field against a
/// literal, or a boolean combination of two sub-expressions.
#[derive(Debug, PartialEq)]
pub enum Query {
    Equality(String, String),
    Difference(String, String),
    OrCombination(Box<Query>, Box<Query>),
    AndCombination(Box<Query>, Box<Query>),
}

/// The mathematical shape of a filter expression, with field and value texts
/// as character sequences.
#[verifier::ext_equal]
pub ghost enum QueryModel {
    Equality(Seq<char>, Seq<char>),
    Difference(Seq<char>, Seq<char>),
    OrCombination(Box<QueryModel>, Box<QueryModel>),
    AndCombination(Box<QueryModel>, Box<QueryModel>),
}

pub open spec fn model_of(q: Query) -> QueryModel
    decreases q,
{
    match q {
        Query::Equality(f, v) => QueryModel::Equality(f@, v@),
        Query::Difference(f, v) => QueryModel::Difference(f@, v@),
        Query::OrCombination(l, r) => QueryModel::OrCombination(
            Box::new(model_of(*l)),
            Box::new(model_of(*r)),
        ),
        Query::AndCombination(l, r) => QueryModel::AndCombination(
            Box::new(model_of(*l)),
            Box::new(model_of(*r)),
        ),
    }
}

impl View for Query {
    type V = QueryModel;

    open spec fn view(&self) -> QueryModel {
        model_of(*self)
    }
}

/// A quoted literal at `pos`: leading whitespace, `'`, everything up to the
/// next `'` (no escape mechanism), the closing `'`, trailing whitespace.
pub open spec fn spec_parse_value(s: Seq<char>, pos: int) -> Option<(Seq<char>, int)> {
    let p = spec_skip_ws(s, pos);
    if p < s.len() && s[p] == '\'' {
        match spec_find(s, p + 1, '\'') {
            Some(j) => Some((s.subrange(p + 1, j), spec_skip_ws(s, j + 1))),
            None => None,
        }
    } else {
        None
    }
}

/// A comparison at `pos`: a field reference (bare form reserves `=`),
/// then `=` or `<>` immediately after it, then a quoted literal.
pub open spec fn spec_parse_comparison(s: Seq<char>, pos: int) -> Option<(QueryModel, int)> {
    match spec_parse_field(s, pos, '=') {
        Some((f, p1)) => {
            if p1 < s.len() && s[p1] == '=' {
                match spec_parse_value(s, p1 + 1) {
                    Some((v, p2)) => Some((QueryModel::Equality(f, v), p2)),
                    None => None,
                }
            } else if p1 < s.len() && s[p1] == '<' && p1 + 1 < s.len() && s[p1 + 1] == '>' {
                match spec_parse_value(s, p1 + 2) {
                    Some((v, p2)) => Some((QueryModel::Difference(f, v), p2)),
                    None => None,
                }
            } else {
                None
            }
        },
        None => None,
    }
}

/// An operand of a boolean combination: a comparison if one parses here,
/// otherwise a parenthesized sub-expression. The position guards (`pos <= p`
/// and the like) only secure termination; parsing always advances, so they
/// never reject an input.
pub open spec fn spec_parse_primary(s: Seq<char>, pos: int) -> Option<(QueryModel, int)>
    decreases s.len() - pos, 0int,
{
    match spec_parse_comparison(s, pos) {
        Some(r) => Some(r),
        None => {
            let p = spec_skip_ws(s, pos);
            if pos <= p && p < s.len() && s[p] == '(' {
                match spec_parse_or(s, p + 1) {
                    Some((q, p2)) => if p2 < s.len() && s[p2] == ')' {
                        Some((q, spec_skip_ws(s, p2 + 1)))
                    } else {
                        None
                    },
                    None => None,
                }
            } else {
                None
            }
        },
    }
}

/// An `and`-chain at `pos`: a primary, extended by `and` and a further
/// `and`-chain when one follows, right-recursively.
pub open spec fn spec_parse_and(s: Seq<char>, pos: int) -> Option<(QueryModel, int)>
    decreases s.len() - pos, 1int,
{
    match spec_parse_primary(s, pos) {
        Some((l, p1)) => {
            if p1 < s.len() && s[p1] == 'a' && p1 + 1 < s.len() && s[p1 + 1] == 'n' && p1 + 2
                < s.len() && s[p1 + 2] == 'd' {
                let p2 = spec_skip_ws(s, p1 + 3);
                if pos < p2 && p2 <= s.len() {
                    match spec_parse_and(s, p2) {
                        Some((r2, p3)) => Some(
                            (QueryModel::AndCombination(Box::new(l), Box::new(r2)), p3),
                        ),
                        None => Some((l, p1)),
                    }
                } else {
                    Some((l, p1))
                }
            } else {
                Some((l, p1))
            }
        },
        None => None,
    }
}

/// An `or`-chain at `pos`: an `and`-chain, extended by `or` and a further
/// `or`-chain when one follows, right-recursively. `and` therefore binds
/// tighter than `or`.
pub open spec fn spec_parse_or(s: Seq<char>, pos: int) -> Option<(QueryModel, int)>
    decreases s.len() - pos, 2int,
{
    match spec_parse_and(s, pos) {
        Some((l, p1)) => {
            if p1 < s.len() && s[p1] == 'o' && p1 + 1 < s.len() && s[p1 + 1] == 'r' {
                let p2 = spec_skip_ws(s, p1 + 2);
                if pos < p2 && p2 <= s.len() {
                    match spec_parse_or(s, p2) {
                        Some((r2, p3)) => Some(
                            (QueryModel::OrCombination(Box::new(l), Box::new(r2)), p3),
                        ),
                        None => Some((l, p1)),
                    }
                } else {
                    Some((l, p1))
                }
            } else {
                Some((l, p1))
            }
        },
        None => None,
    }
}

/// The whole filter option string: one `or`-chain that must consume the
/// entire input (trailing whitespace included, since every rule discards it).
pub open spec fn spec_parse_query(s: Seq<char>) -> Option<QueryModel> {
    match spec_parse_or(s, 0) {
        Some((q, p)) => if p == s.len() {
            Some(q)
        } else {
            None
        },
        None => None,
    }
}

pub proof fn lemma_parse_value_bounds(s: Seq<char>, pos: int)
    requires
        0 <= pos <= s.len(),
        spec_parse_value(s, pos) is Some,
    ensures
        pos < spec_parse_value(s, pos)->Some_0.1 <= s.len(),
        spec_parse_value(s, pos)->Some_0.1 < s.len() ==> !crate::field_ref::is_ws(
            s[spec_parse_value(s, pos)->Some_0.1],
        ),
{
    let p = spec_skip_ws(s, pos);
    lemma_skip_ws_bounds(s, pos);
    let j = spec_find(s, p + 1, '\'')->Some_0;
    crate::field_ref::lemma_find_bounds(s, p + 1, '\'');
    lemma_skip_ws_bounds(s, j + 1);
}

pub proof fn lemma_parse_comparison_bounds(s: Seq<char>, pos: int)
    requires
        0 <= pos <= s.len(),
        spec_parse_comparison(s, pos) is Some,
    ensures
        pos < spec_parse_comparison(s, pos)->Some_0.1 <= s.len(),
        spec_parse_comparison(s, pos)->Some_0.1 < s.len() ==> !crate::field_ref::is_ws(
            s[spec_parse_comparison(s, pos)->Some_0.1],
        ),
{
    let p1 = spec_parse_field(s, pos, '=')->Some_0.1;
    crate::field_ref::lemma_parse_field_bounds(s, pos, '=');
    if p1 < s.len() && s[p1] == '=' {
        lemma_parse_value_bounds(s, p1 + 1);
    } else {
        lemma_parse_value_bounds(s, p1 + 2);
    }
}

/// Every successful rule of the expression grammar advances the cursor and
/// leaves it at the end of the input or on a non-whitespace character.
pub proof fn lemma_parse_primary_bounds(s: Seq<char>, pos: int)
    requires
        0 <= pos <= s.len(),
        spec_parse_primary(s, pos) is Some,
    ensures
        pos < spec_parse_primary(s, pos)->Some_0.1 <= s.len(),
        spec_parse_primary(s, pos)->Some_0.1 < s.len() ==> !crate::field_ref::is_ws(
            s[spec_parse_primary(s, pos)->Some_0.1],
        ),
    decreases s.len() - pos, 0int,
{
    if spec_parse_comparison(s, pos) is Some {
        lemma_parse_comparison_bounds(s, pos);
    } else {
        let p = spec_skip_ws(s, pos);
        lemma_skip_ws_bounds(s, pos);
        lemma_parse_or_bounds(s, p + 1);
        let p2 = spec_parse_or(s, p + 1)->Some_0.1;
        lemma_skip_ws_bounds(s, p2 + 1);
    }
}

pub proof fn lemma_parse_and_bounds(s: Seq<char>, pos: int)
    requires
        0 <= pos <= s.len(),
        spec_parse_and(s, pos) is Some,
    ensures
        pos < spec_parse_and(s, pos)->Some_0.1 <= s.len(),
        spec_parse_and(s, pos)->Some_0.1 < s.len() ==> !crate::field_ref::is_ws(
            s[spec_parse_and(s, pos)->Some_0.1],
        ),
    decreases s.len() - pos, 1int,
{
    lemma_parse_primary_bounds(s, pos);
    let p1 = spec_parse_primary(s, pos)->Some_0.1;
    if p1 < s.len() && s[p1] == 'a' && p1 + 1 < s.len() && s[p1 + 1] == 'n' && p1 + 2 < s.len()
        && s[p1 + 2] == 'd' {
        let p2 = spec_skip_ws(s, p1 + 3);
        lemma_skip_ws_bounds(s, p1 + 3);
        if pos < p2 && p2 <= s.len() && spec_parse_and(s, p2) is Some {
            lemma_parse_and_bounds(s, p2);
        }
    }
}

pub proof fn lemma_parse_or_bounds(s: Seq<char>, pos: int)
    requires
        0 <= pos <= s.len(),
        spec_parse_or(s, pos) is Some,
    ensures
        pos < spec_parse_or(s, pos)->Some_0.1 <= s.len(),
        spec_parse_or(s, pos)->Some_0.1 < s.len() ==> !crate::field_ref::is_ws(
            s[spec_parse_or(s, pos)->Some_0.1],
        ),
    decreases s.len() - pos, 2int,
{
    lemma_parse_and_bounds(s, pos);
    let p1 = spec_parse_and(s, pos)->Some_0.1;
    if p1 < s.len() && s[p1] == 'o' && p1 + 1 < s.len() && s[p1 + 1] == 'r' {
        let p2 = spec_skip_ws(s, p1 + 2);
        lemma_skip_ws_bounds(s, p1 + 2);
        if pos < p2 && p2 <= s.len() && spec_parse_or(s, p2) is Some {
            lemma_parse_or_bounds(s, p2);
        }
    }
}

/// The whole-input law: when the grammar matches a prefix and a
/// non-whitespace remainder follows, the parse of the whole string fails —
/// and a remainder is never whitespace, since every rule consumes its
/// trailing whitespace.
pub proof fn lemma_parse_total_consuming(s: Seq<char>, q: QueryModel, p: int)
    requires
        spec_parse_or(s, 0) == Some((q, p)),
        p < s.len(),
    ensures
        spec_parse_query(s) is None,
        !crate::field_ref::is_ws(s[p]),
{
    lemma_parse_or_bounds(s, 0);
}

/// The precedence law, first half: a comparison, `and`, a comparison, `or`,
/// and a comparison, in that order over the whole input, parse as
/// `Or(And(a, b), c)` — `and` binds tighter than a following `or`.
pub proof fn lemma_and_binds_tighter(
    s: Seq<char>,
    a: QueryModel,
    b: QueryModel,
    c: QueryModel,
    pa: int,
    pb: int,
)
    requires
        spec_parse_comparison(s, 0) == Some((a, pa)),
        pa + 2 < s.len() && s[pa] == 'a' && s[pa + 1] == 'n' && s[pa + 2] == 'd',
        spec_parse_comparison(s, spec_skip_ws(s, pa + 3)) == Some((b, pb)),
        pb + 1 < s.len() && s[pb] == 'o' && s[pb + 1] == 'r',
        spec_parse_comparison(s, spec_skip_ws(s, pb + 2)) == Some((c, s.len() as int)),
    ensures
        spec_parse_query(s) == Some(
            QueryModel::OrCombination(
                Box::new(QueryModel::AndCombination(Box::new(a), Box::new(b))),
                Box::new(c),
            ),
        ),
{
    let n = s.len() as int;
    lemma_parse_comparison_bounds(s, 0);
    assert(spec_parse_primary(s, 0) == Some((a, pa)));
    let p2 = spec_skip_ws(s, pa + 3);
    lemma_skip_ws_bounds(s, pa + 3);
    lemma_parse_comparison_bounds(s, p2);
    assert(spec_parse_primary(s, p2) == Some((b, pb)));
    assert(spec_parse_and(s, p2) == Some((b, pb)));
    assert(spec_parse_and(s, 0) == Some(
        (QueryModel::AndCombination(Box::new(a), Box::new(b)), pb),
    ));
    let p3 = spec_skip_ws(s, pb + 2);
    lemma_skip_ws_bounds(s, pb + 2);
    lemma_parse_comparison_bounds(s, p3);
    assert(spec_parse_primary(s, p3) == Some((c, n)));
    assert(spec_parse_and(s, p3) == Some((c, n)));
    assert(spec_parse_or(s, p3) == Some((c, n)));
    assert(spec_parse_or(s, 0) == Some(
        (
            QueryModel::OrCombination(
                Box::new(QueryModel::AndCombination(Box::new(a), Box::new(b))),
                Box::new(c),
            ),
            n,
        ),
    ));
}

/// The precedence law, second half: a comparison, `or`, a comparison, `and`,
/// and a comparison, in that order over the whole input, parse as
/// `Or(a, And(b, c))` — the `and`-chain to the right of `or` stays whole.
pub proof fn lemma_or_binds_looser(
    s: Seq<char>,
    a: QueryModel,
    b: QueryModel,
    c: QueryModel,
    pa: int,
    pb: int,
)
    requires
        spec_parse_comparison(s, 0) == Some((a, pa)),
        pa + 1 < s.len() && s[pa] == 'o' && s[pa + 1] == 'r',
        spec_parse_comparison(s, spec_skip_ws(s, pa + 2)) == Some((b, pb)),
        pb + 2 < s.len() && s[pb] == 'a' && s[pb + 1] == 'n' && s[pb + 2] == 'd',
        spec_parse_comparison(s, spec_skip_ws(s, pb + 3)) == Some((c, s.len() as int)),
    ensures
        spec_parse_query(s) == Some(
            QueryModel::OrCombination(
                Box::new(a),
                Box::new(QueryModel::AndCombination(Box::new(b), Box::new(c))),
            ),
        ),
{
    let n = s.len() as int;
    lemma_parse_comparison_bounds(s, 0);
    assert(spec_parse_primary(s, 0) == Some((a, pa)));
    assert(spec_parse_and(s, 0) == Some((a, pa)));
    let p2 = spec_skip_ws(s, pa + 2);
    lemma_skip_ws_bounds(s, pa + 2);
    lemma_parse_comparison_bounds(s, p2);
    assert(spec_parse_primary(s, p2) == Some((b, pb)));
    let p3 = spec_skip_ws(s, pb + 3);
    lemma_skip_ws_bounds(s, pb + 3);
    lemma_parse_comparison_bounds(s, p3);
    assert(spec_parse_primary(s, p3) == Some((c, n)));
    assert(spec_parse_and(s, p3) == Some((c, n)));
    assert(spec_parse_and(s, p2) == Some(
        (QueryModel::AndCombination(Box::new(b), Box::new(c)), n),
    ));
    assert(spec_parse_or(s, p2) == Some(
        (QueryModel::AndCombination(Box::new(b), Box::new(c)), n),
    ));
    assert(spec_parse_or(s, 0) == Some(
        (
            QueryModel::OrCombination(
                Box::new(a),
                Box::new(QueryModel::AndCombination(Box::new(b), Box::new(c))),
            ),
            n,
        ),
    ));
}

/// The parenthesization law: a comparison, `and`, and a parenthesized
/// `or`-combination of two comparisons, over the whole input, parse as
/// `And(a, Or(b, c))` — the parentheses override the precedence that would
/// otherwise attach only the left disjunct to the `and`. The alternatives
/// are ordered, so the law asks that no comparison can be read at the
/// opening parenthesis (a bare field name may start with `(`).
pub proof fn lemma_parentheses_override(
    s: Seq<char>,
    a: QueryModel,
    b: QueryModel,
    c: QueryModel,
    pa: int,
    pb: int,
    pc: int,
)
    requires
        spec_parse_comparison(s, 0) == Some((a, pa)),
        pa + 2 < s.len() && s[pa] == 'a' && s[pa + 1] == 'n' && s[pa + 2] == 'd',
        spec_parse_comparison(s, spec_skip_ws(s, pa + 3)) is None,
        spec_skip_ws(s, pa + 3) < s.len() && s[spec_skip_ws(s, pa + 3)] == '(',
        spec_parse_comparison(s, spec_skip_ws(s, pa + 3) + 1) == Some((b, pb)),
        pb + 1 < s.len() && s[pb] == 'o' && s[pb + 1] == 'r',
        spec_parse_comparison(s, spec_skip_ws(s, pb + 2)) == Some((c, pc)),
        pc < s.len() && s[pc] == ')',
        spec_skip_ws(s, pc + 1) == s.len(),
    ensures
        spec_parse_query(s) == Some(
            QueryModel::AndCombination(
                Box::new(a),
                Box::new(QueryModel::OrCombination(Box::new(b), Box::new(c))),
            ),
        ),
{
    let n = s.len() as int;
    lemma_parse_comparison_bounds(s, 0);
    assert(spec_parse_primary(s, 0) == Some((a, pa)));
    let p2 = spec_skip_ws(s, pa + 3);
    lemma_skip_ws_bounds(s, pa + 3);
    crate::field_ref::lemma_skip_ws_idempotent(s, pa + 3);
    lemma_parse_comparison_bounds(s, p2 + 1);
    assert(spec_parse_primary(s, p2 + 1) == Some((b, pb)));
    assert(spec_parse_and(s, p2 + 1) == Some((b, pb)));
    let p3 = spec_skip_ws(s, pb + 2);
    lemma_skip_ws_bounds(s, pb + 2);
    lemma_parse_comparison_bounds(s, p3);
    assert(spec_parse_primary(s, p3) == Some((c, pc)));
    assert(spec_parse_and(s, p3) == Some((c, pc)));
    assert(spec_parse_or(s, p3) == Some((c, pc)));
    assert(spec_parse_or(s, p2 + 1) == Some(
        (QueryModel::OrCombination(Box::new(b), Box::new(c)), pc),
    ));
    assert(spec_skip_ws(s, p2) == p2);
    assert(spec_parse_primary(s, p2) == Some(
        (QueryModel::OrCombination(Box::new(b), Box::new(c)), n),
    ));
    assert(spec_parse_and(s, p2) == Some(
        (QueryModel::OrCombination(Box::new(b), Box::new(c)), n),
    ));
    assert(spec_parse_and(s, 0) == Some(
        (
            QueryModel::AndCombination(
                Box::new(a),
                Box::new(QueryModel::OrCombination(Box::new(b), Box::new(c))),
            ),
            n,
        ),
    ));
    assert(spec_parse_or(s, 0) == Some(
        (
            QueryModel::AndCombination(
                Box::new(a),
                Box::new(QueryModel::OrCombination(Box::new(b), Box::new(c))),
            ),
            n,
        ),
    ));
}

/// Parses a quoted literal at `pos`.
fn parse_value(s: &str, n: usize, pos: usize) -> (r: Option<(String, usize)>)
    requires
        n == s@.len(),
        pos <= n,
    ensures
        match r {
            Some(v) => spec_parse_value(s@, pos as int) == Some((v.0@, v.1 as int)) && pos < v.1
                <= n,
            None => spec_parse_value(s@, pos as int) is None,
        },
{
    let p = skip_ws(s, n, pos);
    if p < n && s.get_char(p) == '\'' {
        match find_char(s, n, p + 1, '\'') {
            Some(j) => {
                let value = s.substring_char(p + 1, j).to_owned();
                let q = skip_ws(s, n, j + 1);
                Some((value, q))
            },
            None => None,
        }
    } else {
        None
    }
}

/// Parses a comparison at `pos`.
fn parse_comparison(s: &str, n: usize, pos: usize) -> (r: Option<(Query, usize)>)
    requires
        n == s@.len(),
        pos <= n,
    ensures
        match r {
            Some(q) => spec_parse_comparison(s@, pos as int) == Some((q.0@, q.1 as int)) && pos
                < q.1 <= n,
            None => spec_parse_comparison(s@, pos as int) is None,
        },
{
    match parse_field(s, n, pos, '=') {
        Some((f, p1)) => {
            if p1 < n && s.get_char(p1) == '=' {
                match parse_value(s, n, p1 + 1) {
                    Some((v, p2)) => Some((Query::Equality(f, v), p2)),
                    None => None,
                }
            } else if p1 < n && s.get_char(p1) == '<' && p1 + 1 < n && s.get_char(p1 + 1)
                == '>' {
                match parse_value(s, n, p1 + 2) {
                    Some((v, p2)) => Some((Query::Difference(f, v), p2)),
                    None => None,
                }
            } else {
                None
            }
        },
        None => None,
    }
}

/// Parses an operand at `pos`: a comparison, else a parenthesized group.
fn parse_primary(s: &str, n: usize, pos: usize) -> (r: Option<(Query, usize)>)
    requires
        n == s@.len(),
        pos <= n,
    ensures
        match r {
            Some(q) => spec_parse_primary(s@, pos as int) == Some((q.0@, q.1 as int)) && pos
                < q.1 <= n,
            None => spec_parse_primary(s@, pos as int) is None,
        },
    decreases n - pos, 0int,
{
    match parse_comparison(s, n, pos) {
        Some((q, p)) => Some((q, p)),
        None => {
            let p = skip_ws(s, n, pos);
            if p < n && s.get_char(p) == '(' {
                match parse_or(s, n, p + 1) {
                    Some((q, p2)) => {
                        if p2 < n && s.get_char(p2) == ')' {
                            let q3 = skip_ws(s, n, p2 + 1);
                            Some((q, q3))
                        } else {
                            None
                        }
                    },
                    None => None,
                }
            } else {
                None
            }
        },
    }
}

/// Parses an `and`-chain at `pos`.
fn parse_and(s: &str, n: usize, pos: usize) -> (r: Option<(Query, usize)>)
    requires
        n == s@.len(),
        pos <= n,
    ensures
        match r {
            Some(q) => spec_parse_and(s@, pos as int) == Some((q.0@, q.1 as int)) && pos < q.1
                <= n,
            None => spec_parse_and(s@, pos as int) is None,
        },
    decreases n - pos, 1int,
{
    match parse_primary(s, n, pos) {
        Some((l, p1)) => {
            if p1 < n && s.get_char(p1) == 'a' && p1 + 1 < n && s.get_char(p1 + 1) == 'n' && p1
                + 2 < n && s.get_char(p1 + 2) == 'd' {
                let p2 = skip_ws(s, n, p1 + 3);
                match parse_and(s, n, p2) {
                    Some((r2, p3)) => Some((Query::AndCombination(Box::new(l), Box::new(r2)), p3)),
                    None => Some((l, p1)),
                }
            } else {
                Some((l, p1))
            }
        },
        None => None,
    }
}

/// Parses an `or`-chain at `pos`.
fn parse_or(s: &str, n: usize, pos: usize) -> (r: Option<(Query, usize)>)
    requires
        n == s@.len(),
        pos <= n,
    ensures
        match r {
            Some(q) => spec_parse_or(s@, pos as int) == Some((q.0@, q.1 as int)) && pos < q.1
                <= n,
            None => spec_parse_or(s@, pos as int) is None,
        },
    decreases n - pos, 2int,
{
    match parse_and(s, n, pos) {
        Some((l, p1)) => {
            if p1 < n && s.get_char(p1) == 'o' && p1 + 1 < n && s.get_char(p1 + 1) == 'r' {
                let p2 = skip_ws(s, n, p1 + 2);
                match parse_or(s, n, p2) {
                    Some((r2, p3)) => Some((Query::OrCombination(Box::new(l), Box::new(r2)), p3)),
                    None => Some((l, p1)),
                }
            } else {
                Some((l, p1))
            }
        },
        None => None,
    }
}

impl Query {
    /// Parses a whole filter option string. Succeeds exactly when the
    /// `or`-chain grammar consumes the entire input.
    pub fn parse(query: &str) -> (r: Result<Query, ParseError>)
        ensures
            match r {
                Ok(q) => spec_parse_query(query@) == Some(q@),
                Err(_) => spec_parse_query(query@) is None,
            },
    {
        let n = query.unicode_len();
        match parse_or(query, n, 0) {
            Some((q, p)) => {
                if p == n {
                    Ok(q)
                } else {
                    Err(ParseError)
                }
            },
            None => Err(ParseError),
        }
    }
}

} // verus!
