//! The field-reference grammar shared by the filter and projection languages.
//!
//! A field reference is either bracketed (`[ ... ]`, whose interior is every
//! character up to the next `]`, possibly empty) or bare (a non-empty maximal
//! run of characters excluding space and one caller-chosen reserved
//! character). Whitespace around a reference is consumed and discarded.

use vstd::prelude::*;
use vstd::string::StrSliceExecFns;

verus! {

/// The whitespace characters that the grammars treat as insignificant.
pub open spec fn is_ws(c: char) -> bool {
    c == ' ' || c == '\t' || c == '\n' || c == '\r'
}

/// The first position at or after `pos` holding a non-whitespace character,
/// or the end of the input.
pub open spec fn spec_skip_ws(s: Seq<char>, pos: int) -> int
    decreases s.len() - pos,
{
    if pos < s.len() && is_ws(s[pos]) {
        spec_skip_ws(s, pos + 1)
    } else {
        pos
    }
}

/// The first position at or after `pos` holding `c`, if any.
pub open spec fn spec_find(s: Seq<char>, pos: int, c: char) -> Option<int>
    decreases s.len() - pos,
{
    if pos < s.len() {
        if s[pos] == c {
            Some(pos)
        } else {
            spec_find(s, pos + 1, c)
        }
    } else {
        None
    }
}

/// The end of the maximal run, starting at `pos`, of characters that are
/// neither a space nor the reserved character.
pub open spec fn spec_bare_end(s: Seq<char>, pos: int, reserved: char) -> int
    decreases s.len() - pos,
{
    if pos < s.len() && s[pos] != ' ' && s[pos] != reserved {
        spec_bare_end(s, pos + 1, reserved)
    } else {
        pos
    }
}

/// A field reference at `pos`: leading whitespace, then either `[interior]`
/// (interior is everything up to the first `]`; fails if `]` never comes) or
/// a non-empty bare run, then trailing whitespace. Yields the field name and
/// the position after the trailing whitespace.
pub open spec fn spec_parse_field(s: Seq<char>, pos: int, reserved: char) -> Option<
    (Seq<char>, int),
> {
    let p = spec_skip_ws(s, pos);
    if p < s.len() && s[p] == '[' {
        match spec_find(s, p + 1, ']') {
            Some(j) => Some((s.subrange(p + 1, j), spec_skip_ws(s, j + 1))),
            None => None,
        }
    } else {
        let j = spec_bare_end(s, p, reserved);
        if j == p {
            None
        } else {
            Some((s.subrange(p, j), spec_skip_ws(s, j)))
        }
    }
}

pub proof fn lemma_skip_ws_bounds(s: Seq<char>, pos: int)
    requires
        0 <= pos <= s.len(),
    ensures
        pos <= spec_skip_ws(s, pos) <= s.len(),
        spec_skip_ws(s, pos) < s.len() ==> !is_ws(s[spec_skip_ws(s, pos)]),
        forall|i: int| pos <= i < spec_skip_ws(s, pos) ==> is_ws(s[i]),
    decreases s.len() - pos,
{
    if pos < s.len() && is_ws(s[pos]) {
        lemma_skip_ws_bounds(s, pos + 1);
    }
}

/// Skipping whitespace lands on non-whitespace (or the end), so skipping
/// again from there moves nowhere.
pub proof fn lemma_skip_ws_idempotent(s: Seq<char>, pos: int)
    requires
        0 <= pos <= s.len(),
    ensures
        spec_skip_ws(s, spec_skip_ws(s, pos)) == spec_skip_ws(s, pos),
{
    lemma_skip_ws_bounds(s, pos);
}

pub proof fn lemma_find_bounds(s: Seq<char>, pos: int, c: char)
    requires
        0 <= pos <= s.len(),
    ensures
        match spec_find(s, pos, c) {
            Some(j) => pos <= j < s.len() && s[j] == c && (forall|i: int|
                pos <= i < j ==> s[i] != c),
            None => forall|i: int| pos <= i < s.len() ==> s[i] != c,
        },
    decreases s.len() - pos,
{
    if pos < s.len() && s[pos] != c {
        lemma_find_bounds(s, pos + 1, c);
    }
}

/// `spec_find` returns the position of the first occurrence.
pub proof fn lemma_find_first(s: Seq<char>, pos: int, c: char, j: int)
    requires
        0 <= pos <= j < s.len(),
        s[j] == c,
        forall|i: int| pos <= i < j ==> s[i] != c,
    ensures
        spec_find(s, pos, c) == Some(j),
    decreases j - pos,
{
    if pos < j {
        lemma_find_first(s, pos + 1, c, j);
    }
}

pub proof fn lemma_bare_end_bounds(s: Seq<char>, pos: int, reserved: char)
    requires
        0 <= pos <= s.len(),
    ensures
        pos <= spec_bare_end(s, pos, reserved) <= s.len(),
        forall|i: int|
            pos <= i < spec_bare_end(s, pos, reserved) ==> s[i] != ' ' && s[i] != reserved,
        spec_bare_end(s, pos, reserved) < s.len() ==> (s[spec_bare_end(s, pos, reserved)] == ' '
            || s[spec_bare_end(s, pos, reserved)] == reserved),
    decreases s.len() - pos,
{
    if pos < s.len() && s[pos] != ' ' && s[pos] != reserved {
        lemma_bare_end_bounds(s, pos + 1, reserved);
    }
}

/// A successful field reference always advances the cursor and lands within
/// the input, past any trailing whitespace.
pub proof fn lemma_parse_field_bounds(s: Seq<char>, pos: int, reserved: char)
    requires
        0 <= pos <= s.len(),
        spec_parse_field(s, pos, reserved) is Some,
    ensures
        pos < spec_parse_field(s, pos, reserved)->Some_0.1 <= s.len(),
        spec_parse_field(s, pos, reserved)->Some_0.1 < s.len() ==> !is_ws(
            s[spec_parse_field(s, pos, reserved)->Some_0.1],
        ),
{
    let p = spec_skip_ws(s, pos);
    lemma_skip_ws_bounds(s, pos);
    if p < s.len() && s[p] == '[' {
        lemma_find_bounds(s, p + 1, ']');
        let j = spec_find(s, p + 1, ']')->Some_0;
        lemma_skip_ws_bounds(s, j + 1);
    } else {
        let j = spec_bare_end(s, p, reserved);
        lemma_bare_end_bounds(s, p, reserved);
        lemma_skip_ws_bounds(s, j);
    }
}

/// The syntax law of field references: a bracketed reference's name is its
/// interior and so never contains `]`; a bare reference's name is non-empty
/// and never contains a space or the reserved character of its context.
pub proof fn lemma_field_reference_syntax(s: Seq<char>, pos: int, reserved: char)
    requires
        0 <= pos <= s.len(),
        spec_parse_field(s, pos, reserved) is Some,
    ensures
        ({
            let name = spec_parse_field(s, pos, reserved)->Some_0.0;
            let p = spec_skip_ws(s, pos);
            if p < s.len() && s[p] == '[' {
                forall|i: int| 0 <= i < name.len() ==> name[i] != ']'
            } else {
                name.len() > 0 && (forall|i: int|
                    0 <= i < name.len() ==> name[i] != ' ' && name[i] != reserved)
            }
        }),
{
    let p = spec_skip_ws(s, pos);
    lemma_skip_ws_bounds(s, pos);
    if p < s.len() && s[p] == '[' {
        lemma_find_bounds(s, p + 1, ']');
    } else {
        lemma_bare_end_bounds(s, p, reserved);
    }
}

/// The round-trip law of bracketed references: for any interior without `]`,
/// the input `[interior]` parses to exactly that interior, in any context.
pub proof fn lemma_bracketed_round_trip(content: Seq<char>, reserved: char)
    requires
        forall|i: int| 0 <= i < content.len() ==> content[i] != ']',
    ensures
        ({
            let s = seq!['['] + content + seq![']'];
            spec_parse_field(s, 0, reserved) == Some((content, s.len() as int))
        }),
{
    let s = seq!['['] + content + seq![']'];
    let j = content.len() + 1 as int;
    assert(s.len() == content.len() + 2);
    assert(s[0] == '[');
    assert(!is_ws('['));
    assert(spec_skip_ws(s, 0) == 0);
    assert(s[j] == ']');
    assert(forall|i: int| 1 <= i < j ==> s[i] == content[i - 1] && s[i] != ']');
    lemma_find_first(s, 1, ']', j);
    assert(s.subrange(1, j) =~= content);
    assert(spec_skip_ws(s, j + 1) == j + 1);
}

/// Scans past whitespace. Returns the first position at or after `pos` that
/// holds a non-whitespace character, or the end of the input.
pub(crate) fn skip_ws(s: &str, n: usize, pos: usize) -> (p: usize)
    requires
        n == s@.len(),
        pos <= n,
    ensures
        p as int == spec_skip_ws(s@, pos as int),
        pos <= p <= n,
{
    let mut p = pos;
    loop
        invariant
            n == s@.len(),
            pos <= p <= n,
            spec_skip_ws(s@, pos as int) == spec_skip_ws(s@, p as int),
        ensures
            pos <= p <= n,
            p as int == spec_skip_ws(s@, pos as int),
        decreases n - p,
    {
        if p < n {
            let c = s.get_char(p);
            if c == ' ' || c == '\t' || c == '\n' || c == '\r' {
                p = p + 1;
            } else {
                break ;
            }
        } else {
            break ;
        }
    }
    p
}

/// Scans for the first occurrence of `c` at or after `pos`.
pub(crate) fn find_char(s: &str, n: usize, pos: usize, c: char) -> (r: Option<usize>)
    requires
        n == s@.len(),
        pos <= n,
    ensures
        match r {
            Some(j) => spec_find(s@, pos as int, c) == Some(j as int) && pos <= j < n,
            None => spec_find(s@, pos as int, c) is None,
        },
{
    let mut p = pos;
    loop
        invariant
            n == s@.len(),
            pos <= p <= n,
            spec_find(s@, pos as int, c) == spec_find(s@, p as int, c),
        decreases n - p,
    {
        if p < n {
            if s.get_char(p) == c {
                return Some(p);
            }
            p = p + 1;
        } else {
            return None;
        }
    }
}

/// Scans the maximal bare run from `pos`: characters that are neither a space
/// nor the reserved character.
fn bare_end(s: &str, n: usize, pos: usize, reserved: char) -> (j: usize)
    requires
        n == s@.len(),
        pos <= n,
    ensures
        j as int == spec_bare_end(s@, pos as int, reserved),
        pos <= j <= n,
{
    let mut p = pos;
    loop
        invariant
            n == s@.len(),
            pos <= p <= n,
            spec_bare_end(s@, pos as int, reserved) == spec_bare_end(s@, p as int, reserved),
        ensures
            pos <= p <= n,
            p as int == spec_bare_end(s@, pos as int, reserved),
        decreases n - p,
    {
        if p < n {
            let c = s.get_char(p);
            if c != ' ' && c != reserved {
                p = p + 1;
            } else {
                break ;
            }
        } else {
            break ;
        }
    }
    p
}

/// Parses one field reference at `pos`, returning the field name and the
/// position after it (trailing whitespace consumed).
pub(crate) fn parse_field(s: &str, n: usize, pos: usize, reserved: char) -> (r: Option<(String, usize)>)
    requires
        n == s@.len(),
        pos <= n,
    ensures
        match r {
            Some(f) => spec_parse_field(s@, pos as int, reserved) == Some((f.0@, f.1 as int))
                && pos < f.1 <= n,
            None => spec_parse_field(s@, pos as int, reserved) is None,
        },
{
    proof {
        lemma_skip_ws_bounds(s@, pos as int);
    }
    let p = skip_ws(s, n, pos);
    if p < n && s.get_char(p) == '[' {
        match find_char(s, n, p + 1, ']') {
            Some(j) => {
                let name = s.substring_char(p + 1, j).to_owned();
                proof {
                    lemma_skip_ws_bounds(s@, j + 1);
                }
                let q = skip_ws(s, n, j + 1);
                Some((name, q))
            },
            None => None,
        }
    } else {
        let j = bare_end(s, n, p, reserved);
        if j == p {
            None
        } else {
            let name = s.substring_char(p, j).to_owned();
            proof {
                lemma_skip_ws_bounds(s@, j as int);
            }
            let q = skip_ws(s, n, j);
            Some((name, q))
        }
    }
}

} // verus!
