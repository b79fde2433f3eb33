//! The projection-list language: a comma-separated list of field references
//! (bare form reserves the comma), consumed in full. The parse is
//! right-recursive and preserves the user's order and duplicates.

use crate::errors::ParseError;
use crate::field_ref::parse_field;
use crate::field_ref::spec_parse_field;
use vstd::prelude::*;
use vstd::string::StrSliceExecFns;

verus! {

/// The parsed projection: the selected column names, in the order written,
/// duplicates kept.
#[derive(Debug, PartialEq, Clone)]
pub struct SelectFields(pub Vec<String>);

/// A field list at `pos`: one field reference, extended right-recursively
/// when a comma follows. The position guard (`pos <= p1`) only secures
/// termination; a field reference always advances, so it never rejects.
pub open spec fn spec_parse_select(s: Seq<char>, pos: int) -> Option<(Seq<Seq<char>>, int)>
    decreases s.len() - pos,
{
    match spec_parse_field(s, pos, ',') {
        Some((f, p1)) => {
            if p1 < s.len() && s[p1] == ',' {
                if pos <= p1 {
                    match spec_parse_select(s, p1 + 1) {
                        Some((rest, p3)) => Some((seq![f] + rest, p3)),
                        None => None,
                    }
                } else {
                    None
                }
            } else {
                Some((seq![f], p1))
            }
        },
        None => None,
    }
}

/// The whole projection option string: one field list that must consume the
/// entire input.
pub open spec fn spec_parse_select_fields(s: Seq<char>) -> Option<Seq<Seq<char>>> {
    match spec_parse_select(s, 0) {
        Some((fields, p)) => if p == s.len() {
            Some(fields)
        } else {
            None
        },
        None => None,
    }
}

/// Parses a field list at `pos`.
fn parse_fields(s: &str, n: usize, pos: usize) -> (r: Option<(Vec<String>, usize)>)
    requires
        n == s@.len(),
        pos <= n,
    ensures
        match r {
            Some(fs) => spec_parse_select(s@, pos as int) == Some((fs.0.deep_view(), fs.1 as int))
                && pos < fs.1 <= n,
            None => spec_parse_select(s@, pos as int) is None,
        },
    decreases n - pos,
{
    match parse_field(s, n, pos, ',') {
        Some((f, p1)) => {
            if p1 < n && s.get_char(p1) == ',' {
                match parse_fields(s, n, p1 + 1) {
                    Some((rest, p3)) => {
                        let mut fields = rest;
                        fields.insert(0, f);
                        proof {
                            assert(fields.deep_view() =~= seq![f@] + rest.deep_view());
                        }
                        Some((fields, p3))
                    },
                    None => None,
                }
            } else {
                let mut fields: Vec<String> = Vec::new();
                fields.push(f);
                proof {
                    assert(fields.deep_view() =~= seq![f@]);
                }
                Some((fields, p1))
            }
        },
        None => None,
    }
}

impl SelectFields {
    /// Parses a whole projection option string. Succeeds exactly when the
    /// field-list grammar consumes the entire input.
    pub fn parse(select: &str) -> (r: Result<SelectFields, ParseError>)
        ensures
            match r {
                Ok(sf) => spec_parse_select_fields(select@) == Some(sf.0.deep_view()),
                Err(_) => spec_parse_select_fields(select@) is None,
            },
    {
        let n = select.unicode_len();
        match parse_fields(select, n, 0) {
            Some((fields, p)) => {
                if p == n {
                    Ok(SelectFields(fields))
                } else {
                    Err(ParseError)
                }
            },
            None => Err(ParseError),
        }
    }
}

} // verus!
