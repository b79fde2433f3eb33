//! The run's options, as plain values, and the parsing of the two option
//! strings into their compiled forms. Reading the command line itself is
//! left to the program around the library.

use crate::errors::AppError;
use crate::query_parser::spec_parse_query;
use crate::query_parser::Query;
use crate::select_parser::spec_parse_select_fields;
use crate::select_parser::SelectFields;
use vstd::prelude::*;

verus! {

/// The options of one run: the file to read, an optional projection list, an
/// optional filter expression, and whether to count rows instead of showing
/// them.
#[derive(Debug)]
pub struct Args {
    pub filename: String,
    pub select: Option<String>,
    pub where_: Option<String>,
    pub count: bool,
}

impl Args {
    /// Parses the `--where` option, if present, into a filter expression;
    /// a string the filter grammar rejects becomes `WhereParsingError`
    /// carrying that string.
    pub fn parse_query(&self) -> (r: Result<Option<Query>, AppError>)
        ensures
            match self.where_ {
                Some(w) => match r {
                    Ok(oq) => oq is Some && spec_parse_query(w@) == Some(oq->0@),
                    Err(e) => e is WhereParsingError && e->WhereParsingError_0@ == w@
                        && spec_parse_query(w@) is None,
                },
                None => r == Ok::<Option<Query>, AppError>(None),
            },
    {
        match &self.where_ {
            Some(query) => match Query::parse(query.as_str()) {
                Ok(q) => Ok(Some(q)),
                Err(_) => Err(AppError::WhereParsingError(query.clone())),
            },
            None => Ok(None),
        }
    }

    /// Parses the `--select` option, if present, into a projection list; a
    /// string the projection grammar rejects becomes `SelectParsingError`
    /// carrying that string.
    pub fn parse_select(&self) -> (r: Result<Option<SelectFields>, AppError>)
        ensures
            match self.select {
                Some(sel) => match r {
                    Ok(os) => os is Some && spec_parse_select_fields(sel@) == Some(
                        (os->0).0.deep_view(),
                    ),
                    Err(e) => e is SelectParsingError && e->SelectParsingError_0@ == sel@
                        && spec_parse_select_fields(sel@) is None,
                },
                None => r == Ok::<Option<SelectFields>, AppError>(None),
            },
    {
        match &self.select {
            Some(select) => match SelectFields::parse(select.as_str()) {
                Ok(fields) => Ok(Some(fields)),
                Err(_) => Err(AppError::SelectParsingError(select.clone())),
            },
            None => Ok(None),
        }
    }
}

} // verus!
