use vstd::prelude::*;
use vstd::string::StringExecFns;

verus! {

/// Returned when an option string does not match its grammar. It carries no
/// diagnostic of its own; the caller attaches the original option text.
#[derive(Debug, PartialEq, Eq, Clone, Copy)]
pub struct ParseError;

/// The errors a run can end with: a malformed `--select` or `--where` option
/// string, or a field name that does not occur in the file's header row.
/// Each variant carries the offending text so the user can correct it.
#[derive(Debug)]
pub enum AppError {
    SelectParsingError(String),
    WhereParsingError(String),
    InvalidFieldInWhereClause(String),
    InvalidFieldInSelectClause(String),
}

impl AppError {
    /// The user-facing description of the error, with the offending text.
    pub fn message(&self) -> (r: String)
        ensures
            r@ == self.spec_message(),
    {
        match self {
            AppError::SelectParsingError(clause) => String::from_str(
                "Error parsing the select clause: ",
            ).concat(clause.as_str()),
            AppError::WhereParsingError(clause) => String::from_str(
                "Error parsing the where clause: ",
            ).concat(clause.as_str()),
            AppError::InvalidFieldInSelectClause(field) => String::from_str(
                "Invalid field in select clause: ",
            ).concat(field.as_str()).concat("."),
            AppError::InvalidFieldInWhereClause(field) => String::from_str(
                "Invalid field in where clause: ",
            ).concat(field.as_str()).concat("."),
        }
    }

    pub open spec fn spec_message(&self) -> Seq<char> {
        match self {
            AppError::SelectParsingError(clause) => "Error parsing the select clause: "@
                + clause@,
            AppError::WhereParsingError(clause) => "Error parsing the where clause: "@ + clause@,
            AppError::InvalidFieldInSelectClause(field) => "Invalid field in select clause: "@
                + field@ + "."@,
            AppError::InvalidFieldInWhereClause(field) => "Invalid field in where clause: "@
                + field@ + "."@,
        }
    }
}

} // verus!
