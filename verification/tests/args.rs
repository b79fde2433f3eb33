use csvq::args::Args;
use csvq::errors::AppError;
use csvq::query_parser::Query;
use csvq::select_parser::SelectFields;

fn args(select: Option<&str>, where_: Option<&str>) -> Args {
    Args {
        filename: String::from("data.csv"),
        select: select.map(String::from),
        where_: where_.map(String::from),
        count: false,
    }
}

#[test]
fn absent_options_parse_to_nothing() {
    let a = args(None, None);
    assert!(matches!(a.parse_query(), Ok(None)));
    assert!(matches!(a.parse_select(), Ok(None)));
}

#[test]
fn present_options_parse_to_their_compiled_forms() {
    let a = args(Some("B, A"), Some("A = '1'"));
    assert_eq!(
        Ok(Some(Query::Equality(String::from("A"), String::from("1")))),
        a.parse_query().map_err(|_| ())
    );
    assert_eq!(
        Ok(Some(SelectFields(vec![String::from("B"), String::from("A")]))),
        a.parse_select().map_err(|_| ())
    );
}

#[test]
fn bad_where_string_is_carried_in_the_error() {
    let a = args(None, Some("A = "));
    let r = a.parse_query();
    assert!(matches!(r, Err(AppError::WhereParsingError(w)) if w == "A = "));
}

#[test]
fn bad_select_string_is_carried_in_the_error() {
    let a = args(Some("a,,b"), None);
    let r = a.parse_select();
    assert!(matches!(r, Err(AppError::SelectParsingError(s)) if s == "a,,b"));
}

#[test]
fn error_messages_name_the_offending_text() {
    assert_eq!(
        "Error parsing the select clause: a,,b",
        AppError::SelectParsingError(String::from("a,,b")).message().as_str()
    );
    assert_eq!(
        "Error parsing the where clause: A = ",
        AppError::WhereParsingError(String::from("A = ")).message().as_str()
    );
    assert_eq!(
        "Invalid field in select clause: C.",
        AppError::InvalidFieldInSelectClause(String::from("C")).message().as_str()
    );
    assert_eq!(
        "Invalid field in where clause: C.",
        AppError::InvalidFieldInWhereClause(String::from("C")).message().as_str()
    );
}
