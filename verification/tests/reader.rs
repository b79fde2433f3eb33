use csvq::errors::AppError;
use csvq::query_parser::Query;
use csvq::reader::resolve_field;
use csvq::reader::row_for_record;
use csvq::reader::row_spec;
use csvq::reader::should_display_record;

fn header_ab() -> Vec<String> {
    vec![String::from("A"), String::from("B")]
}

fn row(a: &str, b: &str) -> Vec<String> {
    vec![String::from(a), String::from(b)]
}

fn filter(text: &str) -> Option<Query> {
    Some(Query::parse(text).unwrap())
}

#[test]
fn single_filter_keeps_matching_row_only() {
    let header = header_ab();
    let q = filter("A = '1'");
    assert_eq!(
        Ok(true),
        should_display_record(&row("1", "x"), &q, &header).map_err(|_| ())
    );
    assert_eq!(
        Ok(false),
        should_display_record(&row("2", "y"), &q, &header).map_err(|_| ())
    );
}

#[test]
fn or_filter_keeps_both_rows() {
    let header = header_ab();
    let q = filter("A = '1' or B = 'y'");
    assert_eq!(
        Ok(true),
        should_display_record(&row("1", "x"), &q, &header).map_err(|_| ())
    );
    assert_eq!(
        Ok(true),
        should_display_record(&row("2", "y"), &q, &header).map_err(|_| ())
    );
}

#[test]
fn and_filter_keeps_neither_row() {
    let header = header_ab();
    let q = filter("A = '1' and B = 'y'");
    assert_eq!(
        Ok(false),
        should_display_record(&row("1", "x"), &q, &header).map_err(|_| ())
    );
    assert_eq!(
        Ok(false),
        should_display_record(&row("2", "y"), &q, &header).map_err(|_| ())
    );
}

#[test]
fn absent_filter_keeps_every_row() {
    let header = header_ab();
    assert_eq!(
        Ok(true),
        should_display_record(&row("2", "y"), &None, &header).map_err(|_| ())
    );
}

#[test]
fn difference_filter_compares_raw_text() {
    let header = header_ab();
    let q = filter("A <> '1'");
    assert_eq!(
        Ok(false),
        should_display_record(&row("1", "x"), &q, &header).map_err(|_| ())
    );
    assert_eq!(
        Ok(true),
        should_display_record(&row("2", "y"), &q, &header).map_err(|_| ())
    );
}

#[test]
fn unknown_field_in_filter_is_reported() {
    let header = header_ab();
    let q = filter("C = '1'");
    let r = should_display_record(&row("1", "x"), &q, &header);
    assert!(matches!(r, Err(AppError::InvalidFieldInWhereClause(f)) if f == "C"));
}

#[test]
fn and_short_circuit_skips_unknown_field() {
    let header = header_ab();
    let q = filter("A = '2' and C = '1'");
    assert_eq!(
        Ok(false),
        should_display_record(&row("1", "x"), &q, &header).map_err(|_| ())
    );
}

#[test]
fn or_short_circuit_skips_unknown_field() {
    let header = header_ab();
    let q = filter("A = '1' or C = '1'");
    assert_eq!(
        Ok(true),
        should_display_record(&row("1", "x"), &q, &header).map_err(|_| ())
    );
}

#[test]
fn reached_unknown_field_is_still_reported() {
    let header = header_ab();
    let q = filter("A = '1' and C = '1'");
    let r = should_display_record(&row("1", "x"), &q, &header);
    assert!(matches!(r, Err(AppError::InvalidFieldInWhereClause(f)) if f == "C"));
}

#[test]
fn projection_reorders_cells() {
    let header = header_ab();
    let wanted = vec![String::from("B"), String::from("A")];
    assert_eq!(
        Ok(row("x", "1")),
        row_for_record(&row("1", "x"), &header, &wanted).map_err(|_| ())
    );
}

#[test]
fn projection_duplicates_cells() {
    let header = header_ab();
    let wanted = vec![String::from("A"), String::from("A")];
    assert_eq!(
        Ok(row("1", "1")),
        row_for_record(&row("1", "x"), &header, &wanted).map_err(|_| ())
    );
}

#[test]
fn unknown_field_in_projection_is_reported() {
    let header = header_ab();
    let wanted = vec![String::from("A"), String::from("C")];
    let r = row_for_record(&row("1", "x"), &header, &wanted);
    assert!(matches!(r, Err(AppError::InvalidFieldInSelectClause(f)) if f == "C"));
}

#[test]
fn resolution_is_stable_and_first_match_wins() {
    let header = vec![String::from("A"), String::from("B"), String::from("A")];
    let name = String::from("A");
    assert_eq!(Some(0), resolve_field(&header, &name));
    assert_eq!(Some(0), resolve_field(&header, &name));
    assert_eq!(Some(1), resolve_field(&header, &String::from("B")));
    assert_eq!(None, resolve_field(&header, &String::from("C")));
}

#[test]
fn resolution_is_case_sensitive_and_exact() {
    let header = vec![String::from("Name"), String::from(" Name")];
    assert_eq!(None, resolve_field(&header, &String::from("name")));
    assert_eq!(Some(1), resolve_field(&header, &String::from(" Name")));
}

#[test]
fn row_spec_lists_one_column_per_header() {
    assert_eq!("", row_spec(&Vec::new()).as_str());
    assert_eq!("{:<}", row_spec(&vec![String::from("A")]).as_str());
    assert_eq!(
        "{:<} {:<} {:<}",
        row_spec(&vec![String::from("A"), String::from("B"), String::from("C")]).as_str()
    );
}
