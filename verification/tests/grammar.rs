use csvq::query_parser::Query;

fn eq(f: &str, v: &str) -> Query {
    Query::Equality(String::from(f), String::from(v))
}

#[test]
fn leftover_input_fails_the_parse() {
    assert!(Query::parse("a = 'x' or").is_err());
    assert!(Query::parse("a = 'x' b = 'y'").is_err());
    assert!(Query::parse("a = 'x')").is_err());
    assert!(Query::parse("").is_err());
}

#[test]
fn trailing_whitespace_is_not_leftover_input() {
    assert_eq!(Ok(eq("a", "x")), Query::parse("a = 'x'   "));
}

#[test]
fn unterminated_bracket_or_quote_fails() {
    assert!(Query::parse("[abc = 'v'").is_err());
    assert!(Query::parse("a = 'v").is_err());
}

#[test]
fn bracketed_field_may_contain_reserved_characters() {
    assert_eq!(
        Ok(eq("a=b,c ", "v")),
        Query::parse("[a=b,c ] = 'v'")
    );
}

#[test]
fn empty_brackets_name_an_empty_field() {
    assert_eq!(Ok(eq("", "v")), Query::parse("[] = 'v'"));
}

#[test]
fn empty_value_is_legal() {
    assert_eq!(Ok(eq("a", "")), Query::parse("a = ''"));
}

#[test]
fn difference_operator_needs_separation_from_a_bare_field() {
    // without a space the bare field name swallows the operator characters
    assert!(Query::parse("a<>'v'").is_err());
    assert_eq!(
        Ok(Query::Difference(String::from("a"), String::from("v"))),
        Query::parse("[a]<>'v'")
    );
}

#[test]
fn parentheses_override_precedence() {
    assert_eq!(
        Ok(Query::AndCombination(
            Box::new(eq("x", "1")),
            Box::new(Query::OrCombination(
                Box::new(eq("a", "2")),
                Box::new(eq("b", "3")),
            )),
        )),
        Query::parse("x = '1' and ( [a] = '2' or [b] = '3' )")
    );
}

#[test]
fn a_group_readable_as_a_bare_comparison_is_committed_to_it() {
    // the alternatives are ordered: `(a` parses as a bare field name, the
    // comparison is accepted, and the unmatched `)` then fails the parse
    assert!(Query::parse("x = '1' and (a = '2' or b = '3')").is_err());
}
