use csvq::query_parser::Query;

#[test]
fn equality_with_spaces_inside() {
    assert_eq!(
        Ok(Query::Equality(
            String::from("my_field"),
            String::from("my_value")
        )),
        Query::parse("my_field = 'my_value'")
    );
}

#[test]
fn difference_with_spaces_inside() {
    assert_eq!(
        Ok(Query::Difference(
            String::from("my_field"),
            String::from("my_value")
        )),
        Query::parse("my_field <> 'my_value'")
    );
}

#[test]
fn equality_with_no_spaces_inside() {
    assert_eq!(
        Ok(Query::Equality(
            String::from("my_field"),
            String::from("my_value")
        )),
        Query::parse("my_field='my_value'")
    );
}

#[test]
fn equality_with_spaces_outside() {
    assert_eq!(
        Ok(Query::Equality(
            String::from("my_field"),
            String::from("my_value")
        )),
        Query::parse("  my_field='my_value'  ")
    );
}

#[test]
fn with_brackets_in_field() {
    assert_eq!(
        Ok(Query::Equality(
            String::from("my field"),
            String::from("my_value")
        )),
        Query::parse("[my field] = 'my_value'")
    );
}

#[test]
fn simple_or_combination() {
    assert_eq!(
        Ok(Query::OrCombination(
            Box::new(Query::Equality(
                String::from("my field"),
                String::from("my_value")
            )),
            Box::new(Query::Equality(
                String::from("my field"),
                String::from("other value")
            )),
        )),
        Query::parse("[my field] = 'my_value' or [my field] = 'other value'")
    );
}

#[test]
fn simple_and_combination() {
    assert_eq!(
        Ok(Query::AndCombination(
            Box::new(Query::Equality(
                String::from("my field"),
                String::from("my_value")
            )),
            Box::new(Query::Equality(
                String::from("my field"),
                String::from("other value")
            )),
        )),
        Query::parse("[my field] = 'my_value' and [my field] = 'other value'")
    );
}

#[test]
fn two_or_combination() {
    assert_eq!(
        Ok(Query::OrCombination(
            Box::new(Query::Equality(
                String::from("my field"),
                String::from("my_value")
            )),
            Box::new(
                Query::OrCombination(
                    Box::new(Query::Equality(
                        String::from("my field"),
                        String::from("other value")
                    )),
                    Box::new(Query::Equality(
                        String::from("my other field"),
                        String::from("another value")
                    ))
                )
            ),
        )),
        Query::parse("[my field] = 'my_value' or [my field] = 'other value' or [my other field] = 'another value'")
    );
}

#[test]
fn mixed_combination() {
    assert_eq!(
        Ok(Query::OrCombination(
            Box::new(Query::Equality(
                String::from("my field"),
                String::from("my_value")
            )),
            Box::new(
                Query::AndCombination(
                    Box::new(Query::Equality(
                        String::from("my field"),
                        String::from("other value")
                    )),
                    Box::new(Query::Equality(
                        String::from("my other field"),
                        String::from("another value")
                    ))
                )
            ),
        )),
        Query::parse("[my field] = 'my_value' or [my field] = 'other value' and [my other field] = 'another value'")
    );
}

#[test]
fn mixed_combination_with_priority() {
    assert_eq!(
        Ok(Query::OrCombination(
            Box::new(
                Query::AndCombination(
                    Box::new(Query::Equality(
                        String::from("my field"),
                        String::from("my_value")
                    )),
                    Box::new(Query::Equality(
                        String::from("my field"),
                        String::from("other value")
                    )),
                )
            ),
            Box::new(Query::Equality(
                String::from("my other field"),
                String::from("another value")
            )),
        )),
        Query::parse("[my field] = 'my_value' and [my field] = 'other value' or [my other field] = 'another value'")
    );
}

#[test]
fn two_mixed_combinations_with_priority() {
    assert_eq!(
        Ok(Query::OrCombination(
            Box::new(
                Query::AndCombination(
                    Box::new(Query::Equality(
                        String::from("my field"),
                        String::from("my_value")
                    )),
                    Box::new(Query::Equality(
                        String::from("my field"),
                        String::from("other value")
                    )),
                )
            ),
            Box::new(
                Query::AndCombination(
                    Box::new(Query::Equality(
                        String::from("my other field"),
                        String::from("another value")
                    )),
                    Box::new(Query::Equality(
                        String::from("last field"),
                        String::from("v")
                    )),
                )
            ),
        )),
        Query::parse("[my field] = 'my_value' and [my field] = 'other value' or [my other field] = 'another value' and [last field] = 'v'")
    );
}

#[test]
fn mixed_combinations_with_parentheses() {
    assert_eq!(
        Ok(Query::OrCombination(
            Box::new(Query::AndCombination(
                Box::new(Query::Equality(String::from("my field"), String::from("my_value"))),
                Box::new(Query::AndCombination(
                    Box::new(Query::OrCombination(
                        Box::new(Query::Equality(String::from("my field"), String::from("other value"))),
                        Box::new(Query::Equality(String::from("my other field"), String::from("another value"))),
                    )),
                    Box::new(Query::Equality(String::from("last field"), String::from("v"))),
                ))
            )),
            Box::new(Query::Equality(
                String::from("last field"),
                String::from("last value"),
            ))
        )),
        Query::parse("[my field] = 'my_value' and ([my field] = 'other value' or [my other field] = 'another value') and [last field] = 'v' or [last field] = 'last value'")
    );
}
