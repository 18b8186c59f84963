use essence_math::{CalqAst, Essence, ParseError};

fn value_of(text: &str) -> Essence {
    let tree = CalqAst::from_str(text).expect("the text is a calculation");
    tree.checked_eval().expect("the value is in range")
}

fn named(name: &str) -> Essence {
    Essence::from_string_simple(name.to_string()).expect("the name is in the catalog")
}

#[test]
fn moon_less_yin_is_water() {
    let value = value_of("moon-yin");
    assert_eq!(value, named("water"));
    assert_eq!(value, Essence::new(0, -1, 0));
    assert_eq!(value.to_string(), "water");
}

#[test]
fn four_fire_and_air_is_heat_and_three_fire() {
    let value = value_of("4*fire+air");
    assert_eq!(value, named("fire").product(4).combine(&named("air")));
    assert_eq!(value, Essence::new(0, 4, 1));
    assert_eq!(value.to_string(), "heat+3*fire");
}

#[test]
fn unknown_name_is_rejected() {
    assert_eq!(
        CalqAst::from_str("foobar"),
        Err(ParseError::UnknownName("foobar".to_string()))
    );
}

#[test]
fn unknown_name_is_reported_as_written() {
    assert_eq!(
        CalqAst::from_str("  2 * FooBar + fire"),
        Err(ParseError::UnknownName("FooBar".to_string()))
    );
}

#[test]
fn coefficient_without_name_is_rejected() {
    assert_eq!(CalqAst::from_str("3*"), Err(ParseError::EmptyTerm));
}

#[test]
fn parentheses_do_not_change_the_value() {
    assert_eq!(value_of("(fire+air)"), value_of("fire+air"));
    assert_eq!(value_of("(fire+air)"), Essence::new(0, 1, 1));
}

#[test]
fn leading_minus_negates() {
    assert_eq!(value_of("-yin"), named("yang"));
    assert_eq!(value_of("-yin"), Essence::new(1, 0, 0));
}

#[test]
fn leading_minus_is_nothing_less_the_term() {
    let tree = CalqAst::from_str("-yin").unwrap();
    let expected = CalqAst::Subtract(
        Box::new(CalqAst::Atom(1, Essence::new(0, 0, 0))),
        Box::new(CalqAst::Atom(1, Essence::new(-1, 0, 0))),
    );
    assert_eq!(tree, expected);
}

#[test]
fn operators_bind_to_the_left() {
    let tree = CalqAst::from_str("fire - air + 2*yin").unwrap();
    let fire = CalqAst::Atom(1, Essence::new(0, 1, 0));
    let air = CalqAst::Atom(1, Essence::new(0, 0, 1));
    let yin = CalqAst::Atom(2, Essence::new(-1, 0, 0));
    let expected = CalqAst::Sum(
        Box::new(CalqAst::Subtract(Box::new(fire), Box::new(air))),
        Box::new(yin),
    );
    assert_eq!(tree, expected);
    assert_eq!(tree.eval(), Essence::new(-2, 1, -1));
}

#[test]
fn parentheses_group_to_the_right() {
    assert_eq!(value_of("fire-(air-yin)"), Essence::new(-1, 1, -1));
    assert_eq!(value_of("fire-air-yin"), Essence::new(1, 1, -1));
}

#[test]
fn nested_parentheses() {
    assert_eq!(value_of("((( 3 * sky )))"), Essence::new(3, 0, 3));
    assert_eq!(value_of("-(-(fire))"), Essence::new(0, 1, 0));
}

#[test]
fn blanks_are_allowed_everywhere() {
    assert_eq!(value_of(" \t4 \n*\r fire \t+  air  "), Essence::new(0, 4, 1));
    assert_eq!(value_of(" - yin"), Essence::new(1, 0, 0));
}

#[test]
fn names_are_case_folded() {
    assert_eq!(value_of("4*Fire+3*Air"), Essence::new(0, 4, 3));
    assert_eq!(value_of("LIGHTNING"), Essence::new(1, 1, 1));
}

#[test]
fn synonyms_and_whole_names_parse() {
    assert_eq!(value_of("sun"), Essence::new(1, 1, 0));
    assert_eq!(value_of("light"), Essence::new(1, 1, 0));
    assert_eq!(value_of("sun/light"), Essence::new(1, 1, 0));
    assert_eq!(value_of("abyss+darkness+moon"), Essence::new(-3, -3, 0));
    assert_eq!(
        CalqAst::from_str("sun/"),
        Err(ParseError::UnknownName("sun/".to_string()))
    );
}

#[test]
fn coefficient_zero_and_leading_zeros() {
    assert_eq!(value_of("0*fire"), Essence::new(0, 0, 0));
    assert_eq!(value_of("007*fire"), Essence::new(0, 7, 0));
    assert_eq!(
        CalqAst::from_str("12*air").unwrap(),
        CalqAst::Atom(12, Essence::new(0, 0, 1))
    );
}

#[test]
fn digits_without_star_are_rejected() {
    assert_eq!(CalqAst::from_str("3 fire"), Err(ParseError::MalformedCoefficient));
    assert_eq!(CalqAst::from_str("3"), Err(ParseError::MalformedCoefficient));
    assert_eq!(CalqAst::from_str("3+fire"), Err(ParseError::MalformedCoefficient));
}

#[test]
fn coefficient_too_large_is_rejected() {
    assert_eq!(
        CalqAst::from_str("99999999999999999999999999999999999999999*fire"),
        Err(ParseError::MalformedCoefficient)
    );
    let largest = format!("{}*fire", usize::MAX);
    assert_eq!(
        CalqAst::from_str(&largest).unwrap(),
        CalqAst::Atom(usize::MAX, Essence::new(0, 1, 0))
    );
}

#[test]
fn missing_closing_parenthesis_is_rejected() {
    assert_eq!(CalqAst::from_str("(fire"), Err(ParseError::UnmatchedParenthesis));
    assert_eq!(CalqAst::from_str("(fire+air"), Err(ParseError::UnmatchedParenthesis));
    assert_eq!(CalqAst::from_str("(fire + foobar)"), Err(ParseError::UnmatchedParenthesis));
}

#[test]
fn missing_term_is_rejected() {
    assert_eq!(CalqAst::from_str(""), Err(ParseError::EmptyTerm));
    assert_eq!(CalqAst::from_str("   "), Err(ParseError::EmptyTerm));
    assert_eq!(CalqAst::from_str(")"), Err(ParseError::EmptyTerm));
    assert_eq!(CalqAst::from_str("()"), Err(ParseError::EmptyTerm));
    assert_eq!(CalqAst::from_str("--fire"), Err(ParseError::EmptyTerm));
    assert_eq!(CalqAst::from_str("+fire"), Err(ParseError::EmptyTerm));
}

#[test]
fn star_belongs_to_the_word() {
    assert_eq!(
        CalqAst::from_str("fire*2"),
        Err(ParseError::UnknownName("fire*".to_string()))
    );
    assert_eq!(
        CalqAst::from_str("2**fire"),
        Err(ParseError::UnknownName("*fire".to_string()))
    );
}

#[test]
fn trailing_text_is_ignored() {
    let fire = CalqAst::Atom(1, Essence::new(0, 1, 0));
    assert_eq!(CalqAst::from_str("fire)"), Ok(fire.clone()));
    assert_eq!(CalqAst::from_str("fire + foobar"), Ok(fire.clone()));
    assert_eq!(CalqAst::from_str("fire++air"), Ok(fire.clone()));
    assert_eq!(CalqAst::from_str("fire 3"), Ok(fire.clone()));
    assert_eq!(CalqAst::from_str("fire+"), Ok(fire));
}

#[test]
fn parse_prefix_tells_how_much_was_read() {
    let fire = CalqAst::Atom(1, Essence::new(0, 1, 0));
    assert_eq!(CalqAst::parse_prefix("fire"), Ok((fire.clone(), 4)));
    assert_eq!(CalqAst::parse_prefix("fire  "), Ok((fire.clone(), 6)));
    assert_eq!(CalqAst::parse_prefix("fire )"), Ok((fire.clone(), 5)));
    assert_eq!(CalqAst::parse_prefix("fire + foobar"), Ok((fire.clone(), 5)));
    assert_eq!(CalqAst::parse_prefix(" fire+"), Ok((fire, 5)));
    let (_, read) = CalqAst::parse_prefix("(fire + air) - yin").unwrap();
    assert_eq!(read, 18);
}

#[test]
fn parse_prefix_counts_characters() {
    let text = "fire \u{e9}";
    let (_, read) = CalqAst::parse_prefix(text).unwrap();
    assert_eq!(read, 5);
    assert_eq!(
        CalqAst::from_str("\u{e9}t\u{e9}"),
        Err(ParseError::UnknownName("\u{e9}t\u{e9}".to_string()))
    );
}

#[test]
fn eval_follows_the_tree() {
    let tree = CalqAst::Sum(
        Box::new(CalqAst::Atom(3, Essence::new(1, 1, 1))),
        Box::new(CalqAst::Subtract(
            Box::new(CalqAst::Atom(2, Essence::new(0, -1, 0))),
            Box::new(CalqAst::Atom(5, Essence::new(-1, 0, 1))),
        )),
    );
    assert_eq!(tree.eval(), Essence::new(8, 1, -2));
    assert_eq!(tree.checked_eval(), Some(Essence::new(8, 1, -2)));
}

#[test]
fn checked_eval_refuses_what_leaves_the_range() {
    let most = CalqAst::Atom(isize::MAX as usize, Essence::new(1, 0, 0));
    assert_eq!(most.checked_eval(), Some(Essence::new(isize::MAX, 0, 0)));
    let too_much = CalqAst::Sum(
        Box::new(most.clone()),
        Box::new(CalqAst::Atom(1, Essence::new(1, 0, 0))),
    );
    assert_eq!(too_much.checked_eval(), None);
    let too_little = CalqAst::Subtract(
        Box::new(CalqAst::Atom(2, Essence::new(isize::MIN / 2, 0, 0))),
        Box::new(CalqAst::Atom(1, Essence::new(1, 0, 0))),
    );
    assert_eq!(too_little.checked_eval(), None);
    let too_many = CalqAst::Atom(usize::MAX, Essence::new(0, 1, 0));
    assert_eq!(too_many.checked_eval(), None);
    let hidden = CalqAst::Subtract(Box::new(too_much), Box::new(most));
    assert_eq!(hidden.checked_eval(), None);
}

#[test]
fn str_parse_reads_a_calculation() {
    let tree: CalqAst = "2*ice - stone".parse().unwrap();
    assert_eq!(tree, CalqAst::from_str("2*ice - stone").unwrap());
    assert_eq!(tree.eval(), Essence::new(1, -2, 3));
    let failed: Result<CalqAst, ParseError> = "2*".parse();
    assert_eq!(failed, Err(ParseError::EmptyTerm));
}

#[test]
fn errors_can_be_cloned() {
    let error = CalqAst::from_str("what").unwrap_err();
    assert_eq!(error.clone(), ParseError::UnknownName("what".to_string()));
    assert_eq!(ParseError::EmptyTerm.clone(), ParseError::EmptyTerm);
}

#[test]
fn clone_keeps_the_tree() {
    let tree = CalqAst::from_str("-(2*sky - mud) + void").unwrap();
    assert_eq!(tree.clone(), tree);
}
