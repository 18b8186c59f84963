use essence_math::{
    all_essence, apply_calc, calculate, complete_input, is_exit, place_linebreaks, Answer, App,
    Msg, ParseError,
};

#[test]
fn input_is_complete_at_a_line_feed() {
    assert!(complete_input("fire\n"));
    assert!(complete_input("\n"));
    assert!(!complete_input(""));
    assert!(!complete_input("fire"));
    assert!(!complete_input("fire\n "));
    assert!(!complete_input("fire\r"));
}

#[test]
fn exit_ends_a_session() {
    assert!(is_exit("exit"));
    assert!(is_exit("exit\n"));
    assert!(is_exit("  EXIT \r\n"));
    assert!(is_exit("Exit"));
    assert!(!is_exit("exi"));
    assert!(!is_exit("exit now"));
    assert!(!is_exit("e xit"));
    assert!(!is_exit(""));
}

#[test]
fn calculate_renders_the_value() {
    assert_eq!(calculate("4*fire+air"), Answer::Value("heat+3*fire".to_string()));
    assert_eq!(calculate("moon-yin\n"), Answer::Value("water".to_string()));
    assert_eq!(calculate("fire-fire"), Answer::Value("unaligned".to_string()));
    assert_eq!(calculate("-(sky+2*mud)"), Answer::Value("destruction/death+fire".to_string()));
}

#[test]
fn calculate_reports_what_is_no_calculation() {
    assert_eq!(
        calculate("foobar"),
        Answer::ParseError(ParseError::UnknownName("foobar".to_string()))
    );
    assert_eq!(calculate("3*"), Answer::ParseError(ParseError::EmptyTerm));
    assert_eq!(calculate("3 fire"), Answer::ParseError(ParseError::MalformedCoefficient));
    assert_eq!(calculate("(fire"), Answer::ParseError(ParseError::UnmatchedParenthesis));
}

#[test]
fn calculate_reports_what_leaves_the_range() {
    let text = format!("{}*fire+fire", isize::MAX);
    assert_eq!(calculate(&text), Answer::OutOfRange);
    let text = format!("{}*fire", usize::MAX);
    assert_eq!(calculate(&text), Answer::OutOfRange);
    let text = format!("{}*water+2*water", isize::MAX);
    assert_eq!(calculate(&text), Answer::OutOfRange);
}

#[test]
fn all_essence_lists_the_kinds_from_last_to_first() {
    let listing = all_essence();
    let lines: Vec<&str> = listing.split('\n').collect();
    assert_eq!(lines.len(), 28);
    assert_eq!(lines[0], "unaligned");
    assert_eq!(lines[1], "air");
    assert_eq!(lines[15], "gravity");
    assert_eq!(lines[26], "lightning");
    assert_eq!(lines[27], "");
}

#[test]
fn session_logs_complete_input_only() {
    let mut app = App::create();
    assert!(app.log.is_empty());
    assert_eq!(app.input, "");
    assert!(app.update(Msg::Input("4*fi".to_string())));
    assert!(app.log.is_empty());
    assert_eq!(app.input, "4*fi");
    assert!(app.update(Msg::Input("4*fire+air\n".to_string())));
    assert_eq!(app.input, "");
    assert_eq!(app.log.len(), 1);
    assert_eq!(app.log[0].input, "4*fire+air\n");
    assert_eq!(app.log[0].answer, Answer::Value("heat+3*fire".to_string()));
    assert!(app.update(Msg::Input("nonsense\n".to_string())));
    assert_eq!(app.log.len(), 2);
    assert_eq!(app.log[0].answer, Answer::Value("heat+3*fire".to_string()));
    assert_eq!(
        app.log[1].answer,
        Answer::ParseError(ParseError::UnknownName("nonsense".to_string()))
    );
    assert_eq!(app.input, "");
}

#[test]
fn apply_calc_keeps_the_input() {
    let exchange = apply_calc("moon-yin");
    assert_eq!(exchange.input, "moon-yin");
    assert_eq!(exchange.answer, Answer::Value("water".to_string()));
    let exchange = apply_calc("moon-");
    assert_eq!(exchange.input, "moon-");
    assert_eq!(exchange.answer, Answer::Value("abyss/darkness/moon".to_string()));
    let exchange = apply_calc("-");
    assert_eq!(exchange.answer, Answer::ParseError(ParseError::EmptyTerm));
    assert_eq!(exchange.clone(), exchange);
}

#[test]
fn place_linebreaks_drops_empty_lines() {
    assert_eq!(place_linebreaks("Examples"), vec!["Examples".to_string()]);
    assert_eq!(
        place_linebreaks("air\nearth\n"),
        vec!["air".to_string(), "earth".to_string()]
    );
    assert_eq!(
        place_linebreaks("\n\nair\n\n\nearth"),
        vec!["air".to_string(), "earth".to_string()]
    );
    assert_eq!(place_linebreaks(""), Vec::<String>::new());
    assert_eq!(place_linebreaks("\n\n"), Vec::<String>::new());
    assert_eq!(place_linebreaks(" \n\u{e9}t\u{e9}"), vec![" ".to_string(), "\u{e9}t\u{e9}".to_string()]);
    assert_eq!(place_linebreaks(&all_essence()).len(), 27);
}
