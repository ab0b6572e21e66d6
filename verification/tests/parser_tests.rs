use easy_config::expression::Expression;
use easy_config::lexical_span::LexicalSpan;
use easy_config::parser::Parser;

#[test]
fn mod_presence() {
    let p = Parser::new("some_key").parse().unwrap();
    assert_eq!(
        p.get_first_expr_or_panic(),
        Expression::presence_str("some_key").with_span(LexicalSpan::new(0, 8))
    );
}

#[test]
fn binding() {
    let p = Parser::new("some_key = value").parse().unwrap();
    assert_eq!(
        p.get_first_expr_or_panic(),
        Expression::binding(
            "some_key",
            Expression::presence_str("value").with_span(LexicalSpan::new(11, 16))
        )
        .with_span(LexicalSpan::new(0, 16))
    );
}

#[test]
fn bound_collection() {
    let p = Parser::new("some_key = (a b)").parse().unwrap();
    assert_eq!(
        p.get_first_expr_or_panic(),
        Expression::binding(
            "some_key",
            Expression::list(vec![
                Expression::presence_str("a").with_span(LexicalSpan::new(12, 13)),
                Expression::presence_str("b").with_span(LexicalSpan::new(14, 15)),
            ])
            .with_span(LexicalSpan::new(11, 16))
        )
        .with_span(LexicalSpan::new(0, 16))
    );
}

#[test]
fn mod_nesting() {
    let p = Parser::new("some_key = (a = b c)").parse().unwrap();
    let inner_binding = Expression::binding(
        "a",
        Expression::presence_str("b").with_span(LexicalSpan::new(16, 17)),
    )
    .with_span(LexicalSpan::new(12, 17));

    let c_presence = Expression::presence_str("c").with_span(LexicalSpan::new(18, 19));

    let list =
        Expression::list(vec![inner_binding, c_presence]).with_span(LexicalSpan::new(11, 20));

    let top_level = Expression::binding("some_key", list).with_span(LexicalSpan::new(0, 20));

    assert_eq!(p.get_first_expr_or_panic(), top_level);
}

#[test]
fn mod_collection() {
    let p = Parser::new("(a b)").parse().unwrap();
    assert_eq!(
        p.get_first_expr_or_panic(),
        Expression::list(vec![
            Expression::presence_str("a").with_span(LexicalSpan::new(1, 2)),
            Expression::presence_str("b").with_span(LexicalSpan::new(3, 4)),
        ])
        .with_span(LexicalSpan::new(0, 5))
    );
}

#[test]
fn parse_single_enum() {
    let p = Parser::new("bind = Some(thing)").parse().unwrap();
    let enum_expr = Expression::list(vec![
        Expression::presence_str("Some").with_span(LexicalSpan::new(7, 11)),
        Expression::presence_str("thing").with_span(LexicalSpan::new(12, 17)),
    ])
    .with_span(LexicalSpan::new(11, 18));

    let binding = Expression::binding("bind", enum_expr).with_span(LexicalSpan::new(0, 18));

    assert_eq!(p.get_first_expr_or_panic(), binding);
}

#[test]
fn unclosed_list_reports_eoi() {
    // an unterminated list is a recovered end-of-input error, never a
    // panic or a silent partial success
    let finished = Parser::new("(a b").parse();
    assert_eq!(finished.errors().len(), 1);
    let rendered = finished.errors()[0].to_text();
    assert!(rendered.contains("Reached end of input while parsing!"));
}

#[test]
fn mod_parse_the_thing() {
    let text = r"some_key = value
nested_key = (
    one = 1
    # a comment goes here
    two = 2 # or here
)
escaped_characters = (
    \(
    \)
    \=
    \\
)";
    let finished = Parser::new(text).parse();
    assert!(finished.errors().is_empty());
    finished.unwrap();
}

#[test]
fn two_errors_are_both_collected() {
    // two independent malformed top-level expressions give exactly two
    // errors, not one
    let finished = Parser::new(") a )").parse();
    assert_eq!(finished.errors().len(), 2);
}

#[test]
fn error_excerpt_marks_the_offender() {
    let finished = Parser::new("key = = x").parse();
    assert_eq!(finished.errors().len(), 1);
    let rendered = finished.errors()[0].to_text();
    assert!(rendered.contains("^"));
    assert!(rendered.contains("Error at "));
}

#[test]
fn invalid_identifier_is_rejected() {
    let finished = Parser::new("some-name = 3").parse();
    assert_eq!(finished.errors().len(), 2);
    let rendered = finished.errors()[0].to_text();
    assert!(rendered.contains("Invalid identifier 'some-name'."));
}

#[test]
fn diagnostics_locate_the_span_start() {
    // the context line carries the offending character's own position
    assert_eq!(LexicalSpan::new(0, 1).find_row_and_column("a\nb"), (1, 1));
    assert_eq!(LexicalSpan::new(2, 3).find_row_and_column("a\nb"), (2, 1));
    let finished = Parser::new("ok\n) x").parse();
    assert_eq!(finished.errors().len(), 1);
    let rendered = finished.errors()[0].to_text();
    assert!(rendered.contains("Error at 2:1"));
}
