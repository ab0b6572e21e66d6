use easy_config::expression::{Atom, Expression};
use easy_config::expression_iterator::ExpressionIterator;
use easy_config::lexical_span::LexicalSpan;
use easy_config::parser::Parser;
use easy_config::serialization::deserialize_enum::{
    get_discriminant, get_discriminant_lowercased,
};
use easy_config::serialization::EasyConfig;

fn abc() -> Expression {
    Expression::list(vec![
        Expression::presence_str("a"),
        Expression::presence_str("b"),
        Expression::presence_str("c"),
    ])
}

#[test]
fn cursor_walks_flattened_siblings() {
    let mut it = ExpressionIterator::new(abc());
    assert!(!it.finished());
    assert_eq!(it.next().unwrap(), Expression::presence_str("a"));
    assert_eq!(it.peek().unwrap(), &Expression::presence_str("b"));
    assert_eq!(it.next().unwrap(), Expression::presence_str("b"));
    assert_eq!(it.next().unwrap(), Expression::presence_str("c"));
    assert!(it.finished());
    assert!(it.next().is_none());
}

#[test]
fn a_presence_is_a_one_element_stream() {
    let mut it = ExpressionIterator::new(Expression::presence_str("alone"));
    assert_eq!(it.next().unwrap(), Expression::presence_str("alone"));
    assert!(it.finished());
}

#[test]
fn rewind_steps_the_cursor_back() {
    let mut it = ExpressionIterator::new(abc());
    let first = it.next().unwrap();
    let second = it.next().unwrap();
    it.rewind(1);
    assert_eq!(it.next().unwrap(), second);
    it.rewind(2);
    assert_eq!(it.next().unwrap(), first);
    // rewinding past the start stops at the beginning
    it.rewind(10);
    assert_eq!(it.next().unwrap(), first);
}

#[test]
fn spans_accumulate_over_consumed_expressions() {
    let source = "(a b c)";
    let parsed = Parser::new(source).parse().unwrap();
    let mut doc = ExpressionIterator::new(parsed);
    let list = doc.next().unwrap();
    let mut it = ExpressionIterator::new(list);
    assert_eq!(it.span(), None);
    it.next().unwrap();
    assert_eq!(it.span(), Some(LexicalSpan::new(1, 2)));
    it.next().unwrap();
    it.next().unwrap();
    assert_eq!(it.span(), Some(LexicalSpan::new(1, 6)));
}

#[test]
fn next_list_or_err_requires_a_list() {
    let mut it = ExpressionIterator::new(Expression::presence_str("bare"));
    let err = it.next_list_or_err("bare").unwrap_err();
    assert!(err.to_text().contains("Expected List, but got Presence."));
}

#[test]
fn find_binding_takes_the_binding_out() {
    let source = "start a = 1 middle b = 2";
    let parsed = Parser::new(source).parse().unwrap();
    let mut it = ExpressionIterator::new(parsed);
    let b = it.find_binding("b", source).unwrap();
    assert_eq!(b.name, "b");
    // the other expressions are still there, in order
    assert_eq!(it.next().unwrap().dump(), "start");
    assert_eq!(it.next().unwrap().dump(), "a = 1");
    assert_eq!(it.next().unwrap().dump(), "middle");
    assert!(it.finished());

    let missing = it.find_binding("b", source).unwrap_err();
    assert!(missing.to_text().contains("Expected to find the field: b."));
}

#[test]
fn eat_presence_compares_the_whole_atom() {
    let mut it = ExpressionIterator::new(abc());
    assert!(!it.eat_presence_if_present(&Atom::Text("b".to_string())));
    assert!(it.eat_presence_if_present(&Atom::Text("a".to_string())));
    // a number atom with the same text is a different atom
    assert!(!it.eat_presence_if_present(&Atom::Number("b".to_string())));
    assert!(it.eat_presence_if_present_and_matching("b"));
    assert_eq!(it.next().unwrap(), Expression::presence_str("c"));
}

#[test]
fn discriminants_check_the_option_set() {
    let source = "IpV4";
    let parsed = Parser::new(source).parse().unwrap();
    let mut it = ExpressionIterator::new(parsed);
    let options = vec!["None".to_string(), "IpV4".to_string()];
    assert_eq!(get_discriminant(&mut it, options, source).unwrap(), "IpV4");

    let parsed = Parser::new(source).parse().unwrap();
    let mut it = ExpressionIterator::new(parsed);
    let options = vec!["none".to_string(), "ipv4".to_string()];
    assert_eq!(
        get_discriminant_lowercased(&mut it, options, source).unwrap(),
        "ipv4"
    );

    let parsed = Parser::new(source).parse().unwrap();
    let mut it = ExpressionIterator::new(parsed);
    let options = vec!["Index".to_string()];
    let err = get_discriminant(&mut it, options, source).unwrap_err();
    assert!(err.to_text().contains("Expected a enum discriminant"));
}

#[test]
fn option_scenarios_from_text() {
    // the bare word is the absent value; the wrapped pair carries one
    let text = "None";
    let parsed = Parser::new(text).parse().unwrap();
    let got = Option::<i32>::deserialize(&mut ExpressionIterator::new(parsed), text).unwrap();
    assert_eq!(got, None);

    let text = "(Some (1))";
    let parsed = Parser::new(text).parse().unwrap();
    let mut doc = ExpressionIterator::new(parsed);
    let first = doc.next().unwrap();
    let got =
        Option::<i32>::deserialize(&mut ExpressionIterator::new(first), text).unwrap();
    assert_eq!(got, Some(1));
}

#[test]
fn some_payload_must_be_a_list() {
    let text = "(Some 1)";
    let parsed = Parser::new(text).parse().unwrap();
    let mut doc = ExpressionIterator::new(parsed);
    let first = doc.next().unwrap();
    let err =
        Option::<i32>::deserialize(&mut ExpressionIterator::new(first), text).unwrap_err();
    assert!(err.to_text().contains("Expected List, but got Presence."));
}

#[test]
fn scalars_want_a_presence() {
    let text = "(1 2)";
    let parsed = Parser::new(text).parse().unwrap();
    let mut it = ExpressionIterator::new(parsed);
    let err = i32::deserialize(&mut it, text).unwrap_err();
    assert!(err.to_text().contains("Expected Presence, but got List."));
}
