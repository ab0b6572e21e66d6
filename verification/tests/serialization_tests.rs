use easy_config::expression::{Atom, Expression};
use easy_config::expression_iterator::ExpressionIterator;
use easy_config::parser::Parser;
use easy_config::serialization::string_extension::decode_text;
use easy_config::serialization::EasyConfig;
use std::collections::HashMap;

fn num(n: &str) -> Expression {
    Expression::presence(Atom::Number(n.to_string()))
}

#[test]
fn vec_serialize() {
    let expected = vec![1, 2, 3];
    assert_eq!(
        expected.serialize(),
        Expression::list(vec![num("1"), num("2"), num("3")])
    )
}

#[test]
fn vec_deserialize() {
    let expected = vec![1, 2, 3];
    let got = Vec::<i32>::deserialize(
        &mut ExpressionIterator::new(expected.serialize()),
        "(1 2 3)",
    )
    .unwrap();
    assert_eq!(expected, got);
}

#[test]
fn array() {
    let expected = [1, 2, 3];
    let got = <[i32; 3]>::deserialize(
        &mut ExpressionIterator::new(expected.serialize()),
        "(1 2 3)",
    )
    .unwrap();
    assert_eq!(expected, got);
}

#[test]
fn wrong_cardinality_for_arrays() {
    let four = vec![1, 2, 3, 4];
    let err = <[i32; 3]>::deserialize(
        &mut ExpressionIterator::new(four.serialize()),
        "(1 2 3 4)",
    )
    .unwrap_err();
    let rendered = err.to_text();
    assert!(rendered.contains("Wrong cardinality."));
    assert!(rendered.contains("Expected to have 3 elements, but got 4 elements"));
}

#[test]
fn hashmap_string() {
    let expected = HashMap::from([
        (String::from("a"), 1),
        (String::from("b"), 2),
        (String::from("c"), 3),
    ]);
    let got = HashMap::<String, i32>::deserialize(
        &mut ExpressionIterator::new(expected.serialize()),
        "(a=1 b=2 c=3)",
    )
    .unwrap();
    if got.len() != expected.len() {
        panic!("length mismatch: {:?} != {:?}", got, expected);
    }

    for (k, v) in got {
        assert_eq!(Some(&v), expected.get(&k));
    }
}

#[test]
fn serialize_some() {
    let target = Some(1);
    assert_eq!(
        target.serialize(),
        Expression::list(vec![
            Expression::presence_str("Some"),
            Expression::list(vec![num("1")]),
        ])
    );
}

#[test]
fn deserialize_some() {
    let expected = Some(1);
    let got = Option::<i32>::deserialize(
        &mut ExpressionIterator::new(expected.serialize()),
        "Some (1)",
    )
    .unwrap();
    assert_eq!(got, expected);
}

#[test]
fn serialize_none() {
    let target: Option<String> = None;
    assert_eq!(target.serialize(), Expression::presence_str("None"));
}

#[test]
fn deserialize_none() {
    let expected: Option<i32> = None;
    let got = Option::<i32>::deserialize(
        &mut ExpressionIterator::new(expected.serialize()),
        "None",
    )
    .unwrap();
    assert_eq!(got, expected);
}

#[test]
fn bad_option_discriminant() {
    let err = Option::<i32>::deserialize(
        &mut ExpressionIterator::new(Expression::presence_str("Maybe")),
        "Maybe",
    )
    .unwrap_err();
    assert!(err.to_text().contains("Expected a enum discriminant"));
}

#[test]
fn serialize_string() {
    let expected = "hi".to_string();
    assert_eq!(expected.serialize(), Expression::presence_str("hi"));
}

#[test]
fn serialize_string_with_space() {
    let expected = "hi there".to_string();
    assert_eq!(
        expected.serialize(),
        Expression::list(vec![
            Expression::presence_str("hi"),
            Expression::presence_str("there"),
        ])
    )
}

#[test]
fn deserialize_string() {
    let expected = "hi".to_string();
    let parsed = Parser::new(expected.as_str()).parse().unwrap();
    let got =
        String::deserialize(&mut ExpressionIterator::new(parsed), expected.as_str()).unwrap();
    assert_eq!(got, expected)
}

#[test]
fn deserialize_string_with_space() {
    let expected = "(hi there)".to_string();
    let parsed = Parser::new(expected.as_str()).parse().unwrap();
    let mut parsed = ExpressionIterator::new(parsed);
    let first = parsed.next().unwrap();
    let got =
        String::deserialize(&mut ExpressionIterator::new(first), expected.as_str()).unwrap();
    assert_eq!(got, "hi there")
}

#[test]
fn deserialize_bound_string_with_space() {
    let content = "hi there";
    let source = format!("x = ({})", content);
    let parsed = Parser::new(source.as_str()).parse().unwrap();
    let mut parsed = ExpressionIterator::new(parsed);
    let binding = parsed
        .find_binding("x", source.as_str())
        .expect("expected x binding");
    let got = String::deserialize(
        &mut ExpressionIterator::new(*binding.value),
        source.as_str(),
    )
    .unwrap();
    assert_eq!(got, content)
}

#[test]
fn two_ply() {
    let start = (1, 2);
    assert_eq!(
        <(i32, i32)>::deserialize(&mut ExpressionIterator::new(start.serialize()), "(1 2)")
            .unwrap(),
        (1, 2)
    );
}

#[test]
fn two_ply_distinct_types() {
    let start = (1, 3_u32);
    assert_eq!(
        <(i32, u32)>::deserialize(&mut ExpressionIterator::new(start.serialize()), "(1 3)")
            .unwrap(),
        (1, 3_u32)
    );
}

#[test]
fn integers_round_trip_through_text() {
    // encode, render, re-parse and decode: the value comes back exactly
    let v: i64 = -9223372036854775808;
    let text = v.serialize().dump();
    assert_eq!(text, "-9223372036854775808");
    let parsed = Parser::new(text.as_str()).parse().unwrap();
    let mut it = ExpressionIterator::new(parsed);
    assert_eq!(i64::deserialize(&mut it, text.as_str()).unwrap(), v);

    let u: u128 = 340282366920938463463374607431768211455;
    let text = u.serialize().dump();
    let parsed = Parser::new(text.as_str()).parse().unwrap();
    let mut it = ExpressionIterator::new(parsed);
    assert_eq!(u128::deserialize(&mut it, text.as_str()).unwrap(), u);
}

#[test]
fn out_of_range_literal_is_rejected() {
    let text = "300";
    let parsed = Parser::new(text).parse().unwrap();
    let mut it = ExpressionIterator::new(parsed);
    let err = u8::deserialize(&mut it, text).unwrap_err();
    assert!(err.to_text().contains("Unable to parse '300' as an integer."));
}

#[test]
fn text_that_is_no_number_is_rejected() {
    let text = "kitten";
    let parsed = Parser::new(text).parse().unwrap();
    let mut it = ExpressionIterator::new(parsed);
    let err = i32::deserialize(&mut it, text).unwrap_err();
    assert!(err.to_text().contains("Expected number, but got kitten."));
}

#[test]
fn bools_and_chars_round_trip() {
    let text = true.serialize().dump();
    assert_eq!(text, "true");
    let parsed = Parser::new(text.as_str()).parse().unwrap();
    let mut it = ExpressionIterator::new(parsed);
    assert_eq!(bool::deserialize(&mut it, text.as_str()).unwrap(), true);

    let text = 'z'.serialize().dump();
    let parsed = Parser::new(text.as_str()).parse().unwrap();
    let mut it = ExpressionIterator::new(parsed);
    assert_eq!(char::deserialize(&mut it, text.as_str()).unwrap(), 'z');

    let text = "sideways";
    let parsed = Parser::new(text).parse().unwrap();
    let mut it = ExpressionIterator::new(parsed);
    let err = bool::deserialize(&mut it, text).unwrap_err();
    assert!(err.to_text().contains("Unable to parse 'sideways' as a boolean."));

    let text = "toolong";
    let parsed = Parser::new(text).parse().unwrap();
    let mut it = ExpressionIterator::new(parsed);
    let err = char::deserialize(&mut it, text).unwrap_err();
    assert!(err.to_text().contains("Unable to parse 'toolong' as a character."));
}

#[test]
fn structural_characters_survive_a_full_round_trip() {
    // escape on encode, unescape on decode: the exact original comes back
    let original = "weird(string)=with#specials\\kept intact".to_string();
    let text = original.serialize().dump();
    let parsed = Parser::new(text.as_str()).parse().unwrap();
    let mut it = ExpressionIterator::new(parsed);
    let first = it.next().unwrap();
    let got = String::deserialize(&mut ExpressionIterator::new(first), text.as_str()).unwrap();
    assert_eq!(got, original);
}

#[test]
fn decode_straight_from_text() {
    let got: Vec<i32> = decode_text("1 2 3").unwrap();
    assert_eq!(got, vec![1, 2, 3]);

    let err = decode_text::<Vec<i32>>("(1 2").unwrap_err();
    assert!(err.to_text().contains("Unable to parse expression."));
}

#[test]
fn empty_string_decode_is_end_of_input() {
    let empty = "".to_string();
    let encoded = empty.serialize();
    let err = String::deserialize(&mut ExpressionIterator::new(encoded), "()").unwrap_err();
    assert!(err.to_text().contains("Reached the end of the file unexpectedly."));
}

#[test]
fn renderings_match_the_wire_format() {
    // the compact rendering of the built-in encodings is the documented
    // wire shape
    assert_eq!(vec![1, 2, 3].serialize().dump(), "(1 2 3)");
    assert_eq!("hi there".to_string().serialize().dump(), "(hi there)");
    assert_eq!(Some(1).serialize().dump(), "(Some (1))");
    let nothing: Option<i32> = None;
    assert_eq!(nothing.serialize().dump(), "None");
}

#[test]
fn dump_reparses_to_an_equivalent_tree() {
    // re-parsing a dump reproduces the same shape, spans aside
    let original = Expression::list(vec![
        Expression::binding("k", Expression::presence_str("v")),
        Expression::presence_str("flag"),
    ]);
    let text = original.dump();
    let parsed = Parser::new(text.as_str()).parse().unwrap();
    let mut doc = ExpressionIterator::new(parsed);
    let reparsed = doc.next().unwrap();
    assert_eq!(reparsed.dump(), text);
}
