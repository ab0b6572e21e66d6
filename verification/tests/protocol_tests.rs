use easy_config::expression::{Atom, Expression};
use easy_config::expression_iterator::ExpressionIterator;
use easy_config::parser::Parser;
use easy_config::serialization::serialization_error::{Kind, SerializationError};
use easy_config::serialization::{deserialize_field_from_map_or_error, EasyConfig};

fn field_of<T: EasyConfig>(
    exprs: &mut ExpressionIterator,
    name: &str,
    source_text: &str,
) -> Result<T, SerializationError> {
    let binding = exprs.find_binding(name, source_text)?;
    T::deserialize(&mut ExpressionIterator::new(*binding.value), source_text)
}

#[derive(Debug, Clone, Copy, PartialEq)]
enum Complex {
    Unit,
    Named { x: u32, y: i32 },
    Unnamed(u32, i32),
}

impl Complex {
    fn serialize(&self) -> Expression {
        match self {
            Complex::Unit => Expression::list(vec![
                Expression::presence_str("Unit"),
                Expression::list(vec![]),
            ]),
            Complex::Named { x, y } => Expression::list(vec![
                Expression::presence_str("Named"),
                Expression::list(vec![
                    Expression::binding("x", x.serialize()),
                    Expression::binding("y", y.serialize()),
                ]),
            ]),
            Complex::Unnamed(a, b) => Expression::list(vec![
                Expression::presence_str("Unnamed"),
                Expression::list(vec![a.serialize(), b.serialize()]),
            ]),
        }
    }

    fn deserialize(
        exprs: &mut ExpressionIterator,
        source_text: &str,
    ) -> Result<Self, SerializationError> {
        let (discriminant, fields) = exprs.extract_enum(source_text)?;
        let mut fields_iter = ExpressionIterator::new(fields);
        match discriminant.as_str() {
            "Unit" => Ok(Complex::Unit),
            "Named" => {
                let (mut mapping, error_span) =
                    fields_iter.convert_binding_list_to_hashmap_of_values(source_text)?;
                Ok(Complex::Named {
                    x: deserialize_field_from_map_or_error(
                        "x",
                        &mut mapping,
                        error_span,
                        source_text,
                    )?,
                    y: deserialize_field_from_map_or_error(
                        "y",
                        &mut mapping,
                        error_span,
                        source_text,
                    )?,
                })
            },
            "Unnamed" => Ok(Complex::Unnamed(
                fields_iter.deserialize_next(source_text)?,
                fields_iter.deserialize_next(source_text)?,
            )),
            other => Err(SerializationError::FirstLevelError(
                Kind::ExpectedDiscriminant(
                    other.to_string(),
                    vec!["Unit".to_string(), "Named".to_string(), "Unnamed".to_string()],
                ),
                String::new(),
            )),
        }
    }
}

#[test]
fn unit_serialize() {
    assert_eq!(
        Complex::Unit.serialize(),
        Expression::list(vec![
            Expression::presence_str("Unit"),
            Expression::list(vec![])
        ])
    )
}

fn n(v: i64) -> Expression {
    Expression::presence(Atom::Number(v.to_string()))
}

#[test]
fn named_serialize() {
    assert_eq!(
        Complex::Named { x: 1, y: 2 }.serialize(),
        Expression::list(vec![
            Expression::presence_str("Named"),
            Expression::list(vec![
                Expression::binding("x", n(1)),
                Expression::binding("y", n(2))
            ])
        ])
    )
}

#[test]
fn unnamed_serialize() {
    assert_eq!(
        Complex::Unnamed(3, 4).serialize(),
        Expression::list(vec![
            Expression::presence_str("Unnamed"),
            Expression::list(vec![n(3), n(4)])
        ])
    )
}

#[test]
fn unit_deserialize() {
    let text = "(Unit)";
    let parsed = Parser::new(text).parse().unwrap();
    let result = Complex::deserialize(&mut ExpressionIterator::new(parsed), text).unwrap();
    assert_eq!(result, Complex::Unit);
}

#[test]
fn named_deserialize() {
    let text = "(Named (x=1 y=2))";
    let parsed = Parser::new(text).parse().unwrap();
    let result = Complex::deserialize(&mut ExpressionIterator::new(parsed), text).unwrap();
    assert_eq!(result, Complex::Named { x: 1, y: 2 });
}

#[test]
fn named_deserialize_reordered_fields() {
    // binding lookup is order-independent: swapped fields decode the same
    let text = "(Named (y=2 x=1))";
    let parsed = Parser::new(text).parse().unwrap();
    let result = Complex::deserialize(&mut ExpressionIterator::new(parsed), text).unwrap();
    assert_eq!(result, Complex::Named { x: 1, y: 2 });
}

#[test]
fn unnamed_deserialize() {
    let text = "(Unnamed (3 4))";
    let parsed = Parser::new(text).parse().unwrap();
    let result = Complex::deserialize(&mut ExpressionIterator::new(parsed), text).unwrap();
    assert_eq!(result, Complex::Unnamed(3, 4));
}

#[derive(Debug, Clone, Copy, PartialEq)]
enum EnumNoArgs {
    One,
    Two,
}

impl EnumNoArgs {
    fn serialize(&self) -> Expression {
        match self {
            EnumNoArgs::One => Expression::list(vec![
                Expression::presence_str("One"),
                Expression::list(vec![]),
            ]),
            EnumNoArgs::Two => Expression::list(vec![
                Expression::presence_str("Two"),
                Expression::list(vec![]),
            ]),
        }
    }

    fn deserialize(
        exprs: &mut ExpressionIterator,
        source_text: &str,
    ) -> Result<Self, SerializationError> {
        let (discriminant, _fields) = exprs.extract_enum(source_text)?;
        match discriminant.as_str() {
            "One" => Ok(EnumNoArgs::One),
            "Two" => Ok(EnumNoArgs::Two),
            other => Err(SerializationError::FirstLevelError(
                Kind::ExpectedDiscriminant(
                    other.to_string(),
                    vec!["One".to_string(), "Two".to_string()],
                ),
                String::new(),
            )),
        }
    }
}

#[test]
fn simple_enum_serialize() {
    assert_eq!(
        EnumNoArgs::One.serialize(),
        Expression::list(vec![
            Expression::presence_str("One"),
            Expression::list(vec![])
        ])
    )
}

#[test]
fn simple_enum_deserialize() {
    let exprs = EnumNoArgs::One.serialize();
    let text = exprs.uncomented_dump();
    let parsed = Parser::new(text.as_str()).parse().unwrap();
    let mut doc = ExpressionIterator::new(parsed);
    let first = doc.next().unwrap();
    let deserialized =
        EnumNoArgs::deserialize(&mut ExpressionIterator::new(first), text.as_str())
            .expect("should deserialize");
    assert_eq!(deserialized, EnumNoArgs::One)
}

#[derive(Debug, PartialEq)]
enum TestEnum {
    First(String),
    Second(String),
}

impl TestEnum {
    fn serialize(&self) -> Expression {
        match self {
            TestEnum::First(s) => Expression::list(vec![
                Expression::presence_str("First"),
                Expression::list(vec![s.serialize()]),
            ]),
            TestEnum::Second(s) => Expression::list(vec![
                Expression::presence_str("Second"),
                Expression::list(vec![s.serialize()]),
            ]),
        }
    }

    fn deserialize(
        exprs: &mut ExpressionIterator,
        source_text: &str,
    ) -> Result<Self, SerializationError> {
        let (discriminant, fields) = exprs.extract_enum(source_text)?;
        let mut fields_iter = ExpressionIterator::new(fields);
        match discriminant.as_str() {
            "First" => Ok(TestEnum::First(fields_iter.deserialize_next(source_text)?)),
            "Second" => Ok(TestEnum::Second(fields_iter.deserialize_next(source_text)?)),
            other => Err(SerializationError::FirstLevelError(
                Kind::ExpectedDiscriminant(
                    other.to_string(),
                    vec!["First".to_string(), "Second".to_string()],
                ),
                String::new(),
            )),
        }
    }
}

#[test]
fn single_field_enum_serialize() {
    assert_eq!(
        TestEnum::First("hello".to_string()).serialize(),
        Expression::list(vec![
            Expression::presence_str("First"),
            Expression::list(vec![Expression::presence_str("hello")])
        ])
    );
}

#[test]
fn single_field_enum_deserialize() {
    let text = "(First (hello))";
    let parsed = Parser::new(text).parse().unwrap();
    let x = TestEnum::deserialize(&mut ExpressionIterator::new(parsed), text).unwrap();
    assert_eq!(x, TestEnum::First("hello".to_string()));
}

#[derive(Debug, PartialEq, Clone)]
struct NamedFields {
    x: String,
    z: Vec<u32>,
}

impl NamedFields {
    fn serialize(&self) -> Expression {
        let mut body = Expression::list(vec![
            Expression::binding("x", self.x.serialize()),
            Expression::binding("z", self.z.serialize())
                .with_comment("My favorite numbers in order.".to_string()),
        ]);
        body.prepend_into_list(Expression::presence_str("NamedFields"));
        body
    }

    fn deserialize(
        exprs: &mut ExpressionIterator,
        source_text: &str,
    ) -> Result<Self, SerializationError> {
        exprs.eat_presence_if_present_and_matching("NamedFields");
        Ok(NamedFields {
            x: field_of(exprs, "x", source_text)?,
            z: field_of(exprs, "z", source_text)?,
        })
    }
}

fn testing() -> NamedFields {
    NamedFields {
        x: "hello world".to_string(),
        z: vec![1, 2, 3],
    }
}

#[test]
fn named_fields_serialize() {
    assert_eq!(
        testing().serialize(),
        Expression::list(vec![
            Expression::presence_str("NamedFields"),
            Expression::binding(
                "x",
                Expression::list(vec![
                    Expression::presence_str("hello"),
                    Expression::presence_str("world"),
                ])
            ),
            Expression::binding(
                "z",
                Expression::list(vec![n(1), n(2), n(3)])
            )
            .with_comment("My favorite numbers in order.".to_string()),
        ])
    )
}

#[test]
fn named_fields_deserialize() {
    let exprs = testing().serialize();
    let text = exprs.uncomented_dump();
    let parsed = Parser::new(text.as_str()).parse().unwrap();
    let mut doc = ExpressionIterator::new(parsed);
    let first = doc.next().unwrap();
    let deserialized =
        NamedFields::deserialize(&mut ExpressionIterator::new(first), text.as_str())
            .expect("should deserialize");
    assert_eq!(deserialized, testing());
}

#[derive(Debug, PartialEq)]
struct UnnamedFields(String, Vec<u32>);

impl UnnamedFields {
    fn serialize(&self) -> Expression {
        let mut body = Expression::list(vec![
            self.0.serialize(),
            self.1
                .serialize()
                .with_comment("My favorite numbers in order.".to_string()),
        ]);
        body.prepend_into_list(Expression::presence_str("UnnamedFields"));
        body
    }

    fn deserialize(
        exprs: &mut ExpressionIterator,
        source_text: &str,
    ) -> Result<Self, SerializationError> {
        exprs.eat_presence_if_present_and_matching("UnnamedFields");
        Ok(UnnamedFields(
            exprs.deserialize_next(source_text)?,
            exprs.deserialize_next(source_text)?,
        ))
    }
}

fn testing_unnamed() -> UnnamedFields {
    UnnamedFields("hello world".to_string(), vec![1, 2, 3])
}

#[test]
fn unnamed_fields_serialize() {
    assert_eq!(
        testing_unnamed().serialize(),
        Expression::list(vec![
            Expression::presence_str("UnnamedFields"),
            Expression::list(vec![
                Expression::presence_str("hello"),
                Expression::presence_str("world"),
            ]),
            Expression::list(vec![n(1), n(2), n(3)])
                .with_comment("My favorite numbers in order.".to_string()),
        ])
    )
}

#[test]
fn unnamed_fields_deserialize() {
    let exprs = testing_unnamed().serialize();
    let text = exprs.uncomented_dump();
    let parsed = Parser::new(text.as_str()).parse().unwrap();
    let mut doc = ExpressionIterator::new(parsed);
    let first = doc.next().unwrap();
    let deserialized =
        UnnamedFields::deserialize(&mut ExpressionIterator::new(first), text.as_str())
            .expect("should deserialize");
    assert_eq!(deserialized, testing_unnamed());
}

#[derive(Debug, PartialEq, Eq)]
struct ServerTest {
    address: String,
    port: u16,
    name: String,
}

impl ServerTest {
    fn serialize(&self) -> Expression {
        let mut body = Expression::list(vec![
            Expression::binding("address", self.address.serialize()),
            Expression::binding("port", self.port.serialize()),
            Expression::binding("name", self.name.serialize()),
        ]);
        body.prepend_into_list(Expression::presence_str("ServerTest"));
        body
    }

    fn deserialize(
        exprs: &mut ExpressionIterator,
        source_text: &str,
    ) -> Result<Self, SerializationError> {
        exprs.eat_presence_if_present_and_matching("ServerTest");
        Ok(ServerTest {
            address: field_of(exprs, "address", source_text)?,
            port: field_of(exprs, "port", source_text)?,
            name: field_of(exprs, "name", source_text)?,
        })
    }
}

fn localhost() -> ServerTest {
    ServerTest {
        address: "localhost".to_string(),
        port: 1337,
        name: "h4x0r".to_string(),
    }
}

#[test]
fn read_human_input() {
    let input = r"address = localhost
        port = 1337
        name = h4x0r";
    let parsed = Parser::new(input).parse().unwrap();
    assert_eq!(
        ServerTest::deserialize(&mut ExpressionIterator::new(parsed), input).unwrap(),
        localhost()
    );
}
