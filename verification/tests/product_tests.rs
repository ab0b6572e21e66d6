use easy_config::expression::{Atom, Expression};
use easy_config::expression_iterator::ExpressionIterator;
use easy_config::parser::Parser;
use easy_config::expression::ExpressionView;
use easy_config::serialization::serialization_error::{DecodeFailure, Kind, SerializationError};
use easy_config::serialization::EasyConfig;
use easy_config::vstd::view::DeepView;

fn field_of<T: EasyConfig>(
    exprs: &mut ExpressionIterator,
    name: &str,
    source_text: &str,
) -> Result<T, SerializationError> {
    let binding = exprs.find_binding(name, source_text)?;
    T::deserialize(&mut ExpressionIterator::new(*binding.value), source_text)
}

#[derive(Debug, PartialEq)]
enum Address {
    Unset,
    IpV4(String),
    Index(u32, i32),
}

impl DeepView for Address {
    type V = ();

    fn deep_view(&self) -> () {
        ()
    }
}

impl EasyConfig for Address {
    fn spec_passthrough() -> bool {
        true
    }

    fn spec_enc(&self, _e: ExpressionView) -> bool {
        false
    }

    fn spec_decoded(
        _items: easy_config::vstd::prelude::Seq<ExpressionView>,
        _index: easy_config::vstd::prelude::int,
        _src: easy_config::vstd::prelude::Seq<char>,
    ) -> Result<
        ((), easy_config::vstd::prelude::Seq<ExpressionView>, easy_config::vstd::prelude::int),
        DecodeFailure,
    > {
        panic!()
    }

    fn spec_value_matches(&self, _m: ()) -> bool {
        false
    }

    fn spec_roundtrip_condition(&self) -> bool {
        false
    }

    fn lemma_roundtrip(&self, _e: ExpressionView, _src: easy_config::vstd::prelude::Seq<char>) {}

    fn passthrough() -> bool {
        true
    }

    fn serialize(&self) -> Expression {
        match self {
            Address::Unset => Expression::presence_str("None"),
            Address::IpV4(s) => Expression::list(vec![
                Expression::presence_str("IpV4"),
                Expression::list(vec![s.serialize()]),
            ]),
            Address::Index(u, i) => Expression::list(vec![
                Expression::presence_str("Index"),
                Expression::list(vec![u.serialize(), i.serialize()]),
            ]),
        }
    }

    fn deserialize(
        exprs: &mut ExpressionIterator,
        source_text: &str,
    ) -> Result<Self, SerializationError> {
        let (discriminant, fields) = exprs.extract_enum(source_text)?;
        let mut fields_iter = ExpressionIterator::new(fields);
        match discriminant.as_str() {
            "None" => Ok(Address::Unset),
            "IpV4" => Ok(Address::IpV4(fields_iter.deserialize_next(source_text)?)),
            "Index" => Ok(Address::Index(
                fields_iter.deserialize_next(source_text)?,
                fields_iter.deserialize_next(source_text)?,
            )),
            other => Err(SerializationError::FirstLevelError(
                Kind::ExpectedDiscriminant(
                    other.to_string(),
                    vec!["None".to_string(), "IpV4".to_string(), "Index".to_string()],
                ),
                String::new(),
            )),
        }
    }
}

#[derive(Debug, PartialEq)]
struct Demo {
    name: String,
    addresses: Vec<Address>,
}

impl Demo {
    fn serialize(&self) -> Expression {
        Expression::list(vec![
            Expression::presence_str("Demo"),
            Expression::binding("name", self.name.serialize()),
            Expression::binding("addresses", self.addresses.serialize()),
        ])
    }

    fn deserialize(
        exprs: &mut ExpressionIterator,
        source_text: &str,
    ) -> Result<Self, SerializationError> {
        exprs.eat_presence_if_present_and_matching("Demo");
        Ok(Demo {
            name: field_of(exprs, "name", source_text)?,
            addresses: field_of(exprs, "addresses", source_text)?,
        })
    }
}

fn demo() -> Demo {
    Demo {
        name: "cat".to_string(),
        addresses: vec![
            Address::Unset,
            Address::IpV4("127.0.0.1".to_string()),
            Address::Index(3, -1),
        ],
    }
}

const EXPECTED: &str = "(Demo name = cat addresses = (None (IpV4 (127.0.0.1)) (Index (3 -1))))";

#[test]
fn mod_serialize() {
    let d = demo();
    assert_eq!(d.serialize().minimized().dump(), EXPECTED)
}

#[test]
fn mod_deserialize() {
    let parsed = Parser::new(EXPECTED).parse().unwrap();
    let mut doc = ExpressionIterator::new(parsed);
    let first = doc.next_or_err(EXPECTED).unwrap();
    assert_eq!(
        Demo::deserialize(&mut ExpressionIterator::new(first), EXPECTED).unwrap(),
        demo()
    )
}

#[should_panic]
#[test]
fn deserialize_err() {
    let parsed = Parser::new("()").parse().unwrap();
    let mut doc = ExpressionIterator::new(parsed);
    let first = doc.next_or_err(EXPECTED).unwrap();
    assert_eq!(
        Demo::deserialize(&mut ExpressionIterator::new(first), "()").unwrap(),
        demo()
    )
}

#[test]
fn compile_me() {}

#[derive(Debug, PartialEq)]
struct NeedsExplaining {
    hard_to_understand_field: u32,
}

impl NeedsExplaining {
    fn serialize(&self) -> Expression {
        Expression::binding(
            "hard_to_understand_field",
            self.hard_to_understand_field.serialize(),
        )
        .with_comment("A".to_string())
    }

    fn deserialize(
        exprs: &mut ExpressionIterator,
        source_text: &str,
    ) -> Result<Self, SerializationError> {
        Ok(NeedsExplaining {
            hard_to_understand_field: field_of(exprs, "hard_to_understand_field", source_text)?,
        })
    }
}

#[test]
fn serialize_with_comments() {
    assert_eq!(
        NeedsExplaining {
            hard_to_understand_field: 1
        }
        .serialize()
        .pretty(),
        "# A\nhard_to_understand_field = 1"
    )
}

#[test]
fn deserialize_with_comments() {
    let serialized = NeedsExplaining {
        hard_to_understand_field: 1,
    }
    .serialize()
    .pretty();
    let parsed = Parser::new(serialized.as_str()).parse().unwrap();
    let deserialized = NeedsExplaining::deserialize(
        &mut ExpressionIterator::new(parsed),
        serialized.as_str(),
    )
    .unwrap();

    assert_eq!(
        deserialized,
        NeedsExplaining {
            hard_to_understand_field: 1
        }
    )
}

#[derive(Debug, PartialEq)]
struct DemoPair {
    key: String,
    vec: Vec<String>,
}

impl DemoPair {
    fn serialize(&self) -> Expression {
        Expression::list(vec![
            Expression::binding("key", self.key.serialize()),
            Expression::binding("vec", self.vec.serialize()),
        ])
    }

    fn deserialize(
        exprs: &mut ExpressionIterator,
        source_text: &str,
    ) -> Result<Self, SerializationError> {
        Ok(DemoPair {
            key: field_of(exprs, "key", source_text)?,
            vec: field_of(exprs, "vec", source_text)?,
        })
    }
}

fn demo_pair() -> DemoPair {
    DemoPair {
        key: "cat".to_string(),
        vec: vec!["bird".to_string(), "dog".to_string()],
    }
}

#[test]
fn serialize_serialize() {
    let d = demo_pair();
    assert_eq!(d.serialize().dump(), "(key = cat vec = (bird dog))")
}

#[test]
fn config_full_loop_serialize() {
    let d = demo_pair();
    assert_eq!(d.serialize().dump(), "(key = cat vec = (bird dog))")
}

#[test]
fn config_full_loop_deserialize() {
    let text = demo_pair().serialize().dump();
    let parsed = Parser::new(text.as_str()).parse().unwrap();
    let mut doc = ExpressionIterator::new(parsed);
    let first = doc.next().unwrap();
    assert_eq!(
        DemoPair::deserialize(&mut ExpressionIterator::new(first), text.as_str()).unwrap(),
        demo_pair()
    )
}

#[derive(Debug, PartialEq)]
enum RunKind {
    Generated,
    HandMade,
}

impl DeepView for RunKind {
    type V = ();

    fn deep_view(&self) -> () {
        ()
    }
}

impl EasyConfig for RunKind {
    fn spec_passthrough() -> bool {
        false
    }

    fn spec_enc(&self, _e: ExpressionView) -> bool {
        false
    }

    fn spec_decoded(
        _items: easy_config::vstd::prelude::Seq<ExpressionView>,
        _index: easy_config::vstd::prelude::int,
        _src: easy_config::vstd::prelude::Seq<char>,
    ) -> Result<
        ((), easy_config::vstd::prelude::Seq<ExpressionView>, easy_config::vstd::prelude::int),
        DecodeFailure,
    > {
        panic!()
    }

    fn spec_value_matches(&self, _m: ()) -> bool {
        false
    }

    fn spec_roundtrip_condition(&self) -> bool {
        false
    }

    fn lemma_roundtrip(&self, _e: ExpressionView, _src: easy_config::vstd::prelude::Seq<char>) {}

    fn passthrough() -> bool {
        false
    }

    fn serialize(&self) -> Expression {
        match self {
            RunKind::Generated => Expression::presence_str("Generated"),
            RunKind::HandMade => Expression::presence_str("HandMade"),
        }
    }

    fn deserialize(
        exprs: &mut ExpressionIterator,
        source_text: &str,
    ) -> Result<Self, SerializationError> {
        let word: String = String::deserialize(exprs, source_text)?;
        match word.as_str() {
            "Generated" => Ok(RunKind::Generated),
            "HandMade" => Ok(RunKind::HandMade),
            other => Err(SerializationError::FirstLevelError(
                Kind::ExpectedDiscriminant(
                    other.to_string(),
                    vec!["Generated".to_string(), "HandMade".to_string()],
                ),
                String::new(),
            )),
        }
    }
}

#[derive(Debug, PartialEq)]
struct Configuration {
    run_name: String,
    names_in_run: Vec<(RunKind, String)>,
    count: usize,
}

impl Configuration {
    fn serialize(&self) -> Expression {
        Expression::list(vec![
            Expression::binding("run_name", self.run_name.serialize()),
            Expression::binding("names_in_run", self.names_in_run.serialize()),
            Expression::binding("count", self.count.serialize()),
        ])
    }

    fn deserialize(
        exprs: &mut ExpressionIterator,
        source_text: &str,
    ) -> Result<Self, SerializationError> {
        Ok(Configuration {
            run_name: field_of(exprs, "run_name", source_text)?,
            names_in_run: field_of(exprs, "names_in_run", source_text)?,
            count: field_of(exprs, "count", source_text)?,
        })
    }
}

#[test]
fn kinda_complex_serialize() {
    let d = Configuration {
        run_name: "first".to_string(),
        names_in_run: vec![
            (RunKind::HandMade, "Ethan".to_string()),
            (RunKind::HandMade, "James".to_string()),
            (RunKind::Generated, "SDKJLHF".to_string()),
            (RunKind::Generated, "Kerflooble".to_string()),
        ],
        count: 2,
    };
    assert_eq!(
        d.serialize().dump(),
        "(run_name = first names_in_run = ((HandMade Ethan) (HandMade James) (Generated SDKJLHF) (Generated Kerflooble)) count = 2)"
    )
}

#[derive(Debug, PartialEq)]
struct Vec2 {
    x: f32,
    y: f32,
}

impl Vec2 {
    fn serialize(&self) -> Expression {
        Expression::list(vec![
            Expression::binding("x", Expression::presence(Atom::Number(format!("{}", self.x)))),
            Expression::binding("y", Expression::presence(Atom::Number(format!("{}", self.y)))),
        ])
    }

    fn deserialize(
        exprs: &mut ExpressionIterator,
        source_text: &str,
    ) -> Result<Self, SerializationError> {
        let x = exprs.find_binding("x", source_text)?;
        let y = exprs.find_binding("y", source_text)?;
        let xa = x.value.release().expect("x should be a scalar").text().to_string();
        let ya = y.value.release().expect("y should be a scalar").text().to_string();
        Ok(Vec2 {
            x: xa.parse().expect("x should parse"),
            y: ya.parse().expect("y should parse"),
        })
    }
}

#[test]
fn named_struct_serialize() {
    assert_eq!(
        Vec2 { x: 1.0, y: 2.0 }.serialize().dump(),
        "(x = 1 y = 2)".to_string()
    )
}

#[test]
fn named_struct_deserialize() {
    let text = Vec2 { x: 1.0, y: 2.0 }.serialize().dump();
    let parsed = Parser::new(text.as_str()).parse().unwrap();
    let mut doc = ExpressionIterator::new(parsed);
    let first = doc.next().unwrap();
    assert_eq!(
        Vec2::deserialize(&mut ExpressionIterator::new(first), text.as_str()).unwrap(),
        Vec2 { x: 1.0, y: 2.0 }
    )
}

#[derive(Debug, PartialEq)]
struct Unit;

impl Unit {
    fn serialize(&self) -> Expression {
        let mut body = Expression::list(vec![]);
        body.prepend_into_list(Expression::presence_str("Unit"));
        body.minimized()
    }

    fn deserialize(
        exprs: &mut ExpressionIterator,
        source_text: &str,
    ) -> Result<Self, SerializationError> {
        let _ = source_text;
        exprs.eat_presence_if_present_and_matching("Unit");
        Ok(Unit {})
    }
}

#[test]
fn unit_struct_serialize() {
    let x = Unit;
    assert_eq!(x.serialize().dump(), "Unit")
}

#[test]
fn unit_struct_deserialize() {
    let text = Unit.serialize().dump();
    let parsed = Parser::new(text.as_str()).parse().unwrap();
    assert_eq!(
        Unit::deserialize(&mut ExpressionIterator::new(parsed), text.as_str()).unwrap(),
        Unit
    )
}

#[derive(Debug, PartialEq)]
struct Point(f32, f32);

fn point() -> Point {
    Point(2.0, -4.0)
}

impl Point {
    fn serialize(&self) -> Expression {
        Expression::list(vec![
            Expression::presence(Atom::Number(format!("{}", self.0))),
            Expression::presence(Atom::Number(format!("{}", self.1))),
        ])
    }

    fn deserialize(
        exprs: &mut ExpressionIterator,
        source_text: &str,
    ) -> Result<Self, SerializationError> {
        let a = exprs.next_or_err(source_text)?;
        let b = exprs.next_or_err(source_text)?;
        let a = a.release().expect("first should be a scalar").text().to_string();
        let b = b.release().expect("second should be a scalar").text().to_string();
        Ok(Point(
            a.parse().expect("first should parse"),
            b.parse().expect("second should parse"),
        ))
    }
}

#[test]
fn unnamed_struct_serialize() {
    assert_eq!(point().serialize().dump(), "(2 -4)".to_string())
}

#[test]
fn unnamed_struct_deserialize() {
    let text = point().serialize().dump();
    let parsed = Parser::new(text.as_str()).parse().unwrap();
    let mut doc = ExpressionIterator::new(parsed);
    let first = doc.next().unwrap();
    assert_eq!(
        Point::deserialize(&mut ExpressionIterator::new(first), text.as_str()).unwrap(),
        point()
    )
}

#[derive(Debug, PartialEq)]
struct WordyFields {
    x: String,
    z: Vec<u32>,
}

impl WordyFields {
    fn serialize(&self) -> Expression {
        Expression::list(vec![
            Expression::binding("x", Expression::presence_str(self.x.as_str())),
            Expression::binding("z", self.z.serialize())
                .with_comment("My favorite numbers in order.".to_string()),
        ])
    }

    fn deserialize(
        exprs: &mut ExpressionIterator,
        source_text: &str,
    ) -> Result<Self, SerializationError> {
        let x = exprs.find_binding("x", source_text)?;
        let x = x.value.release().expect("x should be a scalar").text().to_string();
        Ok(WordyFields {
            x,
            z: field_of(exprs, "z", source_text)?,
        })
    }
}

fn wordy() -> WordyFields {
    WordyFields {
        x: "hello world".to_string(),
        z: vec![1, 2, 3],
    }
}

fn n(v: i64) -> Expression {
    Expression::presence(Atom::Number(v.to_string()))
}

#[test]
fn struct_with_named_fields_serialize() {
    assert_eq!(
        wordy().serialize(),
        Expression::list(vec![
            Expression::binding("x", Expression::presence_str("hello world")),
            Expression::binding("z", Expression::list(vec![n(1), n(2), n(3)]))
                .with_comment("My favorite numbers in order.".to_string()),
        ])
    )
}
