use relational_algebra::ast::{Attribute, ComparisonOperator, Term};
use relational_algebra::data::Value;
use relational_algebra::error::Error;
use relational_algebra::eval::{compare_values, match_result};
use relational_algebra::simple::data::SimpleTuple;
use relational_algebra::simple::sort::SimpleAttributeSchema;
use relational_algebra::sort::Domain;
use relational_algebra::text::Rank;
use relational_algebra::Name;

fn attributes() -> Vec<SimpleAttributeSchema> {
    vec![
        SimpleAttributeSchema::new(Name::new_unchecked("id"), Domain::Integer),
        SimpleAttributeSchema::new(Name::new_unchecked("name"), Domain::String),
    ]
}

fn ann() -> SimpleTuple {
    SimpleTuple::new(vec![Value::Integer(1), Value::text("Ann")])
}

fn float(v: f64) -> Value {
    Value::Float(v.to_bits())
}

#[test]
fn test_constant_terms() {
    assert_eq!(
        Term::constant(true).evaluate(&attributes(), &ann()).unwrap(),
        true
    );
    assert_eq!(
        Term::constant(false).evaluate(&attributes(), &ann()).unwrap(),
        false
    );
    assert!(matches!(
        Term::constant(Value::Integer(1)).evaluate(&attributes(), &ann()),
        Err(Error::IncompatibleTypes {
            lhs_domain: Domain::Integer,
            rhs_domain: Domain::Boolean
        })
    ));
}

#[test]
fn test_exists_terms() {
    assert!(Term::attribute_exists(1).evaluate(&attributes(), &ann()).unwrap());
    assert!(Term::attribute_exists(Name::new_unchecked("name"))
        .evaluate(&attributes(), &ann())
        .unwrap());
    assert!(matches!(
        Term::attribute_exists(2).evaluate(&attributes(), &ann()),
        Err(Error::AttributeIndexInvalid { index: 2 })
    ));
    assert!(matches!(
        Term::attribute_exists(Name::new_unchecked("age")).evaluate(&attributes(), &ann()),
        Err(Error::AttributeDoesNotExist { .. })
    ));
}

#[test]
fn test_atoms() {
    let a = attributes();
    assert!(Term::equals(0, Value::Integer(1)).evaluate(&a, &ann()).unwrap());
    assert!(!Term::not_equals(0, Value::Integer(1)).evaluate(&a, &ann()).unwrap());
    assert!(Term::less_than(0, Value::Integer(2)).evaluate(&a, &ann()).unwrap());
    assert!(Term::less_than_or_equal(0, Value::Integer(1)).evaluate(&a, &ann()).unwrap());
    assert!(!Term::greater_than(0, Value::Integer(1)).evaluate(&a, &ann()).unwrap());
    assert!(Term::greater_than_or_equal(0, Value::Integer(1)).evaluate(&a, &ann()).unwrap());
    assert!(Term::equals(Name::new_unchecked("name"), 1).evaluate(&a, &ann()).unwrap());
    assert!(matches!(
        Term::equals(0, 1).evaluate(&a, &ann()),
        Err(Error::IncompatibleTypes {
            lhs_domain: Domain::Integer,
            rhs_domain: Domain::String
        })
    ));
    assert!(Term::less_than(1, Value::text("Bob")).evaluate(&a, &ann()).unwrap());
}

#[test]
fn test_connectives_short_circuit() {
    let a = attributes();
    let broken = Term::attribute_exists(9);
    assert!(!Term::and(Term::constant(false), broken.clone())
        .evaluate(&a, &ann())
        .unwrap());
    assert!(Term::or(Term::constant(true), broken.clone())
        .evaluate(&a, &ann())
        .unwrap());
    assert!(Term::and(Term::constant(true), broken.clone())
        .evaluate(&a, &ann())
        .is_err());
    assert!(Term::or(Term::constant(false), broken).evaluate(&a, &ann()).is_err());
    assert!(Term::constant(false).negate().evaluate(&a, &ann()).unwrap());
}

#[test]
fn test_string_match() {
    let a = attributes();
    assert!(Term::string_match(1, Value::text("^A.n$")).evaluate(&a, &ann()).unwrap());
    assert!(!Term::string_match(1, Value::text("^B")).evaluate(&a, &ann()).unwrap());
    assert!(Term::string_not_match(1, Value::text("^B")).evaluate(&a, &ann()).unwrap());
    match Term::string_match(1, Value::text("(")).evaluate(&a, &ann()) {
        Err(Error::InvalidValue {
            expecting_domain,
            given_value,
        }) => {
            assert_eq!(expecting_domain, Domain::String);
            assert_eq!(given_value, Value::text("("));
        }
        other => panic!("unexpected {:?}", other),
    }
    assert!(matches!(
        Term::string_match(0, Value::Integer(1)).evaluate(&a, &ann()),
        Err(Error::IncompatibleTypes {
            lhs_domain: Domain::Integer,
            rhs_domain: Domain::String
        })
    ));
}

#[test]
fn test_match_result() {
    let pattern = Value::text("a+");
    assert_eq!(match_result(&pattern, Some(true), false).unwrap(), true);
    assert_eq!(match_result(&pattern, Some(true), true).unwrap(), false);
    assert_eq!(match_result(&pattern, Some(false), true).unwrap(), true);
    assert!(matches!(
        match_result(&pattern, None, false),
        Err(Error::InvalidValue { .. })
    ));
}

#[test]
fn test_value_ranks() {
    assert_eq!(Value::Boolean(false).rank(&Value::Boolean(true)), Some(Rank::Less));
    assert_eq!(Value::Byte(7).rank(&Value::Byte(7)), Some(Rank::Same));
    assert_eq!(
        Value::UnsignedInteger(u64::MAX).rank(&Value::UnsignedInteger(0)),
        Some(Rank::Greater)
    );
    assert_eq!(
        Value::Integer(i64::MIN).rank(&Value::Integer(i64::MAX)),
        Some(Rank::Less)
    );
    assert_eq!(Value::Char('a').rank(&Value::Char('b')), Some(Rank::Less));
    assert_eq!(Value::text("abc").rank(&Value::text("abd")), Some(Rank::Less));
    assert_eq!(Value::text("ab").rank(&Value::text("abc")), Some(Rank::Less));
    assert_eq!(Value::text("b").rank(&Value::text("abc")), Some(Rank::Greater));
    assert_eq!(Value::text("é").rank(&Value::text("z")), Some(Rank::Greater));
    assert_eq!(
        Value::Binary(vec![1, 2]).rank(&Value::Binary(vec![1, 2])),
        Some(Rank::Same)
    );
    assert_eq!(
        Value::Binary(vec![1, 2]).rank(&Value::Binary(vec![1, 3])),
        Some(Rank::Less)
    );
    assert_eq!(Value::Integer(1).rank(&Value::Byte(1)), None);
}

#[test]
fn test_float_ranks() {
    assert_eq!(float(1.5).rank(&float(2.5)), Some(Rank::Less));
    assert_eq!(float(-1.5).rank(&float(-2.5)), Some(Rank::Greater));
    assert_eq!(float(-1.0).rank(&float(1.0)), Some(Rank::Less));
    assert_eq!(float(0.0).rank(&float(-0.0)), Some(Rank::Same));
    assert_eq!(float(f64::NEG_INFINITY).rank(&float(f64::MAX)), Some(Rank::Less));
    assert_eq!(float(f64::INFINITY).rank(&float(f64::MAX)), Some(Rank::Greater));
    assert_eq!(float(f64::NAN).rank(&float(1.0)), None);
    assert_eq!(float(f64::NAN).rank(&float(f64::NAN)), None);
    assert_eq!(float(f64::MIN_POSITIVE).rank(&float(0.0)), Some(Rank::Greater));
    assert!(float(0.0) == float(-0.0));
    assert!(!float(0.0).same(&float(-0.0)));
    assert!(float(f64::NAN) != float(f64::NAN));
    assert!(float(f64::NAN).same(&float(f64::NAN)));
    for (x, y) in [(0.1, 0.2), (-3.0, 2.0), (1e300, 1e-300), (-0.0, 0.0), (5.5, 5.5)] {
        let expected = if x < y {
            Rank::Less
        } else if x > y {
            Rank::Greater
        } else {
            Rank::Same
        };
        assert_eq!(float(x).rank(&float(y)), Some(expected));
    }
}

#[test]
fn test_compare_values() {
    assert!(compare_values(ComparisonOperator::NotEqual, &float(f64::NAN), &float(f64::NAN)).unwrap());
    assert!(!compare_values(ComparisonOperator::Equal, &float(f64::NAN), &float(f64::NAN)).unwrap());
    assert!(
        !compare_values(ComparisonOperator::LessThanOrEqual, &float(f64::NAN), &float(1.0))
            .unwrap()
    );
    assert!(compare_values(
        ComparisonOperator::GreaterThanOrEqual,
        &Value::Char('b'),
        &Value::Char('a')
    )
    .unwrap());
}

#[test]
fn test_negated_operators() {
    let pairs = [
        (ComparisonOperator::Equal, ComparisonOperator::NotEqual),
        (ComparisonOperator::NotEqual, ComparisonOperator::Equal),
        (ComparisonOperator::LessThan, ComparisonOperator::GreaterThanOrEqual),
        (ComparisonOperator::GreaterThanOrEqual, ComparisonOperator::LessThan),
        (ComparisonOperator::GreaterThan, ComparisonOperator::LessThanOrEqual),
        (ComparisonOperator::LessThanOrEqual, ComparisonOperator::GreaterThan),
        (ComparisonOperator::StringMatch, ComparisonOperator::StringNotMatch),
        (ComparisonOperator::StringNotMatch, ComparisonOperator::StringMatch),
    ];
    for (op, negated) in pairs {
        assert_eq!(op.negate(), negated);
    }
    for (op, _) in &pairs[..6] {
        for (x, y) in [(1, 2), (2, 2), (3, 2)] {
            let direct = compare_values(*op, &Value::Integer(x), &Value::Integer(y)).unwrap();
            let negated =
                compare_values(op.negate(), &Value::Integer(x), &Value::Integer(y)).unwrap();
            assert_eq!(direct, !negated);
        }
    }
}

#[test]
fn test_attribute_accessors() {
    let index = Attribute::from(3);
    let named = Attribute::from(Name::new_unchecked("a"));
    assert!(index.is_index() && !index.is_name());
    assert_eq!(index.as_index(), Some(3));
    assert_eq!(index.as_name(), None);
    assert!(named.is_name() && !named.is_index());
    assert_eq!(named.as_name().map(|n| n.to_string()), Some("a".to_string()));
    assert!(named.same(&Attribute::Name(Name::new_unchecked("a"))));
    assert!(!named.same(&index));
}
