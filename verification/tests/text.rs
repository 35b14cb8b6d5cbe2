use relational_algebra::ast::{
    Attribute, DisplayFormat, Expression, ExpressionList, ProjectedAttribute,
    RelationalOp, Term, ThetaJoin,
};
use relational_algebra::data::Value;
use relational_algebra::error::{
    attribute_does_not_exist, attribute_index_invalid, incompatible_types, invalid_name_value,
    invalid_value, nullary_facts_not_allowed, relation_does_not_exist, Error,
};
use relational_algebra::format::{format_relational, Format};
use relational_algebra::sort::Domain;
use relational_algebra::Name;

fn name(s: &str) -> Name {
    Name::new_unchecked(s)
}

fn sample() -> RelationalOp {
    RelationalOp::select(
        Term::and(
            Term::not_equals(name("a"), 1),
            Term::or(
                Term::string_match(0, Value::text("x")),
                Term::less_than_or_equal(2, Value::Integer(-5)).negate(),
            ),
        ),
        RelationalOp::union(name("left"), RelationalOp::intersect(name("m"), name("n"))),
    )
}

#[test]
fn test_names() {
    assert_eq!(Name::from_str("abc").unwrap().to_string(), "abc");
    assert_eq!(Name::from_str("_a1").unwrap().as_str(), "_a1");
    assert_eq!(Name::from_str("été_2").unwrap().to_string(), "été_2");
    assert!(Name::from_str(&"a".repeat(127)).is_ok());
    assert!(Name::from_str(&"é".repeat(127)).is_ok());
    for bad in ["", "1abc", "a b", "a-b", " a", "a\n"] {
        match Name::from_str(bad) {
            Err(Error::InvalidName { value }) => assert_eq!(value, bad),
            other => panic!("unexpected {:?}", other),
        }
    }
    assert!(Name::from_str(&"a".repeat(128)).is_err());
    assert_eq!("parsed".parse::<Name>().unwrap().to_string(), "parsed");
    assert!("not parsed".parse::<Name>().is_err());
    assert!(name("x") == name("x"));
    assert!(name("x") != name("y"));
    assert_eq!(name("x").clone().into_string(), "x");
}

#[test]
fn test_names_from_match() {
    assert!(Name::from_match("abc", Some(true)).is_ok());
    assert!(Name::from_match("abc", Some(false)).is_err());
    assert!(Name::from_match("abc", None).is_err());
    assert!(Name::from_match("", Some(true)).is_err());
    assert!(RelationalOp::relation("people").unwrap().is_relation());
    assert!(RelationalOp::relation("two words").is_err());
}

#[test]
fn test_values_as_text() {
    assert_eq!(Value::Boolean(true).to_string(), "true");
    assert_eq!(Value::Boolean(false).to_string(), "false");
    assert_eq!(Value::Byte(0x0a).to_string(), "0x0a");
    assert_eq!(Value::Byte(255).to_string(), "0xff");
    assert_eq!(Value::UnsignedInteger(0).to_string(), "0");
    assert_eq!(
        Value::UnsignedInteger(u64::MAX).to_string(),
        "18446744073709551615"
    );
    assert_eq!(Value::Integer(-42).to_string(), "-42");
    assert_eq!(Value::Integer(i64::MIN).to_string(), "-9223372036854775808");
    assert_eq!(Value::Integer(i64::MAX).to_string(), "9223372036854775807");
    assert_eq!(
        Value::Float(1.5f64.to_bits()).to_string(),
        "0x3ff8000000000000"
    );
    assert_eq!(Value::Char('a').to_string(), "'a'");
    assert_eq!(Value::Char('\n').to_string(), "'\\n'");
    assert_eq!(Value::text("a\"b").to_string(), "\"a\\\"b\"");
    assert_eq!(Value::Binary(vec![]).to_string(), "[]");
    assert_eq!(Value::Binary(vec![7]).to_string(), "[7]");
    assert_eq!(Value::Binary(vec![1, 20, 255]).to_string(), "[1, 20, 255]");
    assert_eq!(Value::from(3u8).data_type(), Domain::Byte);
    assert_eq!(Value::from("s").data_type(), Domain::String);
    assert_eq!(Value::from(String::from("s")).data_type(), Domain::String);
    assert_eq!(Value::from(vec![1u8]).data_type(), Domain::Binary);
    assert_eq!(Value::from('c').data_type(), Domain::Char);
    assert_eq!(Value::from(1u64).data_type(), Domain::UnsignedInteger);
    assert_eq!(Value::from(1i64).data_type(), Domain::Integer);
    assert_eq!(Value::from(true).data_type(), Domain::Boolean);
    assert_eq!(Value::Float(0).data_type(), Domain::Float);
}

#[test]
fn test_domains_as_text() {
    let expected = [
        (Domain::Boolean, "boolean"),
        (Domain::Byte, "byte"),
        (Domain::UnsignedInteger, "unsigned"),
        (Domain::Integer, "integer"),
        (Domain::Float, "float"),
        (Domain::Char, "char"),
        (Domain::String, "string"),
        (Domain::Binary, "binary"),
    ];
    for (domain, text) in expected {
        assert_eq!(domain.to_string(), text);
    }
}

#[test]
fn test_errors_as_text() {
    assert_eq!(
        invalid_name_value("1a".to_string()).to_string(),
        "The value `1a` provided is not a legal name."
    );
    assert_eq!(
        relation_does_not_exist(name("r")).to_string(),
        "The relation named `r` does not exist."
    );
    assert_eq!(
        attribute_does_not_exist(name("a")).to_string(),
        "The attribute named `a` does not exist."
    );
    assert_eq!(
        attribute_index_invalid(12).to_string(),
        "The attribute index `12` does not exist."
    );
    assert_eq!(
        incompatible_types(Domain::Integer, Domain::String).to_string(),
        "The attempted operation cannot be performed as the values have incompatible types (`integer`, `string`)."
    );
    assert_eq!(
        invalid_value(Domain::Byte, Value::Integer(300)).to_string(),
        "The value `300` is not a valid `byte`."
    );
    assert_eq!(
        nullary_facts_not_allowed().to_string(),
        "Nullary facts are not allowed"
    );
}

#[test]
fn test_formats_of_one_expression() {
    let op = sample();
    assert_eq!(
        op.to_formatted_string(DisplayFormat::ToStringUnicode),
        "σ[a≠1 ∧ 0~\"x\" ∨ ¬2≤-5](left ∪ (m ∩ n))"
    );
    assert_eq!(
        op.to_formatted_string(DisplayFormat::ToStringAscii),
        "select[a/=1 and 0~\"x\" or not 2<=-5](left union (m intersect n))"
    );
    assert_eq!(
        op.to_formatted_string(DisplayFormat::Latex),
        "\\sigma_{a\\neq1 \\land 0\\\\sim\"x\" \\lor \\neg2\\leq-5}\\(left \\cup \\(m \\cap n\\)\\)"
    );
    assert_eq!(
        op.to_formatted_string(DisplayFormat::Html),
        "&sigma;<sub>a&ne;1 &and; 0&sim;\"x\" &or; &not;2&le;-5</sub>(left &cup; (m &cap; n))"
    );
}

#[test]
fn test_formatting_is_repeatable() {
    let op = sample();
    for fmt in [
        DisplayFormat::ToStringUnicode,
        DisplayFormat::ToStringAscii,
        DisplayFormat::Latex,
        DisplayFormat::Html,
    ] {
        assert_eq!(op.to_formatted_string(fmt), op.to_formatted_string(fmt));
        assert_eq!(
            op.clone().to_formatted_string(fmt),
            op.to_formatted_string(fmt)
        );
    }
}

#[test]
fn test_format_relational() {
    let op = RelationalOp::difference(name("a"), name("b"));
    assert_eq!(format_relational(&op, DisplayFormat::ToStringUnicode), "a ∖ b");
    assert_eq!(
        format_relational(&op, DisplayFormat::ToStringAscii),
        "a difference b"
    );
    assert_eq!(format_relational(&op, DisplayFormat::Latex), "${a \\setminus b}$");
    assert_eq!(
        format_relational(&op, DisplayFormat::Html),
        "<math>a &setminus; b</math>"
    );
}

#[test]
fn test_format_operators() {
    let ascii = DisplayFormat::ToStringAscii;
    let unicode = DisplayFormat::ToStringUnicode;
    assert_eq!(
        RelationalOp::cartesian_product(name("a"), name("b")).to_formatted_string(unicode),
        "a × b"
    );
    assert_eq!(
        RelationalOp::cartesian_product(name("a"), name("b")).to_formatted_string(ascii),
        "a product b"
    );
    assert_eq!(
        RelationalOp::sort_by(vec![Attribute::Index(0), name("b").into()], name("r"))
            .to_formatted_string(unicode),
        "τ[0, b]r"
    );
    assert_eq!(
        RelationalOp::group_by(vec![name("b").into()], name("r")).to_formatted_string(ascii),
        "group[b]r"
    );
    assert_eq!(
        RelationalOp::project(
            vec![ProjectedAttribute::Constant(Value::Boolean(true)), 1.into()],
            name("r")
        )
        .to_formatted_string(DisplayFormat::Latex),
        "\\pi_{true, 1}r"
    );
    assert_eq!(
        RelationalOp::natural_join(name("a"), name("b")).to_formatted_string(ascii),
        "a join b"
    );
    assert_eq!(
        RelationalOp::theta_join(name("a"), Term::equals(0, 1), name("b"))
            .to_formatted_string(ascii),
        "a theta[0=1] b"
    );
    assert_eq!(
        RelationalOp::theta_join(name("a"), Term::equals(0, 1), name("b"))
            .to_formatted_string(DisplayFormat::Html),
        "a ⨝<sub>0&equals;1</sub> b"
    );
}

#[test]
fn test_format_renames() {
    let unicode = DisplayFormat::ToStringUnicode;
    let positional = RelationalOp::rename_by_index(vec![name("x"), name("y")], name("r")).unwrap();
    assert_eq!(positional.to_formatted_string(unicode), "ρ[x, y]r");
    let reversed = RelationalOp::rename(
        vec![
            (Attribute::Index(1), name("y")),
            (Attribute::Index(0), name("x")),
        ],
        name("r"),
    )
    .unwrap();
    assert_eq!(reversed.to_formatted_string(unicode), "ρ[x, y]r");
    let by_name = RelationalOp::rename(
        vec![
            (Attribute::Name(name("a")), name("x")),
            (Attribute::Index(3), name("y")),
        ],
        name("r"),
    )
    .unwrap();
    assert_eq!(by_name.to_formatted_string(unicode), "ρ[a/x, 3/y]r");
    let gap = RelationalOp::rename(vec![(Attribute::Index(2), name("z"))], name("r")).unwrap();
    assert_eq!(
        gap.to_formatted_string(DisplayFormat::ToStringAscii),
        "rename[2/z]r"
    );
}

#[test]
fn test_format_expression_lists() {
    let list: ExpressionList = vec![
        Expression::named(name("A"), name("r")),
        Expression::new(name("A")),
    ]
    .into();
    assert_eq!(
        list.to_formatted_string(DisplayFormat::ToStringUnicode),
        "A ≔ r;\nA;\n"
    );
    assert_eq!(
        list.to_formatted_string(DisplayFormat::ToStringAscii),
        "A := r; A; "
    );
    assert_eq!(list.expressions().len(), 2);
}

#[test]
fn test_equi_join() {
    let both = ThetaJoin::new(
        name("a"),
        Term::and(Term::equals(0, 2), Term::equals(1, 3)),
        name("b"),
    );
    assert!(both.is_equi_join());
    let other = ThetaJoin::new(name("a"), Term::less_than(0, 2), name("b"));
    assert!(!other.is_equi_join());
    let mixed = ThetaJoin::new(
        name("a"),
        Term::or(Term::equals(0, 2), Term::equals(1, 3)),
        name("b"),
    );
    assert!(!mixed.is_equi_join());
}
