use relational_algebra::ast::{
    Attribute, Expression, ExpressionList, ProjectedAttribute, RelationalOp, Term,
};
use relational_algebra::data::Value;
use relational_algebra::error::Error;
use relational_algebra::eval::{
    analyze_expression, cartesian_product, difference, evaluate_expression,
    evaluate_expression_list, group, intersect, natural_join, project, rename, select, sort,
    symmetric_difference, theta_join, union,
};
use relational_algebra::simple::data::{SimpleRelation, SimpleTuple};
use relational_algebra::simple::sort::{SimpleAttributeSchema, SimpleRelationSchema, SimpleSchema};
use relational_algebra::sort::Domain;
use relational_algebra::Name;

fn name(s: &str) -> Name {
    Name::new_unchecked(s)
}

fn schema(relation: &str, attributes: &[(&str, Domain)]) -> SimpleRelationSchema {
    SimpleRelationSchema::new(
        name(relation),
        attributes
            .iter()
            .map(|(n, d)| SimpleAttributeSchema::new(name(n), *d))
            .collect(),
    )
    .unwrap()
}

fn row(id: i64, text: &str) -> SimpleTuple {
    SimpleTuple::new(vec![Value::Integer(id), Value::text(text)])
}

fn people() -> SimpleRelation {
    SimpleRelation::new(
        schema(
            "people",
            &[("id", Domain::Integer), ("name", Domain::String)],
        ),
        vec![row(1, "Ann"), row(2, "Bob")],
    )
    .unwrap()
}

fn visits() -> SimpleRelation {
    SimpleRelation::new(
        schema(
            "visits",
            &[("id", Domain::Integer), ("place", Domain::String)],
        ),
        vec![row(1, "Paris"), row(2, "Rome")],
    )
    .unwrap()
}

fn numbers(relation: &str, attribute: &str, values: &[i64]) -> SimpleRelation {
    SimpleRelation::new(
        schema(relation, &[(attribute, Domain::Integer)]),
        values
            .iter()
            .map(|v| SimpleTuple::new(vec![Value::Integer(*v)]))
            .collect(),
    )
    .unwrap()
}

fn rows(relation: &SimpleRelation) -> Vec<SimpleTuple> {
    relation.tuples().clone()
}

fn attribute_names(relation: &SimpleRelation) -> Vec<Option<String>> {
    relation
        .schema()
        .attributes()
        .iter()
        .map(|a| a.name().map(|n| n.to_string()))
        .collect()
}

fn same_tuples(relation: &SimpleRelation, expected: &[SimpleTuple]) -> bool {
    relation.len() == expected.len() && expected.iter().all(|t| relation.contains(t))
}

#[test]
fn test_select_then_natural_join() {
    let selected = select(&Term::equals(name("id"), Value::Integer(1)), &people()).unwrap();
    let joined = natural_join(&selected, &visits()).unwrap();
    assert_eq!(joined.len(), 1);
    assert_eq!(
        attribute_names(&joined),
        vec![
            Some("id".to_string()),
            Some("name".to_string()),
            Some("place".to_string())
        ]
    );
    assert_eq!(
        rows(&joined),
        vec![SimpleTuple::new(vec![
            Value::Integer(1),
            Value::text("Ann"),
            Value::text("Paris")
        ])]
    );
}

#[test]
fn test_select_then_natural_join_as_expression() {
    let expression = RelationalOp::natural_join(
        RelationalOp::select(Term::equals(name("id"), Value::Integer(1)), name("people")),
        name("visits"),
    );
    let result = evaluate_expression(&expression, &vec![people(), visits()]).unwrap();
    assert_eq!(result.len(), 1);
    assert_eq!(result.schema().len(), 3);
    assert_eq!(result.schema().name().to_string(), "people");
}

#[test]
fn test_project_name() {
    let projected = project(&vec![ProjectedAttribute::Name(name("name"))], &people()).unwrap();
    assert_eq!(
        rows(&projected),
        vec![
            SimpleTuple::new(vec![Value::text("Ann")]),
            SimpleTuple::new(vec![Value::text("Bob")])
        ]
    );
    assert_eq!(attribute_names(&projected), vec![Some("name".to_string())]);
}

#[test]
fn test_project_collapses_duplicates() {
    let relation = SimpleRelation::new(
        schema("r", &[("a", Domain::Integer), ("b", Domain::String)]),
        vec![row(1, "x"), row(2, "x"), row(3, "y")],
    )
    .unwrap();
    let projected = project(&vec![ProjectedAttribute::Index(1)], &relation).unwrap();
    assert_eq!(
        rows(&projected),
        vec![
            SimpleTuple::new(vec![Value::text("x")]),
            SimpleTuple::new(vec![Value::text("y")])
        ]
    );
}

#[test]
fn test_project_constant_is_anonymous() {
    let projected = project(
        &vec![
            ProjectedAttribute::Constant(Value::Boolean(true)),
            ProjectedAttribute::Name(name("id")),
        ],
        &people(),
    )
    .unwrap();
    assert_eq!(attribute_names(&projected), vec![None, Some("id".to_string())]);
    assert_eq!(*projected.schema().attributes()[0].domain(), Domain::Boolean);
    assert_eq!(
        rows(&projected)[1],
        SimpleTuple::new(vec![Value::Boolean(true), Value::Integer(2)])
    );
}

#[test]
fn test_project_errors() {
    assert!(matches!(
        project(&vec![], &people()),
        Err(Error::NullaryFactsNotAllowed)
    ));
    assert!(matches!(
        project(&vec![ProjectedAttribute::Index(2)], &people()),
        Err(Error::AttributeIndexInvalid { index: 2 })
    ));
    match project(&vec![ProjectedAttribute::Name(name("age"))], &people()) {
        Err(Error::AttributeDoesNotExist { name }) => assert_eq!(name.to_string(), "age"),
        other => panic!("unexpected {:?}", other),
    }
}

#[test]
fn test_union_of_different_arity_fails() {
    let narrow = numbers("n", "id", &[1]);
    assert!(matches!(
        union(&people(), &narrow),
        Err(Error::AttributeIndexInvalid { index: 1 })
    ));
    assert!(matches!(
        union(&narrow, &people()),
        Err(Error::AttributeIndexInvalid { index: 1 })
    ));
    assert!(matches!(
        intersect(&narrow, &people()),
        Err(Error::AttributeIndexInvalid { index: 1 })
    ));
}

#[test]
fn test_union_of_different_domains_fails() {
    let swapped = SimpleRelation::new(
        schema("s", &[("name", Domain::String), ("id", Domain::Integer)]),
        vec![],
    )
    .unwrap();
    assert!(matches!(
        union(&people(), &swapped),
        Err(Error::IncompatibleTypes {
            lhs_domain: Domain::Integer,
            rhs_domain: Domain::String
        })
    ));
}

#[test]
fn test_set_operations() {
    let a = numbers("a", "x", &[1, 2, 3]);
    let b = numbers("b", "y", &[3, 4]);
    let n = |v: i64| SimpleTuple::new(vec![Value::Integer(v)]);
    assert_eq!(rows(&union(&a, &b).unwrap()), vec![n(1), n(2), n(3), n(4)]);
    assert_eq!(rows(&intersect(&a, &b).unwrap()), vec![n(3)]);
    assert_eq!(rows(&difference(&a, &b).unwrap()), vec![n(1), n(2)]);
    assert_eq!(
        rows(&symmetric_difference(&a, &b).unwrap()),
        vec![n(1), n(2), n(4)]
    );
    assert_eq!(
        attribute_names(&union(&a, &b).unwrap()),
        vec![Some("x".to_string())]
    );
}

#[test]
fn test_intersection_with_itself() {
    let r = people();
    let result = intersect(&r, &r).unwrap();
    assert_eq!(rows(&result), rows(&r));
    assert_eq!(attribute_names(&result), attribute_names(&r));
}

#[test]
fn test_union_holds_difference() {
    let a = numbers("a", "x", &[1, 2, 3]);
    let b = numbers("b", "x", &[2]);
    let d = difference(&a, &b).unwrap();
    let u = union(&a, &d).unwrap();
    assert!(rows(&d).iter().all(|t| u.contains(t)));
}

#[test]
fn test_product_cardinality() {
    let a = numbers("a", "x", &[1, 2, 3]);
    let result = cartesian_product(&a, &people());
    assert_eq!(result.len(), 6);
    assert_eq!(result.schema().len(), 3);
    assert_eq!(
        rows(&result)[1],
        SimpleTuple::new(vec![Value::Integer(1), Value::Integer(2), Value::text("Bob")])
    );
    assert_eq!(
        attribute_names(&cartesian_product(&people(), &visits())),
        vec![
            Some("id".to_string()),
            Some("name".to_string()),
            Some("id".to_string()),
            Some("place".to_string())
        ]
    );
}

#[test]
fn test_selection_and_projection_commute() {
    let criteria = Term::greater_than(name("id"), Value::Integer(1));
    let list = vec![ProjectedAttribute::Name(name("id"))];
    let first = project(&list, &select(&criteria, &people()).unwrap()).unwrap();
    let second = select(&criteria, &project(&list, &people()).unwrap()).unwrap();
    assert_eq!(rows(&first), vec![SimpleTuple::new(vec![Value::Integer(2)])]);
    assert!(same_tuples(&second, &rows(&first)));
}

#[test]
fn test_natural_join_without_common_names_is_product() {
    let a = numbers("a", "x", &[1, 2]);
    let joined = natural_join(&a, &people()).unwrap();
    let product = cartesian_product(&a, &people());
    assert_eq!(rows(&joined), rows(&product));
    assert_eq!(attribute_names(&joined), attribute_names(&product));
}

#[test]
fn test_natural_join_of_different_domains_fails() {
    let other = SimpleRelation::new(schema("o", &[("id", Domain::String)]), vec![]).unwrap();
    assert!(matches!(
        natural_join(&people(), &other),
        Err(Error::IncompatibleTypes {
            lhs_domain: Domain::Integer,
            rhs_domain: Domain::String
        })
    ));
}

#[test]
fn test_theta_join() {
    let criteria = Term::less_than(0, 2);
    let joined = theta_join(&people(), &criteria, &visits()).unwrap();
    assert_eq!(joined.schema().len(), 4);
    assert_eq!(
        rows(&joined),
        vec![SimpleTuple::new(vec![
            Value::Integer(1),
            Value::text("Ann"),
            Value::Integer(2),
            Value::text("Rome")
        ])]
    );
}

#[test]
fn test_rename() {
    let renamed = rename(&vec![(Attribute::Index(1), name("who"))], &people()).unwrap();
    assert_eq!(
        attribute_names(&renamed),
        vec![Some("id".to_string()), Some("who".to_string())]
    );
    assert_eq!(rows(&renamed), rows(&people()));
    let swapped = rename(
        &vec![
            (Attribute::Name(name("id")), name("name")),
            (Attribute::Name(name("name")), name("id")),
        ],
        &people(),
    )
    .unwrap();
    assert_eq!(
        attribute_names(&swapped),
        vec![Some("name".to_string()), Some("id".to_string())]
    );
}

#[test]
fn test_rename_collision_with_retained_attribute() {
    assert!(matches!(
        rename(&vec![(Attribute::Index(0), name("name"))], &people()),
        Err(Error::IncompatibleTypes {
            lhs_domain: Domain::Integer,
            rhs_domain: Domain::String
        })
    ));
    match rename(&vec![(Attribute::Name(name("age")), name("years"))], &people()) {
        Err(Error::AttributeDoesNotExist { name }) => assert_eq!(name.to_string(), "age"),
        other => panic!("unexpected {:?}", other),
    }
}

#[test]
fn test_rename_construction_rejects_repeated_targets() {
    let result = RelationalOp::rename(
        vec![
            (Attribute::Index(0), name("a")),
            (Attribute::Index(1), name("b")),
            (Attribute::Index(2), name("a")),
        ],
        name("relation"),
    );
    match result {
        Err(Error::InvalidName { value }) => assert_eq!(value, "a"),
        other => panic!("unexpected {:?}", other),
    }
    assert!(RelationalOp::rename_by_index(vec![name("x"), name("x")], name("relation")).is_err());
    assert!(RelationalOp::rename(
        vec![
            (Attribute::Index(0), name("a")),
            (Attribute::Index(0), name("b")),
        ],
        name("relation"),
    )
    .is_err());
}

#[test]
fn test_sort() {
    let relation = SimpleRelation::new(
        schema("r", &[("a", Domain::Integer), ("b", Domain::String)]),
        vec![row(2, "x"), row(1, "z"), row(2, "a"), row(1, "b")],
    )
    .unwrap();
    let sorted = sort(
        &vec![Attribute::Name(name("a")), Attribute::Index(1)],
        &relation,
    )
    .unwrap();
    assert_eq!(
        rows(&sorted),
        vec![row(1, "b"), row(1, "z"), row(2, "a"), row(2, "x")]
    );
    let by_text = sort(&vec![Attribute::Index(1)], &relation).unwrap();
    assert_eq!(
        rows(&by_text),
        vec![row(2, "a"), row(1, "b"), row(2, "x"), row(1, "z")]
    );
    assert!(matches!(
        sort(&vec![Attribute::Index(5)], &relation),
        Err(Error::AttributeIndexInvalid { index: 5 })
    ));
}

#[test]
fn test_group() {
    let relation = SimpleRelation::new(
        schema("r", &[("a", Domain::Integer), ("b", Domain::String)]),
        vec![row(2, "x"), row(1, "x"), row(2, "y")],
    )
    .unwrap();
    let grouped = group(&vec![Attribute::Name(name("a"))], &relation).unwrap();
    assert_eq!(
        rows(&grouped),
        vec![
            SimpleTuple::new(vec![Value::Integer(2)]),
            SimpleTuple::new(vec![Value::Integer(1)])
        ]
    );
    assert!(matches!(
        group(&vec![], &relation),
        Err(Error::NullaryFactsNotAllowed)
    ));
}

#[test]
fn test_relation_does_not_exist() {
    match evaluate_expression(&RelationalOp::relation_unchecked("nobody"), &vec![people()]) {
        Err(Error::RelationDoesNotExist { name }) => assert_eq!(name.to_string(), "nobody"),
        other => panic!("unexpected {:?}", other),
    }
}

#[test]
fn test_relation_new_checks_tuples() {
    let s = schema("r", &[("a", Domain::Integer), ("b", Domain::String)]);
    assert!(matches!(
        SimpleRelation::new(s.clone(), vec![SimpleTuple::new(vec![Value::Integer(1)])]),
        Err(Error::AttributeIndexInvalid { index: 1 })
    ));
    match SimpleRelation::new(
        s.clone(),
        vec![SimpleTuple::new(vec![Value::Integer(1), Value::Boolean(true)])],
    ) {
        Err(Error::InvalidValue {
            expecting_domain,
            given_value,
        }) => {
            assert_eq!(expecting_domain, Domain::String);
            assert_eq!(given_value, Value::Boolean(true));
        }
        other => panic!("unexpected {:?}", other),
    }
    let relation = SimpleRelation::new(s, vec![row(1, "x"), row(1, "x"), row(2, "y")]).unwrap();
    assert_eq!(relation.len(), 2);
}

#[test]
fn test_schema_new_checks_names() {
    assert!(matches!(
        SimpleRelationSchema::new(name("r"), vec![]),
        Err(Error::NullaryFactsNotAllowed)
    ));
    match SimpleRelationSchema::new(
        name("r"),
        vec![
            SimpleAttributeSchema::new(name("a"), Domain::Integer),
            SimpleAttributeSchema::new(name("a"), Domain::String),
        ],
    ) {
        Err(Error::InvalidName { value }) => assert_eq!(value, "a"),
        other => panic!("unexpected {:?}", other),
    }
    let s = schema("r", &[("a", Domain::Integer), ("b", Domain::String)]);
    assert_eq!(s.attribute_index(&name("b")), Some(1));
    assert_eq!(s.attribute_index(&name("c")), None);
    assert!(s.has_attribute(&name("a")));
    match SimpleSchema::new(name("db"), vec![s.clone(), s.clone()]) {
        Err(Error::InvalidName { value }) => assert_eq!(value, "r"),
        other => panic!("unexpected {:?}", other.map(|s| s.len())),
    }
}

#[test]
fn test_expression_list_binds_names() {
    let list: ExpressionList = vec![
        Expression::named(
            name("first"),
            RelationalOp::select(Term::equals(0, Value::Integer(1)), name("people")),
        ),
        Expression::new(RelationalOp::natural_join(name("first"), name("visits"))),
    ]
    .into();
    let mut relations = vec![people(), visits()];
    let results = evaluate_expression_list(&list, &mut relations).unwrap();
    assert_eq!(results.len(), 2);
    assert_eq!(results[0].schema().name().to_string(), "first");
    assert_eq!(results[1].len(), 1);
    assert_eq!(relations.len(), 3);
}

#[test]
fn test_expression_list_keeps_bindings_on_failure() {
    let list: ExpressionList = vec![
        Expression::named(name("copy"), name("people")),
        Expression::new(name("nobody")),
    ]
    .into();
    let mut relations = vec![people()];
    assert!(evaluate_expression_list(&list, &mut relations).is_err());
    assert_eq!(relations.len(), 2);
    assert_eq!(relations[1].schema().name().to_string(), "copy");
}

#[test]
fn test_analyze_expression() {
    let database = SimpleSchema::new(
        name("db"),
        vec![
            people().schema().clone(),
            visits().schema().clone(),
        ],
    )
    .unwrap();
    let join = RelationalOp::natural_join(name("people"), name("visits"));
    let result = analyze_expression(&join, &database).unwrap();
    assert_eq!(result.len(), 3);
    assert!(matches!(
        analyze_expression(
            &RelationalOp::project(vec![ProjectedAttribute::Index(7)], name("people")),
            &database
        ),
        Err(Error::AttributeIndexInvalid { index: 7 })
    ));
    assert!(matches!(
        analyze_expression(&RelationalOp::relation_unchecked("nobody"), &database),
        Err(Error::RelationDoesNotExist { .. })
    ));
}

#[test]
fn test_copies_evaluate_alike() {
    let expression = RelationalOp::project(
        vec![ProjectedAttribute::Name(name("place")), ProjectedAttribute::Constant(Value::Binary(vec![1, 2]))],
        RelationalOp::natural_join(
            RelationalOp::select(Term::equals(name("id"), Value::Integer(2)), name("people")),
            RelationalOp::rename(vec![(Attribute::Index(1), name("place"))], name("visits"))
                .unwrap(),
        ),
    );
    let copy = expression.clone();
    let relations = vec![people(), visits()];
    let first = evaluate_expression(&expression, &relations).unwrap();
    let second = evaluate_expression(&copy, &relations).unwrap();
    assert_eq!(rows(&first), rows(&second));
    assert_eq!(attribute_names(&first), attribute_names(&second));
    assert_eq!(
        rows(&second),
        vec![SimpleTuple::new(vec![Value::text("Rome"), Value::Binary(vec![1, 2])])]
    );
    assert_eq!(copy, expression);
}
