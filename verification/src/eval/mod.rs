//! Evaluation of expressions against relations.

pub mod laws;
pub mod ops;
pub mod semantics;

use crate::Name;
use crate::ast::{
    Atom, Attribute, ComparisonOperator, ExpressionList, Join, ProjectedAttribute, RelationalOp,
    SetOperator, Term,
};
use crate::data::{distinct, RelationView, Value, ValueView};
use crate::error::{
    attribute_does_not_exist, attribute_index_invalid, Error, ErrorView, incompatible_types,
};
use crate::eval::semantics::{
    agreement, analysis, apply_renames, atom_value, attribute_value, bound, clash_with, Column,
    column_attribute, columns_valid, comparison_value, compatibility_error, empty_relation,
    evaluation, extended, filter_rows, first_clash, first_domain_difference, first_failure,
    first_key_mismatch, first_unresolved, first_unresolved_column, grouping, insert_row,
    join_columns, join_keys, key_rank, keys_agree, lemma_filter_rows, lemma_ordering, lemma_product,
    lemma_product_position, lemma_project_columns, lemma_renaming, lemma_selection,
    lemma_set_operation, list_environment, list_evaluation, lookup, match_outcome, membership,
    natural_join as natural_join_of, ordering, product, product_rows, project_columns, project_row,
    projected_attributes, projected_rows, projection, rename_sources, renaming, Renaming, resolve,
    resolve_all, resolve_columns, resolve_projected, rows_ordered, selection, set_operation,
    sort_rows, source_columns, term_value, theta_join as theta_join_of, truth, unshared,
};
use crate::simple::data::{contains_tuple, rows_of, SimpleRelation, SimpleTuple};
use crate::simple::sort::{
    attribute_views, copy_attributes, find_attribute, SimpleAttributeSchema, SimpleRelationSchema,
    SimpleSchema,
};
use crate::sort::{Domain, RelationSchemaView};
use crate::text::{match_pattern, Rank};
use vstd::prelude::*;

verus! {

/// Resolves an attribute against the attributes of a schema.
pub fn resolve_attribute(attributes: &Vec<SimpleAttributeSchema>, attribute: &Attribute) -> (r:
    Result<usize, Error>)
    ensures
        match r {
            Ok(k) => resolve(attribute_views(attributes@), *attribute) == Ok::<int, ErrorView>(
                k as int,
            ) && k < attributes@.len(),
            Err(e) => resolve(attribute_views(attributes@), *attribute) == Err::<int, ErrorView>(
                e@,
            ),
        },
{
    match attribute {
        Attribute::Index(i) => {
            if *i < attributes.len() {
                Ok(*i)
            } else {
                Err(attribute_index_invalid(*i))
            }
        },
        Attribute::Name(n) => {
            match find_attribute(attributes, n) {
                Some(k) => Ok(k),
                None => Err(attribute_does_not_exist(n.clone())),
            }
        },
    }
}

/// The value that an attribute refers to in a tuple.
pub fn value_of<'a>(
    attributes: &Vec<SimpleAttributeSchema>,
    tuple: &'a SimpleTuple,
    attribute: &Attribute,
) -> (r: Result<&'a Value, Error>)
    ensures
        match r {
            Ok(v) => attribute_value(attribute_views(attributes@), tuple@, *attribute) == Ok::<
                ValueView,
                ErrorView,
            >(v@),
            Err(e) => attribute_value(attribute_views(attributes@), tuple@, *attribute) == Err::<
                ValueView,
                ErrorView,
            >(e@),
        },
{
    match resolve_attribute(attributes, attribute) {
        Err(e) => Err(e),
        Ok(k) => {
            if k < tuple.0.len() {
                Ok(&tuple.0[k])
            } else {
                Err(attribute_index_invalid(k))
            }
        },
    }
}

/// What a pattern match amounts to, given what matching the pattern against
/// the text answered.
pub fn match_result(pattern: &Value, matched: Option<bool>, negated: bool) -> (r: Result<
    bool,
    Error,
>)
    ensures
        match r {
            Ok(b) => match_outcome(pattern@, matched, negated) == Ok::<bool, ErrorView>(b),
            Err(e) => match_outcome(pattern@, matched, negated) == Err::<bool, ErrorView>(e@),
        },
{
    match matched {
        Some(b) => Ok(b != negated),
        None => Err(
            Error::InvalidValue { expecting_domain: Domain::String, given_value: pattern.clone() },
        ),
    }
}

/// Compares two values by a comparison operator.
pub fn compare_values(op: ComparisonOperator, lhs: &Value, rhs: &Value) -> (r: Result<bool, Error>)
    ensures
        match r {
            Ok(b) => comparison_value(op, lhs@, rhs@) == Ok::<bool, ErrorView>(b),
            Err(e) => comparison_value(op, lhs@, rhs@) == Err::<bool, ErrorView>(e@),
        },
{
    if lhs.data_type() != rhs.data_type() {
        return Err(incompatible_types(lhs.data_type(), rhs.data_type()));
    }
    match op {
        ComparisonOperator::StringMatch | ComparisonOperator::StringNotMatch => {
            let negated = op == ComparisonOperator::StringNotMatch;
            match (lhs, rhs) {
                (Value::String(text), Value::String(pattern)) => {
                    let matched = match_pattern(pattern.as_str(), text.as_str());
                    match_result(rhs, matched, negated)
                },
                _ => Err(incompatible_types(lhs.data_type(), Domain::String)),
            }
        },
        _ => {
            let rank = lhs.rank(rhs);
            Ok(
                match op {
                    ComparisonOperator::Equal => rank == Some(Rank::Same),
                    ComparisonOperator::NotEqual => rank != Some(Rank::Same),
                    ComparisonOperator::LessThan => rank == Some(Rank::Less),
                    ComparisonOperator::LessThanOrEqual => rank == Some(Rank::Less) || rank == Some(
                        Rank::Same,
                    ),
                    ComparisonOperator::GreaterThan => rank == Some(Rank::Greater),
                    _ => rank == Some(Rank::Greater) || rank == Some(Rank::Same),
                },
            )
        },
    }
}

impl Atom {
    /// Evaluates the atom of a tuple under the attributes of its schema.
    pub fn evaluate(&self, attributes: &Vec<SimpleAttributeSchema>, tuple: &SimpleTuple) -> (r:
        Result<bool, Error>)
        ensures
            match r {
                Ok(b) => atom_value(*self, attribute_views(attributes@), tuple@) == Ok::<
                    bool,
                    ErrorView,
                >(b),
                Err(e) => atom_value(*self, attribute_views(attributes@), tuple@) == Err::<
                    bool,
                    ErrorView,
                >(e@),
            },
    {
        let lhs = match value_of(attributes, tuple, &self.lhs) {
            Ok(v) => v,
            Err(e) => {
                return Err(e);
            },
        };
        match &self.rhs {
            ProjectedAttribute::Index(i) => {
                match value_of(attributes, tuple, &Attribute::Index(*i)) {
                    Ok(rhs) => compare_values(self.op, lhs, rhs),
                    Err(e) => Err(e),
                }
            },
            ProjectedAttribute::Name(n) => {
                match resolve_named(attributes, tuple, n) {
                    Ok(rhs) => compare_values(self.op, lhs, rhs),
                    Err(e) => Err(e),
                }
            },
            ProjectedAttribute::Constant(rhs) => compare_values(self.op, lhs, rhs),
        }
    }
}

fn resolve_named<'a>(
    attributes: &Vec<SimpleAttributeSchema>,
    tuple: &'a SimpleTuple,
    name: &crate::Name,
) -> (r: Result<&'a Value, Error>)
    ensures
        match r {
            Ok(v) => attribute_value(
                attribute_views(attributes@),
                tuple@,
                Attribute::Name(*name),
            ) == Ok::<ValueView, ErrorView>(v@),
            Err(e) => attribute_value(
                attribute_views(attributes@),
                tuple@,
                Attribute::Name(*name),
            ) == Err::<ValueView, ErrorView>(e@),
        },
{
    match find_attribute(attributes, name) {
        None => Err(attribute_does_not_exist(name.clone())),
        Some(k) => {
            if k < tuple.0.len() {
                Ok(&tuple.0[k])
            } else {
                Err(attribute_index_invalid(k))
            }
        },
    }
}

impl Term {
    /// Evaluates the condition of a tuple under the attributes of its schema.
    pub fn evaluate(&self, attributes: &Vec<SimpleAttributeSchema>, tuple: &SimpleTuple) -> (r:
        Result<bool, Error>)
        ensures
            match r {
                Ok(b) => term_value(*self, attribute_views(attributes@), tuple@) == Ok::<
                    bool,
                    ErrorView,
                >(b),
                Err(e) => term_value(*self, attribute_views(attributes@), tuple@) == Err::<
                    bool,
                    ErrorView,
                >(e@),
            },
        decreases *self,
    {
        match self {
            Term::Constant(v) => {
                match v {
                    Value::Boolean(b) => Ok(*b),
                    _ => Err(incompatible_types(v.data_type(), Domain::Boolean)),
                }
            },
            Term::Exists(a) => {
                match value_of(attributes, tuple, a) {
                    Ok(_) => Ok(true),
                    Err(e) => Err(e),
                }
            },
            Term::Atom(a) => a.evaluate(attributes, tuple),
            Term::Negate(t) => {
                match t.evaluate(attributes, tuple) {
                    Ok(b) => Ok(!b),
                    Err(e) => Err(e),
                }
            },
            Term::And(l, r) => {
                match l.evaluate(attributes, tuple) {
                    Ok(true) => r.evaluate(attributes, tuple),
                    Ok(false) => Ok(false),
                    Err(e) => Err(e),
                }
            },
            Term::Or(l, r) => {
                match l.evaluate(attributes, tuple) {
                    Ok(true) => Ok(true),
                    Ok(false) => r.evaluate(attributes, tuple),
                    Err(e) => Err(e),
                }
            },
        }
    }
}

/// Copies of the tuples.
pub fn copy_tuples(tuples: &Vec<SimpleTuple>) -> (r: Vec<SimpleTuple>)
    ensures
        rows_of(r@) == rows_of(tuples@),
{
    let mut copy: Vec<SimpleTuple> = Vec::new();
    let mut i: usize = 0;
    while i < tuples.len()
        invariant
            i <= tuples.len(),
            copy@.len() == i,
            forall|k: int| 0 <= k < i ==> (#[trigger] copy@[k])@ == tuples@[k]@,
        decreases tuples.len() - i,
    {
        copy.push(tuples[i].duplicate());
        i += 1;
    }
    assert(rows_of(copy@) =~= rows_of(tuples@));
    copy
}

/// The tuples that are among `other`, or those that are not.
fn keep_tuples(tuples: &Vec<SimpleTuple>, other: &Vec<SimpleTuple>, present: bool) -> (r: Vec<
    SimpleTuple,
>)
    ensures
        rows_of(r@) == filter_rows(rows_of(tuples@), membership(rows_of(other@), present)),
{
    let ghost rows = rows_of(tuples@);
    let ghost keep = membership(rows_of(other@), present);
    let mut kept: Vec<SimpleTuple> = Vec::new();
    let mut i: usize = 0;
    assert(rows.take(0) =~= Seq::<Seq<ValueView>>::empty());
    while i < tuples.len()
        invariant
            i <= tuples.len(),
            rows == rows_of(tuples@),
            keep == membership(rows_of(other@), present),
            rows_of(kept@) == filter_rows(rows.take(i as int), keep),
        decreases tuples.len() - i,
    {
        proof {
            let next = rows.take(i + 1);
            assert(next.drop_last() =~= rows.take(i as int));
            assert(next.last() == rows[i as int]);
        }
        if contains_tuple(other, &tuples[i]) == present {
            kept.push(tuples[i].duplicate());
            assert(rows_of(kept@) =~= filter_rows(rows.take(i + 1), keep));
        }
        i += 1;
    }
    assert(rows.take(i as int) =~= rows);
    kept
}

/// Checks that two attribute lists are union-compatible.
pub fn check_compatible(lhs: &Vec<SimpleAttributeSchema>, rhs: &Vec<SimpleAttributeSchema>) -> (r:
    Result<(), Error>)
    ensures
        match r {
            Ok(_) => compatibility_error(attribute_views(lhs@), attribute_views(rhs@)) is None,
            Err(e) => compatibility_error(attribute_views(lhs@), attribute_views(rhs@)) == Some(
                e@,
            ),
        },
{
    if lhs.len() < rhs.len() {
        return Err(attribute_index_invalid(lhs.len()));
    }
    if lhs.len() > rhs.len() {
        return Err(attribute_index_invalid(rhs.len()));
    }
    let ghost l = attribute_views(lhs@);
    let ghost r = attribute_views(rhs@);
    let mut i: usize = 0;
    while i < lhs.len()
        invariant
            i <= lhs.len(),
            lhs.len() == rhs.len(),
            l == attribute_views(lhs@),
            r == attribute_views(rhs@),
            first_domain_difference(l, r, 0) == first_domain_difference(l, r, i as int),
        decreases lhs.len() - i,
    {
        if lhs[i].data_type != rhs[i].data_type {
            return Err(incompatible_types(lhs[i].data_type, rhs[i].data_type));
        }
        i += 1;
    }
    Ok(())
}

fn join_tuples(first: Vec<SimpleTuple>, second: Vec<SimpleTuple>) -> (r: Vec<SimpleTuple>)
    ensures
        rows_of(r@) == rows_of(first@) + rows_of(second@),
{
    let mut first = first;
    let mut second = second;
    let ghost a = first@;
    let ghost b = second@;
    first.append(&mut second);
    assert(rows_of(first@) =~= rows_of(a) + rows_of(b));
    first
}

/// The tuple of the values of `lhs` followed by those of `rhs`.
pub fn concatenate(lhs: &SimpleTuple, rhs: &SimpleTuple) -> (r: SimpleTuple)
    ensures
        r@ == lhs@ + rhs@,
{
    let mut values: Vec<Value> = Vec::new();
    let mut i: usize = 0;
    while i < lhs.0.len()
        invariant
            i <= lhs.0.len(),
            values@.len() == i,
            forall|k: int| 0 <= k < i ==> (#[trigger] values@[k])@ == lhs@[k],
        decreases lhs.0.len() - i,
    {
        values.push(lhs.0[i].clone());
        i += 1;
    }
    let mut j: usize = 0;
    while j < rhs.0.len()
        invariant
            j <= rhs.0.len(),
            values@.len() == lhs.0.len() + j,
            forall|k: int| 0 <= k < lhs.0.len() ==> (#[trigger] values@[k])@ == lhs@[k],
            forall|k: int|
                lhs.0.len() <= k < values@.len() ==> (#[trigger] values@[k])@ == rhs@[k
                    - lhs.0.len()],
        decreases rhs.0.len() - j,
    {
        values.push(rhs.0[j].clone());
        j += 1;
    }
    let r = SimpleTuple(values);
    assert(r@ =~= lhs@ + rhs@);
    r
}

/// The cartesian product of two relations: every tuple of the left followed
/// by every tuple of the right, under the attributes of the left followed by
/// those of the right.
pub fn cartesian_product(lhs: &SimpleRelation, rhs: &SimpleRelation) -> (r: SimpleRelation)
    ensures
        r@ == product(lhs@, rhs@),
        r@.rows.len() == lhs@.rows.len() * rhs@.rows.len(),
        r@.wf(),
{
    let left = lhs.tuples();
    let right = rhs.tuples();
    let ghost l = rows_of(left@);
    let ghost r = rows_of(right@);
    let ghost m = right.len() as int;
    let mut out: Vec<SimpleTuple> = Vec::new();
    let mut i: usize = 0;
    while i < left.len()
        invariant
            i <= left.len(),
            l == rows_of(left@),
            r == rows_of(right@),
            m == right.len(),
            out@.len() == i * m,
            forall|k: int| 0 <= k < out@.len() ==> (#[trigger] out@[k])@ == l[k / m] + r[k % m],
        decreases left.len() - i,
    {
        let mut j: usize = 0;
        while j < right.len()
            invariant
                i < left.len(),
                j <= right.len(),
                l == rows_of(left@),
                r == rows_of(right@),
                m == right.len(),
                out@.len() == i * m + j,
                forall|k: int| 0 <= k < out@.len() ==> (#[trigger] out@[k])@ == l[k / m] + r[k % m],
            decreases right.len() - j,
        {
            proof {
                lemma_product_position(m, i as int, j as int);
            }
            out.push(concatenate(&left[i], &right[j]));
            j += 1;
        }
        assert((i + 1) * m == i * m + m) by (nonlinear_arith);
        i += 1;
    }
    let mut attributes = copy_attributes(&lhs.schema().attributes);
    let mut more = copy_attributes(&rhs.schema().attributes);
    let ghost a = attributes@;
    let ghost b = more@;
    attributes.append(&mut more);
    assert(attribute_views(attributes@) =~= attribute_views(a) + attribute_views(b));
    let schema = SimpleRelationSchema { name: lhs.schema().name.clone(), attributes };
    proof {
        lemma_product(lhs@, rhs@);
        assert(rows_of(out@) =~= product_rows(l, r));
    }
    SimpleRelation::from_parts(schema, out)
}

/// A set operation on two relations. The product is defined of any two; the
/// others of union-compatible ones, and their result has the schema of the
/// left.
pub fn apply_set_operation(op: SetOperator, lhs: &SimpleRelation, rhs: &SimpleRelation) -> (r:
    Result<SimpleRelation, Error>)
    ensures
        match r {
            Ok(relation) => set_operation(op, lhs@, rhs@) == Ok::<RelationView, ErrorView>(
                relation@,
            ) && relation@.wf(),
            Err(e) => set_operation(op, lhs@, rhs@) == Err::<RelationView, ErrorView>(e@),
        },
{
    if op == SetOperator::CartesianProduct {
        return Ok(cartesian_product(lhs, rhs));
    }
    match check_compatible(&lhs.schema().attributes, &rhs.schema().attributes) {
        Err(e) => {
            return Err(e);
        },
        Ok(_) => {},
    }
    let left = lhs.tuples();
    let right = rhs.tuples();
    let tuples = match op {
        SetOperator::Union => join_tuples(copy_tuples(left), keep_tuples(right, left, false)),
        SetOperator::Intersection => keep_tuples(left, right, true),
        SetOperator::Difference => keep_tuples(left, right, false),
        _ => join_tuples(keep_tuples(left, right, false), keep_tuples(right, left, false)),
    };
    proof {
        lemma_set_operation(op, lhs@, rhs@);
    }
    Ok(SimpleRelation::from_parts(lhs.schema().duplicate(), tuples))
}

/// The union of two union-compatible relations: the tuples of either.
pub fn union(lhs: &SimpleRelation, rhs: &SimpleRelation) -> (r: Result<SimpleRelation, Error>)
    ensures
        match r {
            Ok(relation) => set_operation(SetOperator::Union, lhs@, rhs@) == Ok::<
                RelationView,
                ErrorView,
            >(relation@) && relation@.wf() && relation@.tuple_set() == lhs@.tuple_set().union(rhs@.tuple_set()),
            Err(e) => set_operation(SetOperator::Union, lhs@, rhs@) == Err::<
                RelationView,
                ErrorView,
            >(e@),
        },
{
    let _ = lhs.tuples();
    let _ = rhs.tuples();
    let r = apply_set_operation(SetOperator::Union, lhs, rhs);
    proof {
        if r is Ok {
            lemma_set_operation(SetOperator::Union, lhs@, rhs@);
        }
    }
    r
}

/// The intersection of two union-compatible relations: the tuples of both.
pub fn intersect(lhs: &SimpleRelation, rhs: &SimpleRelation) -> (r: Result<SimpleRelation, Error>)
    ensures
        match r {
            Ok(relation) => set_operation(SetOperator::Intersection, lhs@, rhs@) == Ok::<
                RelationView,
                ErrorView,
            >(relation@) && relation@.wf() && relation@.tuple_set() == lhs@.tuple_set().intersect(rhs@.tuple_set()),
            Err(e) => set_operation(SetOperator::Intersection, lhs@, rhs@) == Err::<
                RelationView,
                ErrorView,
            >(e@),
        },
{
    let _ = lhs.tuples();
    let _ = rhs.tuples();
    let r = apply_set_operation(SetOperator::Intersection, lhs, rhs);
    proof {
        if r is Ok {
            lemma_set_operation(SetOperator::Intersection, lhs@, rhs@);
        }
    }
    r
}

/// The difference of two union-compatible relations: the tuples of the left that the right does not have.
pub fn difference(lhs: &SimpleRelation, rhs: &SimpleRelation) -> (r: Result<SimpleRelation, Error>)
    ensures
        match r {
            Ok(relation) => set_operation(SetOperator::Difference, lhs@, rhs@) == Ok::<
                RelationView,
                ErrorView,
            >(relation@) && relation@.wf() && relation@.tuple_set() == lhs@.tuple_set().difference(rhs@.tuple_set()),
            Err(e) => set_operation(SetOperator::Difference, lhs@, rhs@) == Err::<
                RelationView,
                ErrorView,
            >(e@),
        },
{
    let _ = lhs.tuples();
    let _ = rhs.tuples();
    let r = apply_set_operation(SetOperator::Difference, lhs, rhs);
    proof {
        if r is Ok {
            lemma_set_operation(SetOperator::Difference, lhs@, rhs@);
        }
    }
    r
}

/// The symmetric difference of two union-compatible relations: the tuples of exactly one of them.
pub fn symmetric_difference(lhs: &SimpleRelation, rhs: &SimpleRelation) -> (r: Result<SimpleRelation, Error>)
    ensures
        match r {
            Ok(relation) => set_operation(SetOperator::SymmetricDifference, lhs@, rhs@) == Ok::<
                RelationView,
                ErrorView,
            >(relation@) && relation@.wf() && relation@.tuple_set() == lhs@.tuple_set().difference(rhs@.tuple_set()).union(
                rhs@.tuple_set().difference(lhs@.tuple_set()),
            ),
            Err(e) => set_operation(SetOperator::SymmetricDifference, lhs@, rhs@) == Err::<
                RelationView,
                ErrorView,
            >(e@),
        },
{
    let _ = lhs.tuples();
    let _ = rhs.tuples();
    let r = apply_set_operation(SetOperator::SymmetricDifference, lhs, rhs);
    proof {
        if r is Ok {
            lemma_set_operation(SetOperator::SymmetricDifference, lhs@, rhs@);
        }
    }
    r
}

/// Selection: the tuples of the operand of which the criteria is true, under
/// the same schema. Fails with the error of the first tuple of which the
/// criteria has no value.
pub fn select(criteria: &Term, operand: &SimpleRelation) -> (r: Result<SimpleRelation, Error>)
    ensures
        match r {
            Ok(relation) => selection(*criteria, operand@) == Ok::<RelationView, ErrorView>(
                relation@,
            ) && relation@.wf() && relation@.tuple_set() == operand@.tuple_set().filter(
                truth(*criteria, operand@.attributes),
            ),
            Err(e) => selection(*criteria, operand@) == Err::<RelationView, ErrorView>(e@),
        },
{
    let tuples = operand.tuples();
    let schema = operand.schema();
    let ghost rows = rows_of(tuples@);
    let ghost attributes = operand@.attributes;
    let ghost keep = truth(*criteria, attributes);
    let mut kept: Vec<SimpleTuple> = Vec::new();
    let mut i: usize = 0;
    assert(rows.take(0) =~= Seq::<Seq<ValueView>>::empty());
    while i < tuples.len()
        invariant
            i <= tuples.len(),
            rows == rows_of(tuples@),
            attributes == attribute_views(schema.attributes@),
            attributes == operand@.attributes,
            rows == operand@.rows,
            keep == truth(*criteria, attributes),
            first_failure(*criteria, attributes, rows, 0) == first_failure(
                *criteria,
                attributes,
                rows,
                i as int,
            ),
            rows_of(kept@) == filter_rows(rows.take(i as int), keep),
        decreases tuples.len() - i,
    {
        proof {
            let next = rows.take(i + 1);
            assert(next.drop_last() =~= rows.take(i as int));
            assert(next.last() == rows[i as int]);
        }
        match criteria.evaluate(&schema.attributes, &tuples[i]) {
            Err(e) => {
                assert(first_failure(*criteria, attributes, rows, i as int) == Some(e@));
                return Err(e);
            },
            Ok(true) => {
                kept.push(tuples[i].duplicate());
                assert(rows_of(kept@) =~= filter_rows(rows.take(i + 1), keep));
            },
            Ok(false) => {},
        }
        i += 1;
    }
    assert(rows.take(i as int) =~= rows);
    proof {
        lemma_selection(*criteria, operand@);
    }
    Ok(SimpleRelation::from_parts(schema.duplicate(), kept))
}

/// A column of a projection, resolved against a schema: a position of the
/// operand, or a constant.
#[derive(Debug)]
pub enum ResolvedColumn {
    Source(usize),
    Constant(Value),
}

impl View for ResolvedColumn {
    type V = Column;

    open spec fn view(&self) -> Column {
        match self {
            ResolvedColumn::Source(k) => Column::Source(*k as int),
            ResolvedColumn::Constant(v) => Column::Constant(v@),
        }
    }
}

/// The views of a sequence of columns.
pub open spec fn column_views(columns: Seq<ResolvedColumn>) -> Seq<Column> {
    columns.map_values(|c: ResolvedColumn| c@)
}

/// The positions as mathematical integers.
pub open spec fn position_views(positions: Seq<usize>) -> Seq<int> {
    positions.map_values(|k: usize| k as int)
}

/// Resolves the attributes of a projection against the attributes of a
/// schema.
pub fn resolve_projection(attributes: &Vec<SimpleAttributeSchema>, list: &[ProjectedAttribute]) -> (r:
    Result<Vec<ResolvedColumn>, Error>)
    ensures
        match r {
            Ok(columns) => resolve_columns(attribute_views(attributes@), list@) == Ok::<
                Seq<Column>,
                ErrorView,
            >(column_views(columns@)) && columns_valid(
                column_views(columns@),
                attributes@.len() as int,
            ),
            Err(e) => resolve_columns(attribute_views(attributes@), list@) == Err::<
                Seq<Column>,
                ErrorView,
            >(e@),
        },
{
    let ghost views = attribute_views(attributes@);
    let mut columns: Vec<ResolvedColumn> = Vec::new();
    let mut i: usize = 0;
    while i < list.len()
        invariant
            i <= list.len(),
            views == attribute_views(attributes@),
            columns@.len() == i,
            first_unresolved_column(views, list@, 0) == first_unresolved_column(
                views,
                list@,
                i as int,
            ),
            forall|k: int|
                0 <= k < i ==> resolve_projected(views, list@[k]) == Ok::<Column, ErrorView>(
                    (#[trigger] columns@[k])@,
                ),
            forall|k: int|
                0 <= k < i && (#[trigger] columns@[k]) is Source ==> columns@[k]->Source_0
                    < attributes@.len(),
        decreases list.len() - i,
    {
        let column = match &list[i] {
            ProjectedAttribute::Index(index) => {
                match resolve_attribute(attributes, &Attribute::Index(*index)) {
                    Ok(k) => ResolvedColumn::Source(k),
                    Err(e) => {
                        return Err(e);
                    },
                }
            },
            ProjectedAttribute::Name(n) => {
                match find_attribute(attributes, n) {
                    Some(k) => ResolvedColumn::Source(k),
                    None => {
                        return Err(attribute_does_not_exist(n.clone()));
                    },
                }
            },
            ProjectedAttribute::Constant(v) => ResolvedColumn::Constant(v.clone()),
        };
        columns.push(column);
        i += 1;
    }
    assert(column_views(columns@) =~= list@.map_values(
        |p: ProjectedAttribute| resolve_projected(views, p)->Ok_0,
    ));
    assert forall|k: int|
        0 <= k < columns@.len() && (#[trigger] column_views(columns@)[k]) is Source implies 0
        <= column_views(columns@)[k]->Source_0 < attributes@.len() by {
        assert(columns@[k] is Source);
    }
    Ok(columns)
}

/// Resolves a list of attributes against the attributes of a schema.
pub fn resolve_positions(attributes: &Vec<SimpleAttributeSchema>, list: &[Attribute]) -> (r:
    Result<Vec<usize>, Error>)
    ensures
        match r {
            Ok(positions) => resolve_all(attribute_views(attributes@), list@) == Ok::<
                Seq<int>,
                ErrorView,
            >(position_views(positions@)) && forall|i: int|
                0 <= i < positions@.len() ==> (#[trigger] positions@[i]) < attributes@.len(),
            Err(e) => resolve_all(attribute_views(attributes@), list@) == Err::<
                Seq<int>,
                ErrorView,
            >(e@),
        },
{
    let ghost views = attribute_views(attributes@);
    let mut positions: Vec<usize> = Vec::new();
    let mut i: usize = 0;
    while i < list.len()
        invariant
            i <= list.len(),
            views == attribute_views(attributes@),
            positions@.len() == i,
            first_unresolved(views, list@, 0) == first_unresolved(views, list@, i as int),
            forall|k: int|
                0 <= k < i ==> resolve(views, list@[k]) == Ok::<int, ErrorView>(
                    (#[trigger] positions@[k]) as int,
                ),
            forall|k: int| 0 <= k < i ==> (#[trigger] positions@[k]) < attributes@.len(),
        decreases list.len() - i,
    {
        match resolve_attribute(attributes, &list[i]) {
            Ok(k) => {
                positions.push(k);
            },
            Err(e) => {
                return Err(e);
            },
        }
        i += 1;
    }
    assert(position_views(positions@) =~= list@.map_values(
        |a: Attribute| resolve(views, a)->Ok_0,
    ));
    Ok(positions)
}

fn project_tuple(columns: &Vec<ResolvedColumn>, tuple: &SimpleTuple) -> (r: SimpleTuple)
    requires
        columns_valid(column_views(columns@), tuple@.len() as int),
    ensures
        r@ == project_row(column_views(columns@), tuple@),
{
    let mut values: Vec<Value> = Vec::new();
    let mut i: usize = 0;
    while i < columns.len()
        invariant
            i <= columns.len(),
            values@.len() == i,
            columns_valid(column_views(columns@), tuple@.len() as int),
            forall|k: int|
                0 <= k < i ==> (#[trigger] values@[k])@ == crate::eval::semantics::column_value(
                    tuple@,
                    column_views(columns@)[k],
                ),
        decreases columns.len() - i,
    {
        assert(column_views(columns@)[i as int] == columns@[i as int]@);
        match &columns[i] {
            ResolvedColumn::Source(k) => {
                values.push(tuple.0[*k].clone());
            },
            ResolvedColumn::Constant(v) => {
                values.push(v.clone());
            },
        }
        i += 1;
    }
    let r = SimpleTuple(values);
    assert(r@ =~= project_row(column_views(columns@), tuple@));
    r
}

fn project_attributes(columns: &Vec<ResolvedColumn>, attributes: &Vec<SimpleAttributeSchema>) -> (r:
    Vec<SimpleAttributeSchema>)
    requires
        columns_valid(column_views(columns@), attributes@.len() as int),
    ensures
        attribute_views(r@) == projected_attributes(
            column_views(columns@),
            attribute_views(attributes@),
        ),
{
    let mut out: Vec<SimpleAttributeSchema> = Vec::new();
    let mut i: usize = 0;
    while i < columns.len()
        invariant
            i <= columns.len(),
            out@.len() == i,
            columns_valid(column_views(columns@), attributes@.len() as int),
            forall|k: int|
                0 <= k < i ==> (#[trigger] out@[k])@ == column_attribute(
                    attribute_views(attributes@),
                    column_views(columns@)[k],
                ),
        decreases columns.len() - i,
    {
        assert(column_views(columns@)[i as int] == columns@[i as int]@);
        match &columns[i] {
            ResolvedColumn::Source(k) => {
                out.push(attributes[*k].duplicate());
            },
            ResolvedColumn::Constant(v) => {
                out.push(SimpleAttributeSchema::anonymous(v.data_type()));
            },
        }
        i += 1;
    }
    assert(attribute_views(out@) =~= projected_attributes(
        column_views(columns@),
        attribute_views(attributes@),
    ));
    out
}

/// The relation of the columns: each tuple of the operand reduced to the
/// columns' values, each reduced tuple once.
pub fn project_with(columns: &Vec<ResolvedColumn>, operand: &SimpleRelation) -> (r: SimpleRelation)
    requires
        columns_valid(column_views(columns@), operand@.attributes.len() as int),
    ensures
        r@ == project_columns(column_views(columns@), operand@),
        r@.wf(),
{
    let tuples = operand.tuples();
    let schema = operand.schema();
    let ghost cv = column_views(columns@);
    let ghost rows = rows_of(tuples@);
    let ghost mapped = projected_rows(cv, rows);
    let mut kept: Vec<SimpleTuple> = Vec::new();
    let mut i: usize = 0;
    assert(mapped.take(0) =~= Seq::<Seq<ValueView>>::empty());
    while i < tuples.len()
        invariant
            i <= tuples.len(),
            cv == column_views(columns@),
            rows == rows_of(tuples@),
            rows == operand@.rows,
            operand@.wf(),
            mapped == projected_rows(cv, rows),
            columns_valid(cv, operand@.attributes.len() as int),
            rows_of(kept@) == distinct(mapped.take(i as int)),
        decreases tuples.len() - i,
    {
        proof {
            let next = mapped.take(i + 1);
            assert(next.drop_last() =~= mapped.take(i as int));
            assert(next.last() == mapped[i as int]);
            assert(crate::data::row_conforms(operand@.attributes, rows[i as int]));
        }
        let reduced = project_tuple(columns, &tuples[i]);
        if !contains_tuple(&kept, &reduced) {
            kept.push(reduced);
            assert(rows_of(kept@) =~= distinct(mapped.take(i + 1)));
        }
        i += 1;
    }
    assert(mapped.take(i as int) =~= mapped);
    let attributes = project_attributes(columns, &schema.attributes);
    proof {
        lemma_project_columns(cv, operand@);
    }
    SimpleRelation::from_parts(
        SimpleRelationSchema { name: schema.name.clone(), attributes },
        kept,
    )
}

/// Projection: each tuple of the operand reduced to the listed attributes and
/// constants, each reduced tuple once. A projection onto nothing is refused
/// as nullary; an attribute that the operand does not have is reported.
pub fn project(list: &[ProjectedAttribute], operand: &SimpleRelation) -> (r: Result<
    SimpleRelation,
    Error,
>)
    ensures
        match r {
            Ok(relation) => projection(list@, operand@) == Ok::<RelationView, ErrorView>(
                relation@,
            ) && relation@.wf(),
            Err(e) => projection(list@, operand@) == Err::<RelationView, ErrorView>(e@),
        },
{
    if list.len() == 0 {
        return Err(crate::error::nullary_facts_not_allowed());
    }
    match resolve_projection(&operand.schema().attributes, list) {
        Err(e) => Err(e),
        Ok(columns) => Ok(project_with(&columns, operand)),
    }
}

/// Grouping: the distinct combinations of values of the listed attributes,
/// which is the projection onto them.
pub fn group(list: &[Attribute], operand: &SimpleRelation) -> (r: Result<SimpleRelation, Error>)
    ensures
        match r {
            Ok(relation) => grouping(list@, operand@) == Ok::<RelationView, ErrorView>(relation@)
                && relation@.wf(),
            Err(e) => grouping(list@, operand@) == Err::<RelationView, ErrorView>(e@),
        },
{
    if list.len() == 0 {
        return Err(crate::error::nullary_facts_not_allowed());
    }
    match resolve_positions(&operand.schema().attributes, list) {
        Err(e) => Err(e),
        Ok(positions) => {
            let columns = columns_of(&positions);
            Ok(project_with(&columns, operand))
        },
    }
}

/// The columns that are the given positions.
pub fn columns_of(positions: &Vec<usize>) -> (r: Vec<ResolvedColumn>)
    ensures
        column_views(r@) == source_columns(position_views(positions@)),
{
    let mut columns: Vec<ResolvedColumn> = Vec::new();
    let mut i: usize = 0;
    while i < positions.len()
        invariant
            i <= positions.len(),
            columns@.len() == i,
            forall|k: int|
                0 <= k < i ==> (#[trigger] columns@[k])@ == Column::Source(positions@[k] as int),
        decreases positions.len() - i,
    {
        columns.push(ResolvedColumn::Source(positions[i]));
        i += 1;
    }
    assert(column_views(columns@) =~= source_columns(position_views(positions@)));
    columns
}

/// Compares two tuples by the values at the positions `keys`: the first key
/// at which the values do not rank the same decides.
pub fn rank_by_keys(keys: &Vec<usize>, a: &SimpleTuple, b: &SimpleTuple) -> (r: Option<Rank>)
    requires
        forall|i: int|
            0 <= i < keys@.len() ==> (#[trigger] keys@[i]) < a@.len() && keys@[i] < b@.len(),
    ensures
        r == key_rank(position_views(keys@), a@, b@, 0),
{
    let ghost kv = position_views(keys@);
    let mut i: usize = 0;
    while i < keys.len()
        invariant
            i <= keys.len(),
            kv == position_views(keys@),
            forall|i: int|
                0 <= i < keys@.len() ==> (#[trigger] keys@[i]) < a@.len() && keys@[i] < b@.len(),
            key_rank(kv, a@, b@, 0) == key_rank(kv, a@, b@, i as int),
        decreases keys.len() - i,
    {
        let k = keys[i];
        assert(kv[i as int] == k as int);
        match a.0[k].rank(&b.0[k]) {
            Some(Rank::Same) => {},
            other => {
                return other;
            },
        }
        i += 1;
    }
    Some(Rank::Same)
}

/// Ordering: the same tuples under the same schema, in the order of the
/// listed attributes: by the first, among tuples that rank the same by it by
/// the second, and so on. No tuple of the result comes strictly before the
/// tuple that precedes it.
pub fn sort(list: &[Attribute], operand: &SimpleRelation) -> (r: Result<SimpleRelation, Error>)
    ensures
        match r {
            Ok(relation) => ordering(list@, operand@) == Ok::<RelationView, ErrorView>(relation@)
                && relation@.wf() && relation@.tuple_set() == operand@.tuple_set()
                && relation@.rows.len() == operand@.rows.len() && rows_ordered(
                resolve_all(operand@.attributes, list@)->Ok_0,
                relation@.rows,
            ),
            Err(e) => ordering(list@, operand@) == Err::<RelationView, ErrorView>(e@),
        },
{
    let tuples = operand.tuples();
    let schema = operand.schema();
    let keys = match resolve_positions(&schema.attributes, list) {
        Ok(keys) => keys,
        Err(e) => {
            return Err(e);
        },
    };
    let ghost kv = position_views(keys@);
    let ghost rows = rows_of(tuples@);
    let ghost width = operand@.attributes.len();
    let mut out: Vec<SimpleTuple> = Vec::new();
    let mut i: usize = 0;
    assert(rows.take(0) =~= Seq::<Seq<ValueView>>::empty());
    while i < tuples.len()
        invariant
            i <= tuples.len(),
            kv == position_views(keys@),
            rows == rows_of(tuples@),
            rows == operand@.rows,
            operand@.wf(),
            width == operand@.attributes.len(),
            forall|k: int| 0 <= k < keys@.len() ==> (#[trigger] keys@[k]) < width,
            forall|k: int| 0 <= k < out@.len() ==> (#[trigger] out@[k])@.len() == width,
            rows_of(out@) == sort_rows(kv, rows.take(i as int)),
        decreases tuples.len() - i,
    {
        let ghost sorted = rows_of(out@);
        let ghost row = rows[i as int];
        proof {
            let next = rows.take(i + 1);
            assert(next.drop_last() =~= rows.take(i as int));
            assert(next.last() == row);
            assert(crate::data::row_conforms(operand@.attributes, rows[i as int]));
            assert(sorted.take(sorted.len() as int) =~= sorted);
            assert(sorted.skip(sorted.len() as int) =~= Seq::<Seq<ValueView>>::empty());
        }
        let mut p: usize = out.len();
        loop
            invariant
                p <= out.len(),
                i < tuples.len(),
                kv == position_views(keys@),
                rows == rows_of(tuples@),
                sorted == rows_of(out@),
                row == rows[i as int],
                row.len() == width,
                forall|k: int| 0 <= k < keys@.len() ==> (#[trigger] keys@[k]) < width,
                forall|k: int| 0 <= k < out@.len() ==> (#[trigger] out@[k])@.len() == width,
                insert_row(kv, sorted, row) == insert_row(kv, sorted.take(p as int), row)
                    + sorted.skip(p as int),
            ensures
                p <= out.len(),
                insert_row(kv, sorted, row) == sorted.take(p as int).push(row) + sorted.skip(
                    p as int,
                ),
            decreases p,
        {
            if p == 0 {
                assert(sorted.take(0) =~= Seq::<Seq<ValueView>>::empty());
                break ;
            }
            let before = rank_by_keys(&keys, &tuples[i], &out[p - 1]);
            proof {
                let front = sorted.take(p as int);
                assert(front.last() == sorted[p - 1]);
                assert(front.drop_last() =~= sorted.take(p - 1));
                assert(seq![sorted[p - 1]] + sorted.skip(p as int) =~= sorted.skip(p - 1));
            }
            if before != Some(Rank::Less) {
                break ;
            }
            proof {
                let front = sorted.take(p as int);
                assert(insert_row(kv, front, row) == insert_row(kv, front.drop_last(), row).push(
                    front.last(),
                ));
                assert(insert_row(kv, sorted.take(p - 1), row).push(sorted[p - 1]) + sorted.skip(
                    p as int,
                ) =~= insert_row(kv, sorted.take(p - 1), row) + sorted.skip(p - 1));
            }
            p -= 1;
        }
        out.insert(p, tuples[i].duplicate());
        assert(rows_of(out@) =~= sorted.take(p as int).push(row) + sorted.skip(p as int));
        i += 1;
    }
    assert(rows.take(i as int) =~= rows);
    proof {
        lemma_ordering(list@, operand@);
    }
    Ok(SimpleRelation::from_parts(schema.duplicate(), out))
}

fn same_name(a: &SimpleAttributeSchema, b: &SimpleAttributeSchema) -> (r: bool)
    ensures
        r == (a@.name == b@.name),
{
    match (&a.name, &b.name) {
        (Some(x), Some(y)) => *x == *y,
        (None, None) => true,
        _ => false,
    }
}

fn find_clash(attributes: &Vec<SimpleAttributeSchema>, p: usize) -> (r: Option<usize>)
    requires
        p < attributes@.len(),
    ensures
        match r {
            Some(q) => clash_with(attribute_views(attributes@), p as int, 0) == Some(q as int)
                && q < attributes@.len(),
            None => clash_with(attribute_views(attributes@), p as int, 0) is None,
        },
{
    let ghost views = attribute_views(attributes@);
    let mut q: usize = 0;
    while q < attributes.len()
        invariant
            q <= attributes.len(),
            p < attributes@.len(),
            views == attribute_views(attributes@),
            clash_with(views, p as int, 0) == clash_with(views, p as int, q as int),
        decreases attributes.len() - q,
    {
        if q != p && same_name(&attributes[q], &attributes[p]) {
            return Some(q);
        }
        q += 1;
    }
    None
}

/// Rename: the same tuples under a schema in which the listed attributes have
/// their new names. Each entry is resolved against the schema of the operand;
/// an attribute that the operand does not have is reported. A new name that
/// another attribute of the resulting schema has too is refused as
/// incompatible, with the domains of the two attributes.
pub fn rename(renames: &[(Attribute, Name)], operand: &SimpleRelation) -> (r: Result<
    SimpleRelation,
    Error,
>)
    ensures
        match r {
            Ok(relation) => renaming(renames@, operand@) == Ok::<RelationView, ErrorView>(
                relation@,
            ) && relation@.wf() && relation@.rows == operand@.rows,
            Err(e) => renaming(renames@, operand@) == Err::<RelationView, ErrorView>(e@),
        },
{
    let tuples = operand.tuples();
    let schema = operand.schema();
    let ghost original = operand@.attributes;
    let ghost sources = rename_sources(renames@);
    let mut attributes = copy_attributes(&schema.attributes);
    let mut touched: Vec<bool> = Vec::new();
    let mut n: usize = 0;
    while n < schema.attributes.len()
        invariant
            n <= schema.attributes.len(),
            touched@.len() == n,
            forall|k: int| 0 <= k < n ==> !(#[trigger] touched@[k]),
        decreases schema.attributes.len() - n,
    {
        touched.push(false);
        n += 1;
    }
    assert(touched@ =~= Seq::new(original.len(), |i: int| false));
    assert(renames@.take(0) =~= Seq::<(Attribute, Name)>::empty());
    let mut i: usize = 0;
    while i < renames.len()
        invariant
            i <= renames.len(),
            original == attribute_views(schema.attributes@),
            original == operand@.attributes,
            sources == rename_sources(renames@),
            attributes@.len() == original.len(),
            touched@.len() == original.len(),
            first_unresolved(original, sources, 0) == first_unresolved(original, sources, i as int),
            (Renaming { attributes: attribute_views(attributes@), touched: touched@ })
                == apply_renames(original, renames@.take(i as int)),
        decreases renames.len() - i,
    {
        assert(sources[i as int] == renames@[i as int].0);
        let k = match resolve_attribute(&schema.attributes, &renames[i].0) {
            Ok(k) => k,
            Err(e) => {
                return Err(e);
            },
        };
        proof {
            let next = renames@.take(i + 1);
            assert(next.drop_last() =~= renames@.take(i as int));
            assert(next.last() == renames@[i as int]);
        }
        let ghost before = attribute_views(attributes@);
        let domain = attributes[k].data_type;
        attributes.set(k, SimpleAttributeSchema { name: Some(renames[i].1.clone()), data_type: domain });
        touched.set(k, true);
        assert(attribute_views(attributes@) =~= before.update(
            k as int,
            crate::sort::AttributeView { name: Some(renames@[i as int].1@), domain: before[k as int].domain },
        ));
        i += 1;
    }
    assert(renames@.take(i as int) =~= renames@);
    let ghost renamed = apply_renames(original, renames@);
    let mut p: usize = 0;
    while p < attributes.len()
        invariant
            p <= attributes.len(),
            original == operand@.attributes,
            first_unresolved(original, sources, 0) is None,
            sources == rename_sources(renames@),
            renamed == apply_renames(original, renames@),
            renamed == (Renaming { attributes: attribute_views(attributes@), touched: touched@ }),
            attributes@.len() == touched@.len(),
            first_clash(renamed, 0) == first_clash(renamed, p as int),
        decreases attributes.len() - p,
    {
        if touched[p] {
            match find_clash(&attributes, p) {
                Some(q) => {
                    return Err(
                        incompatible_types(attributes[p].data_type, attributes[q].data_type),
                    );
                },
                None => {},
            }
        }
        p += 1;
    }
    proof {
        lemma_renaming(renames@, operand@);
    }
    Ok(
        SimpleRelation::from_parts(
            SimpleRelationSchema { name: schema.name.clone(), attributes },
            copy_tuples(tuples),
        ),
    )
}

/// The keys as mathematical integers.
pub open spec fn key_views(keys: Seq<Option<usize>>) -> Seq<Option<int>> {
    keys.map_values(
        |k: Option<usize>|
            match k {
                Some(i) => Some(i as int),
                None => None,
            },
    )
}

fn find_join_keys(lhs: &Vec<SimpleAttributeSchema>, rhs: &Vec<SimpleAttributeSchema>) -> (r: Vec<
    Option<usize>,
>)
    ensures
        key_views(r@) == join_keys(attribute_views(lhs@), attribute_views(rhs@)),
        forall|j: int|
            0 <= j < r@.len() && (#[trigger] r@[j]) is Some ==> r@[j]->Some_0 < lhs@.len(),
{
    let mut keys: Vec<Option<usize>> = Vec::new();
    let mut j: usize = 0;
    while j < rhs.len()
        invariant
            j <= rhs.len(),
            keys@.len() == j,
            forall|k: int|
                0 <= k < j ==> (match #[trigger] keys@[k] {
                    Some(i) => Some(i as int),
                    None => None::<int>,
                }) == join_keys(attribute_views(lhs@), attribute_views(rhs@))[k],
            forall|k: int|
                0 <= k < j && (#[trigger] keys@[k]) is Some ==> keys@[k]->Some_0 < lhs@.len(),
        decreases rhs.len() - j,
    {
        assert(attribute_views(rhs@)[j as int] == rhs@[j as int]@);
        let key = match &rhs[j].name {
            Some(n) => find_attribute(lhs, n),
            None => None,
        };
        keys.push(key);
        j += 1;
    }
    assert(key_views(keys@) =~= join_keys(attribute_views(lhs@), attribute_views(rhs@)));
    keys
}

fn tuple_agrees(keys: &Vec<Option<usize>>, offset: usize, tuple: &SimpleTuple) -> (r: bool)
    requires
        tuple@.len() == offset + keys@.len(),
        offset + keys@.len() <= usize::MAX,
        forall|j: int| 0 <= j < keys@.len() && (#[trigger] keys@[j]) is Some ==> keys@[j]->Some_0 < offset,
    ensures
        r == keys_agree(key_views(keys@), offset as int, tuple@),
{
    let ghost kv = key_views(keys@);
    let mut j: usize = 0;
    while j < keys.len()
        invariant
            j <= keys.len(),
            kv == key_views(keys@),
            tuple@.len() == offset + keys@.len(),
            offset + keys@.len() <= usize::MAX,
            forall|j: int|
                0 <= j < keys@.len() && (#[trigger] keys@[j]) is Some ==> keys@[j]->Some_0 < offset,
            forall|k: int|
                0 <= k < j && (#[trigger] kv[k]) is Some ==> tuple@[kv[k]->Some_0] == tuple@[offset
                    + k],
        decreases keys.len() - j,
    {
        assert(kv[j as int] == match keys@[j as int] {
            Some(i) => Some(i as int),
            None => None::<int>,
        });
        match keys[j] {
            Some(i) => {
                if !tuple.0[i].same(&tuple.0[offset + j]) {
                    assert(kv[j as int] is Some);
                    return false;
                }
            },
            None => {},
        }
        j += 1;
    }
    true
}

fn join_columns_of(keys: &Vec<Option<usize>>, offset: usize) -> (r: Vec<ResolvedColumn>)
    requires
        offset + keys@.len() <= usize::MAX,
    ensures
        column_views(r@) == join_columns(key_views(keys@), offset as int),
        columns_valid(column_views(r@), offset + keys@.len()),
{
    let ghost kv = key_views(keys@);
    let mut positions: Vec<usize> = Vec::new();
    let mut i: usize = 0;
    while i < offset
        invariant
            i <= offset,
            positions@.len() == i,
            forall|k: int| 0 <= k < i ==> (#[trigger] positions@[k]) == k,
        decreases offset - i,
    {
        positions.push(i);
        i += 1;
    }
    let ghost left = position_views(positions@);
    assert(left =~= Seq::new(offset as nat, |i: int| i));
    let mut j: usize = 0;
    assert(unshared(kv, 0).take(0) =~= Seq::<int>::empty());
    let ghost mut done: Seq<int> = Seq::empty();
    while j < keys.len()
        invariant
            j <= keys.len(),
            kv == key_views(keys@),
            offset + keys@.len() <= usize::MAX,
            left == Seq::new(offset as nat, |i: int| i),
            unshared(kv, 0) == done + unshared(kv, j as int),
            position_views(positions@) == left + done.map_values(|x: int| offset + x),
            forall|k: int| 0 <= k < positions@.len() ==> (#[trigger] positions@[k]) < offset + keys@.len(),
        decreases keys.len() - j,
    {
        assert(kv[j as int] is None == keys@[j as int] is None);
        if keys[j].is_none() {
            let ghost before = position_views(positions@);
            positions.push(offset + j);
            proof {
                let next = done.push(j as int);
                assert(next + unshared(kv, j + 1) =~= done + unshared(kv, j as int));
                assert(position_views(positions@) =~= before.push((offset + j) as int));
                assert(next.map_values(|x: int| offset + x) =~= done.map_values(
                    |x: int| offset + x,
                ).push(offset + j));
                assert(position_views(positions@) =~= left + next.map_values(|x: int| offset + x));
                done = next;
            }
        }
        j += 1;
    }
    assert(done + unshared(kv, j as int) =~= done);
    let columns = columns_of(&positions);
    proof {
        assert(column_views(columns@) == join_columns(kv, offset as int));
        assert forall|k: int|
            0 <= k < columns@.len() && (#[trigger] column_views(columns@)[k]) is Source implies 0
            <= column_views(columns@)[k]->Source_0 < offset + keys@.len() by {
            assert(column_views(columns@)[k] == Column::Source(positions@[k] as int));
        }
    }
    columns
}

/// Natural join: the pairs of a tuple of the left and a tuple of the right
/// that have the same value under each attribute name that both schemas have,
/// with one copy of each such attribute: the attributes of the left, then
/// those of the right that the left does not have by name. Attributes of the
/// same name must have the same domain.
pub fn natural_join(lhs: &SimpleRelation, rhs: &SimpleRelation) -> (r: Result<SimpleRelation, Error>)
    ensures
        match r {
            Ok(relation) => natural_join_of(lhs@, rhs@) == Ok::<RelationView, ErrorView>(
                relation@,
            ) && relation@.wf(),
            Err(e) => natural_join_of(lhs@, rhs@) == Err::<RelationView, ErrorView>(e@),
        },
{
    let left = &lhs.schema().attributes;
    let right = &rhs.schema().attributes;
    let ghost lv = attribute_views(left@);
    let ghost rv = attribute_views(right@);
    let keys = find_join_keys(left, right);
    let ghost kv = key_views(keys@);
    let mut j: usize = 0;
    while j < right.len()
        invariant
            j <= right.len(),
            keys@.len() == right@.len(),
            lv == attribute_views(left@),
            rv == attribute_views(right@),
            lv == lhs@.attributes,
            rv == rhs@.attributes,
            kv == key_views(keys@),
            kv == join_keys(lv, rv),
            forall|j: int|
                0 <= j < keys@.len() && (#[trigger] keys@[j]) is Some ==> keys@[j]->Some_0
                    < left@.len(),
            first_key_mismatch(lv, rv, 0) == first_key_mismatch(lv, rv, j as int),
        decreases right.len() - j,
    {
        assert(kv[j as int] == match keys@[j as int] {
            Some(i) => Some(i as int),
            None => None::<int>,
        });
        match keys[j] {
            Some(i) => {
                assert(lv[i as int] == left@[i as int]@);
                assert(rv[j as int] == right@[j as int]@);
                if left[i].data_type != right[j].data_type {
                    return Err(incompatible_types(left[i].data_type, right[j].data_type));
                }
            },
            None => {},
        }
        j += 1;
    }
    let all = cartesian_product(lhs, rhs);
    let width = all.schema().attributes.len();
    assert(width == left@.len() + keys@.len());
    let pairs = all.tuples();
    let offset = left.len();
    let ghost rows = rows_of(pairs@);
    let ghost keep = agreement(kv, offset as int);
    let mut kept: Vec<SimpleTuple> = Vec::new();
    let mut i: usize = 0;
    assert(rows.take(0) =~= Seq::<Seq<ValueView>>::empty());
    while i < pairs.len()
        invariant
            i <= pairs.len(),
            rows == rows_of(pairs@),
            rows == all@.rows,
            all@.wf(),
            all@.attributes.len() == offset + keys@.len(),
            offset + keys@.len() <= usize::MAX,
            kv == key_views(keys@),
            keep == agreement(kv, offset as int),
            forall|j: int|
                0 <= j < keys@.len() && (#[trigger] keys@[j]) is Some ==> keys@[j]->Some_0 < offset,
            rows_of(kept@) == filter_rows(rows.take(i as int), keep),
        decreases pairs.len() - i,
    {
        proof {
            let next = rows.take(i + 1);
            assert(next.drop_last() =~= rows.take(i as int));
            assert(next.last() == rows[i as int]);
            assert(crate::data::row_conforms(all@.attributes, rows[i as int]));
        }
        if tuple_agrees(&keys, offset, &pairs[i]) {
            kept.push(pairs[i].duplicate());
            assert(rows_of(kept@) =~= filter_rows(rows.take(i + 1), keep));
        }
        i += 1;
    }
    assert(rows.take(i as int) =~= rows);
    proof {
        lemma_filter_rows(rows, keep);
        assert forall|k: int| 0 <= k < rows_of(kept@).len() implies crate::data::row_conforms(
            all@.attributes,
            #[trigger] rows_of(kept@)[k],
        ) by {
            let t = rows_of(kept@)[k];
            assert(rows_of(kept@).contains(t));
            let x = choose|x: int| 0 <= x < rows.len() && rows[x] == t;
            assert(crate::data::row_conforms(all@.attributes, rows[x]));
        }
    }
    let matching = SimpleRelation::from_parts(all.schema().duplicate(), kept);
    let columns = join_columns_of(&keys, offset);
    Ok(project_with(&columns, &matching))
}

/// Theta join: the pairs of a tuple of the left and a tuple of the right of
/// which the criteria is true, under the attributes of the left followed by
/// those of the right. The criteria refers to the attributes of the pair: an
/// index of an attribute of the right is its index there plus the number of
/// attributes of the left.
pub fn theta_join(lhs: &SimpleRelation, criteria: &Term, rhs: &SimpleRelation) -> (r: Result<
    SimpleRelation,
    Error,
>)
    ensures
        match r {
            Ok(relation) => theta_join_of(lhs@, *criteria, rhs@) == Ok::<
                RelationView,
                ErrorView,
            >(relation@) && relation@.wf(),
            Err(e) => theta_join_of(lhs@, *criteria, rhs@) == Err::<RelationView, ErrorView>(e@),
        },
{
    let all = cartesian_product(lhs, rhs);
    select(criteria, &all)
}

/// The views of a sequence of relations.
pub open spec fn relation_views(relations: Seq<SimpleRelation>) -> Seq<RelationView> {
    relations.map_values(|r: SimpleRelation| r@)
}

/// Finds the relation that a name refers to: of two relations of one name the
/// later.
pub fn find_relation<'a>(relations: &'a Vec<SimpleRelation>, name: &Name) -> (r: Option<
    &'a SimpleRelation,
>)
    ensures
        match r {
            Some(relation) => lookup(relation_views(relations@), name@, relations@.len() as int)
                is Some && relation@ == relation_views(relations@)[lookup(
                relation_views(relations@),
                name@,
                relations@.len() as int,
            )->Some_0],
            None => lookup(relation_views(relations@), name@, relations@.len() as int) is None,
        },
{
    let ghost views = relation_views(relations@);
    let mut until: usize = relations.len();
    while until > 0
        invariant
            until <= relations.len(),
            views == relation_views(relations@),
            lookup(views, name@, relations@.len() as int) == lookup(views, name@, until as int),
        decreases until,
    {
        if *relations[until - 1].schema().name() == *name {
            return Some(&relations[until - 1]);
        }
        until -= 1;
    }
    None
}

/// Evaluates an operation, given the relations that names refer to. The
/// result is the relation that the operation denotes; the first error met,
/// operands before operators and left before right, ends the evaluation.
pub fn evaluate_expression(op: &RelationalOp, relations: &Vec<SimpleRelation>) -> (r: Result<
    SimpleRelation,
    Error,
>)
    ensures
        match r {
            Ok(relation) => evaluation(*op, relation_views(relations@)) == Ok::<
                RelationView,
                ErrorView,
            >(relation@) && relation@.wf(),
            Err(e) => evaluation(*op, relation_views(relations@)) == Err::<
                RelationView,
                ErrorView,
            >(e@),
        },
    decreases *op,
{
    match op {
        RelationalOp::Relation(n) => {
            match find_relation(relations, n) {
                Some(relation) => Ok(relation.duplicate()),
                None => Err(crate::error::relation_does_not_exist(n.clone())),
            }
        },
        RelationalOp::SetOperation(s) => {
            let lhs = match evaluate_expression(&s.lhs, relations) {
                Ok(v) => v,
                Err(e) => {
                    return Err(e);
                },
            };
            let rhs = match evaluate_expression(&s.rhs, relations) {
                Ok(v) => v,
                Err(e) => {
                    return Err(e);
                },
            };
            apply_set_operation(s.op, &lhs, &rhs)
        },
        RelationalOp::Selection(s) => {
            match evaluate_expression(&s.rhs, relations) {
                Ok(rhs) => select(&s.criteria, &rhs),
                Err(e) => Err(e),
            }
        },
        RelationalOp::Projection(s) => {
            match evaluate_expression(&s.rhs, relations) {
                Ok(rhs) => project(&s.attributes, &rhs),
                Err(e) => Err(e),
            }
        },
        RelationalOp::Rename(s) => {
            match evaluate_expression(&s.rhs, relations) {
                Ok(rhs) => rename(&s.renames, &rhs),
                Err(e) => Err(e),
            }
        },
        RelationalOp::Order(s) => {
            match evaluate_expression(&s.rhs, relations) {
                Ok(rhs) => sort(&s.attributes, &rhs),
                Err(e) => Err(e),
            }
        },
        RelationalOp::Group(s) => {
            match evaluate_expression(&s.rhs, relations) {
                Ok(rhs) => group(&s.attributes, &rhs),
                Err(e) => Err(e),
            }
        },
        RelationalOp::Join(Join::Natural(s)) => {
            let lhs = match evaluate_expression(&s.lhs, relations) {
                Ok(v) => v,
                Err(e) => {
                    return Err(e);
                },
            };
            let rhs = match evaluate_expression(&s.rhs, relations) {
                Ok(v) => v,
                Err(e) => {
                    return Err(e);
                },
            };
            natural_join(&lhs, &rhs)
        },
        RelationalOp::Join(Join::Theta(s)) => {
            let lhs = match evaluate_expression(&s.lhs, relations) {
                Ok(v) => v,
                Err(e) => {
                    return Err(e);
                },
            };
            let rhs = match evaluate_expression(&s.rhs, relations) {
                Ok(v) => v,
                Err(e) => {
                    return Err(e);
                },
            };
            theta_join(&lhs, &s.criteria, &rhs)
        },
    }
}

/// Evaluates the expressions of a list in order. The result of an expression
/// that has a name is bound to it: it is added to `relations` under that
/// name, where the expressions after it find it. Gives the results in order,
/// or the error of the first expression that fails; what was bound before a
/// failure stays bound.
pub fn evaluate_expression_list(list: &ExpressionList, relations: &mut Vec<SimpleRelation>) -> (r:
    Result<Vec<SimpleRelation>, Error>)
    ensures
        match r {
            Ok(results) => list_evaluation(list.0@, relation_views(old(relations)@), 0) == Ok::<
                Seq<RelationView>,
                ErrorView,
            >(relation_views(results@)),
            Err(e) => list_evaluation(list.0@, relation_views(old(relations)@), 0) == Err::<
                Seq<RelationView>,
                ErrorView,
            >(e@),
        },
        relation_views(final(relations)@) == list_environment(
            list.0@,
            relation_views(old(relations)@),
            0,
        ),
{
    let ghost start = relation_views(relations@);
    let mut results: Vec<SimpleRelation> = Vec::new();
    let mut i: usize = 0;
    assert(relation_views(results@) =~= Seq::<RelationView>::empty());
    while i < list.0.len()
        invariant
            i <= list.0.len(),
            start == relation_views(old(relations)@),
            list_environment(list.0@, start, 0) == list_environment(
                list.0@,
                relation_views(relations@),
                i as int,
            ),
            list_evaluation(list.0@, start, 0) == match list_evaluation(
                list.0@,
                relation_views(relations@),
                i as int,
            ) {
                Ok(rest) => Ok::<Seq<RelationView>, ErrorView>(relation_views(results@) + rest),
                Err(e) => Err::<Seq<RelationView>, ErrorView>(e),
            },
        decreases list.0.len() - i,
    {
        let expression = &list.0[i];
        let ghost before = relation_views(relations@);
        let ghost done = relation_views(results@);
        let result = match evaluate_expression(&expression.expr, relations) {
            Ok(v) => v,
            Err(e) => {
                return Err(e);
            },
        };
        let ghost plain = result@;
        let result = match &expression.name {
            Some(n) => {
                let named = result.named(n.clone());
                relations.push(named.duplicate());
                named
            },
            None => result,
        };
        results.push(result);
        proof {
            assert(relation_views(relations@) =~= extended(before, *expression, plain));
            assert(relation_views(results@) =~= done.push(bound(*expression, plain)));
            match list_evaluation(list.0@, relation_views(relations@), i + 1) {
                Ok(rest) => {
                    assert(done + (seq![bound(*expression, plain)] + rest) =~= relation_views(
                        results@,
                    ) + rest);
                },
                Err(_) => {},
            }
        }
        i += 1;
    }
    assert(relation_views(results@) + Seq::<RelationView>::empty() =~= relation_views(results@));
    Ok(results)
}

/// Analyzes an operation against a schema: gives the schema of the relation
/// that the operation denotes where no relation has a tuple, or the error
/// that evaluation meets there. A name that the schema does not have, an
/// attribute that an operand does not have, operands of a set operation that
/// are not union-compatible and a rename that clashes are found this way; what
/// depends on the tuples is not.
pub fn analyze_expression(op: &RelationalOp, schema: &SimpleSchema) -> (r: Result<
    SimpleRelationSchema,
    Error,
>)
    ensures
        match r {
            Ok(result) => analysis(*op, schema@.relations) == Ok::<RelationSchemaView, ErrorView>(
                result@,
            ),
            Err(e) => analysis(*op, schema@.relations) == Err::<RelationSchemaView, ErrorView>(
                e@,
            ),
        },
{
    let mut relations: Vec<SimpleRelation> = Vec::new();
    let mut i: usize = 0;
    while i < schema.relations.len()
        invariant
            i <= schema.relations.len(),
            relations@.len() == i,
            forall|k: int|
                0 <= k < i ==> (#[trigger] relations@[k])@ == empty_relation(
                    schema.relations@[k]@,
                ),
        decreases schema.relations.len() - i,
    {
        relations.push(SimpleRelation::empty(schema.relations[i].duplicate()));
        i += 1;
    }
    assert(relation_views(relations@) =~= schema@.relations.map_values(
        |s: RelationSchemaView| empty_relation(s),
    ));
    match evaluate_expression(op, &relations) {
        Ok(result) => Ok(result.into_schema()),
        Err(e) => Err(e),
    }
}

} // verus!
