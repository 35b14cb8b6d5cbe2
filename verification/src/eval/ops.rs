//! The operators of the algebra as traits, and their implementation for
//! relations held in memory.

use crate::Name;
use crate::ast::{Attribute, SetOperator, Term};
use crate::data::RelationView;
use crate::error::{Error, ErrorView};
use crate::eval::semantics::{
    grouping, natural_join, ordering, product, renaming, selection, set_operation, theta_join,
    truth,
};
use crate::simple::data::SimpleRelation;
use vstd::prelude::*;

verus! {

/// Intersection, `∩`.
pub trait Intersect<Rhs = Self> {
    type Output;

    fn intersect(self, rhs: Rhs) -> Self::Output;
}

/// Union, `∪`.
pub trait Union<Rhs = Self> {
    type Output;

    fn union(self, rhs: Rhs) -> Self::Output;
}

/// Difference, `∖`.
pub trait Difference<Rhs = Self> {
    type Output;

    fn difference(self, rhs: Rhs) -> Self::Output;
}

/// Cartesian product, `×`.
pub trait CartesianProduct<Rhs = Self> {
    type Output;

    fn cartesian_product(self, rhs: Rhs) -> Self::Output;
}

/// Selection, `σ`.
pub trait Select {
    type Output;

    fn select(self, criteria: Term) -> Self::Output;
}

/// Projection, `π`.
pub trait Project {
    type Output;

    fn project(self, attributes: &[Attribute]) -> Self::Output;
}

/// Ordering, `τ`.
pub trait Sort {
    type Output;

    fn sort(self, attributes: &[Attribute]) -> Self::Output;
}

/// Grouping, `γ`.
pub trait Group {
    type Output;

    fn group(self, attributes: &[Attribute]) -> Self::Output;
}

/// Natural join, `⨝`.
pub trait NaturalJoin<Rhs = Self> {
    type Output;

    fn natural_join(self, rhs: Rhs) -> Self::Output;
}

/// Theta join, `θ`.
pub trait ThetaJoin<Rhs = Self> {
    type Output;

    fn theta_join(self, criteria: Term, rhs: Rhs) -> Self::Output;
}

/// Rename, `ρ`.
pub trait Rename {
    type Output;

    fn rename(self, source: Attribute, target: Name) -> Self::Output;

    fn rename_all(self, names: Vec<(Attribute, Name)>) -> Self::Output;
}

impl<'a> Intersect<&'a SimpleRelation> for &'a SimpleRelation {
    type Output = Result<SimpleRelation, Error>;

    fn intersect(self, rhs: &'a SimpleRelation) -> (r: Result<SimpleRelation, Error>)
        ensures
            match r {
                Ok(relation) => set_operation(SetOperator::Intersection, self@, rhs@) == Ok::<
                    RelationView,
                    ErrorView,
                >(relation@) && relation@.tuple_set() == self@.tuple_set().intersect(
                    rhs@.tuple_set(),
                ),
                Err(e) => set_operation(SetOperator::Intersection, self@, rhs@) == Err::<
                    RelationView,
                    ErrorView,
                >(e@),
            },
    {
        crate::eval::intersect(self, rhs)
    }
}

impl<'a> Union<&'a SimpleRelation> for &'a SimpleRelation {
    type Output = Result<SimpleRelation, Error>;

    fn union(self, rhs: &'a SimpleRelation) -> (r: Result<SimpleRelation, Error>)
        ensures
            match r {
                Ok(relation) => set_operation(SetOperator::Union, self@, rhs@) == Ok::<
                    RelationView,
                    ErrorView,
                >(relation@) && relation@.tuple_set() == self@.tuple_set().union(rhs@.tuple_set()),
                Err(e) => set_operation(SetOperator::Union, self@, rhs@) == Err::<
                    RelationView,
                    ErrorView,
                >(e@),
            },
    {
        crate::eval::union(self, rhs)
    }
}

impl<'a> Difference<&'a SimpleRelation> for &'a SimpleRelation {
    type Output = Result<SimpleRelation, Error>;

    fn difference(self, rhs: &'a SimpleRelation) -> (r: Result<SimpleRelation, Error>)
        ensures
            match r {
                Ok(relation) => set_operation(SetOperator::Difference, self@, rhs@) == Ok::<
                    RelationView,
                    ErrorView,
                >(relation@) && relation@.tuple_set() == self@.tuple_set().difference(
                    rhs@.tuple_set(),
                ),
                Err(e) => set_operation(SetOperator::Difference, self@, rhs@) == Err::<
                    RelationView,
                    ErrorView,
                >(e@),
            },
    {
        crate::eval::difference(self, rhs)
    }
}

impl<'a> CartesianProduct<&'a SimpleRelation> for &'a SimpleRelation {
    type Output = SimpleRelation;

    fn cartesian_product(self, rhs: &'a SimpleRelation) -> (r: SimpleRelation)
        ensures
            r@ == product(self@, rhs@),
            r@.rows.len() == self@.rows.len() * rhs@.rows.len(),
    {
        crate::eval::cartesian_product(self, rhs)
    }
}

impl<'a> Select for &'a SimpleRelation {
    type Output = Result<SimpleRelation, Error>;

    fn select(self, criteria: Term) -> (r: Result<SimpleRelation, Error>)
        ensures
            match r {
                Ok(relation) => selection(criteria, self@) == Ok::<RelationView, ErrorView>(
                    relation@,
                ) && relation@.tuple_set() == self@.tuple_set().filter(
                    truth(criteria, self@.attributes),
                ),
                Err(e) => selection(criteria, self@) == Err::<RelationView, ErrorView>(e@),
            },
    {
        crate::eval::select(&criteria, self)
    }
}

impl<'a> Project for &'a SimpleRelation {
    type Output = Result<SimpleRelation, Error>;

    fn project(self, attributes: &[Attribute]) -> (r: Result<SimpleRelation, Error>)
        ensures
            match r {
                Ok(relation) => grouping(attributes@, self@) == Ok::<RelationView, ErrorView>(
                    relation@,
                ),
                Err(e) => grouping(attributes@, self@) == Err::<RelationView, ErrorView>(e@),
            },
    {
        crate::eval::group(attributes, self)
    }
}

impl<'a> Sort for &'a SimpleRelation {
    type Output = Result<SimpleRelation, Error>;

    fn sort(self, attributes: &[Attribute]) -> (r: Result<SimpleRelation, Error>)
        ensures
            match r {
                Ok(relation) => ordering(attributes@, self@) == Ok::<RelationView, ErrorView>(
                    relation@,
                ) && relation@.tuple_set() == self@.tuple_set(),
                Err(e) => ordering(attributes@, self@) == Err::<RelationView, ErrorView>(e@),
            },
    {
        crate::eval::sort(attributes, self)
    }
}

impl<'a> Group for &'a SimpleRelation {
    type Output = Result<SimpleRelation, Error>;

    fn group(self, attributes: &[Attribute]) -> (r: Result<SimpleRelation, Error>)
        ensures
            match r {
                Ok(relation) => grouping(attributes@, self@) == Ok::<RelationView, ErrorView>(
                    relation@,
                ),
                Err(e) => grouping(attributes@, self@) == Err::<RelationView, ErrorView>(e@),
            },
    {
        crate::eval::group(attributes, self)
    }
}

impl<'a> NaturalJoin<&'a SimpleRelation> for &'a SimpleRelation {
    type Output = Result<SimpleRelation, Error>;

    fn natural_join(self, rhs: &'a SimpleRelation) -> (r: Result<SimpleRelation, Error>)
        ensures
            match r {
                Ok(relation) => natural_join(self@, rhs@) == Ok::<RelationView, ErrorView>(
                    relation@,
                ),
                Err(e) => natural_join(self@, rhs@) == Err::<RelationView, ErrorView>(e@),
            },
    {
        crate::eval::natural_join(self, rhs)
    }
}

impl<'a> ThetaJoin<&'a SimpleRelation> for &'a SimpleRelation {
    type Output = Result<SimpleRelation, Error>;

    fn theta_join(self, criteria: Term, rhs: &'a SimpleRelation) -> (r: Result<
        SimpleRelation,
        Error,
    >)
        ensures
            match r {
                Ok(relation) => theta_join(self@, criteria, rhs@) == Ok::<
                    RelationView,
                    ErrorView,
                >(relation@),
                Err(e) => theta_join(self@, criteria, rhs@) == Err::<RelationView, ErrorView>(e@),
            },
    {
        crate::eval::theta_join(self, &criteria, rhs)
    }
}

impl<'a> Rename for &'a SimpleRelation {
    type Output = Result<SimpleRelation, Error>;

    fn rename(self, source: Attribute, target: Name) -> (r: Result<SimpleRelation, Error>)
        ensures
            match r {
                Ok(relation) => renaming(seq![(source, target)], self@) == Ok::<
                    RelationView,
                    ErrorView,
                >(relation@),
                Err(e) => renaming(seq![(source, target)], self@) == Err::<
                    RelationView,
                    ErrorView,
                >(e@),
            },
    {
        let mut names: Vec<(Attribute, Name)> = Vec::new();
        names.push((source, target));
        assert(names@ =~= seq![(source, target)]);
        crate::eval::rename(names.as_slice(), self)
    }

    fn rename_all(self, names: Vec<(Attribute, Name)>) -> (r: Result<SimpleRelation, Error>)
        ensures
            match r {
                Ok(relation) => renaming(names@, self@) == Ok::<RelationView, ErrorView>(
                    relation@,
                ),
                Err(e) => renaming(names@, self@) == Err::<RelationView, ErrorView>(e@),
            },
    {
        crate::eval::rename(names.as_slice(), self)
    }
}

} // verus!
