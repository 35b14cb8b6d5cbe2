//! The in-memory model of relational algebra expressions.
//!
//! | Operator                 | Symbol | Infix | Arguments  |
//! | ------------------------ | ------ | ----- | ---------- |
//! | set union                | `∪`    | Yes   | No         |
//! | set intersection         | `∩`    | Yes   | No         |
//! | set difference           | `∖`    | Yes   | No         |
//! | set symmetric difference | `△`    | Yes   | No         |
//! | set cartesian product    | `×`    | Yes   | No         |
//! | selection                | `σ`    | No    | Criteria   |
//! | projection               | `π`    | No    | Attributes |
//! | rename                   | `ρ`    | No    | Attributes |
//! | order                    | `τ`    | No    | Attributes |
//! | group                    | `γ`    | No    | Attributes |
//! | natural join             | `⨝`    | Yes   | No         |
//! | theta join               | `⨝`    | Yes   | Criteria   |
//!
//! A projection may include constant values as well as attributes. A
//! projection with no attributes is not an expression: the relation itself is
//! written instead.

use crate::Name;
use crate::data::Value;
use crate::error::{Error, ErrorView};
use vstd::prelude::*;
use vstd::std_specs::convert::{FromSpecImpl, IntoSpec};
pub use crate::format::{Format, format_relational};

verus! {

/// A relational operation, bound to a name or bare.
#[derive(Clone, Debug, PartialEq)]
pub struct Expression {
    pub name: Option<Name>,
    pub expr: RelationalOp,
}

/// A sequence of expressions; a later one may refer to the name of an earlier
/// one.
#[derive(Clone, Debug, PartialEq)]
pub struct ExpressionList(pub Vec<Expression>);

/// One node of an expression tree.
#[derive(Debug, PartialEq)]
pub enum RelationalOp {
    Relation(Name),
    SetOperation(SetOperation),
    Selection(Selection),
    Projection(Projection),
    Rename(Rename),
    Order(Order),
    Group(Group),
    Join(Join),
}

/// A set operation between two relational operations.
#[derive(Debug, PartialEq)]
pub struct SetOperation {
    pub lhs: Box<RelationalOp>,
    pub op: SetOperator,
    pub rhs: Box<RelationalOp>,
}

/// The operators between two sets of tuples.
#[derive(Clone, Copy, Debug, PartialEq, Eq, Structural)]
pub enum SetOperator {
    /// The union, `∪`, of two sets.
    Union,
    /// The intersection, `∩`, of two sets.
    Intersection,
    /// The difference, `∖`, of two sets.
    Difference,
    /// The symmetric difference, `△`, of two sets.
    SymmetricDifference,
    /// The cartesian product, `×`, of two sets.
    CartesianProduct,
}

/// The tuples of an operand that meet a criteria.
#[derive(Debug, PartialEq)]
pub struct Selection {
    pub criteria: Term,
    pub rhs: Box<RelationalOp>,
}

/// A reference to a column, by position or by name.
#[derive(Clone, Debug, PartialEq, Eq, PartialOrd, Ord, Hash)]
pub enum Attribute {
    Index(usize),
    Name(Name),
}

/// A condition on one tuple.
#[derive(Debug, PartialEq)]
pub enum Term {
    Constant(Value),
    Exists(Attribute),
    Atom(Atom),
    Negate(Box<Term>),
    And(Box<Term>, Box<Term>),
    Or(Box<Term>, Box<Term>),
}

/// A comparison of a column with a column or a constant.
#[derive(Clone, Debug, PartialEq)]
pub struct Atom {
    pub lhs: Attribute,
    pub op: ComparisonOperator,
    pub rhs: ProjectedAttribute,
}

/// The operators that compare two values.
#[derive(Clone, Copy, Debug, PartialEq, Eq, Structural)]
pub enum ComparisonOperator {
    Equal,
    NotEqual,
    LessThan,
    LessThanOrEqual,
    GreaterThan,
    GreaterThanOrEqual,
    StringMatch,
    StringNotMatch,
}

/// The listed columns and constants of each tuple of an operand.
#[derive(Debug, PartialEq)]
pub struct Projection {
    pub attributes: Vec<ProjectedAttribute>,
    pub rhs: Box<RelationalOp>,
}

/// A column of a projection: a column of the operand, or a constant.
#[derive(Clone, Debug, PartialEq)]
pub enum ProjectedAttribute {
    Index(usize),
    Name(Name),
    Constant(Value),
}

/// An operand with some of its attributes renamed. Each entry pairs the
/// attribute to rename with its new name.
#[derive(Debug, PartialEq)]
pub struct Rename {
    pub renames: Vec<(Attribute, Name)>,
    pub rhs: Box<RelationalOp>,
}

/// The tuples of an operand in the order of the listed attributes.
#[derive(Debug, PartialEq)]
pub struct Order {
    pub attributes: Vec<Attribute>,
    pub rhs: Box<RelationalOp>,
}

/// The tuples of an operand grouped by the listed attributes.
#[derive(Debug, PartialEq)]
pub struct Group {
    pub attributes: Vec<Attribute>,
    pub rhs: Box<RelationalOp>,
}

/// A join of two operands, natural or on a criteria.
#[derive(Debug, PartialEq)]
pub enum Join {
    Natural(NaturalJoin),
    Theta(ThetaJoin),
}

/// The join of two operands on the attributes that have the same name in both.
#[derive(Debug, PartialEq)]
pub struct NaturalJoin {
    pub lhs: Box<RelationalOp>,
    pub rhs: Box<RelationalOp>,
}

/// The join of two operands on a criteria over the attributes of both.
#[derive(Debug, PartialEq)]
pub struct ThetaJoin {
    pub lhs: Box<RelationalOp>,
    pub criteria: Term,
    pub rhs: Box<RelationalOp>,
}

/// The four notations in which an expression can be written.
#[derive(Clone, Copy, Debug, PartialEq, Eq, Structural, Hash)]
pub enum DisplayFormat {
    ToStringUnicode,
    ToStringAscii,
    Latex,
    Html,
}

impl<T: Into<RelationalOp>> From<T> for Expression {
    fn from(v: T) -> (r: Self) {
        Expression { name: None, expr: v.into() }
    }
}

impl<T: Into<RelationalOp>> FromSpecImpl<T> for Expression {
    open spec fn obeys_from_spec() -> bool {
        <T as IntoSpec<RelationalOp>>::obeys_into_spec()
    }

    open spec fn from_spec(v: T) -> Self {
        Expression { name: None, expr: v.into_spec() }
    }
}

impl Expression {
    /// A bare expression.
    pub fn new<S>(expr: S) -> (r: Self) where S: Into<RelationalOp>
        ensures
            r.name is None,
            <S as IntoSpec<RelationalOp>>::obeys_into_spec() ==> r.expr == expr.into_spec(),
    {
        Expression { name: None, expr: expr.into() }
    }

    /// An expression bound to `name`.
    pub fn named<S>(name: Name, expr: S) -> (r: Self) where S: Into<RelationalOp>
        ensures
            r.name == Some(name),
            <S as IntoSpec<RelationalOp>>::obeys_into_spec() ==> r.expr == expr.into_spec(),
    {
        Expression { name: Some(name), expr: expr.into() }
    }

    /// The name that the expression is bound to, if any.
    pub fn name(&self) -> (r: Option<&Name>)
        ensures
            r is Some == self.name is Some,
            r is Some ==> *r->Some_0 == self.name->Some_0,
    {
        self.name.as_ref()
    }

    /// The operation of the expression.
    pub fn expression(&self) -> (r: &RelationalOp)
        ensures
            *r == self.expr,
    {
        &self.expr
    }
}

impl From<Expression> for ExpressionList {
    fn from(v: Expression) -> (r: Self)
        ensures
            r.0@ == seq![v],
    {
        let mut list: Vec<Expression> = Vec::new();
        list.push(v);
        assert(list@ =~= seq![v]);
        ExpressionList(list)
    }
}

impl FromSpecImpl<Expression> for ExpressionList {
    open spec fn obeys_from_spec() -> bool {
        false
    }

    open spec fn from_spec(v: Expression) -> Self {
        arbitrary()
    }
}

impl From<Vec<Expression>> for ExpressionList {
    fn from(v: Vec<Expression>) -> (r: Self) {
        ExpressionList(v)
    }
}

impl FromSpecImpl<Vec<Expression>> for ExpressionList {
    open spec fn obeys_from_spec() -> bool {
        true
    }

    open spec fn from_spec(v: Vec<Expression>) -> Self {
        ExpressionList(v)
    }
}

impl ExpressionList {
    /// The expressions, in order.
    pub fn expressions(&self) -> (r: &Vec<Expression>)
        ensures
            *r == self.0,
    {
        &self.0
    }
}

impl From<Name> for RelationalOp {
    fn from(v: Name) -> (r: Self) {
        RelationalOp::Relation(v)
    }
}

impl FromSpecImpl<Name> for RelationalOp {
    open spec fn obeys_from_spec() -> bool {
        true
    }

    open spec fn from_spec(v: Name) -> Self {
        RelationalOp::Relation(v)
    }
}

impl From<SetOperation> for RelationalOp {
    fn from(v: SetOperation) -> (r: Self) {
        RelationalOp::SetOperation(v)
    }
}

impl FromSpecImpl<SetOperation> for RelationalOp {
    open spec fn obeys_from_spec() -> bool {
        true
    }

    open spec fn from_spec(v: SetOperation) -> Self {
        RelationalOp::SetOperation(v)
    }
}

impl From<Selection> for RelationalOp {
    fn from(v: Selection) -> (r: Self) {
        RelationalOp::Selection(v)
    }
}

impl FromSpecImpl<Selection> for RelationalOp {
    open spec fn obeys_from_spec() -> bool {
        true
    }

    open spec fn from_spec(v: Selection) -> Self {
        RelationalOp::Selection(v)
    }
}

impl From<Projection> for RelationalOp {
    fn from(v: Projection) -> (r: Self) {
        RelationalOp::Projection(v)
    }
}

impl FromSpecImpl<Projection> for RelationalOp {
    open spec fn obeys_from_spec() -> bool {
        true
    }

    open spec fn from_spec(v: Projection) -> Self {
        RelationalOp::Projection(v)
    }
}

impl From<Join> for RelationalOp {
    fn from(v: Join) -> (r: Self) {
        RelationalOp::Join(v)
    }
}

impl FromSpecImpl<Join> for RelationalOp {
    open spec fn obeys_from_spec() -> bool {
        true
    }

    open spec fn from_spec(v: Join) -> Self {
        RelationalOp::Join(v)
    }
}

impl From<NaturalJoin> for RelationalOp {
    fn from(v: NaturalJoin) -> (r: Self) {
        RelationalOp::Join(Join::Natural(v))
    }
}

impl FromSpecImpl<NaturalJoin> for RelationalOp {
    open spec fn obeys_from_spec() -> bool {
        true
    }

    open spec fn from_spec(v: NaturalJoin) -> Self {
        RelationalOp::Join(Join::Natural(v))
    }
}

impl From<ThetaJoin> for RelationalOp {
    fn from(v: ThetaJoin) -> (r: Self) {
        RelationalOp::Join(Join::Theta(v))
    }
}

impl FromSpecImpl<ThetaJoin> for RelationalOp {
    open spec fn obeys_from_spec() -> bool {
        true
    }

    open spec fn from_spec(v: ThetaJoin) -> Self {
        RelationalOp::Join(Join::Theta(v))
    }
}

impl From<Rename> for RelationalOp {
    fn from(v: Rename) -> (r: Self) {
        RelationalOp::Rename(v)
    }
}

impl FromSpecImpl<Rename> for RelationalOp {
    open spec fn obeys_from_spec() -> bool {
        true
    }

    open spec fn from_spec(v: Rename) -> Self {
        RelationalOp::Rename(v)
    }
}

impl From<Order> for RelationalOp {
    fn from(v: Order) -> (r: Self) {
        RelationalOp::Order(v)
    }
}

impl FromSpecImpl<Order> for RelationalOp {
    open spec fn obeys_from_spec() -> bool {
        true
    }

    open spec fn from_spec(v: Order) -> Self {
        RelationalOp::Order(v)
    }
}

impl From<Group> for RelationalOp {
    fn from(v: Group) -> (r: Self) {
        RelationalOp::Group(v)
    }
}

impl FromSpecImpl<Group> for RelationalOp {
    open spec fn obeys_from_spec() -> bool {
        true
    }

    open spec fn from_spec(v: Group) -> Self {
        RelationalOp::Group(v)
    }
}

impl RelationalOp {

    /// A reference to the relation named `s`, which must be a legal name.
    pub fn relation(s: &str) -> (r: Result<Self, Error>)
        ensures
            crate::is_valid_name(s@) ==> r is Ok && r->Ok_0 is Relation && r->Ok_0->Relation_0@
                == s@,
            !crate::is_valid_name(s@) ==> r is Err && r->Err_0@ == (ErrorView::InvalidName {
                value: s@,
            }),
    {
        match Name::from_str(s) {
            Ok(name) => Ok(RelationalOp::Relation(name)),
            Err(e) => Err(e),
        }
    }

    /// A reference to the relation named `s`, unchecked.
    pub fn relation_unchecked(s: &str) -> (r: Self)
        requires
            s@.len() > 0,
        ensures
            r is Relation,
            r->Relation_0@ == s@,
    {
        RelationalOp::Relation(Name::new_unchecked(s))
    }

    /// Whether this is a relation reference.
    pub fn is_relation(&self) -> (r: bool)
        ensures
            r == (self is Relation),
    {
        matches!(self, Self::Relation(_))
    }

    /// The relation reference, if this is one.
    pub fn as_relation(&self) -> (r: Option<&Name>)
        ensures
            r is Some == (self is Relation),
            r is Some ==> *r->Some_0 == self->Relation_0,
    {
        match self {
            Self::Relation(v) => Some(v),
            _ => None,
        }
    }

    /// The union of two operations.
    pub fn union<S1, S2>(lhs: S1, rhs: S2) -> (r: Self) where
        S1: Into<RelationalOp>,
        S2: Into<RelationalOp>,

        ensures
            <S1 as IntoSpec<RelationalOp>>::obeys_into_spec() && <S2 as IntoSpec<RelationalOp>>::obeys_into_spec() ==> r == RelationalOp::SetOperation(
                (SetOperation {
                    lhs: Box::new(lhs.into_spec()),
                    op: SetOperator::Union,
                    rhs: Box::new(rhs.into_spec()),
                }),
            ),
    {
        RelationalOp::SetOperation(SetOperation::union(lhs, rhs))
    }

    /// The intersection of two operations.
    pub fn intersect<S1, S2>(lhs: S1, rhs: S2) -> (r: Self) where
        S1: Into<RelationalOp>,
        S2: Into<RelationalOp>,

        ensures
            <S1 as IntoSpec<RelationalOp>>::obeys_into_spec() && <S2 as IntoSpec<RelationalOp>>::obeys_into_spec() ==> r == RelationalOp::SetOperation(
                (SetOperation {
                    lhs: Box::new(lhs.into_spec()),
                    op: SetOperator::Intersection,
                    rhs: Box::new(rhs.into_spec()),
                }),
            ),
    {
        RelationalOp::SetOperation(SetOperation::intersection(lhs, rhs))
    }

    /// The difference of two operations.
    pub fn difference<S1, S2>(lhs: S1, rhs: S2) -> (r: Self) where
        S1: Into<RelationalOp>,
        S2: Into<RelationalOp>,

        ensures
            <S1 as IntoSpec<RelationalOp>>::obeys_into_spec() && <S2 as IntoSpec<RelationalOp>>::obeys_into_spec() ==> r == RelationalOp::SetOperation(
                (SetOperation {
                    lhs: Box::new(lhs.into_spec()),
                    op: SetOperator::Difference,
                    rhs: Box::new(rhs.into_spec()),
                }),
            ),
    {
        RelationalOp::SetOperation(SetOperation::difference(lhs, rhs))
    }

    /// The cartesian product of two operations.
    pub fn cartesian_product<S1, S2>(lhs: S1, rhs: S2) -> (r: Self) where
        S1: Into<RelationalOp>,
        S2: Into<RelationalOp>,

        ensures
            <S1 as IntoSpec<RelationalOp>>::obeys_into_spec() && <S2 as IntoSpec<RelationalOp>>::obeys_into_spec() ==> r == RelationalOp::SetOperation(
                (SetOperation {
                    lhs: Box::new(lhs.into_spec()),
                    op: SetOperator::CartesianProduct,
                    rhs: Box::new(rhs.into_spec()),
                }),
            ),
    {
        RelationalOp::SetOperation(SetOperation::cartesian_product(lhs, rhs))
    }

    /// Whether this is a set operation.
    pub fn is_set_operation(&self) -> (r: bool)
        ensures
            r == (self is SetOperation),
    {
        matches!(self, Self::SetOperation(_))
    }

    /// The set operation, if this is one.
    pub fn as_set_operation(&self) -> (r: Option<&SetOperation>)
        ensures
            r is Some == (self is SetOperation),
            r is Some ==> *r->Some_0 == self->SetOperation_0,
    {
        match self {
            Self::SetOperation(v) => Some(v),
            _ => None,
        }
    }

    /// The selection of the tuples of `from` that meet `criteria`.
    pub fn select<T, S>(criteria: T, from: S) -> (r: Self) where T: Into<Term>, S: Into<Self>
        ensures
            <T as IntoSpec<Term>>::obeys_into_spec() && <S as IntoSpec<RelationalOp>>::obeys_into_spec() ==> r == RelationalOp::Selection(
                (Selection { criteria: criteria.into_spec(), rhs: Box::new(from.into_spec()) }),
            ),
    {
        RelationalOp::Selection(Selection::new(criteria, from))
    }

    /// Whether this is a selection.
    pub fn is_selection(&self) -> (r: bool)
        ensures
            r == (self is Selection),
    {
        matches!(self, Self::Selection(_))
    }

    /// The selection, if this is one.
    pub fn as_selection(&self) -> (r: Option<&Selection>)
        ensures
            r is Some == (self is Selection),
            r is Some ==> *r->Some_0 == self->Selection_0,
    {
        match self {
            Self::Selection(v) => Some(v),
            _ => None,
        }
    }

    /// The projection of `rhs` onto `attributes`, of which there is at least one.
    pub fn project<S>(attributes: Vec<ProjectedAttribute>, rhs: S) -> (r: Self) where
        S: Into<Self>,

        requires
            attributes@.len() > 0,
        ensures
            <S as IntoSpec<RelationalOp>>::obeys_into_spec() ==> r == RelationalOp::Projection(
                (Projection { attributes, rhs: Box::new(rhs.into_spec()) }),
            ),
    {
        RelationalOp::Projection(Projection::new(attributes, rhs))
    }

    /// Whether this is a projection.
    pub fn is_projection(&self) -> (r: bool)
        ensures
            r == (self is Projection),
    {
        matches!(self, Self::Projection(_))
    }

    /// The projection, if this is one.
    pub fn as_projection(&self) -> (r: Option<&Projection>)
        ensures
            r is Some == (self is Projection),
            r is Some ==> *r->Some_0 == self->Projection_0,
    {
        match self {
            Self::Projection(v) => Some(v),
            _ => None,
        }
    }

    /// `rhs` with the attributes renamed as `renames` says; fails as
    /// [`Rename::new`] does.
    pub fn rename<S>(renames: Vec<(Attribute, Name)>, rhs: S) -> (r: Result<Self, Error>) where
        S: Into<Self>,

        requires
            renames@.len() > 0,
        ensures
            first_rename_conflict(renames@) is None ==> r is Ok && (<S as IntoSpec<RelationalOp>>::obeys_into_spec() ==> r->Ok_0
                == RelationalOp::Rename((Rename { renames, rhs: Box::new(rhs.into_spec()) }))),
            first_rename_conflict(renames@) is Some ==> r is Err && r->Err_0@
                == rename_conflict_error(renames@),
    {
        match Rename::new(renames, rhs) {
            Ok(v) => Ok(RelationalOp::Rename(v)),
            Err(e) => Err(e),
        }
    }

    /// `rhs` with its attributes renamed by position: the first to
    /// `renames[0]`, and so on; fails as [`Rename::new_indexed`] does.
    pub fn rename_by_index<S>(renames: Vec<Name>, rhs: S) -> (r: Result<Self, Error>) where
        S: Into<Self>,

        requires
            renames@.len() > 0,
        ensures
            first_rename_conflict(indexed_renames(renames@)) is None ==> r is Ok && r->Ok_0 is Rename
                && r->Ok_0->Rename_0.renames@ == indexed_renames(renames@) && (<S as IntoSpec<RelationalOp>>::obeys_into_spec()
                ==> *r->Ok_0->Rename_0.rhs == rhs.into_spec()),
            first_rename_conflict(indexed_renames(renames@)) is Some ==> r is Err && r->Err_0@
                == rename_conflict_error(indexed_renames(renames@)),
    {
        match Rename::new_indexed(renames, rhs) {
            Ok(v) => Ok(RelationalOp::Rename(v)),
            Err(e) => Err(e),
        }
    }

    /// Whether this is a rename.
    pub fn is_rename(&self) -> (r: bool)
        ensures
            r == (self is Rename),
    {
        matches!(self, Self::Rename(_))
    }

    /// The rename, if this is one.
    pub fn as_rename(&self) -> (r: Option<&Rename>)
        ensures
            r is Some == (self is Rename),
            r is Some ==> *r->Some_0 == self->Rename_0,
    {
        match self {
            Self::Rename(v) => Some(v),
            _ => None,
        }
    }

    /// `rhs` in the order of `attributes`, of which there is at least one.
    pub fn sort_by<S>(attributes: Vec<Attribute>, rhs: S) -> (r: Self) where S: Into<Self>
        requires
            attributes@.len() > 0,
        ensures
            <S as IntoSpec<RelationalOp>>::obeys_into_spec() ==> r == RelationalOp::Order(
                (Order { attributes, rhs: Box::new(rhs.into_spec()) }),
            ),
    {
        RelationalOp::Order(Order::new(attributes, rhs))
    }

    /// Whether this is an ordering.
    pub fn is_sort_by(&self) -> (r: bool)
        ensures
            r == (self is Order),
    {
        matches!(self, Self::Order(_))
    }

    /// The ordering, if this is one.
    pub fn as_sort_by(&self) -> (r: Option<&Order>)
        ensures
            r is Some == (self is Order),
            r is Some ==> *r->Some_0 == self->Order_0,
    {
        match self {
            Self::Order(v) => Some(v),
            _ => None,
        }
    }

    /// `rhs` grouped by `attributes`, of which there is at least one.
    pub fn group_by<S>(attributes: Vec<Attribute>, rhs: S) -> (r: Self) where S: Into<Self>
        requires
            attributes@.len() > 0,
        ensures
            <S as IntoSpec<RelationalOp>>::obeys_into_spec() ==> r == RelationalOp::Group(
                (Group { attributes, rhs: Box::new(rhs.into_spec()) }),
            ),
    {
        RelationalOp::Group(Group::new(attributes, rhs))
    }

    /// Whether this is a grouping.
    pub fn is_group_by(&self) -> (r: bool)
        ensures
            r == (self is Group),
    {
        matches!(self, Self::Group(_))
    }

    /// The grouping, if this is one.
    pub fn as_group_by(&self) -> (r: Option<&Group>)
        ensures
            r is Some == (self is Group),
            r is Some ==> *r->Some_0 == self->Group_0,
    {
        match self {
            Self::Group(v) => Some(v),
            _ => None,
        }
    }

    /// The natural join of two operations.
    pub fn natural_join<S1, S2>(lhs: S1, rhs: S2) -> (r: Self) where
        S1: Into<Self>,
        S2: Into<Self>,

        ensures
            <S1 as IntoSpec<RelationalOp>>::obeys_into_spec() && <S2 as IntoSpec<RelationalOp>>::obeys_into_spec() ==> r == RelationalOp::Join(
                Join::Natural(
                    (NaturalJoin { lhs: Box::new(lhs.into_spec()), rhs: Box::new(rhs.into_spec()) }),
                ),
            ),
    {
        RelationalOp::Join(Join::Natural(NaturalJoin::new(lhs, rhs)))
    }

    /// The join of two operations on `criteria`.
    pub fn theta_join<S1, T, S2>(lhs: S1, criteria: T, rhs: S2) -> (r: Self) where
        S1: Into<Self>,
        T: Into<Term>,
        S2: Into<Self>,

        ensures
            <S1 as IntoSpec<RelationalOp>>::obeys_into_spec() && <T as IntoSpec<Term>>::obeys_into_spec() && <S2 as IntoSpec<RelationalOp>>::obeys_into_spec() ==> r == RelationalOp::Join(
                Join::Theta(
                    (ThetaJoin {
                        lhs: Box::new(lhs.into_spec()),
                        criteria: criteria.into_spec(),
                        rhs: Box::new(rhs.into_spec()),
                    }),
                ),
            ),
    {
        RelationalOp::Join(Join::Theta(ThetaJoin::new(lhs, criteria, rhs)))
    }

    /// Whether this is a join of either kind.
    pub fn is_join(&self) -> (r: bool)
        ensures
            r == (self is Join),
    {
        matches!(self, Self::Join(_))
    }

    /// Whether this is a natural join.
    pub fn is_natural_join(&self) -> (r: bool)
        ensures
            r == (self is Join && self->Join_0 is Natural),
    {
        matches!(self, Self::Join(Join::Natural(_)))
    }

    /// Whether this is a theta join.
    pub fn is_theta_join(&self) -> (r: bool)
        ensures
            r == (self is Join && self->Join_0 is Theta),
    {
        matches!(self, Self::Join(Join::Theta(_)))
    }

    /// The join, if this is one.
    pub fn as_join(&self) -> (r: Option<&Join>)
        ensures
            r is Some == (self is Join),
            r is Some ==> *r->Some_0 == self->Join_0,
    {
        match self {
            Self::Join(v) => Some(v),
            _ => None,
        }
    }
}

impl SetOperation {

    /// The operation `op` between two operands.
    pub fn new<S1, S2>(lhs: S1, op: SetOperator, rhs: S2) -> (r: Self) where
        S1: Into<RelationalOp>,
        S2: Into<RelationalOp>,

        ensures
            r.op == op,
            <S1 as IntoSpec<RelationalOp>>::obeys_into_spec() ==> *r.lhs == lhs.into_spec(),
            <S2 as IntoSpec<RelationalOp>>::obeys_into_spec() ==> *r.rhs == rhs.into_spec(),
    {
        SetOperation { lhs: Box::new(lhs.into()), op, rhs: Box::new(rhs.into()) }
    }

    /// The union of two operands.
    pub fn union<S1, S2>(lhs: S1, rhs: S2) -> (r: Self) where
        S1: Into<RelationalOp>,
        S2: Into<RelationalOp>,

        ensures
            r.op == SetOperator::Union,
            <S1 as IntoSpec<RelationalOp>>::obeys_into_spec() ==> *r.lhs == lhs.into_spec(),
            <S2 as IntoSpec<RelationalOp>>::obeys_into_spec() ==> *r.rhs == rhs.into_spec(),
    {
        SetOperation { lhs: Box::new(lhs.into()), op: SetOperator::Union, rhs: Box::new(rhs.into()) }
    }

    /// The intersection of two operands.
    pub fn intersection<S1, S2>(lhs: S1, rhs: S2) -> (r: Self) where
        S1: Into<RelationalOp>,
        S2: Into<RelationalOp>,

        ensures
            r.op == SetOperator::Intersection,
            <S1 as IntoSpec<RelationalOp>>::obeys_into_spec() ==> *r.lhs == lhs.into_spec(),
            <S2 as IntoSpec<RelationalOp>>::obeys_into_spec() ==> *r.rhs == rhs.into_spec(),
    {
        SetOperation { lhs: Box::new(lhs.into()), op: SetOperator::Intersection, rhs: Box::new(rhs.into()) }
    }

    /// The difference of two operands.
    pub fn difference<S1, S2>(lhs: S1, rhs: S2) -> (r: Self) where
        S1: Into<RelationalOp>,
        S2: Into<RelationalOp>,

        ensures
            r.op == SetOperator::Difference,
            <S1 as IntoSpec<RelationalOp>>::obeys_into_spec() ==> *r.lhs == lhs.into_spec(),
            <S2 as IntoSpec<RelationalOp>>::obeys_into_spec() ==> *r.rhs == rhs.into_spec(),
    {
        SetOperation { lhs: Box::new(lhs.into()), op: SetOperator::Difference, rhs: Box::new(rhs.into()) }
    }

    /// The symmetric difference of two operands.
    pub fn symmetric_difference<S1, S2>(lhs: S1, rhs: S2) -> (r: Self) where
        S1: Into<RelationalOp>,
        S2: Into<RelationalOp>,

        ensures
            r.op == SetOperator::SymmetricDifference,
            <S1 as IntoSpec<RelationalOp>>::obeys_into_spec() ==> *r.lhs == lhs.into_spec(),
            <S2 as IntoSpec<RelationalOp>>::obeys_into_spec() ==> *r.rhs == rhs.into_spec(),
    {
        SetOperation { lhs: Box::new(lhs.into()), op: SetOperator::SymmetricDifference, rhs: Box::new(rhs.into()) }
    }

    /// The cartesian product of two operands.
    pub fn cartesian_product<S1, S2>(lhs: S1, rhs: S2) -> (r: Self) where
        S1: Into<RelationalOp>,
        S2: Into<RelationalOp>,

        ensures
            r.op == SetOperator::CartesianProduct,
            <S1 as IntoSpec<RelationalOp>>::obeys_into_spec() ==> *r.lhs == lhs.into_spec(),
            <S2 as IntoSpec<RelationalOp>>::obeys_into_spec() ==> *r.rhs == rhs.into_spec(),
    {
        SetOperation { lhs: Box::new(lhs.into()), op: SetOperator::CartesianProduct, rhs: Box::new(rhs.into()) }
    }

    /// The left operand.
    pub fn lhs(&self) -> (r: &RelationalOp)
        ensures
            *r == *self.lhs,
    {
        &self.lhs
    }

    /// The operator.
    pub fn operator(&self) -> (r: SetOperator)
        ensures
            r == self.op,
    {
        self.op
    }

    /// Whether this is a union.
    pub fn is_union(&self) -> (r: bool)
        ensures
            r == (self.op == SetOperator::Union),
    {
        self.op == SetOperator::Union
    }

    /// Whether this is an intersection.
    pub fn is_intersection(&self) -> (r: bool)
        ensures
            r == (self.op == SetOperator::Intersection),
    {
        self.op == SetOperator::Intersection
    }

    /// Whether this is a difference.
    pub fn is_difference(&self) -> (r: bool)
        ensures
            r == (self.op == SetOperator::Difference),
    {
        self.op == SetOperator::Difference
    }

    /// Whether this is a symmetric difference.
    pub fn is_symmetric_difference(&self) -> (r: bool)
        ensures
            r == (self.op == SetOperator::SymmetricDifference),
    {
        self.op == SetOperator::SymmetricDifference
    }

    /// Whether this is a cartesian product.
    pub fn is_cartesian_product(&self) -> (r: bool)
        ensures
            r == (self.op == SetOperator::CartesianProduct),
    {
        self.op == SetOperator::CartesianProduct
    }

    /// The right operand.
    pub fn rhs(&self) -> (r: &RelationalOp)
        ensures
            *r == *self.rhs,
    {
        &self.rhs
    }
}

impl Selection {
    /// The selection of the tuples of `rhs` that meet `criteria`.
    pub fn new<T, S>(criteria: T, rhs: S) -> (r: Self) where T: Into<Term>, S: Into<RelationalOp>
        ensures
            <T as IntoSpec<Term>>::obeys_into_spec() ==> r.criteria == criteria.into_spec(),
            <S as IntoSpec<RelationalOp>>::obeys_into_spec() ==> *r.rhs == rhs.into_spec(),
    {
        Selection { criteria: criteria.into(), rhs: Box::new(rhs.into()) }
    }

    /// The criteria.
    pub fn criteria(&self) -> (r: &Term)
        ensures
            *r == self.criteria,
    {
        &self.criteria
    }

    /// The operand.
    pub fn rhs(&self) -> (r: &RelationalOp)
        ensures
            *r == *self.rhs,
    {
        &self.rhs
    }
}

impl From<usize> for Attribute {
    fn from(v: usize) -> (r: Self) {
        Attribute::Index(v)
    }
}

impl FromSpecImpl<usize> for Attribute {
    open spec fn obeys_from_spec() -> bool {
        true
    }

    open spec fn from_spec(v: usize) -> Self {
        Attribute::Index(v)
    }
}

impl From<Name> for Attribute {
    fn from(v: Name) -> (r: Self) {
        Attribute::Name(v)
    }
}

impl FromSpecImpl<Name> for Attribute {
    open spec fn obeys_from_spec() -> bool {
        true
    }

    open spec fn from_spec(v: Name) -> Self {
        Attribute::Name(v)
    }
}

impl Attribute {

    /// Whether this is an index.
    pub fn is_index(&self) -> (r: bool)
        ensures
            r == (self is Index),
    {
        matches!(self, Self::Index(_))
    }

    /// The index, if this is one.
    pub fn as_index(&self) -> (r: Option<usize>)
        ensures
            r == (if self is Index {
                Some(self->Index_0)
            } else {
                None
            }),
    {
        match self {
            Self::Index(v) => Some(*v),
            _ => None,
        }
    }

    /// Whether this is a name.
    pub fn is_name(&self) -> (r: bool)
        ensures
            r == (self is Name),
    {
        matches!(self, Self::Name(_))
    }

    /// The name, if this is one.
    pub fn as_name(&self) -> (r: Option<&Name>)
        ensures
            r is Some == (self is Name),
            r is Some ==> *r->Some_0 == self->Name_0,
    {
        match self {
            Self::Name(v) => Some(v),
            _ => None,
        }
    }

    /// Whether two attributes refer in the same way to the same thing: the
    /// same index, or the same name.
    pub fn same(&self, other: &Attribute) -> (r: bool)
        ensures
            r == same_attribute(*self, *other),
    {
        match (self, other) {
            (Attribute::Index(i), Attribute::Index(j)) => *i == *j,
            (Attribute::Name(a), Attribute::Name(b)) => *a == *b,
            _ => false,
        }
    }
}

/// Whether two attributes refer in the same way to the same thing.
pub open spec fn same_attribute(a: Attribute, b: Attribute) -> bool {
    match (a, b) {
        (Attribute::Index(i), Attribute::Index(j)) => i == j,
        (Attribute::Name(x), Attribute::Name(y)) => x@ == y@,
        _ => false,
    }
}

impl From<Value> for Term {
    fn from(v: Value) -> (r: Self) {
        Term::Constant(v)
    }
}

impl FromSpecImpl<Value> for Term {
    open spec fn obeys_from_spec() -> bool {
        true
    }

    open spec fn from_spec(v: Value) -> Self {
        Term::Constant(v)
    }
}

impl From<Attribute> for Term {
    fn from(v: Attribute) -> (r: Self) {
        Term::Exists(v)
    }
}

impl FromSpecImpl<Attribute> for Term {
    open spec fn obeys_from_spec() -> bool {
        true
    }

    open spec fn from_spec(v: Attribute) -> Self {
        Term::Exists(v)
    }
}

impl From<usize> for Term {
    fn from(v: usize) -> (r: Self) {
        Term::Exists(Attribute::Index(v))
    }
}

impl FromSpecImpl<usize> for Term {
    open spec fn obeys_from_spec() -> bool {
        true
    }

    open spec fn from_spec(v: usize) -> Self {
        Term::Exists(Attribute::Index(v))
    }
}

impl From<Name> for Term {
    fn from(v: Name) -> (r: Self) {
        Term::Exists(Attribute::Name(v))
    }
}

impl FromSpecImpl<Name> for Term {
    open spec fn obeys_from_spec() -> bool {
        true
    }

    open spec fn from_spec(v: Name) -> Self {
        Term::Exists(Attribute::Name(v))
    }
}

impl From<Atom> for Term {
    fn from(v: Atom) -> (r: Self) {
        Term::Atom(v)
    }
}

impl FromSpecImpl<Atom> for Term {
    open spec fn obeys_from_spec() -> bool {
        true
    }

    open spec fn from_spec(v: Atom) -> Self {
        Term::Atom(v)
    }
}

impl Term {

    /// The constant condition `value`.
    pub fn constant<V>(value: V) -> (r: Self) where V: Into<Value>
        ensures
            <V as IntoSpec<Value>>::obeys_into_spec() ==> r == Term::Constant(value.into_spec()),
    {
        Term::Constant(value.into())
    }

    /// The condition that `attribute` exists.
    pub fn attribute_exists<A>(attribute: A) -> (r: Self) where A: Into<Attribute>
        ensures
            <A as IntoSpec<Attribute>>::obeys_into_spec() ==> r == Term::Exists(attribute.into_spec()),
    {
        Term::Exists(attribute.into())
    }

    /// The condition that `lhs` is equal to `rhs`.
    pub fn equals<A, P>(lhs: A, rhs: P) -> (r: Self) where A: Into<Attribute>, P: Into<ProjectedAttribute>
        ensures
            <A as IntoSpec<Attribute>>::obeys_into_spec() && <P as IntoSpec<ProjectedAttribute>>::obeys_into_spec() ==> r == Term::Atom(
                (Atom {
                    lhs: lhs.into_spec(),
                    op: ComparisonOperator::Equal,
                    rhs: rhs.into_spec(),
                }),
            ),
    {
        Term::Atom(Atom::new(lhs.into(), ComparisonOperator::Equal, rhs.into()))
    }

    /// The condition that `lhs` is not equal to `rhs`.
    pub fn not_equals<A, P>(lhs: A, rhs: P) -> (r: Self) where A: Into<Attribute>, P: Into<ProjectedAttribute>
        ensures
            <A as IntoSpec<Attribute>>::obeys_into_spec() && <P as IntoSpec<ProjectedAttribute>>::obeys_into_spec() ==> r == Term::Atom(
                (Atom {
                    lhs: lhs.into_spec(),
                    op: ComparisonOperator::NotEqual,
                    rhs: rhs.into_spec(),
                }),
            ),
    {
        Term::Atom(Atom::new(lhs.into(), ComparisonOperator::NotEqual, rhs.into()))
    }

    /// The condition that `lhs` is less than `rhs`.
    pub fn less_than<A, P>(lhs: A, rhs: P) -> (r: Self) where A: Into<Attribute>, P: Into<ProjectedAttribute>
        ensures
            <A as IntoSpec<Attribute>>::obeys_into_spec() && <P as IntoSpec<ProjectedAttribute>>::obeys_into_spec() ==> r == Term::Atom(
                (Atom {
                    lhs: lhs.into_spec(),
                    op: ComparisonOperator::LessThan,
                    rhs: rhs.into_spec(),
                }),
            ),
    {
        Term::Atom(Atom::new(lhs.into(), ComparisonOperator::LessThan, rhs.into()))
    }

    /// The condition that `lhs` is less than or equal to `rhs`.
    pub fn less_than_or_equal<A, P>(lhs: A, rhs: P) -> (r: Self) where A: Into<Attribute>, P: Into<ProjectedAttribute>
        ensures
            <A as IntoSpec<Attribute>>::obeys_into_spec() && <P as IntoSpec<ProjectedAttribute>>::obeys_into_spec() ==> r == Term::Atom(
                (Atom {
                    lhs: lhs.into_spec(),
                    op: ComparisonOperator::LessThanOrEqual,
                    rhs: rhs.into_spec(),
                }),
            ),
    {
        Term::Atom(Atom::new(lhs.into(), ComparisonOperator::LessThanOrEqual, rhs.into()))
    }

    /// The condition that `lhs` is greater than `rhs`.
    pub fn greater_than<A, P>(lhs: A, rhs: P) -> (r: Self) where A: Into<Attribute>, P: Into<ProjectedAttribute>
        ensures
            <A as IntoSpec<Attribute>>::obeys_into_spec() && <P as IntoSpec<ProjectedAttribute>>::obeys_into_spec() ==> r == Term::Atom(
                (Atom {
                    lhs: lhs.into_spec(),
                    op: ComparisonOperator::GreaterThan,
                    rhs: rhs.into_spec(),
                }),
            ),
    {
        Term::Atom(Atom::new(lhs.into(), ComparisonOperator::GreaterThan, rhs.into()))
    }

    /// The condition that `lhs` is greater than or equal to `rhs`.
    pub fn greater_than_or_equal<A, P>(lhs: A, rhs: P) -> (r: Self) where A: Into<Attribute>, P: Into<ProjectedAttribute>
        ensures
            <A as IntoSpec<Attribute>>::obeys_into_spec() && <P as IntoSpec<ProjectedAttribute>>::obeys_into_spec() ==> r == Term::Atom(
                (Atom {
                    lhs: lhs.into_spec(),
                    op: ComparisonOperator::GreaterThanOrEqual,
                    rhs: rhs.into_spec(),
                }),
            ),
    {
        Term::Atom(Atom::new(lhs.into(), ComparisonOperator::GreaterThanOrEqual, rhs.into()))
    }

    /// The condition that `lhs` matches the pattern `rhs`.
    pub fn string_match<A, P>(lhs: A, rhs: P) -> (r: Self) where A: Into<Attribute>, P: Into<ProjectedAttribute>
        ensures
            <A as IntoSpec<Attribute>>::obeys_into_spec() && <P as IntoSpec<ProjectedAttribute>>::obeys_into_spec() ==> r == Term::Atom(
                (Atom {
                    lhs: lhs.into_spec(),
                    op: ComparisonOperator::StringMatch,
                    rhs: rhs.into_spec(),
                }),
            ),
    {
        Term::Atom(Atom::new(lhs.into(), ComparisonOperator::StringMatch, rhs.into()))
    }

    /// The condition that `lhs` does not match the pattern `rhs`.
    pub fn string_not_match<A, P>(lhs: A, rhs: P) -> (r: Self) where A: Into<Attribute>, P: Into<ProjectedAttribute>
        ensures
            <A as IntoSpec<Attribute>>::obeys_into_spec() && <P as IntoSpec<ProjectedAttribute>>::obeys_into_spec() ==> r == Term::Atom(
                (Atom {
                    lhs: lhs.into_spec(),
                    op: ComparisonOperator::StringNotMatch,
                    rhs: rhs.into_spec(),
                }),
            ),
    {
        Term::Atom(Atom::new(lhs.into(), ComparisonOperator::StringNotMatch, rhs.into()))
    }

    /// The conjunction of two conditions.
    pub fn and<T1, T2>(lhs: T1, rhs: T2) -> (r: Self) where T1: Into<Term>, T2: Into<Term>
        ensures
            <T1 as IntoSpec<Term>>::obeys_into_spec() && <T2 as IntoSpec<Term>>::obeys_into_spec() ==> r == Term::And(
                Box::new(lhs.into_spec()),
                Box::new(rhs.into_spec()),
            ),
    {
        Term::And(Box::new(lhs.into()), Box::new(rhs.into()))
    }

    /// The disjunction of two conditions.
    pub fn or<T1, T2>(lhs: T1, rhs: T2) -> (r: Self) where T1: Into<Term>, T2: Into<Term>
        ensures
            <T1 as IntoSpec<Term>>::obeys_into_spec() && <T2 as IntoSpec<Term>>::obeys_into_spec() ==> r == Term::Or(
                Box::new(lhs.into_spec()),
                Box::new(rhs.into_spec()),
            ),
    {
        Term::Or(Box::new(lhs.into()), Box::new(rhs.into()))
    }

    /// Whether this is a constant.
    pub fn is_constant(&self) -> (r: bool)
        ensures
            r == (self is Constant),
    {
        matches!(self, Self::Constant(..))
    }

    /// The constant, if this is one.
    pub fn as_constant(&self) -> (r: Option<&Value>)
        ensures
            r is Some == (self is Constant),
            r is Some ==> *r->Some_0 == self->Constant_0,
    {
        match self {
            Self::Constant(v) => Some(v),
            _ => None,
        }
    }

    /// Whether this is the condition that an attribute exists.
    pub fn is_exists(&self) -> (r: bool)
        ensures
            r == (self is Exists),
    {
        matches!(self, Self::Exists(..))
    }

    /// The attribute whose existence is the condition, if this is such a condition.
    pub fn as_exists(&self) -> (r: Option<&Attribute>)
        ensures
            r is Some == (self is Exists),
            r is Some ==> *r->Some_0 == self->Exists_0,
    {
        match self {
            Self::Exists(v) => Some(v),
            _ => None,
        }
    }

    /// Whether this is an atom.
    pub fn is_atom(&self) -> (r: bool)
        ensures
            r == (self is Atom),
    {
        matches!(self, Self::Atom(..))
    }

    /// The atom, if this is one.
    pub fn as_atom(&self) -> (r: Option<&Atom>)
        ensures
            r is Some == (self is Atom),
            r is Some ==> *r->Some_0 == self->Atom_0,
    {
        match self {
            Self::Atom(v) => Some(v),
            _ => None,
        }
    }

    /// Whether this is a negation.
    pub fn is_negated(&self) -> (r: bool)
        ensures
            r == (self is Negate),
    {
        matches!(self, Self::Negate(..))
    }

    /// The negated condition, if this is a negation.
    pub fn as_negated(&self) -> (r: Option<&Term>)
        ensures
            r is Some == (self is Negate),
            r is Some ==> *r->Some_0 == *self->Negate_0,
    {
        match self {
            Self::Negate(v) => Some(v),
            _ => None,
        }
    }

    /// Whether this is a conjunction.
    pub fn is_conjunction(&self) -> (r: bool)
        ensures
            r == (self is And),
    {
        matches!(self, Self::And(..))
    }

    /// The two sides, if this is a conjunction.
    pub fn as_conjunction(&self) -> (r: Option<(&Term, &Term)>)
        ensures
            r is Some == (self is And),
            r is Some ==> *r->Some_0.0 == *self->And_0 && *r->Some_0.1 == *self->And_1,
    {
        match self {
            Self::And(l, r) => Some((l, r)),
            _ => None,
        }
    }

    /// Whether this is a disjunction.
    pub fn is_disjunction(&self) -> (r: bool)
        ensures
            r == (self is Or),
    {
        matches!(self, Self::Or(..))
    }

    /// The two sides, if this is a disjunction.
    pub fn as_disjunction(&self) -> (r: Option<(&Term, &Term)>)
        ensures
            r is Some == (self is Or),
            r is Some ==> *r->Some_0.0 == *self->Or_0 && *r->Some_0.1 == *self->Or_1,
    {
        match self {
            Self::Or(l, r) => Some((l, r)),
            _ => None,
        }
    }

    /// The negation of this condition.
    pub fn negate(self) -> (r: Self)
        ensures
            r == Term::Negate(Box::new(self)),
    {
        Term::Negate(Box::new(self))
    }
}

impl Atom {

    /// The atom that compares `lhs` with `rhs` by `op`.
    pub fn new(lhs: Attribute, op: ComparisonOperator, rhs: ProjectedAttribute) -> (r: Self)
        ensures
            r == (Atom { lhs, op, rhs }),
    {
        Atom { lhs, op, rhs }
    }

    /// The atom that `lhs` is equal to `rhs`.
    pub fn equals(lhs: Attribute, rhs: ProjectedAttribute) -> (r: Self)
        ensures
            r == (Atom { lhs, op: ComparisonOperator::Equal, rhs }),
    {
        Atom { lhs, op: ComparisonOperator::Equal, rhs }
    }

    /// The atom that `lhs` is not equal to `rhs`.
    pub fn not_equals(lhs: Attribute, rhs: ProjectedAttribute) -> (r: Self)
        ensures
            r == (Atom { lhs, op: ComparisonOperator::NotEqual, rhs }),
    {
        Atom { lhs, op: ComparisonOperator::NotEqual, rhs }
    }

    /// The atom that `lhs` is less than `rhs`.
    pub fn less_than(lhs: Attribute, rhs: ProjectedAttribute) -> (r: Self)
        ensures
            r == (Atom { lhs, op: ComparisonOperator::LessThan, rhs }),
    {
        Atom { lhs, op: ComparisonOperator::LessThan, rhs }
    }

    /// The atom that `lhs` is less than or equal to `rhs`.
    pub fn less_than_or_equal(lhs: Attribute, rhs: ProjectedAttribute) -> (r: Self)
        ensures
            r == (Atom { lhs, op: ComparisonOperator::LessThanOrEqual, rhs }),
    {
        Atom { lhs, op: ComparisonOperator::LessThanOrEqual, rhs }
    }

    /// The atom that `lhs` is greater than `rhs`.
    pub fn greater_than(lhs: Attribute, rhs: ProjectedAttribute) -> (r: Self)
        ensures
            r == (Atom { lhs, op: ComparisonOperator::GreaterThan, rhs }),
    {
        Atom { lhs, op: ComparisonOperator::GreaterThan, rhs }
    }

    /// The atom that `lhs` is greater than or equal to `rhs`.
    pub fn greater_than_or_equal(lhs: Attribute, rhs: ProjectedAttribute) -> (r: Self)
        ensures
            r == (Atom { lhs, op: ComparisonOperator::GreaterThanOrEqual, rhs }),
    {
        Atom { lhs, op: ComparisonOperator::GreaterThanOrEqual, rhs }
    }

    /// The atom that `lhs` matches the pattern `rhs`.
    pub fn string_match(lhs: Attribute, rhs: ProjectedAttribute) -> (r: Self)
        ensures
            r == (Atom { lhs, op: ComparisonOperator::StringMatch, rhs }),
    {
        Atom { lhs, op: ComparisonOperator::StringMatch, rhs }
    }

    /// The atom that `lhs` does not match the pattern `rhs`.
    pub fn string_not_match(lhs: Attribute, rhs: ProjectedAttribute) -> (r: Self)
        ensures
            r == (Atom { lhs, op: ComparisonOperator::StringNotMatch, rhs }),
    {
        Atom { lhs, op: ComparisonOperator::StringNotMatch, rhs }
    }

    /// The left side.
    pub fn lhs(&self) -> (r: &Attribute)
        ensures
            *r == self.lhs,
    {
        &self.lhs
    }

    /// The operator.
    pub fn operator(&self) -> (r: ComparisonOperator)
        ensures
            r == self.op,
    {
        self.op
    }

    /// The right side.
    pub fn rhs(&self) -> (r: &ProjectedAttribute)
        ensures
            *r == self.rhs,
    {
        &self.rhs
    }
}

/// The operator that holds exactly where `op` does not, of two values that
/// can be compared.
pub open spec fn negated_operator(op: ComparisonOperator) -> ComparisonOperator {
    match op {
        ComparisonOperator::Equal => ComparisonOperator::NotEqual,
        ComparisonOperator::NotEqual => ComparisonOperator::Equal,
        ComparisonOperator::LessThan => ComparisonOperator::GreaterThanOrEqual,
        ComparisonOperator::LessThanOrEqual => ComparisonOperator::GreaterThan,
        ComparisonOperator::GreaterThan => ComparisonOperator::LessThanOrEqual,
        ComparisonOperator::GreaterThanOrEqual => ComparisonOperator::LessThan,
        ComparisonOperator::StringMatch => ComparisonOperator::StringNotMatch,
        ComparisonOperator::StringNotMatch => ComparisonOperator::StringMatch,
    }
}

impl ComparisonOperator {
    /// The logical complement of this operator.
    pub fn negate(&self) -> (r: Self)
        ensures
            r == negated_operator(*self),
    {
        match self {
            Self::Equal => Self::NotEqual,
            Self::NotEqual => Self::Equal,
            Self::LessThan => Self::GreaterThanOrEqual,
            Self::LessThanOrEqual => Self::GreaterThan,
            Self::GreaterThan => Self::LessThanOrEqual,
            Self::GreaterThanOrEqual => Self::LessThan,
            Self::StringMatch => Self::StringNotMatch,
            Self::StringNotMatch => Self::StringMatch,
        }
    }
}

/// Negating an operator twice gives the operator back.
pub proof fn law_negate_twice(op: ComparisonOperator)
    ensures
        negated_operator(negated_operator(op)) == op,
{
}

impl Projection {
    /// The projection of `from` onto `attributes`, of which there is at least one.
    pub fn new<S>(attributes: Vec<ProjectedAttribute>, from: S) -> (r: Self) where S: Into<RelationalOp>
        requires
            attributes@.len() > 0,
        ensures
            r.attributes == attributes,
            <S as IntoSpec<RelationalOp>>::obeys_into_spec() ==> *r.rhs == from.into_spec(),
    {
        Projection { attributes, rhs: Box::new(from.into()) }
    }

    /// The number of attributes.
    pub fn count(&self) -> (r: usize)
        ensures
            r == self.attributes@.len(),
    {
        self.attributes.len()
    }

    /// The attributes, in order.
    pub fn attributes(&self) -> (r: &Vec<ProjectedAttribute>)
        ensures
            *r == self.attributes,
    {
        &self.attributes
    }

    /// The operand.
    pub fn rhs(&self) -> (r: &RelationalOp)
        ensures
            *r == *self.rhs,
    {
        &self.rhs
    }
}

impl From<usize> for ProjectedAttribute {
    fn from(v: usize) -> (r: Self) {
        ProjectedAttribute::Index(v)
    }
}

impl FromSpecImpl<usize> for ProjectedAttribute {
    open spec fn obeys_from_spec() -> bool {
        true
    }

    open spec fn from_spec(v: usize) -> Self {
        ProjectedAttribute::Index(v)
    }
}

impl From<Name> for ProjectedAttribute {
    fn from(v: Name) -> (r: Self) {
        ProjectedAttribute::Name(v)
    }
}

impl FromSpecImpl<Name> for ProjectedAttribute {
    open spec fn obeys_from_spec() -> bool {
        true
    }

    open spec fn from_spec(v: Name) -> Self {
        ProjectedAttribute::Name(v)
    }
}

impl From<Value> for ProjectedAttribute {
    fn from(v: Value) -> (r: Self) {
        ProjectedAttribute::Constant(v)
    }
}

impl FromSpecImpl<Value> for ProjectedAttribute {
    open spec fn obeys_from_spec() -> bool {
        true
    }

    open spec fn from_spec(v: Value) -> Self {
        ProjectedAttribute::Constant(v)
    }
}

impl ProjectedAttribute {

    /// Whether this is an index.
    pub fn is_index(&self) -> (r: bool)
        ensures
            r == (self is Index),
    {
        matches!(self, Self::Index(_))
    }

    /// The index, if this is one.
    pub fn as_index(&self) -> (r: Option<usize>)
        ensures
            r == (if self is Index {
                Some(self->Index_0)
            } else {
                None
            }),
    {
        match self {
            Self::Index(v) => Some(*v),
            _ => None,
        }
    }

    /// Whether this is a name.
    pub fn is_name(&self) -> (r: bool)
        ensures
            r == (self is Name),
    {
        matches!(self, Self::Name(_))
    }

    /// The name, if this is one.
    pub fn as_name(&self) -> (r: Option<&Name>)
        ensures
            r is Some == (self is Name),
            r is Some ==> *r->Some_0 == self->Name_0,
    {
        match self {
            Self::Name(v) => Some(v),
            _ => None,
        }
    }

    /// Whether this is a constant.
    pub fn is_constant(&self) -> (r: bool)
        ensures
            r == (self is Constant),
    {
        matches!(self, Self::Constant(_))
    }

    /// The constant, if this is one.
    pub fn as_constant(&self) -> (r: Option<&Value>)
        ensures
            r is Some == (self is Constant),
            r is Some ==> *r->Some_0 == self->Constant_0,
    {
        match self {
            Self::Constant(v) => Some(v),
            _ => None,
        }
    }
}

impl Order {
    /// `from` in the order of `attributes`, of which there is at least one.
    pub fn new<S>(attributes: Vec<Attribute>, from: S) -> (r: Self) where S: Into<RelationalOp>
        requires
            attributes@.len() > 0,
        ensures
            r.attributes == attributes,
            <S as IntoSpec<RelationalOp>>::obeys_into_spec() ==> *r.rhs == from.into_spec(),
    {
        Order { attributes, rhs: Box::new(from.into()) }
    }

    /// The number of attributes.
    pub fn count(&self) -> (r: usize)
        ensures
            r == self.attributes@.len(),
    {
        self.attributes.len()
    }

    /// The attributes, in order.
    pub fn attributes(&self) -> (r: &Vec<Attribute>)
        ensures
            *r == self.attributes,
    {
        &self.attributes
    }

    /// The operand.
    pub fn rhs(&self) -> (r: &RelationalOp)
        ensures
            *r == *self.rhs,
    {
        &self.rhs
    }
}

impl Group {
    /// `from` grouped by `attributes`, of which there is at least one.
    pub fn new<S>(attributes: Vec<Attribute>, from: S) -> (r: Self) where S: Into<RelationalOp>
        requires
            attributes@.len() > 0,
        ensures
            r.attributes == attributes,
            <S as IntoSpec<RelationalOp>>::obeys_into_spec() ==> *r.rhs == from.into_spec(),
    {
        Group { attributes, rhs: Box::new(from.into()) }
    }

    /// The number of attributes.
    pub fn count(&self) -> (r: usize)
        ensures
            r == self.attributes@.len(),
    {
        self.attributes.len()
    }

    /// The attributes, in order.
    pub fn attributes(&self) -> (r: &Vec<Attribute>)
        ensures
            *r == self.attributes,
    {
        &self.attributes
    }

    /// The operand.
    pub fn rhs(&self) -> (r: &RelationalOp)
        ensures
            *r == *self.rhs,
    {
        &self.rhs
    }
}

/// Whether two entries of a rename list cannot stand together: they rename
/// the same attribute, or they give the same name.
pub open spec fn renames_clash(a: (Attribute, Name), b: (Attribute, Name)) -> bool {
    same_attribute(a.0, b.0) || a.1@ == b.1@
}

/// Whether entry `j` of a rename list clashes with an earlier entry.
pub open spec fn rename_conflict_at(renames: Seq<(Attribute, Name)>, j: int) -> bool {
    exists|i: int| 0 <= i < j && #[trigger] renames_clash(renames[i], renames[j])
}

/// The first entry from `j` on that clashes with an earlier entry.
pub open spec fn first_rename_conflict_from(renames: Seq<(Attribute, Name)>, j: int) -> Option<int>
    decreases renames.len() - j,
{
    if j >= renames.len() {
        None
    } else if rename_conflict_at(renames, j) {
        Some(j)
    } else {
        first_rename_conflict_from(renames, j + 1)
    }
}

/// The first entry of a rename list that clashes with an earlier one.
pub open spec fn first_rename_conflict(renames: Seq<(Attribute, Name)>) -> Option<int> {
    first_rename_conflict_from(renames, 0)
}

/// The error for a rename list with a conflict: the new name of the first
/// conflicting entry is not acceptable.
pub open spec fn rename_conflict_error(renames: Seq<(Attribute, Name)>) -> ErrorView {
    ErrorView::InvalidName { value: renames[first_rename_conflict(renames)->Some_0].1@ }
}

/// The rename list that renames by position: attribute `i` to `names[i]`.
pub open spec fn indexed_renames(names: Seq<Name>) -> Seq<(Attribute, Name)> {
    Seq::new(names.len(), |i: int| (Attribute::Index(i as usize), names[i]))
}

fn find_rename_conflict(renames: &Vec<(Attribute, Name)>) -> (r: Option<usize>)
    ensures
        match r {
            Some(j) => first_rename_conflict(renames@) == Some(j as int) && j < renames@.len(),
            None => first_rename_conflict(renames@) is None,
        },
{
    let mut j: usize = 0;
    while j < renames.len()
        invariant
            j <= renames.len(),
            first_rename_conflict(renames@) == first_rename_conflict_from(renames@, j as int),
        decreases renames.len() - j,
    {
        let mut i: usize = 0;
        while i < j
            invariant
                i <= j,
                j < renames.len(),
                first_rename_conflict(renames@) == first_rename_conflict_from(renames@, j as int),
                forall|k: int| 0 <= k < i ==> !#[trigger] renames_clash(renames@[k], renames@[j as int]),
            decreases j - i,
        {
            if renames[i].0.same(&renames[j].0) || renames[i].1 == renames[j].1 {
                assert(renames_clash(renames@[i as int], renames@[j as int]));
                return Some(j);
            }
            i += 1;
        }
        assert(!rename_conflict_at(renames@, j as int));
        j += 1;
    }
    None
}

impl Rename {
    /// `rhs` with the attributes renamed as `renames` says: each entry pairs
    /// an attribute with its new name. No attribute may be renamed twice and
    /// no name given twice; otherwise the new name of the first entry that
    /// conflicts with an earlier one is reported as invalid.
    pub fn new<S>(renames: Vec<(Attribute, Name)>, rhs: S) -> (r: Result<Self, Error>) where
        S: Into<RelationalOp>,

        requires
            renames@.len() > 0,
        ensures
            first_rename_conflict(renames@) is None ==> r is Ok && r->Ok_0.renames == renames && (
            <S as IntoSpec<RelationalOp>>::obeys_into_spec() ==> *r->Ok_0.rhs == rhs.into_spec()),
            first_rename_conflict(renames@) is Some ==> r is Err && r->Err_0@
                == rename_conflict_error(renames@),
    {
        match find_rename_conflict(&renames) {
            Some(j) => Err(Error::InvalidName { value: renames[j].1.to_string() }),
            None => Ok(Rename { renames, rhs: Box::new(rhs.into()) }),
        }
    }

    /// `rhs` with its attributes renamed by position: the first to
    /// `renames[0]`, and so on. No name may be given twice; otherwise the first
    /// name that repeats an earlier one is reported as invalid.
    pub fn new_indexed<S>(renames: Vec<Name>, rhs: S) -> (r: Result<Self, Error>) where
        S: Into<RelationalOp>,

        requires
            renames@.len() > 0,
        ensures
            first_rename_conflict(indexed_renames(renames@)) is None ==> r is Ok
                && r->Ok_0.renames@ == indexed_renames(renames@) && (<S as IntoSpec<RelationalOp>>::obeys_into_spec() ==> *r->Ok_0.rhs
                == rhs.into_spec()),
            first_rename_conflict(indexed_renames(renames@)) is Some ==> r is Err && r->Err_0@
                == rename_conflict_error(indexed_renames(renames@)),
    {
        let mut pairs: Vec<(Attribute, Name)> = Vec::new();
        let mut i: usize = 0;
        while i < renames.len()
            invariant
                i <= renames.len(),
                pairs@ == indexed_renames(renames@.take(i as int)),
            decreases renames.len() - i,
        {
            pairs.push((Attribute::Index(i), renames[i].clone()));
            assert(pairs@ =~= indexed_renames(renames@.take(i + 1)));
            i += 1;
        }
        assert(renames@.take(i as int) =~= renames@);
        Rename::new(pairs, rhs)
    }

    /// The number of renamed attributes.
    pub fn count(&self) -> (r: usize)
        ensures
            r == self.renames@.len(),
    {
        self.renames.len()
    }

    /// The renames, in order.
    pub fn renames(&self) -> (r: &Vec<(Attribute, Name)>)
        ensures
            *r == self.renames,
    {
        &self.renames
    }

    /// The operand.
    pub fn rhs(&self) -> (r: &RelationalOp)
        ensures
            *r == *self.rhs,
    {
        &self.rhs
    }
}

impl From<NaturalJoin> for Join {
    fn from(v: NaturalJoin) -> (r: Self) {
        Join::Natural(v)
    }
}

impl FromSpecImpl<NaturalJoin> for Join {
    open spec fn obeys_from_spec() -> bool {
        true
    }

    open spec fn from_spec(v: NaturalJoin) -> Self {
        Join::Natural(v)
    }
}

impl From<ThetaJoin> for Join {
    fn from(v: ThetaJoin) -> (r: Self) {
        Join::Theta(v)
    }
}

impl FromSpecImpl<ThetaJoin> for Join {
    open spec fn obeys_from_spec() -> bool {
        true
    }

    open spec fn from_spec(v: ThetaJoin) -> Self {
        Join::Theta(v)
    }
}

impl Join {
    /// The natural join of two operands.
    pub fn natural<S1, S2>(lhs: S1, rhs: S2) -> (r: Self) where
        S1: Into<RelationalOp>,
        S2: Into<RelationalOp>,

        ensures
            <S1 as IntoSpec<RelationalOp>>::obeys_into_spec() && <S2 as IntoSpec<RelationalOp>>::obeys_into_spec() ==> r == Join::Natural(
                (NaturalJoin { lhs: Box::new(lhs.into_spec()), rhs: Box::new(rhs.into_spec()) }),
            ),
    {
        Join::Natural(NaturalJoin::new(lhs, rhs))
    }

    /// Whether this is a natural join.
    pub fn is_natural(&self) -> (r: bool)
        ensures
            r == (self is Natural),
    {
        matches!(self, Self::Natural(_))
    }

    /// The natural join, if this is one.
    pub fn as_natural(&self) -> (r: Option<&NaturalJoin>)
        ensures
            r is Some == (self is Natural),
            r is Some ==> *r->Some_0 == self->Natural_0,
    {
        match self {
            Self::Natural(v) => Some(v),
            _ => None,
        }
    }

    /// The join of two operands on `criteria`.
    pub fn theta<S1, T, S2>(lhs: S1, criteria: T, rhs: S2) -> (r: Self) where
        S1: Into<RelationalOp>,
        T: Into<Term>,
        S2: Into<RelationalOp>,

        ensures
            <S1 as IntoSpec<RelationalOp>>::obeys_into_spec() && <T as IntoSpec<Term>>::obeys_into_spec() && <S2 as IntoSpec<RelationalOp>>::obeys_into_spec() ==> r == Join::Theta(
                (ThetaJoin {
                    lhs: Box::new(lhs.into_spec()),
                    criteria: criteria.into_spec(),
                    rhs: Box::new(rhs.into_spec()),
                }),
            ),
    {
        Join::Theta(ThetaJoin::new(lhs, criteria, rhs))
    }

    /// Whether this is a theta join.
    pub fn is_theta(&self) -> (r: bool)
        ensures
            r == (self is Theta),
    {
        matches!(self, Self::Theta(_))
    }

    /// The theta join, if this is one.
    pub fn as_theta(&self) -> (r: Option<&ThetaJoin>)
        ensures
            r is Some == (self is Theta),
            r is Some ==> *r->Some_0 == self->Theta_0,
    {
        match self {
            Self::Theta(v) => Some(v),
            _ => None,
        }
    }
}

impl NaturalJoin {
    /// The natural join of two operands.
    pub fn new<S1, S2>(lhs: S1, rhs: S2) -> (r: Self) where
        S1: Into<RelationalOp>,
        S2: Into<RelationalOp>,

        ensures
            <S1 as IntoSpec<RelationalOp>>::obeys_into_spec() ==> *r.lhs == lhs.into_spec(),
            <S2 as IntoSpec<RelationalOp>>::obeys_into_spec() ==> *r.rhs == rhs.into_spec(),
    {
        NaturalJoin { lhs: Box::new(lhs.into()), rhs: Box::new(rhs.into()) }
    }

    /// The left side.
    pub fn lhs(&self) -> (r: &RelationalOp)
        ensures
            *r == *self.lhs,
    {
        &self.lhs
    }

    /// The right side.
    pub fn rhs(&self) -> (r: &RelationalOp)
        ensures
            *r == *self.rhs,
    {
        &self.rhs
    }
}

/// Whether a criteria is a conjunction of equalities: an atom with the
/// operator `Equal`, or the conjunction of two such criteria.
pub open spec fn is_equality_conjunction(t: Term) -> bool
    decreases t,
{
    match t {
        Term::Atom(a) => a.op == ComparisonOperator::Equal,
        Term::And(l, r) => is_equality_conjunction(*l) && is_equality_conjunction(*r),
        _ => false,
    }
}

fn check_equality_conjunction(t: &Term) -> (r: bool)
    ensures
        r == is_equality_conjunction(*t),
    decreases *t,
{
    match t {
        Term::Atom(a) => a.op == ComparisonOperator::Equal,
        Term::And(l, r) => check_equality_conjunction(l) && check_equality_conjunction(r),
        _ => false,
    }
}

impl ThetaJoin {
    /// The join of two operands on `criteria`.
    pub fn new<S1, T, S2>(lhs: S1, criteria: T, rhs: S2) -> (r: Self) where
        S1: Into<RelationalOp>,
        T: Into<Term>,
        S2: Into<RelationalOp>,

        ensures
            <S1 as IntoSpec<RelationalOp>>::obeys_into_spec() ==> *r.lhs == lhs.into_spec(),
            <T as IntoSpec<Term>>::obeys_into_spec() ==> r.criteria == criteria.into_spec(),
            <S2 as IntoSpec<RelationalOp>>::obeys_into_spec() ==> *r.rhs == rhs.into_spec(),
    {
        ThetaJoin { lhs: Box::new(lhs.into()), criteria: criteria.into(), rhs: Box::new(rhs.into()) }
    }

    /// Whether the join is an equi-join: its criteria is a conjunction of
    /// equalities.
    pub fn is_equi_join(&self) -> (r: bool)
        ensures
            r == is_equality_conjunction(self.criteria),
    {
        check_equality_conjunction(&self.criteria)
    }

    /// The left side.
    pub fn lhs(&self) -> (r: &RelationalOp)
        ensures
            *r == *self.lhs,
    {
        &self.lhs
    }

    /// The criteria.
    pub fn criteria(&self) -> (r: &Term)
        ensures
            *r == self.criteria,
    {
        &self.criteria
    }

    /// The right side.
    pub fn rhs(&self) -> (r: &RelationalOp)
        ensures
            *r == *self.rhs,
    {
        &self.rhs
    }
}

/// Whether two projected attributes are the same: the same index, the same
/// name, or constants of the same content.
pub open spec fn same_projected(a: ProjectedAttribute, b: ProjectedAttribute) -> bool {
    match (a, b) {
        (ProjectedAttribute::Index(i), ProjectedAttribute::Index(j)) => i == j,
        (ProjectedAttribute::Name(x), ProjectedAttribute::Name(y)) => x@ == y@,
        (ProjectedAttribute::Constant(v), ProjectedAttribute::Constant(w)) => v@ == w@,
        _ => false,
    }
}

/// Whether two atoms are the same: the same sides and the same operator.
pub open spec fn same_atom(a: Atom, b: Atom) -> bool {
    same_attribute(a.lhs, b.lhs) && a.op == b.op && same_projected(a.rhs, b.rhs)
}

/// Whether two conditions are the same: of the same form, with the same
/// attributes, operators and constants in the same places.
pub open spec fn same_term(a: Term, b: Term) -> bool
    decreases a,
{
    match (a, b) {
        (Term::Constant(v), Term::Constant(w)) => v@ == w@,
        (Term::Exists(x), Term::Exists(y)) => same_attribute(x, y),
        (Term::Atom(x), Term::Atom(y)) => same_atom(x, y),
        (Term::Negate(x), Term::Negate(y)) => same_term(*x, *y),
        (Term::And(l, r), Term::And(m, s)) => same_term(*l, *m) && same_term(*r, *s),
        (Term::Or(l, r), Term::Or(m, s)) => same_term(*l, *m) && same_term(*r, *s),
        _ => false,
    }
}

/// Whether two lists of attributes are the same, one by one.
pub open spec fn same_attributes(a: Seq<Attribute>, b: Seq<Attribute>) -> bool {
    a.len() == b.len() && forall|i: int| 0 <= i < a.len() ==> same_attribute(#[trigger] a[i], b[i])
}

/// Whether two lists of projected attributes are the same, one by one.
pub open spec fn same_projected_list(a: Seq<ProjectedAttribute>, b: Seq<ProjectedAttribute>) -> bool {
    a.len() == b.len() && forall|i: int| 0 <= i < a.len() ==> same_projected(#[trigger] a[i], b[i])
}

/// Whether two rename lists are the same, one by one: the same attribute and
/// the same new name.
pub open spec fn same_renames(a: Seq<(Attribute, Name)>, b: Seq<(Attribute, Name)>) -> bool {
    a.len() == b.len() && forall|i: int|
        0 <= i < a.len() ==> same_attribute((#[trigger] a[i]).0, b[i].0) && a[i].1@ == b[i].1@
}

/// Whether two operations are the same: of the same form, with the same
/// names, operators, arguments and operands in the same places.
pub open spec fn same_operation(a: RelationalOp, b: RelationalOp) -> bool
    decreases a,
{
    match (a, b) {
        (RelationalOp::Relation(x), RelationalOp::Relation(y)) => x@ == y@,
        (RelationalOp::SetOperation(x), RelationalOp::SetOperation(y)) => x.op == y.op
            && same_operation(*x.lhs, *y.lhs) && same_operation(*x.rhs, *y.rhs),
        (RelationalOp::Selection(x), RelationalOp::Selection(y)) => same_term(
            x.criteria,
            y.criteria,
        ) && same_operation(*x.rhs, *y.rhs),
        (RelationalOp::Projection(x), RelationalOp::Projection(y)) => same_projected_list(
            x.attributes@,
            y.attributes@,
        ) && same_operation(*x.rhs, *y.rhs),
        (RelationalOp::Rename(x), RelationalOp::Rename(y)) => same_renames(x.renames@, y.renames@)
            && same_operation(*x.rhs, *y.rhs),
        (RelationalOp::Order(x), RelationalOp::Order(y)) => same_attributes(
            x.attributes@,
            y.attributes@,
        ) && same_operation(*x.rhs, *y.rhs),
        (RelationalOp::Group(x), RelationalOp::Group(y)) => same_attributes(
            x.attributes@,
            y.attributes@,
        ) && same_operation(*x.rhs, *y.rhs),
        (RelationalOp::Join(Join::Natural(x)), RelationalOp::Join(Join::Natural(y))) =>
            same_operation(*x.lhs, *y.lhs) && same_operation(*x.rhs, *y.rhs),
        (RelationalOp::Join(Join::Theta(x)), RelationalOp::Join(Join::Theta(y))) => same_term(
            x.criteria,
            y.criteria,
        ) && same_operation(*x.lhs, *y.lhs) && same_operation(*x.rhs, *y.rhs),
        _ => false,
    }
}

fn duplicate_attribute(a: &Attribute) -> (r: Attribute)
    ensures
        same_attribute(*a, r),
{
    match a {
        Attribute::Index(i) => Attribute::Index(*i),
        Attribute::Name(n) => Attribute::Name(n.clone()),
    }
}

fn duplicate_projected(a: &ProjectedAttribute) -> (r: ProjectedAttribute)
    ensures
        same_projected(*a, r),
{
    match a {
        ProjectedAttribute::Index(i) => ProjectedAttribute::Index(*i),
        ProjectedAttribute::Name(n) => ProjectedAttribute::Name(n.clone()),
        ProjectedAttribute::Constant(v) => ProjectedAttribute::Constant(v.clone()),
    }
}

fn duplicate_atom(a: &Atom) -> (r: Atom)
    ensures
        same_atom(*a, r),
{
    Atom { lhs: duplicate_attribute(&a.lhs), op: a.op, rhs: duplicate_projected(&a.rhs) }
}

fn duplicate_attributes(list: &Vec<Attribute>) -> (r: Vec<Attribute>)
    ensures
        same_attributes(list@, r@),
{
    let mut copy: Vec<Attribute> = Vec::new();
    let mut i: usize = 0;
    while i < list.len()
        invariant
            i <= list.len(),
            copy@.len() == i,
            forall|k: int| 0 <= k < i ==> same_attribute(#[trigger] list@[k], copy@[k]),
        decreases list.len() - i,
    {
        copy.push(duplicate_attribute(&list[i]));
        i += 1;
    }
    copy
}

fn duplicate_projected_list(list: &Vec<ProjectedAttribute>) -> (r: Vec<ProjectedAttribute>)
    ensures
        same_projected_list(list@, r@),
{
    let mut copy: Vec<ProjectedAttribute> = Vec::new();
    let mut i: usize = 0;
    while i < list.len()
        invariant
            i <= list.len(),
            copy@.len() == i,
            forall|k: int| 0 <= k < i ==> same_projected(#[trigger] list@[k], copy@[k]),
        decreases list.len() - i,
    {
        copy.push(duplicate_projected(&list[i]));
        i += 1;
    }
    copy
}

fn duplicate_renames(list: &Vec<(Attribute, Name)>) -> (r: Vec<(Attribute, Name)>)
    ensures
        same_renames(list@, r@),
{
    let mut copy: Vec<(Attribute, Name)> = Vec::new();
    let mut i: usize = 0;
    while i < list.len()
        invariant
            i <= list.len(),
            copy@.len() == i,
            forall|k: int|
                0 <= k < i ==> same_attribute((#[trigger] list@[k]).0, copy@[k].0) && list@[k].1@
                    == copy@[k].1@,
        decreases list.len() - i,
    {
        copy.push((duplicate_attribute(&list[i].0), list[i].1.clone()));
        i += 1;
    }
    copy
}

/// A copy of a condition: the same condition.
fn duplicate_term(t: &Term) -> (r: Term)
    ensures
        same_term(*t, r),
    decreases *t,
{
    match t {
        Term::Constant(v) => Term::Constant(v.clone()),
        Term::Exists(a) => Term::Exists(duplicate_attribute(a)),
        Term::Atom(a) => Term::Atom(duplicate_atom(a)),
        Term::Negate(t) => Term::Negate(Box::new(duplicate_term(t))),
        Term::And(l, r) => Term::And(Box::new(duplicate_term(l)), Box::new(duplicate_term(r))),
        Term::Or(l, r) => Term::Or(Box::new(duplicate_term(l)), Box::new(duplicate_term(r))),
    }
}

/// A copy of an operation: the same operation.
fn duplicate_operation(op: &RelationalOp) -> (r: RelationalOp)
    ensures
        same_operation(*op, r),
    decreases *op,
{
    match op {
        RelationalOp::Relation(n) => RelationalOp::Relation(n.clone()),
        RelationalOp::SetOperation(s) => RelationalOp::SetOperation(
            SetOperation {
                lhs: Box::new(duplicate_operation(&s.lhs)),
                op: s.op,
                rhs: Box::new(duplicate_operation(&s.rhs)),
            },
        ),
        RelationalOp::Selection(s) => RelationalOp::Selection(
            Selection {
                criteria: duplicate_term(&s.criteria),
                rhs: Box::new(duplicate_operation(&s.rhs)),
            },
        ),
        RelationalOp::Projection(s) => RelationalOp::Projection(
            Projection {
                attributes: duplicate_projected_list(&s.attributes),
                rhs: Box::new(duplicate_operation(&s.rhs)),
            },
        ),
        RelationalOp::Rename(s) => RelationalOp::Rename(
            Rename {
                renames: duplicate_renames(&s.renames),
                rhs: Box::new(duplicate_operation(&s.rhs)),
            },
        ),
        RelationalOp::Order(s) => RelationalOp::Order(
            Order {
                attributes: duplicate_attributes(&s.attributes),
                rhs: Box::new(duplicate_operation(&s.rhs)),
            },
        ),
        RelationalOp::Group(s) => RelationalOp::Group(
            Group {
                attributes: duplicate_attributes(&s.attributes),
                rhs: Box::new(duplicate_operation(&s.rhs)),
            },
        ),
        RelationalOp::Join(Join::Natural(s)) => RelationalOp::Join(
            Join::Natural(
                NaturalJoin {
                    lhs: Box::new(duplicate_operation(&s.lhs)),
                    rhs: Box::new(duplicate_operation(&s.rhs)),
                },
            ),
        ),
        RelationalOp::Join(Join::Theta(s)) => RelationalOp::Join(
            Join::Theta(
                ThetaJoin {
                    lhs: Box::new(duplicate_operation(&s.lhs)),
                    criteria: duplicate_term(&s.criteria),
                    rhs: Box::new(duplicate_operation(&s.rhs)),
                },
            ),
        ),
    }
}

impl Clone for Term {
    fn clone(&self) -> (r: Self)
        ensures
            same_term(*self, r),
    {
        duplicate_term(self)
    }
}

impl Clone for RelationalOp {
    fn clone(&self) -> (r: Self)
        ensures
            same_operation(*self, r),
    {
        duplicate_operation(self)
    }
}

impl Clone for SetOperation {
    fn clone(&self) -> (r: Self)
        ensures
            same_operation(RelationalOp::SetOperation(*self), RelationalOp::SetOperation(r)),
    {
        SetOperation {
            lhs: Box::new(duplicate_operation(&self.lhs)),
            op: self.op,
            rhs: Box::new(duplicate_operation(&self.rhs)),
        }
    }
}

impl Clone for Selection {
    fn clone(&self) -> (r: Self)
        ensures
            same_operation(RelationalOp::Selection(*self), RelationalOp::Selection(r)),
    {
        Selection {
            criteria: duplicate_term(&self.criteria),
            rhs: Box::new(duplicate_operation(&self.rhs)),
        }
    }
}

impl Clone for Projection {
    fn clone(&self) -> (r: Self)
        ensures
            same_operation(RelationalOp::Projection(*self), RelationalOp::Projection(r)),
    {
        Projection {
            attributes: duplicate_projected_list(&self.attributes),
            rhs: Box::new(duplicate_operation(&self.rhs)),
        }
    }
}

impl Clone for Rename {
    fn clone(&self) -> (r: Self)
        ensures
            same_operation(RelationalOp::Rename(*self), RelationalOp::Rename(r)),
    {
        Rename {
            renames: duplicate_renames(&self.renames),
            rhs: Box::new(duplicate_operation(&self.rhs)),
        }
    }
}

impl Clone for Order {
    fn clone(&self) -> (r: Self)
        ensures
            same_operation(RelationalOp::Order(*self), RelationalOp::Order(r)),
    {
        Order {
            attributes: duplicate_attributes(&self.attributes),
            rhs: Box::new(duplicate_operation(&self.rhs)),
        }
    }
}

impl Clone for Group {
    fn clone(&self) -> (r: Self)
        ensures
            same_operation(RelationalOp::Group(*self), RelationalOp::Group(r)),
    {
        Group {
            attributes: duplicate_attributes(&self.attributes),
            rhs: Box::new(duplicate_operation(&self.rhs)),
        }
    }
}

impl Clone for NaturalJoin {
    fn clone(&self) -> (r: Self)
        ensures
            same_operation(
                RelationalOp::Join(Join::Natural(*self)),
                RelationalOp::Join(Join::Natural(r)),
            ),
    {
        NaturalJoin {
            lhs: Box::new(duplicate_operation(&self.lhs)),
            rhs: Box::new(duplicate_operation(&self.rhs)),
        }
    }
}

impl Clone for ThetaJoin {
    fn clone(&self) -> (r: Self)
        ensures
            same_operation(
                RelationalOp::Join(Join::Theta(*self)),
                RelationalOp::Join(Join::Theta(r)),
            ),
    {
        ThetaJoin {
            lhs: Box::new(duplicate_operation(&self.lhs)),
            criteria: duplicate_term(&self.criteria),
            rhs: Box::new(duplicate_operation(&self.rhs)),
        }
    }
}

impl Clone for Join {
    fn clone(&self) -> (r: Self)
        ensures
            same_operation(RelationalOp::Join(*self), RelationalOp::Join(r)),
    {
        match self {
            Join::Natural(v) => Join::Natural(v.clone()),
            Join::Theta(v) => Join::Theta(v.clone()),
        }
    }
}

} // verus!
