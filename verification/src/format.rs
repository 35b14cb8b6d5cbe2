//! Writing expressions as text, in one of four notations.

use crate::Name;
use crate::ast::{
    same_attribute, same_attributes, same_operation, same_projected, same_projected_list,
    same_renames, same_term, Atom, Attribute, ComparisonOperator, DisplayFormat, Expression,
    ExpressionList, Group, Join, NaturalJoin, Order, ProjectedAttribute, Projection, RelationalOp,
    Rename, Selection, SetOperation, SetOperator, Term, ThetaJoin,
};
use crate::data::value_text;
use crate::text::{decimal, decimal_string, join_strings, joined, texts};
use vstd::prelude::*;

verus! {

/// A value that can be written in each of the four notations.
pub trait Format {
    /// The text of the value in the notation `fmt`.
    spec fn formatted(&self, fmt: DisplayFormat) -> Seq<char>;

    /// Writes the value in the notation `fmt`.
    fn to_formatted_string(&self, fmt: DisplayFormat) -> (r: String)
        ensures
            r@ == self.formatted(fmt),
    ;
}

/// The symbol of a set operator.
pub open spec fn set_operator_text(op: SetOperator, fmt: DisplayFormat) -> Seq<char> {
    match (op, fmt) {
        (SetOperator::Union, DisplayFormat::ToStringUnicode) => "\u{222a}"@,
        (SetOperator::Union, DisplayFormat::ToStringAscii) => "union"@,
        (SetOperator::Union, DisplayFormat::Latex) => "\\cup"@,
        (SetOperator::Union, DisplayFormat::Html) => "&cup;"@,
        (SetOperator::Intersection, DisplayFormat::ToStringUnicode) => "\u{2229}"@,
        (SetOperator::Intersection, DisplayFormat::ToStringAscii) => "intersect"@,
        (SetOperator::Intersection, DisplayFormat::Latex) => "\\cap"@,
        (SetOperator::Intersection, DisplayFormat::Html) => "&cap;"@,
        (SetOperator::Difference, DisplayFormat::ToStringUnicode) => "\u{2216}"@,
        (SetOperator::Difference, DisplayFormat::ToStringAscii) => "difference"@,
        (SetOperator::Difference, DisplayFormat::Latex) => "\\setminus"@,
        (SetOperator::Difference, DisplayFormat::Html) => "&setminus;"@,
        (SetOperator::SymmetricDifference, DisplayFormat::ToStringUnicode) => "\u{25b3}"@,
        (SetOperator::SymmetricDifference, DisplayFormat::ToStringAscii) => "symdifference"@,
        (SetOperator::SymmetricDifference, DisplayFormat::Latex) => "\\triangle"@,
        (SetOperator::SymmetricDifference, DisplayFormat::Html) => "&xutri;"@,
        (SetOperator::CartesianProduct, DisplayFormat::ToStringUnicode) => "\u{d7}"@,
        (SetOperator::CartesianProduct, DisplayFormat::ToStringAscii) => "product"@,
        (SetOperator::CartesianProduct, DisplayFormat::Latex) => "\\times"@,
        (SetOperator::CartesianProduct, DisplayFormat::Html) => "&times;"@,
    }
}

fn set_operator_text_str(op: SetOperator, fmt: DisplayFormat) -> (r: &'static str)
    ensures
        r@ == set_operator_text(op, fmt),
{
    match (op, fmt) {
        (SetOperator::Union, DisplayFormat::ToStringUnicode) => "\u{222a}",
        (SetOperator::Union, DisplayFormat::ToStringAscii) => "union",
        (SetOperator::Union, DisplayFormat::Latex) => "\\cup",
        (SetOperator::Union, DisplayFormat::Html) => "&cup;",
        (SetOperator::Intersection, DisplayFormat::ToStringUnicode) => "\u{2229}",
        (SetOperator::Intersection, DisplayFormat::ToStringAscii) => "intersect",
        (SetOperator::Intersection, DisplayFormat::Latex) => "\\cap",
        (SetOperator::Intersection, DisplayFormat::Html) => "&cap;",
        (SetOperator::Difference, DisplayFormat::ToStringUnicode) => "\u{2216}",
        (SetOperator::Difference, DisplayFormat::ToStringAscii) => "difference",
        (SetOperator::Difference, DisplayFormat::Latex) => "\\setminus",
        (SetOperator::Difference, DisplayFormat::Html) => "&setminus;",
        (SetOperator::SymmetricDifference, DisplayFormat::ToStringUnicode) => "\u{25b3}",
        (SetOperator::SymmetricDifference, DisplayFormat::ToStringAscii) => "symdifference",
        (SetOperator::SymmetricDifference, DisplayFormat::Latex) => "\\triangle",
        (SetOperator::SymmetricDifference, DisplayFormat::Html) => "&xutri;",
        (SetOperator::CartesianProduct, DisplayFormat::ToStringUnicode) => "\u{d7}",
        (SetOperator::CartesianProduct, DisplayFormat::ToStringAscii) => "product",
        (SetOperator::CartesianProduct, DisplayFormat::Latex) => "\\times",
        (SetOperator::CartesianProduct, DisplayFormat::Html) => "&times;",
    }
}

/// The symbol of a comparison operator.
pub open spec fn comparison_operator_text(op: ComparisonOperator, fmt: DisplayFormat) -> Seq<char> {
    match (op, fmt) {
        (ComparisonOperator::Equal, DisplayFormat::ToStringUnicode) => "="@,
        (ComparisonOperator::Equal, DisplayFormat::ToStringAscii) => "="@,
        (ComparisonOperator::Equal, DisplayFormat::Latex) => "="@,
        (ComparisonOperator::Equal, DisplayFormat::Html) => "&equals;"@,
        (ComparisonOperator::NotEqual, DisplayFormat::ToStringUnicode) => "\u{2260}"@,
        (ComparisonOperator::NotEqual, DisplayFormat::ToStringAscii) => "/="@,
        (ComparisonOperator::NotEqual, DisplayFormat::Latex) => "\\neq"@,
        (ComparisonOperator::NotEqual, DisplayFormat::Html) => "&ne;"@,
        (ComparisonOperator::LessThan, DisplayFormat::ToStringUnicode) => "<"@,
        (ComparisonOperator::LessThan, DisplayFormat::ToStringAscii) => "<"@,
        (ComparisonOperator::LessThan, DisplayFormat::Latex) => "<"@,
        (ComparisonOperator::LessThan, DisplayFormat::Html) => "<"@,
        (ComparisonOperator::LessThanOrEqual, DisplayFormat::ToStringUnicode) => "\u{2264}"@,
        (ComparisonOperator::LessThanOrEqual, DisplayFormat::ToStringAscii) => "<="@,
        (ComparisonOperator::LessThanOrEqual, DisplayFormat::Latex) => "\\leq"@,
        (ComparisonOperator::LessThanOrEqual, DisplayFormat::Html) => "&le;"@,
        (ComparisonOperator::GreaterThan, DisplayFormat::ToStringUnicode) => ">"@,
        (ComparisonOperator::GreaterThan, DisplayFormat::ToStringAscii) => ">"@,
        (ComparisonOperator::GreaterThan, DisplayFormat::Latex) => ">"@,
        (ComparisonOperator::GreaterThan, DisplayFormat::Html) => ">"@,
        (ComparisonOperator::GreaterThanOrEqual, DisplayFormat::ToStringUnicode) => "\u{2265}"@,
        (ComparisonOperator::GreaterThanOrEqual, DisplayFormat::ToStringAscii) => ">="@,
        (ComparisonOperator::GreaterThanOrEqual, DisplayFormat::Latex) => "\\geq"@,
        (ComparisonOperator::GreaterThanOrEqual, DisplayFormat::Html) => "&ge;"@,
        (ComparisonOperator::StringMatch, DisplayFormat::ToStringUnicode) => "~"@,
        (ComparisonOperator::StringMatch, DisplayFormat::ToStringAscii) => "~"@,
        (ComparisonOperator::StringMatch, DisplayFormat::Latex) => "\\\\sim"@,
        (ComparisonOperator::StringMatch, DisplayFormat::Html) => "&sim;"@,
        (ComparisonOperator::StringNotMatch, DisplayFormat::ToStringUnicode) => "\u{2241}"@,
        (ComparisonOperator::StringNotMatch, DisplayFormat::ToStringAscii) => "/~"@,
        (ComparisonOperator::StringNotMatch, DisplayFormat::Latex) => "\\\\nsim"@,
        (ComparisonOperator::StringNotMatch, DisplayFormat::Html) => "&nsim;"@,
    }
}

fn comparison_operator_text_str(op: ComparisonOperator, fmt: DisplayFormat) -> (r: &'static str)
    ensures
        r@ == comparison_operator_text(op, fmt),
{
    match (op, fmt) {
        (ComparisonOperator::Equal, DisplayFormat::ToStringUnicode) => "=",
        (ComparisonOperator::Equal, DisplayFormat::ToStringAscii) => "=",
        (ComparisonOperator::Equal, DisplayFormat::Latex) => "=",
        (ComparisonOperator::Equal, DisplayFormat::Html) => "&equals;",
        (ComparisonOperator::NotEqual, DisplayFormat::ToStringUnicode) => "\u{2260}",
        (ComparisonOperator::NotEqual, DisplayFormat::ToStringAscii) => "/=",
        (ComparisonOperator::NotEqual, DisplayFormat::Latex) => "\\neq",
        (ComparisonOperator::NotEqual, DisplayFormat::Html) => "&ne;",
        (ComparisonOperator::LessThan, DisplayFormat::ToStringUnicode) => "<",
        (ComparisonOperator::LessThan, DisplayFormat::ToStringAscii) => "<",
        (ComparisonOperator::LessThan, DisplayFormat::Latex) => "<",
        (ComparisonOperator::LessThan, DisplayFormat::Html) => "<",
        (ComparisonOperator::LessThanOrEqual, DisplayFormat::ToStringUnicode) => "\u{2264}",
        (ComparisonOperator::LessThanOrEqual, DisplayFormat::ToStringAscii) => "<=",
        (ComparisonOperator::LessThanOrEqual, DisplayFormat::Latex) => "\\leq",
        (ComparisonOperator::LessThanOrEqual, DisplayFormat::Html) => "&le;",
        (ComparisonOperator::GreaterThan, DisplayFormat::ToStringUnicode) => ">",
        (ComparisonOperator::GreaterThan, DisplayFormat::ToStringAscii) => ">",
        (ComparisonOperator::GreaterThan, DisplayFormat::Latex) => ">",
        (ComparisonOperator::GreaterThan, DisplayFormat::Html) => ">",
        (ComparisonOperator::GreaterThanOrEqual, DisplayFormat::ToStringUnicode) => "\u{2265}",
        (ComparisonOperator::GreaterThanOrEqual, DisplayFormat::ToStringAscii) => ">=",
        (ComparisonOperator::GreaterThanOrEqual, DisplayFormat::Latex) => "\\geq",
        (ComparisonOperator::GreaterThanOrEqual, DisplayFormat::Html) => "&ge;",
        (ComparisonOperator::StringMatch, DisplayFormat::ToStringUnicode) => "~",
        (ComparisonOperator::StringMatch, DisplayFormat::ToStringAscii) => "~",
        (ComparisonOperator::StringMatch, DisplayFormat::Latex) => "\\\\sim",
        (ComparisonOperator::StringMatch, DisplayFormat::Html) => "&sim;",
        (ComparisonOperator::StringNotMatch, DisplayFormat::ToStringUnicode) => "\u{2241}",
        (ComparisonOperator::StringNotMatch, DisplayFormat::ToStringAscii) => "/~",
        (ComparisonOperator::StringNotMatch, DisplayFormat::Latex) => "\\\\nsim",
        (ComparisonOperator::StringNotMatch, DisplayFormat::Html) => "&nsim;",
    }
}

/// The symbol that binds a name to an expression.
pub open spec fn assignment_text(fmt: DisplayFormat) -> Seq<char> {
    match fmt {
        DisplayFormat::ToStringUnicode => "\u{2254}"@,
        DisplayFormat::ToStringAscii => ":="@,
        DisplayFormat::Latex => "\\coloneqq"@,
        DisplayFormat::Html => "&#x2254;"@,
    }
}

fn assignment_text_str(fmt: DisplayFormat) -> (r: &'static str)
    ensures
        r@ == assignment_text(fmt),
{
    match fmt {
        DisplayFormat::ToStringUnicode => "\u{2254}",
        DisplayFormat::ToStringAscii => ":=",
        DisplayFormat::Latex => "\\coloneqq",
        DisplayFormat::Html => "&#x2254;",
    }
}

/// The symbol before a negated condition.
pub open spec fn negation_text(fmt: DisplayFormat) -> Seq<char> {
    match fmt {
        DisplayFormat::ToStringUnicode => "\u{ac}"@,
        DisplayFormat::ToStringAscii => "not "@,
        DisplayFormat::Latex => "\\neg"@,
        DisplayFormat::Html => "&not;"@,
    }
}

fn negation_text_str(fmt: DisplayFormat) -> (r: &'static str)
    ensures
        r@ == negation_text(fmt),
{
    match fmt {
        DisplayFormat::ToStringUnicode => "\u{ac}",
        DisplayFormat::ToStringAscii => "not ",
        DisplayFormat::Latex => "\\neg",
        DisplayFormat::Html => "&not;",
    }
}

/// The symbol between the two sides of a conjunction, with its spaces.
pub open spec fn conjunction_text(fmt: DisplayFormat) -> Seq<char> {
    match fmt {
        DisplayFormat::ToStringUnicode => " \u{2227} "@,
        DisplayFormat::ToStringAscii => " and "@,
        DisplayFormat::Latex => " \\land "@,
        DisplayFormat::Html => " &and; "@,
    }
}

fn conjunction_text_str(fmt: DisplayFormat) -> (r: &'static str)
    ensures
        r@ == conjunction_text(fmt),
{
    match fmt {
        DisplayFormat::ToStringUnicode => " \u{2227} ",
        DisplayFormat::ToStringAscii => " and ",
        DisplayFormat::Latex => " \\land ",
        DisplayFormat::Html => " &and; ",
    }
}

/// The symbol between the two sides of a disjunction, with its spaces.
pub open spec fn disjunction_text(fmt: DisplayFormat) -> Seq<char> {
    match fmt {
        DisplayFormat::ToStringUnicode => " \u{2228} "@,
        DisplayFormat::ToStringAscii => " or "@,
        DisplayFormat::Latex => " \\lor "@,
        DisplayFormat::Html => " &or; "@,
    }
}

fn disjunction_text_str(fmt: DisplayFormat) -> (r: &'static str)
    ensures
        r@ == disjunction_text(fmt),
{
    match fmt {
        DisplayFormat::ToStringUnicode => " \u{2228} ",
        DisplayFormat::ToStringAscii => " or ",
        DisplayFormat::Latex => " \\lor ",
        DisplayFormat::Html => " &or; ",
    }
}

/// What stands before the criteria of a selection.
pub open spec fn selection_open(fmt: DisplayFormat) -> Seq<char> {
    match fmt {
        DisplayFormat::ToStringUnicode => "\u{3c3}["@,
        DisplayFormat::ToStringAscii => "select["@,
        DisplayFormat::Latex => "\\sigma_{"@,
        DisplayFormat::Html => "&sigma;<sub>"@,
    }
}

fn selection_open_str(fmt: DisplayFormat) -> (r: &'static str)
    ensures
        r@ == selection_open(fmt),
{
    match fmt {
        DisplayFormat::ToStringUnicode => "\u{3c3}[",
        DisplayFormat::ToStringAscii => "select[",
        DisplayFormat::Latex => "\\sigma_{",
        DisplayFormat::Html => "&sigma;<sub>",
    }
}

/// What stands before the attributes of a projection.
pub open spec fn projection_open(fmt: DisplayFormat) -> Seq<char> {
    match fmt {
        DisplayFormat::ToStringUnicode => "\u{3c0}["@,
        DisplayFormat::ToStringAscii => "project["@,
        DisplayFormat::Latex => "\\pi_{"@,
        DisplayFormat::Html => "&pi;<sub>"@,
    }
}

fn projection_open_str(fmt: DisplayFormat) -> (r: &'static str)
    ensures
        r@ == projection_open(fmt),
{
    match fmt {
        DisplayFormat::ToStringUnicode => "\u{3c0}[",
        DisplayFormat::ToStringAscii => "project[",
        DisplayFormat::Latex => "\\pi_{",
        DisplayFormat::Html => "&pi;<sub>",
    }
}

/// What stands before the names of a rename.
pub open spec fn rename_open(fmt: DisplayFormat) -> Seq<char> {
    match fmt {
        DisplayFormat::ToStringUnicode => "\u{3c1}["@,
        DisplayFormat::ToStringAscii => "rename["@,
        DisplayFormat::Latex => "\\rho_{"@,
        DisplayFormat::Html => "&rho;<sub>"@,
    }
}

fn rename_open_str(fmt: DisplayFormat) -> (r: &'static str)
    ensures
        r@ == rename_open(fmt),
{
    match fmt {
        DisplayFormat::ToStringUnicode => "\u{3c1}[",
        DisplayFormat::ToStringAscii => "rename[",
        DisplayFormat::Latex => "\\rho_{",
        DisplayFormat::Html => "&rho;<sub>",
    }
}

/// What stands before the attributes of an ordering.
pub open spec fn order_open(fmt: DisplayFormat) -> Seq<char> {
    match fmt {
        DisplayFormat::ToStringUnicode => "\u{3c4}["@,
        DisplayFormat::ToStringAscii => "sort["@,
        DisplayFormat::Latex => "\\tau_{"@,
        DisplayFormat::Html => "&tau;<sub>"@,
    }
}

fn order_open_str(fmt: DisplayFormat) -> (r: &'static str)
    ensures
        r@ == order_open(fmt),
{
    match fmt {
        DisplayFormat::ToStringUnicode => "\u{3c4}[",
        DisplayFormat::ToStringAscii => "sort[",
        DisplayFormat::Latex => "\\tau_{",
        DisplayFormat::Html => "&tau;<sub>",
    }
}

/// What stands before the attributes of a grouping.
pub open spec fn group_open(fmt: DisplayFormat) -> Seq<char> {
    match fmt {
        DisplayFormat::ToStringUnicode => "\u{3b3}["@,
        DisplayFormat::ToStringAscii => "group["@,
        DisplayFormat::Latex => "\\gamma_{"@,
        DisplayFormat::Html => "&gamma;<sub>"@,
    }
}

fn group_open_str(fmt: DisplayFormat) -> (r: &'static str)
    ensures
        r@ == group_open(fmt),
{
    match fmt {
        DisplayFormat::ToStringUnicode => "\u{3b3}[",
        DisplayFormat::ToStringAscii => "group[",
        DisplayFormat::Latex => "\\gamma_{",
        DisplayFormat::Html => "&gamma;<sub>",
    }
}

/// What stands after the arguments of an operator.
pub open spec fn arguments_close(fmt: DisplayFormat) -> Seq<char> {
    match fmt {
        DisplayFormat::ToStringUnicode => "]"@,
        DisplayFormat::ToStringAscii => "]"@,
        DisplayFormat::Latex => "}"@,
        DisplayFormat::Html => "</sub>"@,
    }
}

fn arguments_close_str(fmt: DisplayFormat) -> (r: &'static str)
    ensures
        r@ == arguments_close(fmt),
{
    match fmt {
        DisplayFormat::ToStringUnicode => "]",
        DisplayFormat::ToStringAscii => "]",
        DisplayFormat::Latex => "}",
        DisplayFormat::Html => "</sub>",
    }
}

/// The symbol of a natural join.
pub open spec fn natural_join_text(fmt: DisplayFormat) -> Seq<char> {
    match fmt {
        DisplayFormat::ToStringUnicode => "\u{2a1d}"@,
        DisplayFormat::ToStringAscii => "join"@,
        DisplayFormat::Latex => "\\Join"@,
        DisplayFormat::Html => "\u{2a1d}"@,
    }
}

fn natural_join_text_str(fmt: DisplayFormat) -> (r: &'static str)
    ensures
        r@ == natural_join_text(fmt),
{
    match fmt {
        DisplayFormat::ToStringUnicode => "\u{2a1d}",
        DisplayFormat::ToStringAscii => "join",
        DisplayFormat::Latex => "\\Join",
        DisplayFormat::Html => "\u{2a1d}",
    }
}

/// The symbol of a theta join and what stands before its criteria.
pub open spec fn theta_join_open(fmt: DisplayFormat) -> Seq<char> {
    match fmt {
        DisplayFormat::ToStringUnicode => "\u{2a1d}["@,
        DisplayFormat::ToStringAscii => "theta["@,
        DisplayFormat::Latex => "\\Join{"@,
        DisplayFormat::Html => "\u{2a1d}<sub>"@,
    }
}

fn theta_join_open_str(fmt: DisplayFormat) -> (r: &'static str)
    ensures
        r@ == theta_join_open(fmt),
{
    match fmt {
        DisplayFormat::ToStringUnicode => "\u{2a1d}[",
        DisplayFormat::ToStringAscii => "theta[",
        DisplayFormat::Latex => "\\Join{",
        DisplayFormat::Html => "\u{2a1d}<sub>",
    }
}

/// What stands before an operand that is itself an operation.
pub open spec fn operand_open(fmt: DisplayFormat) -> Seq<char> {
    match fmt {
        DisplayFormat::ToStringUnicode => "("@,
        DisplayFormat::ToStringAscii => "("@,
        DisplayFormat::Latex => "\\("@,
        DisplayFormat::Html => "("@,
    }
}

fn operand_open_str(fmt: DisplayFormat) -> (r: &'static str)
    ensures
        r@ == operand_open(fmt),
{
    match fmt {
        DisplayFormat::ToStringUnicode => "(",
        DisplayFormat::ToStringAscii => "(",
        DisplayFormat::Latex => "\\(",
        DisplayFormat::Html => "(",
    }
}

/// What stands after an operand that is itself an operation.
pub open spec fn operand_close(fmt: DisplayFormat) -> Seq<char> {
    match fmt {
        DisplayFormat::ToStringUnicode => ")"@,
        DisplayFormat::ToStringAscii => ")"@,
        DisplayFormat::Latex => "\\)"@,
        DisplayFormat::Html => ")"@,
    }
}

fn operand_close_str(fmt: DisplayFormat) -> (r: &'static str)
    ensures
        r@ == operand_close(fmt),
{
    match fmt {
        DisplayFormat::ToStringUnicode => ")",
        DisplayFormat::ToStringAscii => ")",
        DisplayFormat::Latex => "\\)",
        DisplayFormat::Html => ")",
    }
}

/// What stands after each expression of a list.
pub open spec fn list_separator(fmt: DisplayFormat) -> Seq<char> {
    match fmt {
        DisplayFormat::ToStringUnicode => ";
"@,
        DisplayFormat::ToStringAscii => "; "@,
        DisplayFormat::Latex => ";
"@,
        DisplayFormat::Html => ";
"@,
    }
}

fn list_separator_str(fmt: DisplayFormat) -> (r: &'static str)
    ensures
        r@ == list_separator(fmt),
{
    match fmt {
        DisplayFormat::ToStringUnicode => ";
",
        DisplayFormat::ToStringAscii => "; ",
        DisplayFormat::Latex => ";
",
        DisplayFormat::Html => ";
",
    }
}

/// What stands before an expression written on its own.
pub open spec fn top_level_open(fmt: DisplayFormat) -> Seq<char> {
    match fmt {
        DisplayFormat::ToStringUnicode => ""@,
        DisplayFormat::ToStringAscii => ""@,
        DisplayFormat::Latex => "${"@,
        DisplayFormat::Html => "<math>"@,
    }
}

fn top_level_open_str(fmt: DisplayFormat) -> (r: &'static str)
    ensures
        r@ == top_level_open(fmt),
{
    match fmt {
        DisplayFormat::ToStringUnicode => "",
        DisplayFormat::ToStringAscii => "",
        DisplayFormat::Latex => "${",
        DisplayFormat::Html => "<math>",
    }
}

/// What stands after an expression written on its own.
pub open spec fn top_level_close(fmt: DisplayFormat) -> Seq<char> {
    match fmt {
        DisplayFormat::ToStringUnicode => ""@,
        DisplayFormat::ToStringAscii => ""@,
        DisplayFormat::Latex => "}$"@,
        DisplayFormat::Html => "</math>"@,
    }
}

fn top_level_close_str(fmt: DisplayFormat) -> (r: &'static str)
    ensures
        r@ == top_level_close(fmt),
{
    match fmt {
        DisplayFormat::ToStringUnicode => "",
        DisplayFormat::ToStringAscii => "",
        DisplayFormat::Latex => "}$",
        DisplayFormat::Html => "</math>",
    }
}

/// How an attribute is written: its index in decimal, or its name.
pub open spec fn attribute_text(a: Attribute) -> Seq<char> {
    match a {
        Attribute::Index(i) => decimal(i as nat),
        Attribute::Name(n) => n@,
    }
}

/// How a projected attribute is written: its index in decimal, its name, or
/// its constant as a value is written.
pub open spec fn projected_attribute_text(a: ProjectedAttribute) -> Seq<char> {
    match a {
        ProjectedAttribute::Index(i) => decimal(i as nat),
        ProjectedAttribute::Name(n) => n@,
        ProjectedAttribute::Constant(v) => value_text(v@),
    }
}

/// How an atom is written: its left side, its operator and its right side,
/// without spaces.
pub open spec fn atom_text(a: Atom, fmt: DisplayFormat) -> Seq<char> {
    attribute_text(a.lhs) + comparison_operator_text(a.op, fmt) + projected_attribute_text(a.rhs)
}

/// How a condition is written.
pub open spec fn term_text(t: Term, fmt: DisplayFormat) -> Seq<char>
    decreases t,
{
    match t {
        Term::Constant(v) => value_text(v@),
        Term::Exists(a) => "?"@ + attribute_text(a),
        Term::Atom(a) => atom_text(a, fmt),
        Term::Negate(t) => negation_text(fmt) + term_text(*t, fmt),
        Term::And(l, r) => term_text(*l, fmt) + conjunction_text(fmt) + term_text(*r, fmt),
        Term::Or(l, r) => term_text(*l, fmt) + disjunction_text(fmt) + term_text(*r, fmt),
    }
}

/// The first entry from `from` on that renames the attribute at `index`.
pub open spec fn find_index_key(renames: Seq<(Attribute, Name)>, index: usize, from: int) -> Option<
    int,
>
    decreases renames.len() - from,
{
    if from >= renames.len() {
        None
    } else if renames[from].0 == Attribute::Index(index) {
        Some(from)
    } else {
        find_index_key(renames, index, from + 1)
    }
}

/// Whether a rename list renames by position: for each position below its
/// length it has an entry that renames the attribute at that position.
pub open spec fn renames_by_position(renames: Seq<(Attribute, Name)>) -> bool {
    forall|i: int|
        0 <= i < renames.len() ==> (#[trigger] find_index_key(renames, i as usize, 0)) is Some
}

/// The entries of a rename list, each written as `attribute/name`.
pub open spec fn rename_pair_texts(renames: Seq<(Attribute, Name)>) -> Seq<Seq<char>> {
    Seq::new(renames.len(), |k: int| attribute_text(renames[k].0) + "/"@ + renames[k].1@)
}

/// How the entries of a rename list are written, one text for each. A list
/// that renames by position is written as the new names in the order of the
/// positions; any other as `attribute/name` in the order of its entries.
pub open spec fn rename_texts(renames: Seq<(Attribute, Name)>) -> Seq<Seq<char>> {
    if renames_by_position(renames) {
        Seq::new(
            renames.len(),
            |i: int| renames[find_index_key(renames, i as usize, 0)->Some_0].1@,
        )
    } else {
        rename_pair_texts(renames)
    }
}

/// How an operand is written, given its own text: a bare relation as it is,
/// an operation between the delimiters of the notation.
pub open spec fn operand_text(op: RelationalOp, text: Seq<char>, fmt: DisplayFormat) -> Seq<char> {
    if op is Relation {
        text
    } else {
        operand_open(fmt) + text + operand_close(fmt)
    }
}

/// How an operation is written.
pub open spec fn relational_text(op: RelationalOp, fmt: DisplayFormat) -> Seq<char>
    decreases op,
{
    match op {
        RelationalOp::Relation(n) => n@,
        RelationalOp::SetOperation(s) => operand_text(*s.lhs, relational_text(*s.lhs, fmt), fmt)
            + " "@ + set_operator_text(s.op, fmt) + " "@ + operand_text(
            *s.rhs,
            relational_text(*s.rhs, fmt),
            fmt,
        ),
        RelationalOp::Selection(s) => selection_open(fmt) + term_text(s.criteria, fmt)
            + arguments_close(fmt) + operand_text(*s.rhs, relational_text(*s.rhs, fmt), fmt),
        RelationalOp::Projection(s) => projection_open(fmt) + joined(
            s.attributes@.map_values(|a: ProjectedAttribute| projected_attribute_text(a)),
            ", "@,
        ) + arguments_close(fmt) + operand_text(*s.rhs, relational_text(*s.rhs, fmt), fmt),
        RelationalOp::Rename(s) => rename_open(fmt) + joined(rename_texts(s.renames@), ", "@)
            + arguments_close(fmt) + operand_text(*s.rhs, relational_text(*s.rhs, fmt), fmt),
        RelationalOp::Order(s) => order_open(fmt) + joined(
            s.attributes@.map_values(|a: Attribute| attribute_text(a)),
            ", "@,
        ) + arguments_close(fmt) + operand_text(*s.rhs, relational_text(*s.rhs, fmt), fmt),
        RelationalOp::Group(s) => group_open(fmt) + joined(
            s.attributes@.map_values(|a: Attribute| attribute_text(a)),
            ", "@,
        ) + arguments_close(fmt) + operand_text(*s.rhs, relational_text(*s.rhs, fmt), fmt),
        RelationalOp::Join(Join::Natural(s)) => operand_text(
            *s.lhs,
            relational_text(*s.lhs, fmt),
            fmt,
        ) + " "@ + natural_join_text(fmt) + " "@ + operand_text(
            *s.rhs,
            relational_text(*s.rhs, fmt),
            fmt,
        ),
        RelationalOp::Join(Join::Theta(s)) => operand_text(
            *s.lhs,
            relational_text(*s.lhs, fmt),
            fmt,
        ) + " "@ + theta_join_open(fmt) + term_text(s.criteria, fmt) + arguments_close(fmt) + " "@
            + operand_text(*s.rhs, relational_text(*s.rhs, fmt), fmt),
    }
}

/// How an expression is written: a bound one as its name, the assignment
/// symbol and its operation, separated by spaces; a bare one as its operation.
pub open spec fn expression_text(e: Expression, fmt: DisplayFormat) -> Seq<char> {
    match e.name {
        Some(name) => name@ + " "@ + assignment_text(fmt) + " "@ + relational_text(e.expr, fmt),
        None => relational_text(e.expr, fmt),
    }
}

/// How a list of expressions is written: each expression followed by the
/// separator of the notation.
pub open spec fn expression_list_text(list: Seq<Expression>, fmt: DisplayFormat) -> Seq<char>
    decreases list.len(),
{
    if list.len() == 0 {
        Seq::<char>::empty()
    } else {
        expression_list_text(list.drop_last(), fmt) + expression_text(list.last(), fmt)
            + list_separator(fmt)
    }
}

/// How an operation is written on its own: between the marks that open and
/// close a formula in the notation.
pub open spec fn top_level_text(op: RelationalOp, fmt: DisplayFormat) -> Seq<char> {
    top_level_open(fmt) + relational_text(op, fmt) + top_level_close(fmt)
}

/// Writes an operation on its own, as a whole formula of the notation.
pub fn format_relational(top_level: &RelationalOp, fmt: DisplayFormat) -> (r: String)
    ensures
        r@ == top_level_text(*top_level, fmt),
{
    let mut r = top_level_open_str(fmt).to_string();
    r.append(render_relational(top_level, fmt).as_str());
    r.append(top_level_close_str(fmt));
    r
}

fn render_attribute(a: &Attribute) -> (r: String)
    ensures
        r@ == attribute_text(*a),
{
    match a {
        Attribute::Index(i) => decimal_string(*i as u64),
        Attribute::Name(n) => n.to_string(),
    }
}

fn render_projected_attribute(a: &ProjectedAttribute) -> (r: String)
    ensures
        r@ == projected_attribute_text(*a),
{
    match a {
        ProjectedAttribute::Index(i) => decimal_string(*i as u64),
        ProjectedAttribute::Name(n) => n.to_string(),
        ProjectedAttribute::Constant(v) => v.to_string(),
    }
}

fn render_atom(a: &Atom, fmt: DisplayFormat) -> (r: String)
    ensures
        r@ == atom_text(*a, fmt),
{
    let mut r = render_attribute(&a.lhs);
    r.append(comparison_operator_text_str(a.op, fmt));
    r.append(render_projected_attribute(&a.rhs).as_str());
    r
}

pub(crate) fn render_term(t: &Term, fmt: DisplayFormat) -> (r: String)
    ensures
        r@ == term_text(*t, fmt),
    decreases *t,
{
    match t {
        Term::Constant(v) => v.to_string(),
        Term::Exists(a) => {
            let mut r = "?".to_string();
            r.append(render_attribute(a).as_str());
            r
        },
        Term::Atom(a) => render_atom(a, fmt),
        Term::Negate(t) => {
            let mut r = negation_text_str(fmt).to_string();
            r.append(render_term(t, fmt).as_str());
            r
        },
        Term::And(l, rhs) => {
            let mut r = render_term(l, fmt);
            r.append(conjunction_text_str(fmt));
            r.append(render_term(rhs, fmt).as_str());
            r
        },
        Term::Or(l, rhs) => {
            let mut r = render_term(l, fmt);
            r.append(disjunction_text_str(fmt));
            r.append(render_term(rhs, fmt).as_str());
            r
        },
    }
}

pub(crate) fn render_attributes(attributes: &Vec<Attribute>) -> (r: String)
    ensures
        r@ == joined(attributes@.map_values(|a: Attribute| attribute_text(a)), ", "@),
{
    let mut parts: Vec<String> = Vec::new();
    let mut i: usize = 0;
    while i < attributes.len()
        invariant
            i <= attributes.len(),
            parts@.len() == i,
            forall|k: int| 0 <= k < i ==> (#[trigger] parts@[k])@ == attribute_text(attributes@[k]),
        decreases attributes.len() - i,
    {
        parts.push(render_attribute(&attributes[i]));
        i += 1;
    }
    assert(texts(parts@) =~= attributes@.map_values(|a: Attribute| attribute_text(a)));
    join_strings(&parts, ", ")
}

pub(crate) fn render_projected_attributes(attributes: &Vec<ProjectedAttribute>) -> (r: String)
    ensures
        r@ == joined(
            attributes@.map_values(|a: ProjectedAttribute| projected_attribute_text(a)),
            ", "@,
        ),
{
    let mut parts: Vec<String> = Vec::new();
    let mut i: usize = 0;
    while i < attributes.len()
        invariant
            i <= attributes.len(),
            parts@.len() == i,
            forall|k: int|
                0 <= k < i ==> (#[trigger] parts@[k])@ == projected_attribute_text(attributes@[k]),
        decreases attributes.len() - i,
    {
        parts.push(render_projected_attribute(&attributes[i]));
        i += 1;
    }
    assert(texts(parts@) =~= attributes@.map_values(
        |a: ProjectedAttribute| projected_attribute_text(a),
    ));
    join_strings(&parts, ", ")
}

fn search_index_key(renames: &Vec<(Attribute, Name)>, index: usize) -> (r: Option<usize>)
    ensures
        match r {
            Some(k) => find_index_key(renames@, index, 0) == Some(k as int) && k < renames@.len(),
            None => find_index_key(renames@, index, 0) is None,
        },
{
    let mut k: usize = 0;
    while k < renames.len()
        invariant
            k <= renames.len(),
            find_index_key(renames@, index, 0) == find_index_key(renames@, index, k as int),
        decreases renames.len() - k,
    {
        let found = match &renames[k].0 {
            Attribute::Index(i) => *i == index,
            Attribute::Name(_) => false,
        };
        if found {
            return Some(k);
        }
        k += 1;
    }
    None
}

fn render_renames(renames: &Vec<(Attribute, Name)>) -> (r: String)
    ensures
        r@ == joined(rename_texts(renames@), ", "@),
{
    let mut by_position: Vec<String> = Vec::new();
    let mut positional = true;
    let mut i: usize = 0;
    while i < renames.len() && positional
        invariant
            i <= renames.len(),
            positional ==> by_position@.len() == i,
            positional ==> forall|k: int|
                0 <= k < i ==> (#[trigger] find_index_key(renames@, k as usize, 0)) is Some,
            positional ==> forall|k: int|
                0 <= k < i ==> (#[trigger] by_position@[k])@ == renames@[find_index_key(
                    renames@,
                    k as usize,
                    0,
                )->Some_0].1@,
            !positional ==> !renames_by_position(renames@),
        decreases renames.len() - i + (if positional { 1int } else { 0int }),
    {
        match search_index_key(renames, i) {
            Some(k) => {
                by_position.push(renames[k].1.to_string());
                i += 1;
            },
            None => {
                assert(find_index_key(renames@, i as usize, 0) is None);
                positional = false;
            },
        }
    }
    if positional {
        assert(renames_by_position(renames@));
        assert(texts(by_position@) =~= rename_texts(renames@));
        join_strings(&by_position, ", ")
    } else {
        render_rename_pairs(renames)
    }
}

/// Writes the entries of a rename list as `attribute/name`, separated by a
/// comma and a space.
pub(crate) fn render_rename_pairs(renames: &Vec<(Attribute, Name)>) -> (r: String)
    ensures
        r@ == joined(rename_pair_texts(renames@), ", "@),
{
    let mut parts: Vec<String> = Vec::new();
    let mut k: usize = 0;
    while k < renames.len()
        invariant
            k <= renames.len(),
            parts@.len() == k,
            forall|j: int|
                0 <= j < k ==> (#[trigger] parts@[j])@ == attribute_text(renames@[j].0) + "/"@
                    + renames@[j].1@,
        decreases renames.len() - k,
    {
        let mut part = render_attribute(&renames[k].0);
        part.append("/");
        part.append(renames[k].1.as_str());
        parts.push(part);
        k += 1;
    }
    assert(texts(parts@) =~= rename_pair_texts(renames@));
    join_strings(&parts, ", ")
}

fn render_operand(op: &RelationalOp, fmt: DisplayFormat) -> (r: String)
    ensures
        r@ == operand_text(*op, relational_text(*op, fmt), fmt),
    decreases *op, 1nat,
{
    let text = render_relational(op, fmt);
    if op.is_relation() {
        text
    } else {
        let mut r = operand_open_str(fmt).to_string();
        r.append(text.as_str());
        r.append(operand_close_str(fmt));
        r
    }
}

fn render_set_operation(s: &SetOperation, fmt: DisplayFormat) -> (r: String)
    ensures
        r@ == relational_text(RelationalOp::SetOperation(*s), fmt),
    decreases *s, 0nat,
{
    let mut r = render_operand(&s.lhs, fmt);
    r.append(" ");
    r.append(set_operator_text_str(s.op, fmt));
    r.append(" ");
    r.append(render_operand(&s.rhs, fmt).as_str());
    r
}

fn render_selection(s: &Selection, fmt: DisplayFormat) -> (r: String)
    ensures
        r@ == relational_text(RelationalOp::Selection(*s), fmt),
    decreases *s, 0nat,
{
    let mut r = selection_open_str(fmt).to_string();
    r.append(render_term(&s.criteria, fmt).as_str());
    r.append(arguments_close_str(fmt));
    r.append(render_operand(&s.rhs, fmt).as_str());
    r
}

fn render_projection(s: &Projection, fmt: DisplayFormat) -> (r: String)
    ensures
        r@ == relational_text(RelationalOp::Projection(*s), fmt),
    decreases *s, 0nat,
{
    let mut r = projection_open_str(fmt).to_string();
    r.append(render_projected_attributes(&s.attributes).as_str());
    r.append(arguments_close_str(fmt));
    r.append(render_operand(&s.rhs, fmt).as_str());
    r
}

fn render_rename(s: &Rename, fmt: DisplayFormat) -> (r: String)
    ensures
        r@ == relational_text(RelationalOp::Rename(*s), fmt),
    decreases *s, 0nat,
{
    let mut r = rename_open_str(fmt).to_string();
    r.append(render_renames(&s.renames).as_str());
    r.append(arguments_close_str(fmt));
    r.append(render_operand(&s.rhs, fmt).as_str());
    r
}

fn render_order(s: &Order, fmt: DisplayFormat) -> (r: String)
    ensures
        r@ == relational_text(RelationalOp::Order(*s), fmt),
    decreases *s, 0nat,
{
    let mut r = order_open_str(fmt).to_string();
    r.append(render_attributes(&s.attributes).as_str());
    r.append(arguments_close_str(fmt));
    r.append(render_operand(&s.rhs, fmt).as_str());
    r
}

fn render_group(s: &Group, fmt: DisplayFormat) -> (r: String)
    ensures
        r@ == relational_text(RelationalOp::Group(*s), fmt),
    decreases *s, 0nat,
{
    let mut r = group_open_str(fmt).to_string();
    r.append(render_attributes(&s.attributes).as_str());
    r.append(arguments_close_str(fmt));
    r.append(render_operand(&s.rhs, fmt).as_str());
    r
}

fn render_natural_join(s: &NaturalJoin, fmt: DisplayFormat) -> (r: String)
    ensures
        r@ == relational_text(RelationalOp::Join(Join::Natural(*s)), fmt),
    decreases *s, 0nat,
{
    let mut r = render_operand(&s.lhs, fmt);
    r.append(" ");
    r.append(natural_join_text_str(fmt));
    r.append(" ");
    r.append(render_operand(&s.rhs, fmt).as_str());
    r
}

fn render_theta_join(s: &ThetaJoin, fmt: DisplayFormat) -> (r: String)
    ensures
        r@ == relational_text(RelationalOp::Join(Join::Theta(*s)), fmt),
    decreases *s, 0nat,
{
    let mut r = render_operand(&s.lhs, fmt);
    r.append(" ");
    r.append(theta_join_open_str(fmt));
    r.append(render_term(&s.criteria, fmt).as_str());
    r.append(arguments_close_str(fmt));
    r.append(" ");
    r.append(render_operand(&s.rhs, fmt).as_str());
    r
}

fn render_join(j: &Join, fmt: DisplayFormat) -> (r: String)
    ensures
        r@ == relational_text(RelationalOp::Join(*j), fmt),
    decreases *j, 0nat,
{
    match j {
        Join::Natural(s) => render_natural_join(s, fmt),
        Join::Theta(s) => render_theta_join(s, fmt),
    }
}

fn render_relational(op: &RelationalOp, fmt: DisplayFormat) -> (r: String)
    ensures
        r@ == relational_text(*op, fmt),
    decreases *op, 0nat,
{
    match op {
        RelationalOp::Relation(n) => n.to_string(),
        RelationalOp::SetOperation(s) => render_set_operation(s, fmt),
        RelationalOp::Selection(s) => render_selection(s, fmt),
        RelationalOp::Projection(s) => render_projection(s, fmt),
        RelationalOp::Rename(s) => render_rename(s, fmt),
        RelationalOp::Order(s) => render_order(s, fmt),
        RelationalOp::Group(s) => render_group(s, fmt),
        RelationalOp::Join(j) => render_join(j, fmt),
    }
}

fn render_expression(e: &Expression, fmt: DisplayFormat) -> (r: String)
    ensures
        r@ == expression_text(*e, fmt),
{
    match &e.name {
        Some(name) => {
            let mut r = name.to_string();
            r.append(" ");
            r.append(assignment_text_str(fmt));
            r.append(" ");
            r.append(render_relational(&e.expr, fmt).as_str());
            r
        },
        None => render_relational(&e.expr, fmt),
    }
}

fn render_expression_list(list: &Vec<Expression>, fmt: DisplayFormat) -> (r: String)
    ensures
        r@ == expression_list_text(list@, fmt),
{
    let mut r = String::new();
    let mut i: usize = 0;
    assert(list@.take(0) =~= Seq::<Expression>::empty());
    while i < list.len()
        invariant
            i <= list.len(),
            r@ == expression_list_text(list@.take(i as int), fmt),
        decreases list.len() - i,
    {
        proof {
            let next = list@.take(i + 1);
            assert(next.drop_last() =~= list@.take(i as int));
            assert(next.last() == list@[i as int]);
        }
        r.append(render_expression(&list[i], fmt).as_str());
        r.append(list_separator_str(fmt));
        i += 1;
    }
    assert(list@.take(i as int) =~= list@);
    r
}

impl Format for Expression {
    open spec fn formatted(&self, fmt: DisplayFormat) -> Seq<char> {
        expression_text(*self, fmt)
    }

    fn to_formatted_string(&self, fmt: DisplayFormat) -> (r: String) {
        render_expression(self, fmt)
    }
}

impl Format for ExpressionList {
    open spec fn formatted(&self, fmt: DisplayFormat) -> Seq<char> {
        expression_list_text(self.0@, fmt)
    }

    fn to_formatted_string(&self, fmt: DisplayFormat) -> (r: String) {
        render_expression_list(&self.0, fmt)
    }
}

impl Format for RelationalOp {
    open spec fn formatted(&self, fmt: DisplayFormat) -> Seq<char> {
        relational_text(*self, fmt)
    }

    fn to_formatted_string(&self, fmt: DisplayFormat) -> (r: String) {
        render_relational(self, fmt)
    }
}

impl Format for Name {
    open spec fn formatted(&self, fmt: DisplayFormat) -> Seq<char> {
        self@
    }

    fn to_formatted_string(&self, fmt: DisplayFormat) -> (r: String) {
        self.to_string()
    }
}

impl Format for SetOperation {
    open spec fn formatted(&self, fmt: DisplayFormat) -> Seq<char> {
        relational_text(RelationalOp::SetOperation(*self), fmt)
    }

    fn to_formatted_string(&self, fmt: DisplayFormat) -> (r: String) {
        render_set_operation(self, fmt)
    }
}

impl Format for SetOperator {
    open spec fn formatted(&self, fmt: DisplayFormat) -> Seq<char> {
        set_operator_text(*self, fmt)
    }

    fn to_formatted_string(&self, fmt: DisplayFormat) -> (r: String) {
        set_operator_text_str(*self, fmt).to_string()
    }
}

impl Format for Selection {
    open spec fn formatted(&self, fmt: DisplayFormat) -> Seq<char> {
        relational_text(RelationalOp::Selection(*self), fmt)
    }

    fn to_formatted_string(&self, fmt: DisplayFormat) -> (r: String) {
        render_selection(self, fmt)
    }
}

impl Format for Attribute {
    open spec fn formatted(&self, fmt: DisplayFormat) -> Seq<char> {
        attribute_text(*self)
    }

    fn to_formatted_string(&self, fmt: DisplayFormat) -> (r: String) {
        render_attribute(self)
    }
}

impl Format for Term {
    open spec fn formatted(&self, fmt: DisplayFormat) -> Seq<char> {
        term_text(*self, fmt)
    }

    fn to_formatted_string(&self, fmt: DisplayFormat) -> (r: String) {
        render_term(self, fmt)
    }
}

impl Format for Atom {
    open spec fn formatted(&self, fmt: DisplayFormat) -> Seq<char> {
        atom_text(*self, fmt)
    }

    fn to_formatted_string(&self, fmt: DisplayFormat) -> (r: String) {
        render_atom(self, fmt)
    }
}

impl Format for ComparisonOperator {
    open spec fn formatted(&self, fmt: DisplayFormat) -> Seq<char> {
        comparison_operator_text(*self, fmt)
    }

    fn to_formatted_string(&self, fmt: DisplayFormat) -> (r: String) {
        comparison_operator_text_str(*self, fmt).to_string()
    }
}

impl Format for Projection {
    open spec fn formatted(&self, fmt: DisplayFormat) -> Seq<char> {
        relational_text(RelationalOp::Projection(*self), fmt)
    }

    fn to_formatted_string(&self, fmt: DisplayFormat) -> (r: String) {
        render_projection(self, fmt)
    }
}

impl Format for ProjectedAttribute {
    open spec fn formatted(&self, fmt: DisplayFormat) -> Seq<char> {
        projected_attribute_text(*self)
    }

    fn to_formatted_string(&self, fmt: DisplayFormat) -> (r: String) {
        render_projected_attribute(self)
    }
}

impl Format for Order {
    open spec fn formatted(&self, fmt: DisplayFormat) -> Seq<char> {
        relational_text(RelationalOp::Order(*self), fmt)
    }

    fn to_formatted_string(&self, fmt: DisplayFormat) -> (r: String) {
        render_order(self, fmt)
    }
}

impl Format for Group {
    open spec fn formatted(&self, fmt: DisplayFormat) -> Seq<char> {
        relational_text(RelationalOp::Group(*self), fmt)
    }

    fn to_formatted_string(&self, fmt: DisplayFormat) -> (r: String) {
        render_group(self, fmt)
    }
}

impl Format for Rename {
    open spec fn formatted(&self, fmt: DisplayFormat) -> Seq<char> {
        relational_text(RelationalOp::Rename(*self), fmt)
    }

    fn to_formatted_string(&self, fmt: DisplayFormat) -> (r: String) {
        render_rename(self, fmt)
    }
}

impl Format for Join {
    open spec fn formatted(&self, fmt: DisplayFormat) -> Seq<char> {
        relational_text(RelationalOp::Join(*self), fmt)
    }

    fn to_formatted_string(&self, fmt: DisplayFormat) -> (r: String) {
        render_join(self, fmt)
    }
}

impl Format for NaturalJoin {
    open spec fn formatted(&self, fmt: DisplayFormat) -> Seq<char> {
        relational_text(RelationalOp::Join(Join::Natural(*self)), fmt)
    }

    fn to_formatted_string(&self, fmt: DisplayFormat) -> (r: String) {
        render_natural_join(self, fmt)
    }
}

impl Format for ThetaJoin {
    open spec fn formatted(&self, fmt: DisplayFormat) -> Seq<char> {
        relational_text(RelationalOp::Join(Join::Theta(*self)), fmt)
    }

    fn to_formatted_string(&self, fmt: DisplayFormat) -> (r: String) {
        render_theta_join(self, fmt)
    }
}

/// The same conditions are written alike.
pub proof fn law_same_term_text(a: Term, b: Term, fmt: DisplayFormat)
    requires
        same_term(a, b),
    ensures
        term_text(a, fmt) == term_text(b, fmt),
    decreases a,
{
    match (a, b) {
        (Term::Negate(x), Term::Negate(y)) => {
            law_same_term_text(*x, *y, fmt);
        },
        (Term::And(l, r), Term::And(m, s)) => {
            law_same_term_text(*l, *m, fmt);
            law_same_term_text(*r, *s, fmt);
        },
        (Term::Or(l, r), Term::Or(m, s)) => {
            law_same_term_text(*l, *m, fmt);
            law_same_term_text(*r, *s, fmt);
        },
        _ => {},
    }
}

proof fn lemma_same_index_key(
    a: Seq<(Attribute, Name)>,
    b: Seq<(Attribute, Name)>,
    index: usize,
    from: int,
)
    requires
        same_renames(a, b),
        0 <= from,
    ensures
        find_index_key(a, index, from) == find_index_key(b, index, from),
    decreases a.len() - from,
{
    if from < a.len() {
        assert(same_attribute(a[from].0, b[from].0));
        lemma_same_index_key(a, b, index, from + 1);
    }
}

proof fn lemma_same_rename_texts(a: Seq<(Attribute, Name)>, b: Seq<(Attribute, Name)>)
    requires
        same_renames(a, b),
    ensures
        rename_texts(a) == rename_texts(b),
{
    assert forall|i: int| 0 <= i < a.len() implies (#[trigger] find_index_key(a, i as usize, 0))
        == find_index_key(b, i as usize, 0) by {
        lemma_same_index_key(a, b, i as usize, 0);
    }
    if renames_by_position(a) {
        assert forall|i: int| 0 <= i < b.len() implies (#[trigger] find_index_key(
            b,
            i as usize,
            0,
        )) is Some by {
            assert(find_index_key(a, i as usize, 0) is Some);
        }
        assert forall|i: int| 0 <= i < a.len() implies rename_texts(a)[i] == rename_texts(
            b,
        )[i] by {
            lemma_index_key_found(a, i as usize, 0);
            let k = find_index_key(a, i as usize, 0)->Some_0;
            assert(same_attribute(a[k].0, b[k].0));
        }
        assert(rename_texts(a) =~= rename_texts(b));
    } else {
        let i = choose|i: int|
            0 <= i < a.len() && !((#[trigger] find_index_key(a, i as usize, 0)) is Some);
        assert(!(find_index_key(b, i as usize, 0) is Some));
        assert forall|k: int| 0 <= k < a.len() implies rename_pair_texts(a)[k]
            == rename_pair_texts(b)[k] by {
            assert(same_attribute(a[k].0, b[k].0));
        }
        assert(rename_texts(a) =~= rename_texts(b));
    }
}

proof fn lemma_index_key_found(renames: Seq<(Attribute, Name)>, index: usize, from: int)
    requires
        0 <= from,
        find_index_key(renames, index, from) is Some,
    ensures
        from <= find_index_key(renames, index, from)->Some_0 < renames.len(),
    decreases renames.len() - from,
{
    if from < renames.len() && renames[from].0 != Attribute::Index(index) {
        lemma_index_key_found(renames, index, from + 1);
    }
}

proof fn lemma_same_attribute_texts(a: Seq<Attribute>, b: Seq<Attribute>)
    requires
        same_attributes(a, b),
    ensures
        a.map_values(|x: Attribute| attribute_text(x)) == b.map_values(
            |x: Attribute| attribute_text(x),
        ),
{
    assert forall|i: int| 0 <= i < a.len() implies attribute_text(a[i]) == attribute_text(
        b[i],
    ) by {
        assert(same_attribute(a[i], b[i]));
    }
    assert(a.map_values(|x: Attribute| attribute_text(x)) =~= b.map_values(
        |x: Attribute| attribute_text(x),
    ));
}

proof fn lemma_same_projected_texts(a: Seq<ProjectedAttribute>, b: Seq<ProjectedAttribute>)
    requires
        same_projected_list(a, b),
    ensures
        a.map_values(|x: ProjectedAttribute| projected_attribute_text(x)) == b.map_values(
            |x: ProjectedAttribute| projected_attribute_text(x),
        ),
{
    assert forall|i: int| 0 <= i < a.len() implies projected_attribute_text(a[i])
        == projected_attribute_text(b[i]) by {
        assert(same_projected(a[i], b[i]));
    }
    assert(a.map_values(|x: ProjectedAttribute| projected_attribute_text(x)) =~= b.map_values(
        |x: ProjectedAttribute| projected_attribute_text(x),
    ));
}

/// The same operations have the same form.
proof fn lemma_same_form(a: RelationalOp, b: RelationalOp)
    requires
        same_operation(a, b),
    ensures
        a is Relation == b is Relation,
{
}

/// The same operations are written alike: a copy of an operation is written
/// as the operation is, in every notation.
pub proof fn law_same_operation_text(a: RelationalOp, b: RelationalOp, fmt: DisplayFormat)
    requires
        same_operation(a, b),
    ensures
        relational_text(a, fmt) == relational_text(b, fmt),
    decreases a,
{
    match (a, b) {
        (RelationalOp::Relation(x), RelationalOp::Relation(y)) => {},
        (RelationalOp::SetOperation(x), RelationalOp::SetOperation(y)) => {
            law_same_operation_text(*x.lhs, *y.lhs, fmt);
            law_same_operation_text(*x.rhs, *y.rhs, fmt);
            lemma_same_form(*x.lhs, *y.lhs);
            lemma_same_form(*x.rhs, *y.rhs);
        },
        (RelationalOp::Selection(x), RelationalOp::Selection(y)) => {
            law_same_term_text(x.criteria, y.criteria, fmt);
            law_same_operation_text(*x.rhs, *y.rhs, fmt);
            lemma_same_form(*x.rhs, *y.rhs);
        },
        (RelationalOp::Projection(x), RelationalOp::Projection(y)) => {
            lemma_same_projected_texts(x.attributes@, y.attributes@);
            law_same_operation_text(*x.rhs, *y.rhs, fmt);
            lemma_same_form(*x.rhs, *y.rhs);
        },
        (RelationalOp::Rename(x), RelationalOp::Rename(y)) => {
            lemma_same_rename_texts(x.renames@, y.renames@);
            law_same_operation_text(*x.rhs, *y.rhs, fmt);
            lemma_same_form(*x.rhs, *y.rhs);
        },
        (RelationalOp::Order(x), RelationalOp::Order(y)) => {
            lemma_same_attribute_texts(x.attributes@, y.attributes@);
            law_same_operation_text(*x.rhs, *y.rhs, fmt);
            lemma_same_form(*x.rhs, *y.rhs);
        },
        (RelationalOp::Group(x), RelationalOp::Group(y)) => {
            lemma_same_attribute_texts(x.attributes@, y.attributes@);
            law_same_operation_text(*x.rhs, *y.rhs, fmt);
            lemma_same_form(*x.rhs, *y.rhs);
        },
        (RelationalOp::Join(Join::Natural(x)), RelationalOp::Join(Join::Natural(y))) => {
            law_same_operation_text(*x.lhs, *y.lhs, fmt);
            law_same_operation_text(*x.rhs, *y.rhs, fmt);
            lemma_same_form(*x.lhs, *y.lhs);
            lemma_same_form(*x.rhs, *y.rhs);
        },
        (RelationalOp::Join(Join::Theta(x)), RelationalOp::Join(Join::Theta(y))) => {
            law_same_term_text(x.criteria, y.criteria, fmt);
            law_same_operation_text(*x.lhs, *y.lhs, fmt);
            law_same_operation_text(*x.rhs, *y.rhs, fmt);
            lemma_same_form(*x.lhs, *y.lhs);
            lemma_same_form(*x.rhs, *y.rhs);
        },
        _ => {},
    }
}

} // verus!
