//! What evaluation means: each operator as a function on the mathematical
//! content of relations.

use crate::Name;
use crate::ast::{
    Atom, Attribute, ComparisonOperator, Expression, Join, ProjectedAttribute, RelationalOp,
    SetOperator, Term,
};
use crate::data::{
    distinct, lemma_value_rank_flip, RelationView, row_conforms, value_equal, value_rank, ValueView,
};
use crate::error::ErrorView;
use crate::sort::{AttributeView, Domain, index_of_name, RelationSchemaView};
use crate::text::{pattern_match, Rank};
use vstd::prelude::*;

verus! {

/// A row: the values of one tuple.
pub type Row = Seq<ValueView>;

/// The position that an attribute refers to: an index, if the schema has it;
/// a name, as the first attribute of that name.
pub open spec fn resolve(attributes: Seq<AttributeView>, attribute: Attribute) -> Result<
    int,
    ErrorView,
> {
    match attribute {
        Attribute::Index(i) => if i < attributes.len() {
            Ok(i as int)
        } else {
            Err(ErrorView::AttributeIndexInvalid { index: i })
        },
        Attribute::Name(n) => match index_of_name(attributes, n@, 0) {
            Some(k) => Ok(k),
            None => Err(ErrorView::AttributeDoesNotExist { name: n@ }),
        },
    }
}

/// The value of a row at a position, if the row is that long.
pub open spec fn value_at(row: Row, position: int) -> Result<ValueView, ErrorView> {
    if 0 <= position < row.len() {
        Ok(row[position])
    } else {
        Err(ErrorView::AttributeIndexInvalid { index: position as usize })
    }
}

/// The value that an attribute refers to in a row.
pub open spec fn attribute_value(attributes: Seq<AttributeView>, row: Row, attribute: Attribute) -> Result<
    ValueView,
    ErrorView,
> {
    match resolve(attributes, attribute) {
        Ok(k) => value_at(row, k),
        Err(e) => Err(e),
    }
}

/// The value of the right side of an atom in a row: the constant, or the
/// value that the attribute refers to.
pub open spec fn operand_value(
    attributes: Seq<AttributeView>,
    row: Row,
    operand: ProjectedAttribute,
) -> Result<ValueView, ErrorView> {
    match operand {
        ProjectedAttribute::Index(i) => attribute_value(attributes, row, Attribute::Index(i)),
        ProjectedAttribute::Name(n) => attribute_value(attributes, row, Attribute::Name(n)),
        ProjectedAttribute::Constant(v) => Ok(v@),
    }
}

/// What a pattern match amounts to, given what matching the pattern against
/// the text answered: a pattern that does not compile is an invalid value; a
/// negated match holds where the pattern does not match.
pub open spec fn match_outcome(pattern: ValueView, matched: Option<bool>, negated: bool) -> Result<
    bool,
    ErrorView,
> {
    match matched {
        Some(b) => Ok(b != negated),
        None => Err(
            ErrorView::InvalidValue { expecting_domain: Domain::String, given_value: pattern },
        ),
    }
}

/// A pattern match of the left value against the right value as pattern. Both
/// must be strings.
pub open spec fn match_value(lhs: ValueView, rhs: ValueView, negated: bool) -> Result<
    bool,
    ErrorView,
> {
    match (lhs, rhs) {
        (ValueView::String(text), ValueView::String(pattern)) => match_outcome(
            rhs,
            pattern_match(pattern, text),
            negated,
        ),
        _ => Err(
            ErrorView::IncompatibleTypes { lhs_domain: lhs.domain(), rhs_domain: Domain::String },
        ),
    }
}

/// What a comparison of two values yields. Values of different domains are
/// incompatible. The order operators hold where the natural order says so,
/// and so never of two values that it does not compare.
pub open spec fn comparison_value(op: ComparisonOperator, lhs: ValueView, rhs: ValueView) -> Result<
    bool,
    ErrorView,
> {
    if lhs.domain() != rhs.domain() {
        Err(ErrorView::IncompatibleTypes { lhs_domain: lhs.domain(), rhs_domain: rhs.domain() })
    } else {
        match op {
            ComparisonOperator::Equal => Ok(value_equal(lhs, rhs)),
            ComparisonOperator::NotEqual => Ok(!value_equal(lhs, rhs)),
            ComparisonOperator::LessThan => Ok(value_rank(lhs, rhs) == Some(Rank::Less)),
            ComparisonOperator::LessThanOrEqual => Ok(
                value_rank(lhs, rhs) == Some(Rank::Less) || value_rank(lhs, rhs) == Some(
                    Rank::Same,
                ),
            ),
            ComparisonOperator::GreaterThan => Ok(value_rank(lhs, rhs) == Some(Rank::Greater)),
            ComparisonOperator::GreaterThanOrEqual => Ok(
                value_rank(lhs, rhs) == Some(Rank::Greater) || value_rank(lhs, rhs) == Some(
                    Rank::Same,
                ),
            ),
            ComparisonOperator::StringMatch => match_value(lhs, rhs, false),
            ComparisonOperator::StringNotMatch => match_value(lhs, rhs, true),
        }
    }
}

/// What an atom yields of a row.
pub open spec fn atom_value(atom: Atom, attributes: Seq<AttributeView>, row: Row) -> Result<
    bool,
    ErrorView,
> {
    match attribute_value(attributes, row, atom.lhs) {
        Err(e) => Err(e),
        Ok(lhs) => match operand_value(attributes, row, atom.rhs) {
            Err(e) => Err(e),
            Ok(rhs) => comparison_value(atom.op, lhs, rhs),
        },
    }
}

/// What a condition yields of a row. A constant must be a boolean. An
/// attribute exists where it resolves to a value of the row. A conjunction
/// whose left side is false is false whatever its right side, and a
/// disjunction whose left side is true is true whatever its right side.
pub open spec fn term_value(term: Term, attributes: Seq<AttributeView>, row: Row) -> Result<
    bool,
    ErrorView,
>
    decreases term,
{
    match term {
        Term::Constant(v) => match v@ {
            ValueView::Boolean(b) => Ok(b),
            _ => Err(
                ErrorView::IncompatibleTypes {
                    lhs_domain: v@.domain(),
                    rhs_domain: Domain::Boolean,
                },
            ),
        },
        Term::Exists(a) => match attribute_value(attributes, row, a) {
            Ok(_) => Ok(true),
            Err(e) => Err(e),
        },
        Term::Atom(a) => atom_value(a, attributes, row),
        Term::Negate(t) => match term_value(*t, attributes, row) {
            Ok(b) => Ok(!b),
            Err(e) => Err(e),
        },
        Term::And(l, r) => match term_value(*l, attributes, row) {
            Ok(true) => term_value(*r, attributes, row),
            Ok(false) => Ok(false),
            Err(e) => Err(e),
        },
        Term::Or(l, r) => match term_value(*l, attributes, row) {
            Ok(true) => Ok(true),
            Ok(false) => term_value(*r, attributes, row),
            Err(e) => Err(e),
        },
    }
}

/// The rows that meet `keep`, in their order.
pub open spec fn filter_rows(rows: Seq<Row>, keep: spec_fn(Row) -> bool) -> Seq<Row>
    decreases rows.len(),
{
    if rows.len() == 0 {
        rows
    } else if keep(rows.last()) {
        filter_rows(rows.drop_last(), keep).push(rows.last())
    } else {
        filter_rows(rows.drop_last(), keep)
    }
}

/// The error of the first row from `from` on of which the criteria has no
/// value.
pub open spec fn first_failure(
    criteria: Term,
    attributes: Seq<AttributeView>,
    rows: Seq<Row>,
    from: int,
) -> Option<ErrorView>
    decreases rows.len() - from,
{
    if from >= rows.len() {
        None
    } else {
        match term_value(criteria, attributes, rows[from]) {
            Err(e) => Some(e),
            Ok(_) => first_failure(criteria, attributes, rows, from + 1),
        }
    }
}

/// The property of a row that the criteria is true of it.
pub open spec fn truth(criteria: Term, attributes: Seq<AttributeView>) -> spec_fn(Row) -> bool {
    |row: Row| term_value(criteria, attributes, row) == Ok::<bool, ErrorView>(true)
}

/// The rows of which the criteria is true, in their order; or the error of
/// the first row of which the criteria has no value.
pub open spec fn select_rows(criteria: Term, attributes: Seq<AttributeView>, rows: Seq<Row>) -> Result<
    Seq<Row>,
    ErrorView,
> {
    match first_failure(criteria, attributes, rows, 0) {
        Some(e) => Err(e),
        None => Ok(filter_rows(rows, truth(criteria, attributes))),
    }
}

/// Selection: the tuples of which the criteria is true, under the same
/// schema.
pub open spec fn selection(criteria: Term, operand: RelationView) -> Result<
    RelationView,
    ErrorView,
> {
    match select_rows(criteria, operand.attributes, operand.rows) {
        Ok(rows) => Ok(RelationView { name: operand.name, attributes: operand.attributes, rows }),
        Err(e) => Err(e),
    }
}

/// The first position from `from` on at which the two attribute lists differ
/// in domain, as the error that reports it.
pub open spec fn first_domain_difference(
    lhs: Seq<AttributeView>,
    rhs: Seq<AttributeView>,
    from: int,
) -> Option<ErrorView>
    decreases lhs.len() - from,
{
    if from >= lhs.len() || from >= rhs.len() {
        None
    } else if lhs[from].domain != rhs[from].domain {
        Some(
            ErrorView::IncompatibleTypes {
                lhs_domain: lhs[from].domain,
                rhs_domain: rhs[from].domain,
            },
        )
    } else {
        first_domain_difference(lhs, rhs, from + 1)
    }
}

/// Why two attribute lists are not union-compatible, if they are not: they
/// differ in length, which is reported as the first index that only the
/// longer has; or at some position in domain, which is reported with the two
/// domains at the first such position.
pub open spec fn compatibility_error(lhs: Seq<AttributeView>, rhs: Seq<AttributeView>) -> Option<
    ErrorView,
> {
    if lhs.len() < rhs.len() {
        Some(ErrorView::AttributeIndexInvalid { index: lhs.len() as usize })
    } else if lhs.len() > rhs.len() {
        Some(ErrorView::AttributeIndexInvalid { index: rhs.len() as usize })
    } else {
        first_domain_difference(lhs, rhs, 0)
    }
}

/// The property of a row of being among `other`, or of not being among it.
pub open spec fn membership(other: Seq<Row>, present: bool) -> spec_fn(Row) -> bool {
    |t: Row| other.contains(t) == present
}

/// The rows of a union: those of the left, then those of the right that the
/// left does not have.
pub open spec fn union_rows(lhs: Seq<Row>, rhs: Seq<Row>) -> Seq<Row> {
    lhs + difference_rows(rhs, lhs)
}

/// The rows of an intersection: those of the left that the right has too.
pub open spec fn intersection_rows(lhs: Seq<Row>, rhs: Seq<Row>) -> Seq<Row> {
    filter_rows(lhs, membership(rhs, true))
}

/// The rows of a difference: those of the left that the right does not have.
pub open spec fn difference_rows(lhs: Seq<Row>, rhs: Seq<Row>) -> Seq<Row> {
    filter_rows(lhs, membership(rhs, false))
}

/// The rows of a symmetric difference: those of the left that the right does
/// not have, then those of the right that the left does not have.
pub open spec fn symmetric_difference_rows(lhs: Seq<Row>, rhs: Seq<Row>) -> Seq<Row> {
    difference_rows(lhs, rhs) + difference_rows(rhs, lhs)
}

/// The rows of a cartesian product: each row of the left followed by each row
/// of the right, the rows of the left in their order and under each of them
/// the rows of the right in theirs.
pub open spec fn product_rows(lhs: Seq<Row>, rhs: Seq<Row>) -> Seq<Row> {
    Seq::new(
        lhs.len() * rhs.len(),
        |k: int| lhs[k / (rhs.len() as int)] + rhs[k % (rhs.len() as int)],
    )
}

/// The cartesian product: the attributes of the left followed by those of the
/// right, under the name of the left.
pub open spec fn product(lhs: RelationView, rhs: RelationView) -> RelationView {
    RelationView {
        name: lhs.name,
        attributes: lhs.attributes + rhs.attributes,
        rows: product_rows(lhs.rows, rhs.rows),
    }
}

/// A set operation. The product is defined of any two relations; the others
/// of union-compatible ones, and their result has the schema of the left.
pub open spec fn set_operation(op: SetOperator, lhs: RelationView, rhs: RelationView) -> Result<
    RelationView,
    ErrorView,
> {
    if op == SetOperator::CartesianProduct {
        Ok(product(lhs, rhs))
    } else {
        match compatibility_error(lhs.attributes, rhs.attributes) {
            Some(e) => Err(e),
            None => Ok(
                RelationView {
                    name: lhs.name,
                    attributes: lhs.attributes,
                    rows: match op {
                        SetOperator::Union => union_rows(lhs.rows, rhs.rows),
                        SetOperator::Intersection => intersection_rows(lhs.rows, rhs.rows),
                        SetOperator::Difference => difference_rows(lhs.rows, rhs.rows),
                        _ => symmetric_difference_rows(lhs.rows, rhs.rows),
                    },
                },
            ),
        }
    }
}

/// A column of a projection, resolved: a position of the operand, or a
/// constant.
pub ghost enum Column {
    Source(int),
    Constant(ValueView),
}

/// The column that a projected attribute refers to.
pub open spec fn resolve_projected(attributes: Seq<AttributeView>, projected: ProjectedAttribute) -> Result<
    Column,
    ErrorView,
> {
    match projected {
        ProjectedAttribute::Index(i) => match resolve(attributes, Attribute::Index(i)) {
            Ok(k) => Ok(Column::Source(k)),
            Err(e) => Err(e),
        },
        ProjectedAttribute::Name(n) => match resolve(attributes, Attribute::Name(n)) {
            Ok(k) => Ok(Column::Source(k)),
            Err(e) => Err(e),
        },
        ProjectedAttribute::Constant(v) => Ok(Column::Constant(v@)),
    }
}

/// The error of the first projected attribute from `from` on that refers to
/// no column.
pub open spec fn first_unresolved_column(
    attributes: Seq<AttributeView>,
    list: Seq<ProjectedAttribute>,
    from: int,
) -> Option<ErrorView>
    decreases list.len() - from,
{
    if from >= list.len() {
        None
    } else {
        match resolve_projected(attributes, list[from]) {
            Err(e) => Some(e),
            Ok(_) => first_unresolved_column(attributes, list, from + 1),
        }
    }
}

/// The columns that a list of projected attributes refers to, or the error of
/// the first that refers to none.
pub open spec fn resolve_columns(attributes: Seq<AttributeView>, list: Seq<ProjectedAttribute>) -> Result<
    Seq<Column>,
    ErrorView,
> {
    match first_unresolved_column(attributes, list, 0) {
        Some(e) => Err(e),
        None => Ok(
            list.map_values(|p: ProjectedAttribute| resolve_projected(attributes, p)->Ok_0),
        ),
    }
}

/// The error of the first attribute from `from` on that refers to no
/// position.
pub open spec fn first_unresolved(attributes: Seq<AttributeView>, list: Seq<Attribute>, from: int) -> Option<
    ErrorView,
>
    decreases list.len() - from,
{
    if from >= list.len() {
        None
    } else {
        match resolve(attributes, list[from]) {
            Err(e) => Some(e),
            Ok(_) => first_unresolved(attributes, list, from + 1),
        }
    }
}

/// The positions that a list of attributes refers to, or the error of the
/// first that refers to none.
pub open spec fn resolve_all(attributes: Seq<AttributeView>, list: Seq<Attribute>) -> Result<
    Seq<int>,
    ErrorView,
> {
    match first_unresolved(attributes, list, 0) {
        Some(e) => Err(e),
        None => Ok(list.map_values(|a: Attribute| resolve(attributes, a)->Ok_0)),
    }
}

/// Whether every column that is a position is one of a row of `width` values.
pub open spec fn columns_valid(columns: Seq<Column>, width: int) -> bool {
    forall|i: int|
        0 <= i < columns.len() && (#[trigger] columns[i]) is Source ==> 0 <= columns[i]->Source_0
            < width
}

/// The attribute of a column: that of the source, or one without a name of
/// the constant's domain.
pub open spec fn column_attribute(attributes: Seq<AttributeView>, column: Column) -> AttributeView {
    match column {
        Column::Source(k) => attributes[k],
        Column::Constant(v) => AttributeView { name: None, domain: v.domain() },
    }
}

/// The value of a column in a row.
pub open spec fn column_value(row: Row, column: Column) -> ValueView {
    match column {
        Column::Source(k) => row[k],
        Column::Constant(v) => v,
    }
}

/// The row of the columns' values.
pub open spec fn project_row(columns: Seq<Column>, row: Row) -> Row {
    Seq::new(columns.len(), |i: int| column_value(row, columns[i]))
}

/// Each row reduced to the columns' values.
pub open spec fn projected_rows(columns: Seq<Column>, rows: Seq<Row>) -> Seq<Row> {
    rows.map_values(|row: Row| project_row(columns, row))
}

/// The attributes of the columns.
pub open spec fn projected_attributes(columns: Seq<Column>, attributes: Seq<AttributeView>) -> Seq<
    AttributeView,
> {
    Seq::new(columns.len(), |i: int| column_attribute(attributes, columns[i]))
}

/// The columns that are the given positions.
pub open spec fn source_columns(positions: Seq<int>) -> Seq<Column> {
    positions.map_values(|k: int| Column::Source(k))
}

/// The relation of the columns: each row reduced to the columns' values, and
/// of equal reduced rows only the first.
pub open spec fn project_columns(columns: Seq<Column>, operand: RelationView) -> RelationView {
    RelationView {
        name: operand.name,
        attributes: projected_attributes(columns, operand.attributes),
        rows: distinct(projected_rows(columns, operand.rows)),
    }
}

/// Projection. A projection onto nothing is refused.
pub open spec fn projection(list: Seq<ProjectedAttribute>, operand: RelationView) -> Result<
    RelationView,
    ErrorView,
> {
    if list.len() == 0 {
        Err(ErrorView::NullaryFactsNotAllowed)
    } else {
        match resolve_columns(operand.attributes, list) {
            Err(e) => Err(e),
            Ok(columns) => Ok(project_columns(columns, operand)),
        }
    }
}

/// Grouping: the distinct combinations of values of the grouping attributes,
/// which is the projection onto them.
pub open spec fn grouping(list: Seq<Attribute>, operand: RelationView) -> Result<
    RelationView,
    ErrorView,
> {
    if list.len() == 0 {
        Err(ErrorView::NullaryFactsNotAllowed)
    } else {
        match resolve_all(operand.attributes, list) {
            Err(e) => Err(e),
            Ok(positions) => Ok(project_columns(source_columns(positions), operand)),
        }
    }
}

/// How two rows stand by the values at the positions `keys`, from the key
/// `from` on: the first key at which the values do not rank the same decides,
/// and decides nothing where they cannot be compared.
pub open spec fn key_rank(keys: Seq<int>, a: Row, b: Row, from: int) -> Option<Rank>
    decreases keys.len() - from,
{
    if from >= keys.len() {
        Some(Rank::Same)
    } else {
        match value_rank(a[keys[from]], b[keys[from]]) {
            Some(Rank::Same) => key_rank(keys, a, b, from + 1),
            other => other,
        }
    }
}

/// Whether `a` comes strictly before `b` by the keys.
pub open spec fn row_before(keys: Seq<int>, a: Row, b: Row) -> bool {
    key_rank(keys, a, b, 0) == Some(Rank::Less)
}

/// `sorted` with `row` put in: before the rows at the end that `row` comes
/// strictly before.
pub open spec fn insert_row(keys: Seq<int>, sorted: Seq<Row>, row: Row) -> Seq<Row>
    decreases sorted.len(),
{
    if sorted.len() > 0 && row_before(keys, row, sorted.last()) {
        insert_row(keys, sorted.drop_last(), row).push(sorted.last())
    } else {
        sorted.push(row)
    }
}

/// The rows in the order of the keys: each row in turn put into those before
/// it.
pub open spec fn sort_rows(keys: Seq<int>, rows: Seq<Row>) -> Seq<Row>
    decreases rows.len(),
{
    if rows.len() == 0 {
        rows
    } else {
        insert_row(keys, sort_rows(keys, rows.drop_last()), rows.last())
    }
}

/// Whether no row comes strictly before the row that precedes it.
pub open spec fn rows_ordered(keys: Seq<int>, rows: Seq<Row>) -> bool {
    forall|i: int| 0 <= i < rows.len() - 1 ==> !row_before(keys, #[trigger] rows[i + 1], rows[i])
}

/// Ordering: the same tuples under the same schema, in the order of the
/// listed attributes.
pub open spec fn ordering(list: Seq<Attribute>, operand: RelationView) -> Result<
    RelationView,
    ErrorView,
> {
    match resolve_all(operand.attributes, list) {
        Err(e) => Err(e),
        Ok(keys) => Ok(
            RelationView {
                name: operand.name,
                attributes: operand.attributes,
                rows: sort_rows(keys, operand.rows),
            },
        ),
    }
}

/// A schema in the course of a rename: the attributes as renamed so far, and
/// for each position whether an entry has renamed it.
pub ghost struct Renaming {
    pub attributes: Seq<AttributeView>,
    pub touched: Seq<bool>,
}

/// The attributes that the entries of a rename list rename.
pub open spec fn rename_sources(renames: Seq<(Attribute, Name)>) -> Seq<Attribute> {
    renames.map_values(|entry: (Attribute, Name)| entry.0)
}

/// The renaming after the entries of a rename list, each resolved against the
/// schema before the rename. Of two entries for one position the later
/// decides.
pub open spec fn apply_renames(original: Seq<AttributeView>, renames: Seq<(Attribute, Name)>) -> Renaming
    decreases renames.len(),
{
    if renames.len() == 0 {
        Renaming { attributes: original, touched: Seq::new(original.len(), |i: int| false) }
    } else {
        let before = apply_renames(original, renames.drop_last());
        let k = resolve(original, renames.last().0)->Ok_0;
        Renaming {
            attributes: before.attributes.update(
                k,
                AttributeView { name: Some(renames.last().1@), domain: before.attributes[k].domain },
            ),
            touched: before.touched.update(k, true),
        }
    }
}

/// The first position from `from` on, other than `p`, whose attribute has the
/// name of the attribute at `p`.
pub open spec fn clash_with(attributes: Seq<AttributeView>, p: int, from: int) -> Option<int>
    decreases attributes.len() - from,
{
    if from >= attributes.len() {
        None
    } else if from != p && attributes[from].name == attributes[p].name {
        Some(from)
    } else {
        clash_with(attributes, p, from + 1)
    }
}

/// The first renamed position from `from` on whose new name another attribute
/// has too, as the error that reports the clash with the domains of the two.
pub open spec fn first_clash(renaming: Renaming, from: int) -> Option<ErrorView>
    decreases renaming.attributes.len() - from,
{
    if from >= renaming.attributes.len() {
        None
    } else if renaming.touched[from] && clash_with(renaming.attributes, from, 0) is Some {
        Some(
            ErrorView::IncompatibleTypes {
                lhs_domain: renaming.attributes[from].domain,
                rhs_domain: renaming.attributes[clash_with(
                    renaming.attributes,
                    from,
                    0,
                )->Some_0].domain,
            },
        )
    } else {
        first_clash(renaming, from + 1)
    }
}

/// Rename: the same tuples under a schema in which the listed attributes have
/// their new names. A new name that another attribute of the result has too
/// is refused, and so is an entry whose attribute the operand does not have.
pub open spec fn renaming(renames: Seq<(Attribute, Name)>, operand: RelationView) -> Result<
    RelationView,
    ErrorView,
> {
    match first_unresolved(operand.attributes, rename_sources(renames), 0) {
        Some(e) => Err(e),
        None => match first_clash(apply_renames(operand.attributes, renames), 0) {
            Some(e) => Err(e),
            None => Ok(
                RelationView {
                    name: operand.name,
                    attributes: apply_renames(operand.attributes, renames).attributes,
                    rows: operand.rows,
                },
            ),
        },
    }
}

/// For each attribute of the right, the position of the attribute of the left
/// with the same name, if there is one: the two are joined on.
pub open spec fn join_keys(lhs: Seq<AttributeView>, rhs: Seq<AttributeView>) -> Seq<Option<int>> {
    Seq::new(
        rhs.len(),
        |j: int|
            match rhs[j].name {
                Some(n) => index_of_name(lhs, n, 0),
                None => None,
            },
    )
}

/// The first attribute of the right from `from` on that is joined on with an
/// attribute of another domain, as the error that reports it.
pub open spec fn first_key_mismatch(lhs: Seq<AttributeView>, rhs: Seq<AttributeView>, from: int) -> Option<
    ErrorView,
>
    decreases rhs.len() - from,
{
    if from >= rhs.len() {
        None
    } else if join_keys(lhs, rhs)[from] is Some && lhs[join_keys(lhs, rhs)[from]->Some_0].domain
        != rhs[from].domain {
        Some(
            ErrorView::IncompatibleTypes {
                lhs_domain: lhs[join_keys(lhs, rhs)[from]->Some_0].domain,
                rhs_domain: rhs[from].domain,
            },
        )
    } else {
        first_key_mismatch(lhs, rhs, from + 1)
    }
}

/// Whether a row of the product has, for each attribute joined on, the same
/// value on both sides.
pub open spec fn keys_agree(keys: Seq<Option<int>>, offset: int, row: Row) -> bool {
    forall|j: int|
        0 <= j < keys.len() && (#[trigger] keys[j]) is Some ==> row[keys[j]->Some_0] == row[offset
            + j]
}

/// The property of a row of the product of agreeing on the attributes joined
/// on.
pub open spec fn agreement(keys: Seq<Option<int>>, offset: int) -> spec_fn(Row) -> bool {
    |row: Row| keys_agree(keys, offset, row)
}

/// The positions from `from` on that are not joined on.
pub open spec fn unshared(keys: Seq<Option<int>>, from: int) -> Seq<int>
    decreases keys.len() - from,
{
    if from >= keys.len() {
        Seq::empty()
    } else if keys[from] is None {
        seq![from] + unshared(keys, from + 1)
    } else {
        unshared(keys, from + 1)
    }
}

/// The columns of a natural join within the product: all of the left, then
/// those of the right that are not joined on.
pub open spec fn join_columns(keys: Seq<Option<int>>, offset: int) -> Seq<Column> {
    source_columns(Seq::new(offset as nat, |i: int| i) + unshared(keys, 0).map_values(|j: int| offset + j))
}

/// Natural join: of the product, the rows that agree on the attributes with
/// the same name in both operands, reduced to one copy of each such
/// attribute. Attributes of the same name must have the same domain.
pub open spec fn natural_join(lhs: RelationView, rhs: RelationView) -> Result<
    RelationView,
    ErrorView,
> {
    match first_key_mismatch(lhs.attributes, rhs.attributes, 0) {
        Some(e) => Err(e),
        None => {
            let keys = join_keys(lhs.attributes, rhs.attributes);
            let offset = lhs.attributes.len() as int;
            let all = product(lhs, rhs);
            Ok(
                project_columns(
                    join_columns(keys, offset),
                    RelationView {
                        name: all.name,
                        attributes: all.attributes,
                        rows: filter_rows(all.rows, agreement(keys, offset)),
                    },
                ),
            )
        },
    }
}

/// Theta join: of the product, the rows of which the criteria is true. The
/// criteria refers to the attributes of the left followed by those of the
/// right.
pub open spec fn theta_join(lhs: RelationView, criteria: Term, rhs: RelationView) -> Result<
    RelationView,
    ErrorView,
> {
    selection(criteria, product(lhs, rhs))
}

/// The last relation from `until` down that has the name `name`.
pub open spec fn lookup(relations: Seq<RelationView>, name: Seq<char>, until: int) -> Option<int>
    decreases until,
{
    if until <= 0 {
        None
    } else if relations[until - 1].name == name {
        Some(until - 1)
    } else {
        lookup(relations, name, until - 1)
    }
}

/// What an operation evaluates to, given the relations that names refer to.
/// Of two relations of one name the later is meant.
pub open spec fn evaluation(op: RelationalOp, relations: Seq<RelationView>) -> Result<
    RelationView,
    ErrorView,
>
    decreases op,
{
    match op {
        RelationalOp::Relation(n) => match lookup(relations, n@, relations.len() as int) {
            Some(i) => Ok(relations[i]),
            None => Err(ErrorView::RelationDoesNotExist { name: n@ }),
        },
        RelationalOp::SetOperation(s) => match evaluation(*s.lhs, relations) {
            Err(e) => Err(e),
            Ok(lhs) => match evaluation(*s.rhs, relations) {
                Err(e) => Err(e),
                Ok(rhs) => set_operation(s.op, lhs, rhs),
            },
        },
        RelationalOp::Selection(s) => match evaluation(*s.rhs, relations) {
            Err(e) => Err(e),
            Ok(rhs) => selection(s.criteria, rhs),
        },
        RelationalOp::Projection(s) => match evaluation(*s.rhs, relations) {
            Err(e) => Err(e),
            Ok(rhs) => projection(s.attributes@, rhs),
        },
        RelationalOp::Rename(s) => match evaluation(*s.rhs, relations) {
            Err(e) => Err(e),
            Ok(rhs) => renaming(s.renames@, rhs),
        },
        RelationalOp::Order(s) => match evaluation(*s.rhs, relations) {
            Err(e) => Err(e),
            Ok(rhs) => ordering(s.attributes@, rhs),
        },
        RelationalOp::Group(s) => match evaluation(*s.rhs, relations) {
            Err(e) => Err(e),
            Ok(rhs) => grouping(s.attributes@, rhs),
        },
        RelationalOp::Join(Join::Natural(s)) => match evaluation(*s.lhs, relations) {
            Err(e) => Err(e),
            Ok(lhs) => match evaluation(*s.rhs, relations) {
                Err(e) => Err(e),
                Ok(rhs) => natural_join(lhs, rhs),
            },
        },
        RelationalOp::Join(Join::Theta(s)) => match evaluation(*s.lhs, relations) {
            Err(e) => Err(e),
            Ok(lhs) => match evaluation(*s.rhs, relations) {
                Err(e) => Err(e),
                Ok(rhs) => theta_join(lhs, s.criteria, rhs),
            },
        },
    }
}

/// The result of an expression as it is known afterwards: under the name that
/// the expression binds it to, if it binds it.
pub open spec fn bound(expression: Expression, result: RelationView) -> RelationView {
    match expression.name {
        Some(n) => RelationView { name: n@, attributes: result.attributes, rows: result.rows },
        None => result,
    }
}

/// The relations that names refer to after an expression has given `result`:
/// one more, if the expression binds its result to a name.
pub open spec fn extended(
    relations: Seq<RelationView>,
    expression: Expression,
    result: RelationView,
) -> Seq<RelationView> {
    if expression.name is Some {
        relations.push(bound(expression, result))
    } else {
        relations
    }
}

/// What the expressions of a list from `from` on evaluate to, in order, each
/// seeing the names that those before it have bound; or the error of the
/// first that fails.
pub open spec fn list_evaluation(
    list: Seq<Expression>,
    relations: Seq<RelationView>,
    from: int,
) -> Result<Seq<RelationView>, ErrorView>
    decreases list.len() - from,
{
    if from >= list.len() {
        Ok(Seq::empty())
    } else {
        match evaluation(list[from].expr, relations) {
            Err(e) => Err(e),
            Ok(result) => match list_evaluation(
                list,
                extended(relations, list[from], result),
                from + 1,
            ) {
                Err(e) => Err(e),
                Ok(rest) => Ok(seq![bound(list[from], result)] + rest),
            },
        }
    }
}

/// The relations that names refer to after the expressions of a list from
/// `from` on, as far as they succeed: what was bound before a failure stays
/// bound.
pub open spec fn list_environment(
    list: Seq<Expression>,
    relations: Seq<RelationView>,
    from: int,
) -> Seq<RelationView>
    decreases list.len() - from,
{
    if from >= list.len() {
        relations
    } else {
        match evaluation(list[from].expr, relations) {
            Err(_) => relations,
            Ok(result) => list_environment(
                list,
                extended(relations, list[from], result),
                from + 1,
            ),
        }
    }
}

/// The relation of a schema that has no tuple.
pub open spec fn empty_relation(schema: RelationSchemaView) -> RelationView {
    RelationView { name: schema.name, attributes: schema.attributes, rows: Seq::empty() }
}

/// The schema of the relation that an operation denotes where no relation has
/// a tuple; or the error that evaluation meets there.
pub open spec fn analysis(op: RelationalOp, schemas: Seq<RelationSchemaView>) -> Result<
    RelationSchemaView,
    ErrorView,
> {
    match evaluation(op, schemas.map_values(|s: RelationSchemaView| empty_relation(s))) {
        Ok(result) => Ok(RelationSchemaView { name: result.name, attributes: result.attributes }),
        Err(e) => Err(e),
    }
}

/// `filter_rows` keeps exactly the rows that meet the property, and repeats
/// none that was not repeated.
pub proof fn lemma_filter_rows(rows: Seq<Row>, keep: spec_fn(Row) -> bool)
    ensures
        filter_rows(rows, keep).len() <= rows.len(),
        forall|t: Row| #[trigger]
            filter_rows(rows, keep).contains(t) ==> rows.contains(t) && keep(t),
        forall|t: Row| #[trigger] rows.contains(t) && keep(t) ==> filter_rows(rows, keep).contains(t),
        rows.no_duplicates() ==> filter_rows(rows, keep).no_duplicates(),
    decreases rows.len(),
{
    if rows.len() > 0 {
        let front = rows.drop_last();
        let before = filter_rows(front, keep);
        let after = filter_rows(rows, keep);
        lemma_filter_rows(front, keep);
        assert forall|t: Row| #[trigger] after.contains(t) implies rows.contains(t) && keep(t) by {
            let k = choose|k: int| 0 <= k < after.len() && after[k] == t;
            if k < before.len() {
                assert(before[k] == t);
                assert(before.contains(t));
                let i = choose|i: int| 0 <= i < front.len() && front[i] == t;
                assert(rows[i] == t);
            } else {
                assert(rows[rows.len() - 1] == t);
            }
        }
        assert forall|t: Row| #[trigger] rows.contains(t) && keep(t) implies after.contains(t) by {
            let i = choose|i: int| 0 <= i < rows.len() && rows[i] == t;
            if i < rows.len() - 1 {
                assert(front[i] == t);
                assert(front.contains(t));
                let k = choose|k: int| 0 <= k < before.len() && before[k] == t;
                assert(after[k] == t);
            } else {
                assert(after[before.len() as int] == t);
            }
        }
        if rows.no_duplicates() {
            assert(front.no_duplicates());
            if keep(rows.last()) {
                if before.contains(rows.last()) {
                    let i = choose|i: int| 0 <= i < front.len() && front[i] == rows.last();
                    assert(rows[i] == rows[rows.len() - 1]);
                }
                assert forall|i: int, j: int|
                    0 <= i < after.len() && 0 <= j < after.len() && i != j implies after[i]
                    != after[j] by {
                    if i < before.len() && j < before.len() {
                        assert(before[i] != before[j]);
                    } else if i < before.len() {
                        assert(before.contains(before[i]));
                    } else {
                        assert(before.contains(before[j]));
                    }
                }
            }
        }
    }
}

proof fn lemma_domain_difference(lhs: Seq<AttributeView>, rhs: Seq<AttributeView>, from: int)
    requires
        lhs.len() == rhs.len(),
        0 <= from,
    ensures
        first_domain_difference(lhs, rhs, from) is None <==> forall|i: int|
            from <= i < lhs.len() ==> lhs[i].domain == rhs[i].domain,
    decreases lhs.len() - from,
{
    if from < lhs.len() {
        lemma_domain_difference(lhs, rhs, from + 1);
    }
}

/// Two attribute lists are union-compatible exactly when there is no
/// compatibility error.
pub proof fn lemma_compatibility(lhs: Seq<AttributeView>, rhs: Seq<AttributeView>)
    ensures
        compatibility_error(lhs, rhs) is None <==> crate::sort::union_compatible(lhs, rhs),
{
    if lhs.len() == rhs.len() {
        lemma_domain_difference(lhs, rhs, 0);
    }
}

/// A set operation on well-formed relations that succeeds gives a well-formed
/// relation, whose tuples are those that the operation on sets gives.
pub proof fn lemma_set_operation(op: SetOperator, lhs: RelationView, rhs: RelationView)
    requires
        lhs.wf(),
        rhs.wf(),
        op != SetOperator::CartesianProduct,
        set_operation(op, lhs, rhs) is Ok,
    ensures
        set_operation(op, lhs, rhs)->Ok_0.wf(),
        set_operation(op, lhs, rhs)->Ok_0.tuple_set() == match op {
            SetOperator::Union => lhs.tuple_set().union(rhs.tuple_set()),
            SetOperator::Intersection => lhs.tuple_set().intersect(rhs.tuple_set()),
            SetOperator::Difference => lhs.tuple_set().difference(rhs.tuple_set()),
            _ => lhs.tuple_set().difference(rhs.tuple_set()).union(
                rhs.tuple_set().difference(lhs.tuple_set()),
            ),
        },
{
    let out = set_operation(op, lhs, rhs)->Ok_0;
    let l = lhs.rows;
    let r = rhs.rows;
    lemma_compatibility(lhs.attributes, rhs.attributes);
    lemma_filter_rows(l, membership(r, true));
    lemma_filter_rows(l, membership(r, false));
    lemma_filter_rows(r, membership(l, false));
    let l_only = difference_rows(l, r);
    let r_only = difference_rows(r, l);
    assert forall|t: Row| out.rows.contains(t) implies (l.contains(t) || r.contains(t)) by {
        let k = choose|k: int| 0 <= k < out.rows.len() && out.rows[k] == t;
        match op {
            SetOperator::Union => {
                if k < l.len() {
                    assert(l[k] == t);
                } else {
                    assert(r_only[k - l.len()] == t);
                    assert(r_only.contains(t));
                }
            },
            SetOperator::Intersection => {},
            SetOperator::Difference => {},
            _ => {
                if k < l_only.len() {
                    assert(l_only[k] == t);
                    assert(l_only.contains(t));
                } else {
                    assert(r_only[k - l_only.len()] == t);
                    assert(r_only.contains(t));
                }
            },
        }
    }
    assert forall|i: int| 0 <= i < out.rows.len() implies crate::data::row_conforms(
        out.attributes,
        #[trigger] out.rows[i],
    ) by {
        let t = out.rows[i];
        assert(out.rows.contains(t));
        if l.contains(t) {
            let k = choose|k: int| 0 <= k < l.len() && l[k] == t;
            assert(crate::data::row_conforms(lhs.attributes, l[k]));
        } else {
            let k = choose|k: int| 0 <= k < r.len() && r[k] == t;
            assert(crate::data::row_conforms(rhs.attributes, r[k]));
        }
    }
    match op {
        SetOperator::Union => {
            lemma_concat_distinct(l, r_only);
            assert forall|t: Row| out.rows.contains(t) <==> l.contains(t) || r.contains(t) by {
                if l.contains(t) {
                    let k = choose|k: int| 0 <= k < l.len() && l[k] == t;
                    assert(out.rows[k] == t);
                } else if r.contains(t) {
                    assert(r_only.contains(t));
                    let k = choose|k: int| 0 <= k < r_only.len() && r_only[k] == t;
                    assert(out.rows[l.len() + k] == t);
                }
            }
            assert(out.tuple_set() =~= lhs.tuple_set().union(rhs.tuple_set()));
        },
        SetOperator::Intersection => {
            assert(out.tuple_set() =~= lhs.tuple_set().intersect(rhs.tuple_set()));
        },
        SetOperator::Difference => {
            assert(out.tuple_set() =~= lhs.tuple_set().difference(rhs.tuple_set()));
        },
        _ => {
            lemma_concat_distinct(l_only, r_only);
            assert forall|t: Row|
                out.rows.contains(t) <==> (l.contains(t) && !r.contains(t)) || (r.contains(t)
                    && !l.contains(t)) by {
                if out.rows.contains(t) {
                    let k = choose|k: int| 0 <= k < out.rows.len() && out.rows[k] == t;
                    if k < l_only.len() {
                        assert(l_only[k] == t);
                        assert(l_only.contains(t));
                    } else {
                        assert(r_only[k - l_only.len()] == t);
                        assert(r_only.contains(t));
                    }
                }
                if l.contains(t) && !r.contains(t) {
                    assert(l_only.contains(t));
                    let k = choose|k: int| 0 <= k < l_only.len() && l_only[k] == t;
                    assert(out.rows[k] == t);
                }
                if r.contains(t) && !l.contains(t) {
                    assert(r_only.contains(t));
                    let k = choose|k: int| 0 <= k < r_only.len() && r_only[k] == t;
                    assert(out.rows[l_only.len() + k] == t);
                }
            }
            assert(out.tuple_set() =~= lhs.tuple_set().difference(rhs.tuple_set()).union(
                rhs.tuple_set().difference(lhs.tuple_set()),
            ));
        },
    }
}

/// Two sequences without repetitions and without a common row make, one after
/// the other, a sequence without repetitions.
pub proof fn lemma_concat_distinct(a: Seq<Row>, b: Seq<Row>)
    requires
        a.no_duplicates(),
        b.no_duplicates(),
        forall|t: Row| #[trigger] b.contains(t) ==> !a.contains(t),
    ensures
        (a + b).no_duplicates(),
{
    let c = a + b;
    assert forall|i: int, j: int| 0 <= i < c.len() && 0 <= j < c.len() && i != j implies c[i]
        != c[j] by {
        if i < a.len() && j >= a.len() {
            assert(b.contains(b[j - a.len()]));
            assert(a.contains(a[i]));
        } else if j < a.len() && i >= a.len() {
            assert(b.contains(b[i - a.len()]));
            assert(a.contains(a[j]));
        }
    }
}

/// The product of well-formed relations is well formed, and has as many
/// tuples as the left has times as many as the right has.
pub proof fn lemma_product(lhs: RelationView, rhs: RelationView)
    requires
        lhs.wf(),
        rhs.wf(),
    ensures
        product(lhs, rhs).wf(),
        product(lhs, rhs).rows.len() == lhs.rows.len() * rhs.rows.len(),
{
    let out = product(lhs, rhs);
    let n = lhs.rows.len() as int;
    let m = rhs.rows.len() as int;
    let width = lhs.attributes.len() as int;
    assert forall|k: int| 0 <= k < out.rows.len() implies crate::data::row_conforms(
        out.attributes,
        #[trigger] out.rows[k],
    ) by {
        lemma_product_index(n, m, k);
        let a = lhs.rows[k / m];
        let b = rhs.rows[k % m];
        assert(crate::data::row_conforms(lhs.attributes, a));
        assert(crate::data::row_conforms(rhs.attributes, b));
        assert forall|i: int| 0 <= i < out.rows[k].len() implies (#[trigger] out.rows[k][i]).domain()
            == out.attributes[i].domain by {
            if i < width {
                assert(out.rows[k][i] == a[i]);
            } else {
                assert(out.rows[k][i] == b[i - width]);
            }
        }
    }
    assert forall|i: int, j: int|
        0 <= i < out.rows.len() && 0 <= j < out.rows.len() && i != j implies out.rows[i]
        != out.rows[j] by {
        lemma_product_index(n, m, i);
        lemma_product_index(n, m, j);
        let a1 = lhs.rows[i / m];
        let b1 = rhs.rows[i % m];
        let a2 = lhs.rows[j / m];
        let b2 = rhs.rows[j % m];
        assert(crate::data::row_conforms(lhs.attributes, a1));
        assert(crate::data::row_conforms(lhs.attributes, a2));
        if a1 + b1 == a2 + b2 {
            assert((a1 + b1).take(width) =~= a1);
            assert((a2 + b2).take(width) =~= a2);
            assert((a1 + b1).skip(width) =~= b1);
            assert((a2 + b2).skip(width) =~= b2);
            assert(i / m == j / m);
            assert(i % m == j % m);
            assert(i == j);
        }
    }
}

/// An index into a product splits into an index of the left and one of the
/// right.
pub proof fn lemma_product_index(n: int, m: int, k: int)
    requires
        0 <= n,
        0 <= m,
        0 <= k < n * m,
    ensures
        m > 0,
        0 <= k / m < n,
        0 <= k % m < m,
        k == (k / m) * m + k % m,
{
    assert(m > 0) by (nonlinear_arith)
        requires
            0 <= k < n * m,
            0 <= m,
    ;
    vstd::arithmetic::div_mod::lemma_fundamental_div_mod(k, m);
    vstd::arithmetic::div_mod::lemma_mod_pos_bound(k, m);
    vstd::arithmetic::div_mod::lemma_div_pos_is_pos(k, m);
    assert(k / m < n) by (nonlinear_arith)
        requires
            0 <= k < n * m,
            m > 0,
            k == m * (k / m) + k % m,
            0 <= k % m < m,
    ;
    assert((k / m) * m == m * (k / m)) by (nonlinear_arith);
}

/// The index of a product that an index of the left and one of the right make.
pub proof fn lemma_product_position(m: int, i: int, j: int)
    requires
        0 <= i,
        0 <= j < m,
    ensures
        (i * m + j) / m == i,
        (i * m + j) % m == j,
{
    vstd::arithmetic::div_mod::lemma_fundamental_div_mod_converse(i * m + j, m, i, j);
}

/// A selection of a well-formed relation that succeeds gives a well-formed
/// relation: the tuples of which the criteria is true.
pub proof fn lemma_selection(criteria: Term, operand: RelationView)
    requires
        operand.wf(),
        selection(criteria, operand) is Ok,
    ensures
        selection(criteria, operand)->Ok_0.wf(),
        selection(criteria, operand)->Ok_0.tuple_set() == operand.tuple_set().filter(
            truth(criteria, operand.attributes),
        ),
{
    let out = selection(criteria, operand)->Ok_0;
    let keep = truth(criteria, operand.attributes);
    lemma_filter_rows(operand.rows, keep);
    assert forall|i: int| 0 <= i < out.rows.len() implies crate::data::row_conforms(
        out.attributes,
        #[trigger] out.rows[i],
    ) by {
        assert(out.rows.contains(out.rows[i]));
        let k = choose|k: int| 0 <= k < operand.rows.len() && operand.rows[k] == out.rows[i];
        assert(crate::data::row_conforms(operand.attributes, operand.rows[k]));
    }
    assert(out.tuple_set() =~= operand.tuple_set().filter(keep));
}

/// The projection of a well-formed relation onto valid columns is well
/// formed, and its tuples are the reduced tuples of the operand.
pub proof fn lemma_project_columns(columns: Seq<Column>, operand: RelationView)
    requires
        operand.wf(),
        columns_valid(columns, operand.attributes.len() as int),
    ensures
        project_columns(columns, operand).wf(),
        forall|t: Row| #[trigger]
            project_columns(columns, operand).rows.contains(t) <==> exists|i: int|
                0 <= i < operand.rows.len() && project_row(columns, #[trigger] operand.rows[i])
                    == t,
{
    let out = project_columns(columns, operand);
    let mapped = projected_rows(columns, operand.rows);
    crate::data::lemma_distinct(mapped);
    assert forall|t: Row| #[trigger] out.rows.contains(t) <==> exists|i: int|
        0 <= i < operand.rows.len() && project_row(columns, #[trigger] operand.rows[i]) == t by {
        if out.rows.contains(t) {
            assert(mapped.contains(t));
            let i = choose|i: int| 0 <= i < mapped.len() && mapped[i] == t;
            assert(project_row(columns, operand.rows[i]) == t);
        }
        if exists|i: int|
            0 <= i < operand.rows.len() && project_row(columns, #[trigger] operand.rows[i]) == t {
            let i = choose|i: int|
                0 <= i < operand.rows.len() && project_row(columns, #[trigger] operand.rows[i])
                    == t;
            assert(mapped[i] == t);
            assert(mapped.contains(t));
        }
    }
    assert forall|i: int| 0 <= i < out.rows.len() implies crate::data::row_conforms(
        out.attributes,
        #[trigger] out.rows[i],
    ) by {
        let t = out.rows[i];
        assert(out.rows.contains(t));
        let k = choose|k: int|
            0 <= k < operand.rows.len() && project_row(columns, #[trigger] operand.rows[k]) == t;
        let row = operand.rows[k];
        assert(crate::data::row_conforms(operand.attributes, row));
        assert forall|j: int| 0 <= j < t.len() implies (#[trigger] t[j]).domain()
            == out.attributes[j].domain by {
            match columns[j] {
                Column::Source(p) => {
                    assert(0 <= p < row.len());
                    assert(row[p].domain() == operand.attributes[p].domain);
                },
                Column::Constant(v) => {},
            }
        }
    }
}

/// Where every attribute of a list resolves, it resolves to a position of the
/// schema.
pub proof fn lemma_resolved(attributes: Seq<AttributeView>, attribute: Attribute)
    requires
        resolve(attributes, attribute) is Ok,
    ensures
        0 <= resolve(attributes, attribute)->Ok_0 < attributes.len(),
{
    match attribute {
        Attribute::Index(i) => {},
        Attribute::Name(n) => {
            crate::sort::lemma_index_of_name(attributes, n@, 0);
        },
    }
}

/// Where nothing in a list is unresolved from a position on, each entry from
/// there on resolves.
pub proof fn lemma_first_unresolved(attributes: Seq<AttributeView>, list: Seq<Attribute>, from: int)
    requires
        0 <= from,
        first_unresolved(attributes, list, from) is None,
    ensures
        forall|i: int| from <= i < list.len() ==> (#[trigger] resolve(attributes, list[i])) is Ok,
    decreases list.len() - from,
{
    if from < list.len() {
        lemma_first_unresolved(attributes, list, from + 1);
    }
}

/// Where no projected attribute of a list is unresolved from a position on,
/// each from there on resolves.
pub proof fn lemma_first_unresolved_column(
    attributes: Seq<AttributeView>,
    list: Seq<ProjectedAttribute>,
    from: int,
)
    requires
        0 <= from,
        first_unresolved_column(attributes, list, from) is None,
    ensures
        forall|i: int|
            from <= i < list.len() ==> (#[trigger] resolve_projected(attributes, list[i])) is Ok,
    decreases list.len() - from,
{
    if from < list.len() {
        lemma_first_unresolved_column(attributes, list, from + 1);
    }
}

/// The order by keys turns round with its arguments.
pub proof fn lemma_key_rank_flip(keys: Seq<int>, a: Row, b: Row, from: int)
    requires
        0 <= from,
    ensures
        key_rank(keys, b, a, from) == match key_rank(keys, a, b, from) {
            Some(r) => Some(r.flipped()),
            None => None,
        },
    decreases keys.len() - from,
{
    if from < keys.len() {
        lemma_value_rank_flip(a[keys[from]], b[keys[from]]);
        lemma_key_rank_flip(keys, a, b, from + 1);
    }
}

/// Putting a row into rows keeps the rows, adds the row, and keeps them in
/// order if they were.
pub proof fn lemma_insert_row(keys: Seq<int>, sorted: Seq<Row>, row: Row)
    ensures
        insert_row(keys, sorted, row).len() == sorted.len() + 1,
        forall|t: Row| #[trigger]
            insert_row(keys, sorted, row).contains(t) <==> sorted.contains(t) || t == row,
        rows_ordered(keys, sorted) ==> rows_ordered(keys, insert_row(keys, sorted, row)),
        sorted.no_duplicates() && !sorted.contains(row) ==> insert_row(
            keys,
            sorted,
            row,
        ).no_duplicates(),
    decreases sorted.len(),
{
    let out = insert_row(keys, sorted, row);
    if sorted.len() > 0 && row_before(keys, row, sorted.last()) {
        let front = sorted.drop_last();
        let last = sorted.last();
        let inner = insert_row(keys, front, row);
        lemma_insert_row(keys, front, row);
        assert(out == inner.push(last));
        assert forall|t: Row| #[trigger] out.contains(t) <==> sorted.contains(t) || t == row by {
            if out.contains(t) {
                let k = choose|k: int| 0 <= k < out.len() && out[k] == t;
                if k < inner.len() {
                    assert(inner[k] == t);
                    assert(inner.contains(t));
                    if front.contains(t) {
                        let i = choose|i: int| 0 <= i < front.len() && front[i] == t;
                        assert(sorted[i] == t);
                    }
                } else {
                    assert(sorted[sorted.len() - 1] == t);
                }
            }
            if sorted.contains(t) {
                let i = choose|i: int| 0 <= i < sorted.len() && sorted[i] == t;
                if i < front.len() {
                    assert(front[i] == t);
                    assert(front.contains(t));
                    assert(inner.contains(t));
                    let k = choose|k: int| 0 <= k < inner.len() && inner[k] == t;
                    assert(out[k] == t);
                } else {
                    assert(out[inner.len() as int] == t);
                }
            }
            if t == row {
                assert(inner.contains(t));
                let k = choose|k: int| 0 <= k < inner.len() && inner[k] == t;
                assert(out[k] == t);
            }
        }
        if rows_ordered(keys, sorted) {
            assert forall|i: int| 0 <= i < front.len() - 1 implies !row_before(
                keys,
                #[trigger] front[i + 1],
                front[i],
            ) by {
                assert(front[i + 1] == sorted[i + 1]);
            }
            assert(rows_ordered(keys, inner));
            assert forall|i: int| 0 <= i < out.len() - 1 implies !row_before(
                keys,
                #[trigger] out[i + 1],
                out[i],
            ) by {
                if i + 1 < inner.len() {
                    assert(out[i + 1] == inner[i + 1]);
                    assert(out[i] == inner[i]);
                } else {
                    // the pair of the last row of `inner` and `last`
                    if front.len() > 0 && row_before(keys, row, front.last()) {
                        assert(inner == insert_row(keys, front.drop_last(), row).push(
                            front.last(),
                        ));
                        assert(out[i] == front.last());
                        assert(sorted[front.len() - 1 + 1] == last);
                    } else {
                        assert(inner == front.push(row));
                        assert(out[i] == row);
                        lemma_key_rank_flip(keys, row, last, 0);
                    }
                }
            }
        }
        if sorted.no_duplicates() && !sorted.contains(row) {
            assert(front.no_duplicates());
            if front.contains(row) {
                let i = choose|i: int| 0 <= i < front.len() && front[i] == row;
                assert(sorted[i] == row);
            }
            assert(inner.no_duplicates());
            if inner.contains(last) {
                if front.contains(last) {
                    let i = choose|i: int| 0 <= i < front.len() && front[i] == last;
                    assert(sorted[i] == sorted[sorted.len() - 1]);
                } else {
                    assert(sorted[sorted.len() - 1] == row);
                }
            }
            assert forall|i: int, j: int|
                0 <= i < out.len() && 0 <= j < out.len() && i != j implies out[i] != out[j] by {
                if i < inner.len() && j < inner.len() {
                    assert(inner[i] != inner[j]);
                } else if i < inner.len() {
                    assert(inner.contains(inner[i]));
                } else {
                    assert(inner.contains(inner[j]));
                }
            }
        }
    } else {
        assert(out == sorted.push(row));
        assert forall|t: Row| #[trigger] out.contains(t) <==> sorted.contains(t) || t == row by {
            if out.contains(t) {
                let k = choose|k: int| 0 <= k < out.len() && out[k] == t;
                if k < sorted.len() {
                    assert(sorted[k] == t);
                }
            }
            if sorted.contains(t) {
                let i = choose|i: int| 0 <= i < sorted.len() && sorted[i] == t;
                assert(out[i] == t);
            }
            if t == row {
                assert(out[sorted.len() as int] == t);
            }
        }
        if rows_ordered(keys, sorted) {
            assert forall|i: int| 0 <= i < out.len() - 1 implies !row_before(
                keys,
                #[trigger] out[i + 1],
                out[i],
            ) by {
                if i + 1 < sorted.len() {
                    assert(out[i + 1] == sorted[i + 1]);
                }
            }
        }
        if sorted.no_duplicates() && !sorted.contains(row) {
            assert forall|i: int, j: int|
                0 <= i < out.len() && 0 <= j < out.len() && i != j implies out[i] != out[j] by {
                if i < sorted.len() && j < sorted.len() {
                } else if i < sorted.len() {
                    assert(sorted.contains(sorted[i]));
                } else {
                    assert(sorted.contains(sorted[j]));
                }
            }
        }
    }
}

/// Sorting keeps the rows, each as often as it was, and puts them in order.
pub proof fn lemma_sort_rows(keys: Seq<int>, rows: Seq<Row>)
    ensures
        sort_rows(keys, rows).len() == rows.len(),
        forall|t: Row| #[trigger] sort_rows(keys, rows).contains(t) <==> rows.contains(t),
        rows_ordered(keys, sort_rows(keys, rows)),
        rows.no_duplicates() ==> sort_rows(keys, rows).no_duplicates(),
    decreases rows.len(),
{
    if rows.len() > 0 {
        let front = rows.drop_last();
        let before = sort_rows(keys, front);
        let out = sort_rows(keys, rows);
        lemma_sort_rows(keys, front);
        lemma_insert_row(keys, before, rows.last());
        assert forall|t: Row| #[trigger] out.contains(t) <==> rows.contains(t) by {
            if out.contains(t) {
                if before.contains(t) {
                    assert(front.contains(t));
                    let i = choose|i: int| 0 <= i < front.len() && front[i] == t;
                    assert(rows[i] == t);
                } else {
                    assert(rows[rows.len() - 1] == t);
                }
            }
            if rows.contains(t) {
                let i = choose|i: int| 0 <= i < rows.len() && rows[i] == t;
                if i < front.len() {
                    assert(front[i] == t);
                    assert(front.contains(t));
                    assert(before.contains(t));
                }
            }
        }
        if rows.no_duplicates() {
            assert(front.no_duplicates());
            if before.contains(rows.last()) {
                assert(front.contains(rows.last()));
                let i = choose|i: int| 0 <= i < front.len() && front[i] == rows.last();
                assert(rows[i] == rows[rows.len() - 1]);
            }
        }
    }
}

/// An ordering of a well-formed relation that succeeds gives a well-formed
/// relation with the same tuples, in order.
pub proof fn lemma_ordering(list: Seq<Attribute>, operand: RelationView)
    requires
        operand.wf(),
        ordering(list, operand) is Ok,
    ensures
        ordering(list, operand)->Ok_0.wf(),
        ordering(list, operand)->Ok_0.tuple_set() == operand.tuple_set(),
        ordering(list, operand)->Ok_0.rows.len() == operand.rows.len(),
        rows_ordered(
            resolve_all(operand.attributes, list)->Ok_0,
            ordering(list, operand)->Ok_0.rows,
        ),
{
    let out = ordering(list, operand)->Ok_0;
    let keys = resolve_all(operand.attributes, list)->Ok_0;
    lemma_sort_rows(keys, operand.rows);
    assert forall|i: int| 0 <= i < out.rows.len() implies row_conforms(
        out.attributes,
        #[trigger] out.rows[i],
    ) by {
        assert(out.rows.contains(out.rows[i]));
        let k = choose|k: int| 0 <= k < operand.rows.len() && operand.rows[k] == out.rows[i];
        assert(row_conforms(operand.attributes, operand.rows[k]));
    }
    assert(out.tuple_set() =~= operand.tuple_set());
}

/// Where every entry of a rename list resolves, renaming changes neither the
/// number of attributes nor the domain of any.
pub proof fn lemma_apply_renames(original: Seq<AttributeView>, renames: Seq<(Attribute, Name)>)
    requires
        first_unresolved(original, rename_sources(renames), 0) is None,
    ensures
        apply_renames(original, renames).attributes.len() == original.len(),
        apply_renames(original, renames).touched.len() == original.len(),
        forall|i: int|
            0 <= i < original.len() ==> (#[trigger] apply_renames(
                original,
                renames,
            ).attributes[i]).domain == original[i].domain,
    decreases renames.len(),
{
    if renames.len() > 0 {
        let front = renames.drop_last();
        lemma_first_unresolved(original, rename_sources(renames), 0);
        lemma_none_unresolved(original, rename_sources(front));
        assert forall|i: int| 0 <= i < front.len() implies (#[trigger] resolve(
            original,
            rename_sources(front)[i],
        )) is Ok by {
            assert(rename_sources(front)[i] == rename_sources(renames)[i]);
        }
        lemma_apply_renames(original, front);
        assert(rename_sources(renames)[renames.len() - 1] == renames.last().0);
        lemma_resolved(original, renames.last().0);
    }
}

/// Where each entry of a list resolves, none is unresolved.
pub proof fn lemma_none_unresolved(attributes: Seq<AttributeView>, list: Seq<Attribute>)
    ensures
        (forall|i: int| 0 <= i < list.len() ==> (#[trigger] resolve(attributes, list[i])) is Ok)
            ==> first_unresolved(attributes, list, 0) is None,
{
    if forall|i: int| 0 <= i < list.len() ==> (#[trigger] resolve(attributes, list[i])) is Ok {
        lemma_none_unresolved_from(attributes, list, 0);
    }
}

proof fn lemma_none_unresolved_from(attributes: Seq<AttributeView>, list: Seq<Attribute>, from: int)
    requires
        0 <= from,
        forall|i: int| 0 <= i < list.len() ==> (#[trigger] resolve(attributes, list[i])) is Ok,
    ensures
        first_unresolved(attributes, list, from) is None,
    decreases list.len() - from,
{
    if from < list.len() {
        assert(resolve(attributes, list[from]) is Ok);
        lemma_none_unresolved_from(attributes, list, from + 1);
    }
}

/// A rename of a well-formed relation that succeeds gives a well-formed
/// relation with the same tuples, whose attributes have the domains that they
/// had.
pub proof fn lemma_renaming(renames: Seq<(Attribute, Name)>, operand: RelationView)
    requires
        operand.wf(),
        renaming(renames, operand) is Ok,
    ensures
        renaming(renames, operand)->Ok_0.wf(),
        renaming(renames, operand)->Ok_0.rows == operand.rows,
        crate::sort::union_compatible(renaming(renames, operand)->Ok_0.attributes, operand.attributes),
{
    lemma_apply_renames(operand.attributes, renames);
    let out = renaming(renames, operand)->Ok_0;
    assert forall|i: int| 0 <= i < out.rows.len() implies row_conforms(
        out.attributes,
        #[trigger] out.rows[i],
    ) by {
        assert(row_conforms(operand.attributes, operand.rows[i]));
    }
}

/// The positions that are not joined on are positions of the right, in
/// increasing order, and exactly those without a key.
pub proof fn lemma_unshared(keys: Seq<Option<int>>, from: int)
    requires
        0 <= from,
    ensures
        forall|i: int|
            0 <= i < unshared(keys, from).len() ==> from <= (#[trigger] unshared(keys, from)[i])
                < keys.len() && keys[unshared(keys, from)[i]] is None,
        (forall|j: int| from <= j < keys.len() ==> (#[trigger] keys[j]) is None) ==> unshared(
            keys,
            from,
        ) == Seq::new((keys.len() - from) as nat, |i: int| from + i) || from >= keys.len(),
    decreases keys.len() - from,
{
    if from < keys.len() {
        lemma_unshared(keys, from + 1);
        let rest = unshared(keys, from + 1);
        if keys[from] is None {
            assert forall|i: int| 0 <= i < unshared(keys, from).len() implies from <= (
            #[trigger] unshared(keys, from)[i]) < keys.len() && keys[unshared(keys, from)[i]] is None by {
                if i > 0 {
                    assert(unshared(keys, from)[i] == rest[i - 1]);
                }
            }
        }
        if forall|j: int| from <= j < keys.len() ==> (#[trigger] keys[j]) is None {
            assert(keys[from] is None);
            if from + 1 < keys.len() {
                assert(unshared(keys, from) =~= Seq::new(
                    (keys.len() - from) as nat,
                    |i: int| from + i,
                ));
            } else {
                assert(rest =~= Seq::<int>::empty());
                assert(unshared(keys, from) =~= Seq::new(
                    (keys.len() - from) as nat,
                    |i: int| from + i,
                ));
            }
        }
    }
}

} // verus!
