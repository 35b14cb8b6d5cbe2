//! Laws of the algebra, stated over the meaning of the operators and proved.

use crate::Name;
use crate::ast::{
    Atom, Attribute, ComparisonOperator, Join, negated_operator, ProjectedAttribute, RelationalOp,
    same_attribute, same_attributes, same_operation, same_projected, same_projected_list,
    same_renames, same_term, SetOperator, Term,
};
use crate::data::{
    lemma_distinct_of_distinct, lemma_value_rank_transitive, RelationView, row_conforms, value_rank,
    ValueView,
};
use crate::error::ErrorView;
use crate::eval::semantics::{
    agreement, analysis, apply_renames, attribute_value, clash_with, Column, columns_valid,
    comparison_value, empty_relation, evaluation, filter_rows, first_clash, first_failure,
    first_key_mismatch, first_unresolved, grouping, join_columns, join_keys, key_rank,
    lemma_compatibility, lemma_filter_rows, lemma_first_unresolved, lemma_first_unresolved_column,
    lemma_key_rank_flip, lemma_ordering, lemma_product, lemma_project_columns, lemma_renaming,
    lemma_resolved, lemma_selection, lemma_set_operation, lemma_unshared, lookup, membership,
    natural_join, ordering, product, product_rows, project_columns, project_row,
    projected_attributes, projected_rows, projection, rename_sources, renaming, resolve,
    resolve_all, resolve_columns, resolve_projected, Row, row_before, rows_ordered, selection,
    set_operation, source_columns, term_value, theta_join, truth, unshared,
};
use crate::sort::{
    AttributeView, index_of_name, lemma_index_of_name, RelationSchemaView, union_compatible,
};
use crate::text::Rank;
use vstd::prelude::*;

verus! {

/// Rows that all meet a property are all kept.
pub proof fn lemma_filter_all(rows: Seq<Row>, keep: spec_fn(Row) -> bool)
    requires
        forall|i: int| 0 <= i < rows.len() ==> keep(#[trigger] rows[i]),
    ensures
        filter_rows(rows, keep) == rows,
    decreases rows.len(),
{
    if rows.len() > 0 {
        let front = rows.drop_last();
        assert forall|i: int| 0 <= i < front.len() implies keep(#[trigger] front[i]) by {
            assert(front[i] == rows[i]);
        }
        lemma_filter_all(front, keep);
        assert(keep(rows[rows.len() - 1]));
        assert(front.push(rows.last()) =~= rows);
    }
}

/// A set operation other than the product, on two relations that differ in
/// the number of their attributes, fails, and reports as invalid the first
/// index that only the longer schema has. No tuple is cut to fit.
pub proof fn law_set_operation_needs_equal_arity(
    op: SetOperator,
    lhs: RelationView,
    rhs: RelationView,
)
    requires
        op != SetOperator::CartesianProduct,
        lhs.attributes.len() != rhs.attributes.len(),
    ensures
        set_operation(op, lhs, rhs) == Err::<RelationView, ErrorView>(
            ErrorView::AttributeIndexInvalid {
                index: if lhs.attributes.len() < rhs.attributes.len() {
                    lhs.attributes.len() as usize
                } else {
                    rhs.attributes.len() as usize
                },
            },
        ),
{
}

/// A set operation other than the product succeeds exactly on relations that
/// are union-compatible.
pub proof fn law_set_operation_defined(op: SetOperator, lhs: RelationView, rhs: RelationView)
    requires
        op != SetOperator::CartesianProduct,
    ensures
        set_operation(op, lhs, rhs) is Ok <==> union_compatible(lhs.attributes, rhs.attributes),
{
    lemma_compatibility(lhs.attributes, rhs.attributes);
}

/// The intersection of a relation with itself is the relation.
pub proof fn law_intersection_idempotent(relation: RelationView)
    requires
        relation.wf(),
    ensures
        set_operation(SetOperator::Intersection, relation, relation) == Ok::<
            RelationView,
            ErrorView,
        >(relation),
{
    lemma_compatibility(relation.attributes, relation.attributes);
    let rows = relation.rows;
    assert forall|i: int| 0 <= i < rows.len() implies membership(rows, true)(
        #[trigger] rows[i],
    ) by {
        assert(rows.contains(rows[i]));
    }
    lemma_filter_all(rows, membership(rows, true));
}

/// The union of a relation with its difference from another holds every
/// tuple of that difference.
pub proof fn law_union_holds_difference(lhs: RelationView, rhs: RelationView)
    requires
        lhs.wf(),
        rhs.wf(),
        union_compatible(lhs.attributes, rhs.attributes),
    ensures
        set_operation(SetOperator::Difference, lhs, rhs) is Ok,
        set_operation(
            SetOperator::Union,
            lhs,
            set_operation(SetOperator::Difference, lhs, rhs)->Ok_0,
        ) is Ok,
        set_operation(SetOperator::Difference, lhs, rhs)->Ok_0.tuple_set().subset_of(
            set_operation(
                SetOperator::Union,
                lhs,
                set_operation(SetOperator::Difference, lhs, rhs)->Ok_0,
            )->Ok_0.tuple_set(),
        ),
{
    lemma_compatibility(lhs.attributes, rhs.attributes);
    let d = set_operation(SetOperator::Difference, lhs, rhs)->Ok_0;
    lemma_set_operation(SetOperator::Difference, lhs, rhs);
    lemma_compatibility(lhs.attributes, d.attributes);
    lemma_set_operation(SetOperator::Union, lhs, d);
}

/// The cartesian product of two relations has as many tuples as the one has
/// times as many as the other has.
pub proof fn law_product_cardinality(lhs: RelationView, rhs: RelationView)
    requires
        lhs.wf(),
        rhs.wf(),
    ensures
        product(lhs, rhs).wf(),
        product(lhs, rhs).rows.len() == lhs.rows.len() * rhs.rows.len(),
        product(lhs, rhs).tuple_set().len() == lhs.tuple_set().len() * rhs.tuple_set().len(),
{
    lemma_product(lhs, rhs);
    lhs.rows.unique_seq_to_set();
    rhs.rows.unique_seq_to_set();
    product(lhs, rhs).rows.unique_seq_to_set();
}

/// Whether a reference to an attribute means the same before and after a
/// projection: it resolves in the operand's schema, it resolves in the
/// projected schema, and the column it resolves to there is the position it
/// resolves to in the operand.
pub open spec fn reference_survives(
    attribute: Attribute,
    attributes: Seq<AttributeView>,
    columns: Seq<Column>,
) -> bool {
    &&& resolve(attributes, attribute) is Ok
    &&& resolve(projected_attributes(columns, attributes), attribute) is Ok
    &&& columns[resolve(projected_attributes(columns, attributes), attribute)->Ok_0]
        == Column::Source(resolve(attributes, attribute)->Ok_0)
}

/// Whether every attribute that a criteria refers to survives a projection.
pub open spec fn criteria_survives(
    criteria: Term,
    attributes: Seq<AttributeView>,
    columns: Seq<Column>,
) -> bool
    decreases criteria,
{
    match criteria {
        Term::Constant(_) => true,
        Term::Exists(a) => reference_survives(a, attributes, columns),
        Term::Atom(a) => reference_survives(a.lhs, attributes, columns) && match a.rhs {
            ProjectedAttribute::Index(i) => reference_survives(
                Attribute::Index(i),
                attributes,
                columns,
            ),
            ProjectedAttribute::Name(n) => reference_survives(
                Attribute::Name(n),
                attributes,
                columns,
            ),
            ProjectedAttribute::Constant(_) => true,
        },
        Term::Negate(t) => criteria_survives(*t, attributes, columns),
        Term::And(l, r) => criteria_survives(*l, attributes, columns) && criteria_survives(
            *r,
            attributes,
            columns,
        ),
        Term::Or(l, r) => criteria_survives(*l, attributes, columns) && criteria_survives(
            *r,
            attributes,
            columns,
        ),
    }
}

proof fn lemma_reference_projected(
    attribute: Attribute,
    attributes: Seq<AttributeView>,
    columns: Seq<Column>,
    row: Row,
)
    requires
        reference_survives(attribute, attributes, columns),
        row_conforms(attributes, row),
    ensures
        attribute_value(attributes, row, attribute) == attribute_value(
            projected_attributes(columns, attributes),
            project_row(columns, row),
            attribute,
        ),
{
    lemma_resolved(attributes, attribute);
    lemma_resolved(projected_attributes(columns, attributes), attribute);
}

/// A criteria whose attributes survive a projection has the same value of a
/// row and of the projected row.
pub proof fn lemma_term_projected(
    criteria: Term,
    attributes: Seq<AttributeView>,
    columns: Seq<Column>,
    row: Row,
)
    requires
        criteria_survives(criteria, attributes, columns),
        row_conforms(attributes, row),
    ensures
        term_value(criteria, attributes, row) == term_value(
            criteria,
            projected_attributes(columns, attributes),
            project_row(columns, row),
        ),
    decreases criteria,
{
    match criteria {
        Term::Constant(_) => {},
        Term::Exists(a) => {
            lemma_reference_projected(a, attributes, columns, row);
        },
        Term::Atom(a) => {
            lemma_reference_projected(a.lhs, attributes, columns, row);
            match a.rhs {
                ProjectedAttribute::Index(i) => {
                    lemma_reference_projected(Attribute::Index(i), attributes, columns, row);
                },
                ProjectedAttribute::Name(n) => {
                    lemma_reference_projected(Attribute::Name(n), attributes, columns, row);
                },
                ProjectedAttribute::Constant(_) => {},
            }
        },
        Term::Negate(t) => {
            lemma_term_projected(*t, attributes, columns, row);
        },
        Term::And(l, r) => {
            lemma_term_projected(*l, attributes, columns, row);
            lemma_term_projected(*r, attributes, columns, row);
        },
        Term::Or(l, r) => {
            lemma_term_projected(*l, attributes, columns, row);
            lemma_term_projected(*r, attributes, columns, row);
        },
    }
}

/// A selection fails exactly where the criteria has no value of some row.
pub proof fn lemma_first_failure(
    criteria: Term,
    attributes: Seq<AttributeView>,
    rows: Seq<Row>,
    from: int,
)
    requires
        0 <= from,
    ensures
        first_failure(criteria, attributes, rows, from) is None <==> forall|i: int|
            from <= i < rows.len() ==> term_value(criteria, attributes, #[trigger] rows[i]) is Ok,
    decreases rows.len() - from,
{
    if from < rows.len() {
        lemma_first_failure(criteria, attributes, rows, from + 1);
        if first_failure(criteria, attributes, rows, from) is None {
            assert forall|i: int| from <= i < rows.len() implies term_value(
                criteria,
                attributes,
                #[trigger] rows[i],
            ) is Ok by {
                if i > from {
                }
            }
        }
    }
}

/// Selection and projection commute where the attributes that the criteria
/// refers to survive the projection: selecting before projecting is defined
/// exactly when selecting after projecting is, and then both give the same
/// tuples under the same attributes.
pub proof fn law_selection_projection_commute(
    criteria: Term,
    list: Seq<ProjectedAttribute>,
    operand: RelationView,
)
    requires
        operand.wf(),
        projection(list, operand) is Ok,
        criteria_survives(
            criteria,
            operand.attributes,
            resolve_columns(operand.attributes, list)->Ok_0,
        ),
    ensures
        selection(criteria, operand) is Ok <==> selection(
            criteria,
            projection(list, operand)->Ok_0,
        ) is Ok,
        selection(criteria, operand) is Ok ==> {
            let first = projection(list, selection(criteria, operand)->Ok_0);
            let second = selection(criteria, projection(list, operand)->Ok_0);
            &&& first is Ok
            &&& first->Ok_0.attributes == second->Ok_0.attributes
            &&& first->Ok_0.tuple_set() == second->Ok_0.tuple_set()
        },
{
    let attributes = operand.attributes;
    let columns = resolve_columns(attributes, list)->Ok_0;
    let projected = projection(list, operand)->Ok_0;
    let rows = operand.rows;
    lemma_columns_valid(attributes, list);
    lemma_project_columns(columns, operand);
    lemma_first_failure(criteria, attributes, rows, 0);
    lemma_first_failure(criteria, projected.attributes, projected.rows, 0);
    assert forall|i: int| 0 <= i < rows.len() implies term_value(
        criteria,
        attributes,
        #[trigger] rows[i],
    ) == term_value(criteria, projected.attributes, project_row(columns, rows[i])) by {
        lemma_term_projected(criteria, attributes, columns, rows[i]);
    }
    if selection(criteria, operand) is Ok {
        assert forall|k: int| 0 <= k < projected.rows.len() implies term_value(
            criteria,
            projected.attributes,
            #[trigger] projected.rows[k],
        ) is Ok by {
            let t = projected.rows[k];
            assert(projected.rows.contains(t));
            let i = choose|i: int|
                0 <= i < rows.len() && project_row(columns, #[trigger] rows[i]) == t;
            assert(term_value(criteria, attributes, rows[i]) is Ok);
        }
    }
    if selection(criteria, projected) is Ok {
        assert forall|i: int| 0 <= i < rows.len() implies term_value(
            criteria,
            attributes,
            #[trigger] rows[i],
        ) is Ok by {
            let t = project_row(columns, rows[i]);
            assert(projected.rows.contains(t));
            let k = choose|k: int| 0 <= k < projected.rows.len() && projected.rows[k] == t;
            assert(term_value(criteria, projected.attributes, projected.rows[k]) is Ok);
        }
    }
    if selection(criteria, operand) is Ok {
        let selected = selection(criteria, operand)->Ok_0;
        lemma_selection(criteria, operand);
        lemma_project_columns(columns, selected);
        let first = projection(list, selected)->Ok_0;
        let second = selection(criteria, projected)->Ok_0;
        lemma_selection(criteria, projected);
        lemma_filter_rows(rows, truth(criteria, attributes));
        lemma_filter_rows(projected.rows, truth(criteria, projected.attributes));
        assert forall|t: Row| first.rows.contains(t) <==> second.rows.contains(t) by {
            if first.rows.contains(t) {
                let i = choose|i: int|
                    0 <= i < selected.rows.len() && project_row(
                        columns,
                        #[trigger] selected.rows[i],
                    ) == t;
                let row = selected.rows[i];
                assert(selected.rows.contains(row));
                assert(rows.contains(row));
                let x = choose|x: int| 0 <= x < rows.len() && rows[x] == row;
                assert(project_row(columns, rows[x]) == t);
                assert(projected.rows.contains(t));
                assert(truth(criteria, projected.attributes)(t));
            }
            if second.rows.contains(t) {
                assert(projected.rows.contains(t));
                let i = choose|i: int|
                    0 <= i < rows.len() && project_row(columns, #[trigger] rows[i]) == t;
                assert(rows.contains(rows[i]));
                assert(truth(criteria, attributes)(rows[i]));
                assert(selected.rows.contains(rows[i]));
                let x = choose|x: int| 0 <= x < selected.rows.len() && selected.rows[x] == rows[i];
                assert(project_row(columns, selected.rows[x]) == t);
            }
        }
        assert(first.tuple_set() =~= second.tuple_set());
    }
}

/// The columns that a list resolves to are positions of the schema.
pub proof fn lemma_columns_valid(attributes: Seq<AttributeView>, list: Seq<ProjectedAttribute>)
    requires
        resolve_columns(attributes, list) is Ok,
    ensures
        columns_valid(resolve_columns(attributes, list)->Ok_0, attributes.len() as int),
{
    let columns = resolve_columns(attributes, list)->Ok_0;
    lemma_first_unresolved_column(attributes, list, 0);
    assert forall|i: int| 0 <= i < columns.len() && (#[trigger] columns[i]) is Source implies 0
        <= columns[i]->Source_0 < attributes.len() by {
        assert(resolve_projected(attributes, list[i]) is Ok);
        match list[i] {
            ProjectedAttribute::Index(k) => {
                lemma_resolved(attributes, Attribute::Index(k));
            },
            ProjectedAttribute::Name(n) => {
                lemma_resolved(attributes, Attribute::Name(n));
            },
            ProjectedAttribute::Constant(_) => {},
        }
    }
}

/// Whether no attribute of the one list has the name of an attribute of the
/// other.
pub open spec fn no_common_names(lhs: Seq<AttributeView>, rhs: Seq<AttributeView>) -> bool {
    forall|i: int, j: int|
        0 <= i < lhs.len() && 0 <= j < rhs.len() && (#[trigger] rhs[j]).name is Some ==> (
        #[trigger] lhs[i]).name != rhs[j].name
}

/// The natural join of two relations that have no attribute name in common is
/// their cartesian product.
pub proof fn law_natural_join_without_common_names(lhs: RelationView, rhs: RelationView)
    requires
        lhs.wf(),
        rhs.wf(),
        no_common_names(lhs.attributes, rhs.attributes),
    ensures
        natural_join(lhs, rhs) == Ok::<RelationView, ErrorView>(product(lhs, rhs)),
{
    let keys = join_keys(lhs.attributes, rhs.attributes);
    let offset = lhs.attributes.len() as int;
    let width = offset + rhs.attributes.len();
    let all = product(lhs, rhs);
    assert forall|j: int| 0 <= j < keys.len() implies (#[trigger] keys[j]) is None by {
        match rhs.attributes[j].name {
            Some(n) => {
                lemma_index_of_name(lhs.attributes, n, 0);
                if index_of_name(lhs.attributes, n, 0) is Some {
                    let i = index_of_name(lhs.attributes, n, 0)->Some_0;
                    assert(lhs.attributes[i].name != rhs.attributes[j].name);
                }
            },
            None => {},
        }
    }
    lemma_no_key_mismatch(lhs.attributes, rhs.attributes, 0);
    lemma_product(lhs, rhs);
    assert forall|i: int| 0 <= i < all.rows.len() implies agreement(keys, offset)(
        #[trigger] all.rows[i],
    ) by {}
    lemma_filter_all(all.rows, agreement(keys, offset));
    lemma_unshared(keys, 0);
    let columns = join_columns(keys, offset);
    assert(columns =~= Seq::new(width as nat, |i: int| Column::Source(i))) by {
        if keys.len() > 0 {
            assert(unshared(keys, 0) == Seq::new(keys.len(), |i: int| 0 + i));
        } else {
            assert(unshared(keys, 0) =~= Seq::<int>::empty());
        }
    }
    assert(projected_attributes(columns, all.attributes) =~= all.attributes);
    assert forall|i: int| 0 <= i < all.rows.len() implies project_row(
        columns,
        #[trigger] all.rows[i],
    ) == all.rows[i] by {
        assert(row_conforms(all.attributes, all.rows[i]));
        assert(project_row(columns, all.rows[i]) =~= all.rows[i]);
    }
    assert(projected_rows(columns, all.rows) =~= all.rows);
    lemma_distinct_of_distinct(all.rows);
}

proof fn lemma_no_key_mismatch(lhs: Seq<AttributeView>, rhs: Seq<AttributeView>, from: int)
    requires
        0 <= from,
        forall|j: int| 0 <= j < rhs.len() ==> (#[trigger] join_keys(lhs, rhs)[j]) is None,
    ensures
        first_key_mismatch(lhs, rhs, from) is None,
    decreases rhs.len() - from,
{
    if from < rhs.len() {
        assert(join_keys(lhs, rhs)[from] is None);
        lemma_no_key_mismatch(lhs, rhs, from + 1);
    }
}

/// A rename list in which two entries give the same name has a conflict, so
/// that no rename is constructed from it.
pub proof fn law_rename_targets_distinct(renames: Seq<(Attribute, Name)>, i: int, j: int)
    requires
        0 <= i < j < renames.len(),
        renames[i].1@ == renames[j].1@,
    ensures
        crate::ast::first_rename_conflict(renames) is Some,
{
    assert(crate::ast::renames_clash(renames[i], renames[j]));
    assert(crate::ast::rename_conflict_at(renames, j));
    lemma_conflict_found(renames, j, 0);
}

proof fn lemma_conflict_found(renames: Seq<(Attribute, Name)>, j: int, from: int)
    requires
        0 <= from <= j < renames.len(),
        crate::ast::rename_conflict_at(renames, j),
    ensures
        crate::ast::first_rename_conflict_from(renames, from) is Some,
    decreases j - from,
{
    if from < j && !crate::ast::rename_conflict_at(renames, from) {
        lemma_conflict_found(renames, j, from + 1);
    }
}

/// A rename that gives an attribute a name that another attribute of the
/// result has too, renamed or not, fails as incompatible.
pub proof fn law_rename_collision(
    renames: Seq<(Attribute, Name)>,
    operand: RelationView,
    p: int,
    q: int,
)
    requires
        first_unresolved(operand.attributes, rename_sources(renames), 0) is None,
        0 <= p < operand.attributes.len(),
        0 <= q < operand.attributes.len(),
        p != q,
        apply_renames(operand.attributes, renames).touched[p],
        apply_renames(operand.attributes, renames).attributes[p].name == apply_renames(
            operand.attributes,
            renames,
        ).attributes[q].name,
    ensures
        renaming(renames, operand) is Err,
        renaming(renames, operand)->Err_0 is IncompatibleTypes,
{
    let renamed = apply_renames(operand.attributes, renames);
    crate::eval::semantics::lemma_apply_renames(operand.attributes, renames);
    lemma_clash_found(renamed.attributes, p, q, 0);
    lemma_first_clash_found(renamed, p, 0);
}

proof fn lemma_clash_found(attributes: Seq<AttributeView>, p: int, q: int, from: int)
    requires
        0 <= from <= q < attributes.len(),
        p != q,
        attributes[p].name == attributes[q].name,
    ensures
        clash_with(attributes, p, from) is Some,
    decreases q - from,
{
    if from < q && !(from != p && attributes[from].name == attributes[p].name) {
        lemma_clash_found(attributes, p, q, from + 1);
    }
}

proof fn lemma_first_clash_found(renamed: crate::eval::semantics::Renaming, p: int, from: int)
    requires
        0 <= from <= p < renamed.attributes.len(),
        renamed.touched[p],
        clash_with(renamed.attributes, p, 0) is Some,
    ensures
        first_clash(renamed, from) is Some,
        first_clash(renamed, from)->Some_0 is IncompatibleTypes,
    decreases p - from,
{
    if from < p && !(renamed.touched[from] && clash_with(renamed.attributes, from, 0) is Some) {
        lemma_first_clash_found(renamed, p, from + 1);
    }
}

/// Of two values that the natural order compares, the negated operator holds
/// exactly where the operator does not; and a pattern match that is defined
/// holds exactly where the negated match does not.
pub proof fn law_negated_operator(op: ComparisonOperator, lhs: ValueView, rhs: ValueView)
    requires
        comparison_value(op, lhs, rhs) is Ok,
        op == ComparisonOperator::StringMatch || op == ComparisonOperator::StringNotMatch
            || value_rank(lhs, rhs) is Some,
    ensures
        comparison_value(negated_operator(op), lhs, rhs) == Ok::<bool, ErrorView>(
            !comparison_value(op, lhs, rhs)->Ok_0,
        ),
{
}

/// A relation without its tuples.
pub open spec fn emptied(relation: RelationView) -> RelationView {
    RelationView { name: relation.name, attributes: relation.attributes, rows: Seq::empty() }
}

/// The schema of a relation.
pub open spec fn schema_of(relation: RelationView) -> RelationSchemaView {
    RelationSchemaView { name: relation.name, attributes: relation.attributes }
}

/// The relations without their tuples.
pub open spec fn all_emptied(relations: Seq<RelationView>) -> Seq<RelationView> {
    relations.map_values(|r: RelationView| emptied(r))
}

proof fn lemma_lookup_emptied(relations: Seq<RelationView>, name: Seq<char>, until: int)
    requires
        0 <= until <= relations.len(),
    ensures
        lookup(all_emptied(relations), name, until) == lookup(relations, name, until),
        lookup(relations, name, until) is Some ==> 0 <= lookup(relations, name, until)->Some_0
            < until,
    decreases until,
{
    if until > 0 {
        lemma_lookup_emptied(relations, name, until - 1);
    }
}

proof fn lemma_set_operation_emptied(op: SetOperator, lhs: RelationView, rhs: RelationView)
    requires
        set_operation(op, lhs, rhs) is Ok,
    ensures
        set_operation(op, emptied(lhs), emptied(rhs)) == Ok::<RelationView, ErrorView>(
            emptied(set_operation(op, lhs, rhs)->Ok_0),
        ),
{
    let none = Seq::<Row>::empty();
    assert(product_rows(none, none) =~= none);
    assert(none + filter_rows(none, membership(none, false)) =~= none);
    assert(filter_rows(none, membership(none, false)) + filter_rows(
        none,
        membership(none, false),
    ) =~= none);
}

proof fn lemma_project_columns_emptied(columns: Seq<Column>, operand: RelationView)
    ensures
        project_columns(columns, emptied(operand)) == emptied(project_columns(columns, operand)),
{
    assert(projected_rows(columns, Seq::<Row>::empty()) =~= Seq::<Row>::empty());
}

proof fn lemma_natural_join_emptied(lhs: RelationView, rhs: RelationView)
    requires
        natural_join(lhs, rhs) is Ok,
    ensures
        natural_join(emptied(lhs), emptied(rhs)) == Ok::<RelationView, ErrorView>(
            emptied(natural_join(lhs, rhs)->Ok_0),
        ),
{
    let keys = join_keys(lhs.attributes, rhs.attributes);
    let offset = lhs.attributes.len() as int;
    let none = Seq::<Row>::empty();
    let all = product(lhs, rhs);
    assert(product_rows(none, none) =~= none);
    let matching = RelationView {
        name: all.name,
        attributes: all.attributes,
        rows: filter_rows(all.rows, agreement(keys, offset)),
    };
    lemma_project_columns_emptied(join_columns(keys, offset), matching);
}

proof fn lemma_selection_emptied(criteria: Term, operand: RelationView)
    requires
        selection(criteria, operand) is Ok,
    ensures
        selection(criteria, emptied(operand)) == Ok::<RelationView, ErrorView>(
            emptied(selection(criteria, operand)->Ok_0),
        ),
{
}

proof fn lemma_projection_emptied(list: Seq<ProjectedAttribute>, operand: RelationView)
    requires
        projection(list, operand) is Ok,
    ensures
        projection(list, emptied(operand)) == Ok::<RelationView, ErrorView>(
            emptied(projection(list, operand)->Ok_0),
        ),
{
    lemma_project_columns_emptied(resolve_columns(operand.attributes, list)->Ok_0, operand);
}

proof fn lemma_grouping_emptied(list: Seq<Attribute>, operand: RelationView)
    requires
        grouping(list, operand) is Ok,
    ensures
        grouping(list, emptied(operand)) == Ok::<RelationView, ErrorView>(
            emptied(grouping(list, operand)->Ok_0),
        ),
{
    lemma_project_columns_emptied(
        source_columns(crate::eval::semantics::resolve_all(operand.attributes, list)->Ok_0),
        operand,
    );
}

proof fn lemma_ordering_emptied(list: Seq<Attribute>, operand: RelationView)
    requires
        ordering(list, operand) is Ok,
    ensures
        ordering(list, emptied(operand)) == Ok::<RelationView, ErrorView>(
            emptied(ordering(list, operand)->Ok_0),
        ),
{
}

proof fn lemma_renaming_emptied(renames: Seq<(Attribute, Name)>, operand: RelationView)
    requires
        renaming(renames, operand) is Ok,
    ensures
        renaming(renames, emptied(operand)) == Ok::<RelationView, ErrorView>(
            emptied(renaming(renames, operand)->Ok_0),
        ),
{
}

proof fn lemma_theta_join_emptied(lhs: RelationView, criteria: Term, rhs: RelationView)
    requires
        theta_join(lhs, criteria, rhs) is Ok,
    ensures
        theta_join(emptied(lhs), criteria, emptied(rhs)) == Ok::<RelationView, ErrorView>(
            emptied(theta_join(lhs, criteria, rhs)->Ok_0),
        ),
{
    let none = Seq::<Row>::empty();
    assert(product_rows(none, none) =~= none);
    assert(product(emptied(lhs), emptied(rhs)) == emptied(product(lhs, rhs)));
    lemma_selection_emptied(criteria, product(lhs, rhs));
}

/// Whether evaluating an operand where no relation has a tuple gives what
/// evaluating it gives, without its tuples.
pub open spec fn shape_kept(op: RelationalOp, relations: Seq<RelationView>) -> bool {
    evaluation(op, all_emptied(relations)) == Ok::<RelationView, ErrorView>(
        emptied(evaluation(op, relations)->Ok_0),
    )
}

proof fn lemma_case_relation(n: Name, relations: Seq<RelationView>)
    requires
        evaluation(RelationalOp::Relation(n), relations) is Ok,
    ensures
        shape_kept(RelationalOp::Relation(n), relations),
{
    lemma_lookup_emptied(relations, n@, relations.len() as int);
    let i = lookup(relations, n@, relations.len() as int)->Some_0;
    assert(all_emptied(relations)[i] == emptied(relations[i]));
}

proof fn lemma_case_set_operation(s: crate::ast::SetOperation, relations: Seq<RelationView>)
    requires
        evaluation(RelationalOp::SetOperation(s), relations) is Ok,
        shape_kept(*s.lhs, relations),
        shape_kept(*s.rhs, relations),
    ensures
        shape_kept(RelationalOp::SetOperation(s), relations),
{
    let lhs = evaluation(*s.lhs, relations)->Ok_0;
    let rhs = evaluation(*s.rhs, relations)->Ok_0;
    lemma_set_operation_emptied(s.op, lhs, rhs);
}

proof fn lemma_case_selection(s: crate::ast::Selection, relations: Seq<RelationView>)
    requires
        evaluation(RelationalOp::Selection(s), relations) is Ok,
        shape_kept(*s.rhs, relations),
    ensures
        shape_kept(RelationalOp::Selection(s), relations),
{
    lemma_selection_emptied(s.criteria, evaluation(*s.rhs, relations)->Ok_0);
}

proof fn lemma_case_projection(s: crate::ast::Projection, relations: Seq<RelationView>)
    requires
        evaluation(RelationalOp::Projection(s), relations) is Ok,
        shape_kept(*s.rhs, relations),
    ensures
        shape_kept(RelationalOp::Projection(s), relations),
{
    lemma_projection_emptied(s.attributes@, evaluation(*s.rhs, relations)->Ok_0);
}

proof fn lemma_case_rename(s: crate::ast::Rename, relations: Seq<RelationView>)
    requires
        evaluation(RelationalOp::Rename(s), relations) is Ok,
        shape_kept(*s.rhs, relations),
    ensures
        shape_kept(RelationalOp::Rename(s), relations),
{
    lemma_renaming_emptied(s.renames@, evaluation(*s.rhs, relations)->Ok_0);
}

proof fn lemma_case_order(s: crate::ast::Order, relations: Seq<RelationView>)
    requires
        evaluation(RelationalOp::Order(s), relations) is Ok,
        shape_kept(*s.rhs, relations),
    ensures
        shape_kept(RelationalOp::Order(s), relations),
{
    lemma_ordering_emptied(s.attributes@, evaluation(*s.rhs, relations)->Ok_0);
}

proof fn lemma_case_group(s: crate::ast::Group, relations: Seq<RelationView>)
    requires
        evaluation(RelationalOp::Group(s), relations) is Ok,
        shape_kept(*s.rhs, relations),
    ensures
        shape_kept(RelationalOp::Group(s), relations),
{
    lemma_grouping_emptied(s.attributes@, evaluation(*s.rhs, relations)->Ok_0);
}

proof fn lemma_case_natural_join(s: crate::ast::NaturalJoin, relations: Seq<RelationView>)
    requires
        evaluation(RelationalOp::Join(Join::Natural(s)), relations) is Ok,
        shape_kept(*s.lhs, relations),
        shape_kept(*s.rhs, relations),
    ensures
        shape_kept(RelationalOp::Join(Join::Natural(s)), relations),
{
    lemma_natural_join_emptied(
        evaluation(*s.lhs, relations)->Ok_0,
        evaluation(*s.rhs, relations)->Ok_0,
    );
}

proof fn lemma_case_theta_join(s: crate::ast::ThetaJoin, relations: Seq<RelationView>)
    requires
        evaluation(RelationalOp::Join(Join::Theta(s)), relations) is Ok,
        shape_kept(*s.lhs, relations),
        shape_kept(*s.rhs, relations),
    ensures
        shape_kept(RelationalOp::Join(Join::Theta(s)), relations),
{
    lemma_theta_join_emptied(
        evaluation(*s.lhs, relations)->Ok_0,
        s.criteria,
        evaluation(*s.rhs, relations)->Ok_0,
    );
}

/// An evaluation that succeeds succeeds as well where no relation has a
/// tuple, and gives there the same relation without its tuples: the schema of
/// a result does not depend on the tuples.
pub proof fn law_schema_independent_of_tuples(op: RelationalOp, relations: Seq<RelationView>)
    requires
        evaluation(op, relations) is Ok,
    ensures
        shape_kept(op, relations),
    decreases op,
{
    match op {
        RelationalOp::Relation(n) => {
            lemma_case_relation(n, relations);
        },
        RelationalOp::SetOperation(s) => {
            law_schema_independent_of_tuples(*s.lhs, relations);
            law_schema_independent_of_tuples(*s.rhs, relations);
            lemma_case_set_operation(s, relations);
        },
        RelationalOp::Selection(s) => {
            law_schema_independent_of_tuples(*s.rhs, relations);
            lemma_case_selection(s, relations);
        },
        RelationalOp::Projection(s) => {
            law_schema_independent_of_tuples(*s.rhs, relations);
            lemma_case_projection(s, relations);
        },
        RelationalOp::Rename(s) => {
            law_schema_independent_of_tuples(*s.rhs, relations);
            lemma_case_rename(s, relations);
        },
        RelationalOp::Order(s) => {
            law_schema_independent_of_tuples(*s.rhs, relations);
            lemma_case_order(s, relations);
        },
        RelationalOp::Group(s) => {
            law_schema_independent_of_tuples(*s.rhs, relations);
            lemma_case_group(s, relations);
        },
        RelationalOp::Join(Join::Natural(s)) => {
            law_schema_independent_of_tuples(*s.lhs, relations);
            law_schema_independent_of_tuples(*s.rhs, relations);
            lemma_case_natural_join(s, relations);
        },
        RelationalOp::Join(Join::Theta(s)) => {
            law_schema_independent_of_tuples(*s.lhs, relations);
            law_schema_independent_of_tuples(*s.rhs, relations);
            lemma_case_theta_join(s, relations);
        },
    }
}

/// The analysis of an operation against the schemas of relations gives the
/// schema of the relation that the operation evaluates to, wherever the
/// evaluation succeeds.
pub proof fn law_analysis_predicts_schema(op: RelationalOp, relations: Seq<RelationView>)
    requires
        evaluation(op, relations) is Ok,
    ensures
        analysis(op, relations.map_values(|r: RelationView| schema_of(r))) == Ok::<
            RelationSchemaView,
            ErrorView,
        >(schema_of(evaluation(op, relations)->Ok_0)),
{
    law_schema_independent_of_tuples(op, relations);
    assert(shape_kept(op, relations));
    assert(relations.map_values(|r: RelationView| schema_of(r)).map_values(
        |s: RelationSchemaView| empty_relation(s),
    ) =~= all_emptied(relations));
}

/// A projection of a well-formed relation that succeeds is well formed.
pub proof fn lemma_projection_well_formed(list: Seq<ProjectedAttribute>, operand: RelationView)
    requires
        operand.wf(),
        projection(list, operand) is Ok,
    ensures
        projection(list, operand)->Ok_0.wf(),
{
    lemma_columns_valid(operand.attributes, list);
    lemma_project_columns(resolve_columns(operand.attributes, list)->Ok_0, operand);
}

/// A grouping of a well-formed relation that succeeds is well formed.
pub proof fn lemma_grouping_well_formed(list: Seq<Attribute>, operand: RelationView)
    requires
        operand.wf(),
        grouping(list, operand) is Ok,
    ensures
        grouping(list, operand)->Ok_0.wf(),
{
    let positions = resolve_all(operand.attributes, list)->Ok_0;
    let columns = source_columns(positions);
    lemma_first_unresolved(operand.attributes, list, 0);
    assert forall|i: int| 0 <= i < columns.len() && (#[trigger] columns[i]) is Source implies 0
        <= columns[i]->Source_0 < operand.attributes.len() by {
        assert(resolve(operand.attributes, list[i]) is Ok);
        lemma_resolved(operand.attributes, list[i]);
    }
    lemma_project_columns(columns, operand);
}

/// A natural join of well-formed relations that succeeds is well formed.
pub proof fn lemma_natural_join_well_formed(lhs: RelationView, rhs: RelationView)
    requires
        lhs.wf(),
        rhs.wf(),
        natural_join(lhs, rhs) is Ok,
    ensures
        natural_join(lhs, rhs)->Ok_0.wf(),
{
    let keys = join_keys(lhs.attributes, rhs.attributes);
    let offset = lhs.attributes.len() as int;
    let all = product(lhs, rhs);
    lemma_product(lhs, rhs);
    let kept = filter_rows(all.rows, agreement(keys, offset));
    lemma_filter_rows(all.rows, agreement(keys, offset));
    let matching = RelationView { name: all.name, attributes: all.attributes, rows: kept };
    assert forall|i: int| 0 <= i < kept.len() implies row_conforms(
        all.attributes,
        #[trigger] kept[i],
    ) by {
        assert(kept.contains(kept[i]));
        let k = choose|k: int| 0 <= k < all.rows.len() && all.rows[k] == kept[i];
        assert(row_conforms(all.attributes, all.rows[k]));
    }
    let columns = join_columns(keys, offset);
    lemma_unshared(keys, 0);
    assert forall|i: int| 0 <= i < columns.len() && (#[trigger] columns[i]) is Source implies 0
        <= columns[i]->Source_0 < all.attributes.len() by {
        if i >= offset {
            assert(columns[i] == Column::Source(offset + unshared(keys, 0)[i - offset]));
        }
    }
    lemma_project_columns(columns, matching);
}

/// Whether evaluating an operation gives a well-formed relation.
pub open spec fn result_well_formed(op: RelationalOp, relations: Seq<RelationView>) -> bool {
    evaluation(op, relations)->Ok_0.wf()
}

proof fn lemma_wf_set_operation(s: crate::ast::SetOperation, relations: Seq<RelationView>)
    requires
        evaluation(RelationalOp::SetOperation(s), relations) is Ok,
        result_well_formed(*s.lhs, relations),
        result_well_formed(*s.rhs, relations),
    ensures
        result_well_formed(RelationalOp::SetOperation(s), relations),
{
    let lhs = evaluation(*s.lhs, relations)->Ok_0;
    let rhs = evaluation(*s.rhs, relations)->Ok_0;
    if s.op == SetOperator::CartesianProduct {
        lemma_product(lhs, rhs);
    } else {
        lemma_set_operation(s.op, lhs, rhs);
    }
}

proof fn lemma_wf_selection(s: crate::ast::Selection, relations: Seq<RelationView>)
    requires
        evaluation(RelationalOp::Selection(s), relations) is Ok,
        result_well_formed(*s.rhs, relations),
    ensures
        result_well_formed(RelationalOp::Selection(s), relations),
{
    lemma_selection(s.criteria, evaluation(*s.rhs, relations)->Ok_0);
}

proof fn lemma_wf_projection(s: crate::ast::Projection, relations: Seq<RelationView>)
    requires
        evaluation(RelationalOp::Projection(s), relations) is Ok,
        result_well_formed(*s.rhs, relations),
    ensures
        result_well_formed(RelationalOp::Projection(s), relations),
{
    lemma_projection_well_formed(s.attributes@, evaluation(*s.rhs, relations)->Ok_0);
}

proof fn lemma_wf_rename(s: crate::ast::Rename, relations: Seq<RelationView>)
    requires
        evaluation(RelationalOp::Rename(s), relations) is Ok,
        result_well_formed(*s.rhs, relations),
    ensures
        result_well_formed(RelationalOp::Rename(s), relations),
{
    lemma_renaming(s.renames@, evaluation(*s.rhs, relations)->Ok_0);
}

proof fn lemma_wf_order(s: crate::ast::Order, relations: Seq<RelationView>)
    requires
        evaluation(RelationalOp::Order(s), relations) is Ok,
        result_well_formed(*s.rhs, relations),
    ensures
        result_well_formed(RelationalOp::Order(s), relations),
{
    lemma_ordering(s.attributes@, evaluation(*s.rhs, relations)->Ok_0);
}

proof fn lemma_wf_group(s: crate::ast::Group, relations: Seq<RelationView>)
    requires
        evaluation(RelationalOp::Group(s), relations) is Ok,
        result_well_formed(*s.rhs, relations),
    ensures
        result_well_formed(RelationalOp::Group(s), relations),
{
    lemma_grouping_well_formed(s.attributes@, evaluation(*s.rhs, relations)->Ok_0);
}

proof fn lemma_wf_natural_join(s: crate::ast::NaturalJoin, relations: Seq<RelationView>)
    requires
        evaluation(RelationalOp::Join(Join::Natural(s)), relations) is Ok,
        result_well_formed(*s.lhs, relations),
        result_well_formed(*s.rhs, relations),
    ensures
        result_well_formed(RelationalOp::Join(Join::Natural(s)), relations),
{
    lemma_natural_join_well_formed(
        evaluation(*s.lhs, relations)->Ok_0,
        evaluation(*s.rhs, relations)->Ok_0,
    );
}

proof fn lemma_wf_theta_join(s: crate::ast::ThetaJoin, relations: Seq<RelationView>)
    requires
        evaluation(RelationalOp::Join(Join::Theta(s)), relations) is Ok,
        result_well_formed(*s.lhs, relations),
        result_well_formed(*s.rhs, relations),
    ensures
        result_well_formed(RelationalOp::Join(Join::Theta(s)), relations),
{
    let lhs = evaluation(*s.lhs, relations)->Ok_0;
    let rhs = evaluation(*s.rhs, relations)->Ok_0;
    lemma_product(lhs, rhs);
    lemma_selection(s.criteria, product(lhs, rhs));
}

proof fn lemma_wf_relation(n: Name, relations: Seq<RelationView>)
    requires
        evaluation(RelationalOp::Relation(n), relations) is Ok,
        forall|i: int| 0 <= i < relations.len() ==> (#[trigger] relations[i]).wf(),
    ensures
        result_well_formed(RelationalOp::Relation(n), relations),
{
    lemma_lookup_emptied(relations, n@, relations.len() as int);
}

/// The evaluation of an operation on well-formed relations, where it
/// succeeds, gives a well-formed relation: one whose tuples conform to its
/// schema and in which no tuple occurs twice.
pub proof fn law_evaluation_well_formed(op: RelationalOp, relations: Seq<RelationView>)
    requires
        forall|i: int| 0 <= i < relations.len() ==> (#[trigger] relations[i]).wf(),
        evaluation(op, relations) is Ok,
    ensures
        result_well_formed(op, relations),
    decreases op,
{
    match op {
        RelationalOp::Relation(n) => {
            lemma_wf_relation(n, relations);
        },
        RelationalOp::SetOperation(s) => {
            law_evaluation_well_formed(*s.lhs, relations);
            law_evaluation_well_formed(*s.rhs, relations);
            lemma_wf_set_operation(s, relations);
        },
        RelationalOp::Selection(s) => {
            law_evaluation_well_formed(*s.rhs, relations);
            lemma_wf_selection(s, relations);
        },
        RelationalOp::Projection(s) => {
            law_evaluation_well_formed(*s.rhs, relations);
            lemma_wf_projection(s, relations);
        },
        RelationalOp::Rename(s) => {
            law_evaluation_well_formed(*s.rhs, relations);
            lemma_wf_rename(s, relations);
        },
        RelationalOp::Order(s) => {
            law_evaluation_well_formed(*s.rhs, relations);
            lemma_wf_order(s, relations);
        },
        RelationalOp::Group(s) => {
            law_evaluation_well_formed(*s.rhs, relations);
            lemma_wf_group(s, relations);
        },
        RelationalOp::Join(Join::Natural(s)) => {
            law_evaluation_well_formed(*s.lhs, relations);
            law_evaluation_well_formed(*s.rhs, relations);
            lemma_wf_natural_join(s, relations);
        },
        RelationalOp::Join(Join::Theta(s)) => {
            law_evaluation_well_formed(*s.lhs, relations);
            law_evaluation_well_formed(*s.rhs, relations);
            lemma_wf_theta_join(s, relations);
        },
    }
}

/// The order by keys is transitive.
pub proof fn lemma_key_rank_transitive(keys: Seq<int>, a: Row, b: Row, c: Row, from: int)
    requires
        0 <= from,
        key_rank(keys, a, b, from) is Some,
        key_rank(keys, b, c, from) is Some,
        key_rank(keys, a, b, from)->Some_0.at_most(),
        key_rank(keys, b, c, from)->Some_0.at_most(),
    ensures
        key_rank(keys, a, c, from) == Some(
            key_rank(keys, a, b, from)->Some_0.followed_by(key_rank(keys, b, c, from)->Some_0),
        ),
    decreases keys.len() - from,
{
    if from < keys.len() {
        let k = keys[from];
        lemma_value_rank_transitive(a[k], b[k], c[k]);
        if value_rank(a[k], b[k]) == Some(Rank::Same) && value_rank(b[k], c[k]) == Some(
            Rank::Same,
        ) {
            lemma_key_rank_transitive(keys, a, b, c, from + 1);
        }
    }
}

/// Whether the order by keys compares every two of the rows: no two of them
/// have, at a key that decides, values that cannot be compared.
pub open spec fn rows_comparable(keys: Seq<int>, rows: Seq<Row>) -> bool {
    forall|i: int, j: int|
        0 <= i < rows.len() && 0 <= j < rows.len() ==> (#[trigger] key_rank(
            keys,
            rows[i],
            rows[j],
            0,
        )) is Some
}

/// Rows in order whose every two are compared ascend: each row ranks at most
/// as every row after it.
pub proof fn law_ordered_rows_ascend(keys: Seq<int>, rows: Seq<Row>, i: int, j: int)
    requires
        rows_ordered(keys, rows),
        rows_comparable(keys, rows),
        0 <= i <= j < rows.len(),
    ensures
        key_rank(keys, rows[i], rows[j], 0) is Some,
        key_rank(keys, rows[i], rows[j], 0)->Some_0.at_most(),
    decreases j - i,
{
    if i == j {
        lemma_key_rank_flip(keys, rows[i], rows[i], 0);
    } else {
        law_ordered_rows_ascend(keys, rows, i, j - 1);
        assert(!row_before(keys, rows[j - 1 + 1], rows[j - 1]));
        lemma_key_rank_flip(keys, rows[j], rows[j - 1], 0);
        assert(key_rank(keys, rows[j - 1], rows[j], 0) is Some);
        lemma_key_rank_transitive(keys, rows[i], rows[j - 1], rows[j], 0);
    }
}

proof fn lemma_same_resolve(attributes: Seq<AttributeView>, a: Attribute, b: Attribute)
    requires
        same_attribute(a, b),
    ensures
        resolve(attributes, a) == resolve(attributes, b),
{
}

proof fn lemma_same_resolve_projected(
    attributes: Seq<AttributeView>,
    a: ProjectedAttribute,
    b: ProjectedAttribute,
)
    requires
        same_projected(a, b),
    ensures
        resolve_projected(attributes, a) == resolve_projected(attributes, b),
{
}

/// The same conditions have the same value of every row.
pub proof fn law_same_term_value(a: Term, b: Term, attributes: Seq<AttributeView>, row: Row)
    requires
        same_term(a, b),
    ensures
        term_value(a, attributes, row) == term_value(b, attributes, row),
    decreases a,
{
    match (a, b) {
        (Term::Exists(x), Term::Exists(y)) => {
            lemma_same_resolve(attributes, x, y);
        },
        (Term::Atom(x), Term::Atom(y)) => {
            lemma_same_resolve(attributes, x.lhs, y.lhs);
            lemma_same_resolve_projected(attributes, x.rhs, y.rhs);
        },
        (Term::Negate(x), Term::Negate(y)) => {
            law_same_term_value(*x, *y, attributes, row);
        },
        (Term::And(l, r), Term::And(m, s)) => {
            law_same_term_value(*l, *m, attributes, row);
            law_same_term_value(*r, *s, attributes, row);
        },
        (Term::Or(l, r), Term::Or(m, s)) => {
            law_same_term_value(*l, *m, attributes, row);
            law_same_term_value(*r, *s, attributes, row);
        },
        _ => {},
    }
}

proof fn lemma_filter_alike(rows: Seq<Row>, f: spec_fn(Row) -> bool, g: spec_fn(Row) -> bool)
    requires
        forall|i: int| 0 <= i < rows.len() ==> f(#[trigger] rows[i]) == g(rows[i]),
    ensures
        filter_rows(rows, f) == filter_rows(rows, g),
    decreases rows.len(),
{
    if rows.len() > 0 {
        let front = rows.drop_last();
        assert forall|i: int| 0 <= i < front.len() implies f(#[trigger] front[i]) == g(
            front[i],
        ) by {
            assert(front[i] == rows[i]);
        }
        lemma_filter_alike(front, f, g);
        assert(f(rows[rows.len() - 1]) == g(rows[rows.len() - 1]));
    }
}

proof fn lemma_same_first_failure(
    a: Term,
    b: Term,
    attributes: Seq<AttributeView>,
    rows: Seq<Row>,
    from: int,
)
    requires
        same_term(a, b),
        0 <= from,
    ensures
        first_failure(a, attributes, rows, from) == first_failure(b, attributes, rows, from),
    decreases rows.len() - from,
{
    if from < rows.len() {
        law_same_term_value(a, b, attributes, rows[from]);
        lemma_same_first_failure(a, b, attributes, rows, from + 1);
    }
}

proof fn lemma_same_selection(a: Term, b: Term, operand: RelationView)
    requires
        same_term(a, b),
    ensures
        selection(a, operand) == selection(b, operand),
{
    let attributes = operand.attributes;
    let rows = operand.rows;
    lemma_same_first_failure(a, b, attributes, rows, 0);
    assert forall|i: int| 0 <= i < rows.len() implies truth(a, attributes)(#[trigger] rows[i])
        == truth(b, attributes)(rows[i]) by {
        law_same_term_value(a, b, attributes, rows[i]);
    }
    lemma_filter_alike(rows, truth(a, attributes), truth(b, attributes));
}

proof fn lemma_same_first_unresolved(
    attributes: Seq<AttributeView>,
    a: Seq<Attribute>,
    b: Seq<Attribute>,
    from: int,
)
    requires
        same_attributes(a, b),
        0 <= from,
    ensures
        first_unresolved(attributes, a, from) == first_unresolved(attributes, b, from),
    decreases a.len() - from,
{
    if from < a.len() {
        assert(same_attribute(a[from], b[from]));
        lemma_same_first_unresolved(attributes, a, b, from + 1);
    }
}

proof fn lemma_same_resolve_all(attributes: Seq<AttributeView>, a: Seq<Attribute>, b: Seq<Attribute>)
    requires
        same_attributes(a, b),
    ensures
        resolve_all(attributes, a) == resolve_all(attributes, b),
{
    lemma_same_first_unresolved(attributes, a, b, 0);
    assert forall|i: int| 0 <= i < a.len() implies resolve(attributes, a[i]) == resolve(
        attributes,
        b[i],
    ) by {
        assert(same_attribute(a[i], b[i]));
    }
    assert(a.map_values(|x: Attribute| resolve(attributes, x)->Ok_0) =~= b.map_values(
        |x: Attribute| resolve(attributes, x)->Ok_0,
    ));
}

proof fn lemma_same_first_unresolved_column(
    attributes: Seq<AttributeView>,
    a: Seq<ProjectedAttribute>,
    b: Seq<ProjectedAttribute>,
    from: int,
)
    requires
        same_projected_list(a, b),
        0 <= from,
    ensures
        crate::eval::semantics::first_unresolved_column(attributes, a, from)
            == crate::eval::semantics::first_unresolved_column(attributes, b, from),
    decreases a.len() - from,
{
    if from < a.len() {
        assert(same_projected(a[from], b[from]));
        lemma_same_first_unresolved_column(attributes, a, b, from + 1);
    }
}

proof fn lemma_same_projection(
    a: Seq<ProjectedAttribute>,
    b: Seq<ProjectedAttribute>,
    operand: RelationView,
)
    requires
        same_projected_list(a, b),
    ensures
        projection(a, operand) == projection(b, operand),
{
    let attributes = operand.attributes;
    lemma_same_first_unresolved_column(attributes, a, b, 0);
    assert forall|i: int| 0 <= i < a.len() implies resolve_projected(attributes, a[i])
        == resolve_projected(attributes, b[i]) by {
        assert(same_projected(a[i], b[i]));
    }
    assert(a.map_values(|p: ProjectedAttribute| resolve_projected(attributes, p)->Ok_0)
        =~= b.map_values(|p: ProjectedAttribute| resolve_projected(attributes, p)->Ok_0));
}

proof fn lemma_same_grouping(a: Seq<Attribute>, b: Seq<Attribute>, operand: RelationView)
    requires
        same_attributes(a, b),
    ensures
        grouping(a, operand) == grouping(b, operand),
{
    lemma_same_resolve_all(operand.attributes, a, b);
}

proof fn lemma_same_ordering(a: Seq<Attribute>, b: Seq<Attribute>, operand: RelationView)
    requires
        same_attributes(a, b),
    ensures
        ordering(a, operand) == ordering(b, operand),
{
    lemma_same_resolve_all(operand.attributes, a, b);
}

proof fn lemma_same_apply_renames(
    attributes: Seq<AttributeView>,
    a: Seq<(Attribute, Name)>,
    b: Seq<(Attribute, Name)>,
)
    requires
        same_renames(a, b),
    ensures
        apply_renames(attributes, a) == apply_renames(attributes, b),
    decreases a.len(),
{
    if a.len() > 0 {
        let front_a = a.drop_last();
        let front_b = b.drop_last();
        assert forall|i: int| 0 <= i < front_a.len() implies same_attribute(
            (#[trigger] front_a[i]).0,
            front_b[i].0,
        ) && front_a[i].1@ == front_b[i].1@ by {
            assert(same_attribute(a[i].0, b[i].0));
        }
        lemma_same_apply_renames(attributes, front_a, front_b);
        assert(same_attribute(a[a.len() - 1].0, b[b.len() - 1].0));
    }
}

proof fn lemma_same_renaming(
    a: Seq<(Attribute, Name)>,
    b: Seq<(Attribute, Name)>,
    operand: RelationView,
)
    requires
        same_renames(a, b),
    ensures
        renaming(a, operand) == renaming(b, operand),
{
    let sources_a = rename_sources(a);
    let sources_b = rename_sources(b);
    assert forall|i: int| 0 <= i < sources_a.len() implies same_attribute(
        #[trigger] sources_a[i],
        sources_b[i],
    ) by {
        assert(same_attribute(a[i].0, b[i].0));
    }
    lemma_same_first_unresolved(operand.attributes, sources_a, sources_b, 0);
    lemma_same_apply_renames(operand.attributes, a, b);
}

/// Whether two operations evaluate alike.
pub open spec fn evaluate_alike(a: RelationalOp, b: RelationalOp, relations: Seq<RelationView>) -> bool {
    evaluation(a, relations) == evaluation(b, relations)
}

proof fn lemma_alike_relation(x: Name, y: Name, relations: Seq<RelationView>)
    requires
        x@ == y@,
    ensures
        evaluate_alike(RelationalOp::Relation(x), RelationalOp::Relation(y), relations),
{
}

proof fn lemma_alike_set_operation(
    x: crate::ast::SetOperation,
    y: crate::ast::SetOperation,
    relations: Seq<RelationView>,
)
    requires
        x.op == y.op,
        evaluate_alike(*x.lhs, *y.lhs, relations),
        evaluate_alike(*x.rhs, *y.rhs, relations),
    ensures
        evaluate_alike(RelationalOp::SetOperation(x), RelationalOp::SetOperation(y), relations),
{
}

proof fn lemma_alike_selection(
    x: crate::ast::Selection,
    y: crate::ast::Selection,
    relations: Seq<RelationView>,
)
    requires
        same_term(x.criteria, y.criteria),
        evaluate_alike(*x.rhs, *y.rhs, relations),
    ensures
        evaluate_alike(RelationalOp::Selection(x), RelationalOp::Selection(y), relations),
{
    if evaluation(*x.rhs, relations) is Ok {
        lemma_same_selection(x.criteria, y.criteria, evaluation(*x.rhs, relations)->Ok_0);
    }
}

proof fn lemma_alike_projection(
    x: crate::ast::Projection,
    y: crate::ast::Projection,
    relations: Seq<RelationView>,
)
    requires
        same_projected_list(x.attributes@, y.attributes@),
        evaluate_alike(*x.rhs, *y.rhs, relations),
    ensures
        evaluate_alike(RelationalOp::Projection(x), RelationalOp::Projection(y), relations),
{
    if evaluation(*x.rhs, relations) is Ok {
        lemma_same_projection(x.attributes@, y.attributes@, evaluation(*x.rhs, relations)->Ok_0);
    }
}

proof fn lemma_alike_rename(
    x: crate::ast::Rename,
    y: crate::ast::Rename,
    relations: Seq<RelationView>,
)
    requires
        same_renames(x.renames@, y.renames@),
        evaluate_alike(*x.rhs, *y.rhs, relations),
    ensures
        evaluate_alike(RelationalOp::Rename(x), RelationalOp::Rename(y), relations),
{
    if evaluation(*x.rhs, relations) is Ok {
        lemma_same_renaming(x.renames@, y.renames@, evaluation(*x.rhs, relations)->Ok_0);
    }
}

proof fn lemma_alike_order(x: crate::ast::Order, y: crate::ast::Order, relations: Seq<RelationView>)
    requires
        same_attributes(x.attributes@, y.attributes@),
        evaluate_alike(*x.rhs, *y.rhs, relations),
    ensures
        evaluate_alike(RelationalOp::Order(x), RelationalOp::Order(y), relations),
{
    if evaluation(*x.rhs, relations) is Ok {
        lemma_same_ordering(x.attributes@, y.attributes@, evaluation(*x.rhs, relations)->Ok_0);
    }
}

proof fn lemma_alike_group(x: crate::ast::Group, y: crate::ast::Group, relations: Seq<RelationView>)
    requires
        same_attributes(x.attributes@, y.attributes@),
        evaluate_alike(*x.rhs, *y.rhs, relations),
    ensures
        evaluate_alike(RelationalOp::Group(x), RelationalOp::Group(y), relations),
{
    if evaluation(*x.rhs, relations) is Ok {
        lemma_same_grouping(x.attributes@, y.attributes@, evaluation(*x.rhs, relations)->Ok_0);
    }
}

proof fn lemma_alike_natural_join(
    x: crate::ast::NaturalJoin,
    y: crate::ast::NaturalJoin,
    relations: Seq<RelationView>,
)
    requires
        evaluate_alike(*x.lhs, *y.lhs, relations),
        evaluate_alike(*x.rhs, *y.rhs, relations),
    ensures
        evaluate_alike(
            RelationalOp::Join(Join::Natural(x)),
            RelationalOp::Join(Join::Natural(y)),
            relations,
        ),
{
}

proof fn lemma_alike_theta_join(
    x: crate::ast::ThetaJoin,
    y: crate::ast::ThetaJoin,
    relations: Seq<RelationView>,
)
    requires
        same_term(x.criteria, y.criteria),
        evaluate_alike(*x.lhs, *y.lhs, relations),
        evaluate_alike(*x.rhs, *y.rhs, relations),
    ensures
        evaluate_alike(
            RelationalOp::Join(Join::Theta(x)),
            RelationalOp::Join(Join::Theta(y)),
            relations,
        ),
{
    if evaluation(*x.lhs, relations) is Ok && evaluation(*x.rhs, relations) is Ok {
        lemma_same_selection(
            x.criteria,
            y.criteria,
            product(evaluation(*x.lhs, relations)->Ok_0, evaluation(*x.rhs, relations)->Ok_0),
        );
    }
}

/// The same operations evaluate alike: a copy of an operation denotes, of the
/// same relations, the relation that the operation denotes, and fails where
/// it fails, with the same error.
pub proof fn law_same_operation_evaluation(
    a: RelationalOp,
    b: RelationalOp,
    relations: Seq<RelationView>,
)
    requires
        same_operation(a, b),
    ensures
        evaluate_alike(a, b, relations),
    decreases a,
{
    match (a, b) {
        (RelationalOp::Relation(x), RelationalOp::Relation(y)) => {
            lemma_alike_relation(x, y, relations);
        },
        (RelationalOp::SetOperation(x), RelationalOp::SetOperation(y)) => {
            law_same_operation_evaluation(*x.lhs, *y.lhs, relations);
            law_same_operation_evaluation(*x.rhs, *y.rhs, relations);
            lemma_alike_set_operation(x, y, relations);
        },
        (RelationalOp::Selection(x), RelationalOp::Selection(y)) => {
            law_same_operation_evaluation(*x.rhs, *y.rhs, relations);
            lemma_alike_selection(x, y, relations);
        },
        (RelationalOp::Projection(x), RelationalOp::Projection(y)) => {
            law_same_operation_evaluation(*x.rhs, *y.rhs, relations);
            lemma_alike_projection(x, y, relations);
        },
        (RelationalOp::Rename(x), RelationalOp::Rename(y)) => {
            law_same_operation_evaluation(*x.rhs, *y.rhs, relations);
            lemma_alike_rename(x, y, relations);
        },
        (RelationalOp::Order(x), RelationalOp::Order(y)) => {
            law_same_operation_evaluation(*x.rhs, *y.rhs, relations);
            lemma_alike_order(x, y, relations);
        },
        (RelationalOp::Group(x), RelationalOp::Group(y)) => {
            law_same_operation_evaluation(*x.rhs, *y.rhs, relations);
            lemma_alike_group(x, y, relations);
        },
        (RelationalOp::Join(Join::Natural(x)), RelationalOp::Join(Join::Natural(y))) => {
            law_same_operation_evaluation(*x.lhs, *y.lhs, relations);
            law_same_operation_evaluation(*x.rhs, *y.rhs, relations);
            lemma_alike_natural_join(x, y, relations);
        },
        (RelationalOp::Join(Join::Theta(x)), RelationalOp::Join(Join::Theta(y))) => {
            law_same_operation_evaluation(*x.lhs, *y.lhs, relations);
            law_same_operation_evaluation(*x.rhs, *y.rhs, relations);
            lemma_alike_theta_join(x, y, relations);
        },
        _ => {},
    }
}

} // verus!
