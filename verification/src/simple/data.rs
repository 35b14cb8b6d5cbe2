//! Relations and tuples held in vectors.

use crate::Name;
use crate::data::{
    conformance_error, distinct, first_domain_mismatch, first_nonconforming, lemma_conformance,
    lemma_distinct, Relation, RelationView, row_conforms, Tuple, Value, value_equal, ValueView,
};
use crate::error::{attribute_index_invalid, Error};
use crate::simple::sort::{attribute_views, SimpleAttributeSchema, SimpleRelationSchema};
use crate::sort::AttributeView;
use vstd::prelude::*;
use vstd::std_specs::cmp::PartialEqSpecImpl;

verus! {

/// A tuple: values in the order of the attributes.
#[derive(Debug)]
pub struct SimpleTuple(pub Vec<Value>);

impl View for SimpleTuple {
    type V = Seq<ValueView>;

    open spec fn view(&self) -> Seq<ValueView> {
        self.0@.map_values(|v: Value| v@)
    }
}

/// The views of a sequence of tuples.
pub open spec fn rows_of(tuples: Seq<SimpleTuple>) -> Seq<Seq<ValueView>> {
    tuples.map_values(|t: SimpleTuple| t@)
}

impl SimpleTuple {
    /// The tuple of `values`.
    pub fn new(values: Vec<Value>) -> (r: Self)
        ensures
            r.0 == values,
    {
        SimpleTuple(values)
    }

    /// The number of values.
    pub fn len(&self) -> (r: usize)
        ensures
            r == self@.len(),
    {
        self.0.len()
    }

    /// Whether the tuple has no value.
    pub fn is_empty(&self) -> (r: bool)
        ensures
            r == (self@.len() == 0),
    {
        self.0.len() == 0
    }

    /// The value at `index`.
    pub fn value(&self, index: usize) -> (r: Option<&Value>)
        ensures
            r is Some == (index < self@.len()),
            r is Some ==> r->Some_0@ == self@[index as int],
    {
        if index < self.0.len() {
            Some(&self.0[index])
        } else {
            None
        }
    }

    /// The values, one at a time.
    pub fn iter(&self) -> (r: Values<'_>)
        ensures
            r.remaining() == self@,
    {
        Values::new(&self.0)
    }

    /// The values, in order.
    pub fn values(&self) -> (r: &Vec<Value>)
        ensures
            *r == self.0,
    {
        &self.0
    }

    /// Whether two tuples are the same tuple: as long, and value by value
    /// identical.
    pub fn same(&self, other: &SimpleTuple) -> (r: bool)
        ensures
            r == (self@ == other@),
    {
        if self.0.len() != other.0.len() {
            assert(self@.len() != other@.len());
            return false;
        }
        let mut i: usize = 0;
        while i < self.0.len()
            invariant
                i <= self.0.len(),
                self.0.len() == other.0.len(),
                forall|k: int| 0 <= k < i ==> self@[k] == other@[k],
            decreases self.0.len() - i,
        {
            if !self.0[i].same(&other.0[i]) {
                assert(self@[i as int] != other@[i as int]);
                return false;
            }
            i += 1;
        }
        assert(self@ =~= other@);
        true
    }

    /// A copy of the tuple.
    pub fn duplicate(&self) -> (r: Self)
        ensures
            r@ == self@,
    {
        let mut values: Vec<Value> = Vec::new();
        let mut i: usize = 0;
        while i < self.0.len()
            invariant
                i <= self.0.len(),
                values@.len() == i,
                forall|k: int| 0 <= k < i ==> (#[trigger] values@[k])@ == self@[k],
            decreases self.0.len() - i,
        {
            values.push(self.0[i].clone());
            i += 1;
        }
        let r = SimpleTuple(values);
        assert(r@ =~= self@);
        r
    }
}

impl PartialEq for SimpleTuple {
    fn eq(&self, other: &Self) -> (r: bool) {
        if self.0.len() != other.0.len() {
            assert(self@.len() != other@.len());
            return false;
        }
        let mut i: usize = 0;
        while i < self.0.len()
            invariant
                i <= self.0.len(),
                self.0.len() == other.0.len(),
                forall|k: int| 0 <= k < i ==> value_equal(self@[k], other@[k]),
            decreases self.0.len() - i,
        {
            if !(self.0[i] == other.0[i]) {
                assert(!value_equal(self@[i as int], other@[i as int]));
                return false;
            }
            i += 1;
        }
        true
    }
}

impl PartialEqSpecImpl for SimpleTuple {
    open spec fn obeys_eq_spec() -> bool {
        true
    }

    open spec fn eq_spec(&self, other: &Self) -> bool {
        self@.len() == other@.len() && forall|k: int|
            0 <= k < self@.len() ==> value_equal(self@[k], other@[k])
    }
}

impl Clone for SimpleTuple {
    fn clone(&self) -> (r: Self)
        ensures
            r@ == self@,
    {
        self.duplicate()
    }
}

/// Whether `tuple` is among `tuples`.
pub fn contains_tuple(tuples: &Vec<SimpleTuple>, tuple: &SimpleTuple) -> (r: bool)
    ensures
        r == rows_of(tuples@).contains(tuple@),
{
    let mut i: usize = 0;
    while i < tuples.len()
        invariant
            i <= tuples.len(),
            forall|k: int| 0 <= k < i ==> rows_of(tuples@)[k] != tuple@,
        decreases tuples.len() - i,
    {
        if tuples[i].same(tuple) {
            assert(rows_of(tuples@)[i as int] == tuple@);
            return true;
        }
        i += 1;
    }
    false
}

/// Checks a tuple against the attributes.
pub fn check_tuple(attributes: &Vec<SimpleAttributeSchema>, tuple: &SimpleTuple) -> (r: Result<
    (),
    Error,
>)
    ensures
        match r {
            Ok(_) => conformance_error(attribute_views(attributes@), tuple@) is None
                && row_conforms(attribute_views(attributes@), tuple@),
            Err(e) => conformance_error(attribute_views(attributes@), tuple@) == Some(e@),
        },
{
    let ghost views = attribute_views(attributes@);
    proof {
        lemma_conformance(views, tuple@);
    }
    if tuple.0.len() < attributes.len() {
        return Err(attribute_index_invalid(tuple.0.len()));
    }
    if tuple.0.len() > attributes.len() {
        return Err(attribute_index_invalid(attributes.len()));
    }
    let mut i: usize = 0;
    while i < tuple.0.len()
        invariant
            i <= tuple.0.len(),
            tuple.0.len() == attributes.len(),
            views == attribute_views(attributes@),
            first_domain_mismatch(views, tuple@, 0) == first_domain_mismatch(views, tuple@, i as int),
        decreases tuple.0.len() - i,
    {
        if tuple.0[i].data_type() != attributes[i].data_type {
            return Err(
                Error::InvalidValue {
                    expecting_domain: attributes[i].data_type,
                    given_value: tuple.0[i].clone(),
                },
            );
        }
        i += 1;
    }
    Ok(())
}

/// A relation: a schema and the tuples that conform to it, none twice.
#[derive(Debug)]
pub struct SimpleRelation {
    schema: SimpleRelationSchema,
    tuples: Vec<SimpleTuple>,
}

impl View for SimpleRelation {
    type V = RelationView;

    closed spec fn view(&self) -> RelationView {
        RelationView {
            name: self.schema@.name,
            attributes: self.schema@.attributes,
            rows: rows_of(self.tuples@),
        }
    }
}

impl SimpleRelation {
    #[verifier::type_invariant]
    spec fn well_formed(&self) -> bool {
        self@.wf()
    }

    /// The relation of `tuples` under `schema`. Every tuple must conform to
    /// the schema; the first that does not is reported. Of equal tuples one
    /// is kept.
    pub fn new(schema: SimpleRelationSchema, tuples: Vec<SimpleTuple>) -> (r: Result<Self, Error>)
        ensures
            match r {
                Ok(relation) => first_nonconforming(schema@.attributes, rows_of(tuples@), 0) is None
                    && relation@ == (RelationView {
                    name: schema@.name,
                    attributes: schema@.attributes,
                    rows: distinct(rows_of(tuples@)),
                }) && relation@.wf(),
                Err(e) => first_nonconforming(schema@.attributes, rows_of(tuples@), 0) == Some(e@),
            },
    {
        let ghost rows = rows_of(tuples@);
        let ghost attributes = schema@.attributes;
        let mut kept: Vec<SimpleTuple> = Vec::new();
        let mut i: usize = 0;
        assert(rows.take(0) =~= Seq::<Seq<ValueView>>::empty());
        while i < tuples.len()
            invariant
                i <= tuples.len(),
                rows == rows_of(tuples@),
                attributes == schema@.attributes,
                first_nonconforming(attributes, rows, 0) == first_nonconforming(
                    attributes,
                    rows,
                    i as int,
                ),
                rows_of(kept@) == distinct(rows.take(i as int)),
                forall|k: int| 0 <= k < i ==> row_conforms(attributes, #[trigger] rows[k]),
            decreases tuples.len() - i,
        {
            match check_tuple(&schema.attributes, &tuples[i]) {
                Err(e) => {
                    return Err(e);
                },
                Ok(_) => {},
            }
            proof {
                let next = rows.take(i + 1);
                assert(next.drop_last() =~= rows.take(i as int));
                assert(next.last() == rows[i as int]);
            }
            if !contains_tuple(&kept, &tuples[i]) {
                kept.push(tuples[i].duplicate());
                assert(rows_of(kept@) =~= distinct(rows.take(i + 1)));
            }
            i += 1;
        }
        assert(rows.take(i as int) =~= rows);
        proof {
            lemma_distinct(rows);
            assert forall|k: int| 0 <= k < distinct(rows).len() implies row_conforms(
                attributes,
                #[trigger] distinct(rows)[k],
            ) by {
                assert(distinct(rows).contains(distinct(rows)[k]));
                assert(rows.contains(distinct(rows)[k]));
            }
        }
        Ok(SimpleRelation { schema, tuples: kept })
    }

    /// The relation of `tuples` under `schema`, which conform to it and are
    /// all different.
    pub(crate) fn from_parts(schema: SimpleRelationSchema, tuples: Vec<SimpleTuple>) -> (r: Self)
        requires
            (RelationView {
                name: schema@.name,
                attributes: schema@.attributes,
                rows: rows_of(tuples@),
            }).wf(),
        ensures
            r@ == (RelationView {
                name: schema@.name,
                attributes: schema@.attributes,
                rows: rows_of(tuples@),
            }),
    {
        SimpleRelation { schema, tuples }
    }

    /// A copy of the relation.
    pub fn duplicate(&self) -> (r: Self)
        ensures
            r@ == self@,
            r@.wf(),
    {
        proof {
            use_type_invariant(self);
        }
        let mut tuples: Vec<SimpleTuple> = Vec::new();
        let mut i: usize = 0;
        while i < self.tuples.len()
            invariant
                i <= self.tuples.len(),
                tuples@.len() == i,
                forall|k: int| 0 <= k < i ==> (#[trigger] tuples@[k])@ == self.tuples@[k]@,
            decreases self.tuples.len() - i,
        {
            tuples.push(self.tuples[i].duplicate());
            i += 1;
        }
        assert(rows_of(tuples@) =~= rows_of(self.tuples@));
        SimpleRelation { schema: self.schema.duplicate(), tuples }
    }

    /// The relation under another name.
    pub fn named(self, name: Name) -> (r: Self)
        ensures
            r@ == (RelationView { name: name@, attributes: self@.attributes, rows: self@.rows }),
            r@.wf(),
    {
        proof {
            use_type_invariant(&self);
        }
        let SimpleRelation { schema, tuples } = self;
        SimpleRelation {
            schema: SimpleRelationSchema { name, attributes: schema.attributes },
            tuples,
        }
    }

    /// The relation of `schema` that has no tuple.
    pub fn empty(schema: SimpleRelationSchema) -> (r: Self)
        ensures
            r@ == (RelationView {
                name: schema@.name,
                attributes: schema@.attributes,
                rows: Seq::empty(),
            }),
            r@.wf(),
    {
        let tuples: Vec<SimpleTuple> = Vec::new();
        assert(rows_of(tuples@) =~= Seq::<Seq<ValueView>>::empty());
        SimpleRelation { schema, tuples }
    }

    /// The schema of the relation, which is given up for it.
    pub fn into_schema(self) -> (r: SimpleRelationSchema)
        ensures
            r@.name == self@.name,
            r@.attributes == self@.attributes,
    {
        self.schema
    }

    /// The schema of the relation.
    pub fn schema(&self) -> (r: &SimpleRelationSchema)
        ensures
            r@.name == self@.name,
            r@.attributes == self@.attributes,
    {
        &self.schema
    }

    /// The tuples of the relation, each once, in the order in which the
    /// relation holds them.
    pub fn tuples(&self) -> (r: &Vec<SimpleTuple>)
        ensures
            rows_of(r@) == self@.rows,
            self@.wf(),
    {
        proof {
            use_type_invariant(self);
        }
        &self.tuples
    }

    /// The tuples, one at a time.
    pub fn iter(&self) -> (r: Tuples<'_>)
        ensures
            r.remaining() == self@.rows,
    {
        Tuples::new(&self.tuples)
    }

    /// The number of tuples.
    pub fn len(&self) -> (r: usize)
        ensures
            r == self@.rows.len(),
    {
        self.tuples.len()
    }

    /// Whether the relation has no tuple.
    pub fn is_empty(&self) -> (r: bool)
        ensures
            r == (self@.rows.len() == 0),
    {
        self.tuples.len() == 0
    }

    /// Whether `tuple` is in the relation.
    pub fn contains(&self, tuple: &SimpleTuple) -> (r: bool)
        ensures
            r == self@.tuple_set().contains(tuple@),
    {
        contains_tuple(&self.tuples, tuple)
    }
}

/// The views of a sequence of values.
pub open spec fn value_views(values: Seq<Value>) -> Seq<ValueView> {
    values.map_values(|v: Value| v@)
}

/// The values of a tuple, handed out one at a time.
#[derive(Debug)]
pub struct Values<'a> {
    items: &'a Vec<Value>,
    position: usize,
}

impl<'a> Values<'a> {
    #[verifier::type_invariant]
    spec fn within(&self) -> bool {
        self.position <= self.items@.len()
    }

    /// What is still to be handed out, in order.
    pub closed spec fn remaining(&self) -> Seq<ValueView> {
        value_views(self.items@).skip(self.position as int)
    }

    /// Starts at the first of `items`.
    pub fn new(items: &'a Vec<Value>) -> (r: Self)
        ensures
            r.remaining() == value_views(items@),
    {
        assert(value_views(items@).skip(0) =~= value_views(items@));
        Values { items, position: 0 }
    }

    /// Hands out the next one, if one is left.
    pub fn next(&mut self) -> (r: Option<&'a Value>)
        ensures
            match r {
                Some(item) => old(self).remaining().len() > 0 && item@ == old(self).remaining()[0]
                    && final(self).remaining() == old(self).remaining().drop_first(),
                None => old(self).remaining().len() == 0 && final(self).remaining() == old(
                    self,
                ).remaining(),
            },
    {
        proof {
            use_type_invariant(&*self);
        }
        if self.position < self.items.len() {
            let item = &self.items[self.position];
            let ghost before = self.remaining();
            self.position = self.position + 1;
            assert(self.remaining() =~= before.drop_first());
            Some(item)
        } else {
            None
        }
    }
}

/// The tuples of a relation, handed out one at a time.
#[derive(Debug)]
pub struct Tuples<'a> {
    items: &'a Vec<SimpleTuple>,
    position: usize,
}

impl<'a> Tuples<'a> {
    #[verifier::type_invariant]
    spec fn within(&self) -> bool {
        self.position <= self.items@.len()
    }

    /// What is still to be handed out, in order.
    pub closed spec fn remaining(&self) -> Seq<Seq<ValueView>> {
        rows_of(self.items@).skip(self.position as int)
    }

    /// Starts at the first of `items`.
    pub fn new(items: &'a Vec<SimpleTuple>) -> (r: Self)
        ensures
            r.remaining() == rows_of(items@),
    {
        assert(rows_of(items@).skip(0) =~= rows_of(items@));
        Tuples { items, position: 0 }
    }

    /// Hands out the next one, if one is left.
    pub fn next(&mut self) -> (r: Option<&'a SimpleTuple>)
        ensures
            match r {
                Some(item) => old(self).remaining().len() > 0 && item@ == old(self).remaining()[0]
                    && final(self).remaining() == old(self).remaining().drop_first(),
                None => old(self).remaining().len() == 0 && final(self).remaining() == old(
                    self,
                ).remaining(),
            },
    {
        proof {
            use_type_invariant(&*self);
        }
        if self.position < self.items.len() {
            let item = &self.items[self.position];
            let ghost before = self.remaining();
            self.position = self.position + 1;
            assert(self.remaining() =~= before.drop_first());
            Some(item)
        } else {
            None
        }
    }
}

impl Tuple for SimpleTuple {
    fn len(&self) -> (r: usize) {
        SimpleTuple::len(self)
    }

    fn is_empty(&self) -> (r: bool) {
        SimpleTuple::is_empty(self)
    }

    fn value(&self, index: usize) -> (r: Option<&Value>) {
        SimpleTuple::value(self, index)
    }

    fn values(&self) -> (r: &Vec<Value>) {
        SimpleTuple::values(self)
    }
}

impl Relation for SimpleRelation {
    type Schema = SimpleRelationSchema;

    type Item = SimpleTuple;

    fn schema(&self) -> (r: &SimpleRelationSchema) {
        SimpleRelation::schema(self)
    }

    fn tuples(&self) -> (r: &Vec<SimpleTuple>) {
        SimpleRelation::tuples(self)
    }
}

} // verus!
