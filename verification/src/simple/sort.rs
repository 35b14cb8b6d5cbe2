//! Schemas held in vectors.

use crate::Name;
use crate::error::{Error, ErrorView, nullary_facts_not_allowed};
use crate::sort::{
    AttributeSchema, AttributeView, Domain, index_of_name, index_of_relation, names_unique,
    RelationSchema, RelationSchemaView, Schema, SchemaView,
};
use vstd::prelude::*;

verus! {

/// One attribute of a relation: a domain, and a name unless the attribute
/// holds a projected constant.
#[derive(Clone, Debug)]
pub struct SimpleAttributeSchema {
    pub name: Option<Name>,
    pub data_type: Domain,
}

impl View for SimpleAttributeSchema {
    type V = AttributeView;

    open spec fn view(&self) -> AttributeView {
        AttributeView {
            name: match self.name {
                Some(n) => Some(n@),
                None => None,
            },
            domain: self.data_type,
        }
    }
}

impl SimpleAttributeSchema {
    /// The attribute `name` of domain `data_type`.
    pub fn new(name: Name, data_type: Domain) -> (r: Self)
        ensures
            r@ == (AttributeView { name: Some(name@), domain: data_type }),
    {
        SimpleAttributeSchema { name: Some(name), data_type }
    }

    /// An attribute without a name, of domain `data_type`.
    pub fn anonymous(data_type: Domain) -> (r: Self)
        ensures
            r@ == (AttributeView { name: None, domain: data_type }),
    {
        SimpleAttributeSchema { name: None, data_type }
    }

    /// The name of the attribute, if it has one.
    pub fn name(&self) -> (r: Option<&Name>)
        ensures
            r is Some == self@.name is Some,
            r is Some ==> r->Some_0@ == self@.name->Some_0,
    {
        self.name.as_ref()
    }

    /// The domain of the attribute.
    pub fn domain(&self) -> (r: &Domain)
        ensures
            *r == self@.domain,
    {
        &self.data_type
    }

    /// A copy of the attribute.
    pub fn duplicate(&self) -> (r: Self)
        ensures
            r@ == self@,
    {
        SimpleAttributeSchema {
            name: match &self.name {
                Some(n) => Some(n.clone()),
                None => None,
            },
            data_type: self.data_type,
        }
    }
}

/// The views of a sequence of attributes.
pub open spec fn attribute_views(attributes: Seq<SimpleAttributeSchema>) -> Seq<AttributeView> {
    attributes.map_values(|a: SimpleAttributeSchema| a@)
}

/// The name of a relation and its attributes, in order; an attribute's
/// position is its index.
#[derive(Clone, Debug)]
pub struct SimpleRelationSchema {
    pub name: Name,
    pub attributes: Vec<SimpleAttributeSchema>,
}

impl View for SimpleRelationSchema {
    type V = RelationSchemaView;

    open spec fn view(&self) -> RelationSchemaView {
        RelationSchemaView { name: self.name@, attributes: attribute_views(self.attributes@) }
    }
}

/// The first position that repeats the name of an earlier position.
pub open spec fn first_repeated_name(attributes: Seq<AttributeView>, from: int) -> Option<int>
    decreases attributes.len() - from,
{
    if from >= attributes.len() {
        None
    } else if attributes[from].name is Some && index_of_name(
        attributes,
        attributes[from].name->Some_0,
        0,
    ) != Some(from) {
        Some(from)
    } else {
        first_repeated_name(attributes, from + 1)
    }
}

/// Where no position repeats an earlier name, the names are unique.
pub proof fn lemma_no_repeated_name(attributes: Seq<AttributeView>, from: int)
    requires
        0 <= from,
        first_repeated_name(attributes, from) is None,
    ensures
        forall|i: int, j: int|
            0 <= i < j < attributes.len() && from <= j && attributes[i].name is Some
                ==> attributes[i].name != attributes[j].name,
    decreases attributes.len() - from,
{
    if from < attributes.len() {
        lemma_no_repeated_name(attributes, from + 1);
        if attributes[from].name is Some {
            crate::sort::lemma_index_of_name(attributes, attributes[from].name->Some_0, 0);
        }
    }
}

/// Looks for the attribute named `name`.
pub fn find_attribute(attributes: &Vec<SimpleAttributeSchema>, name: &Name) -> (r: Option<usize>)
    ensures
        match r {
            Some(k) => index_of_name(attribute_views(attributes@), name@, 0) == Some(k as int)
                && k < attributes@.len(),
            None => index_of_name(attribute_views(attributes@), name@, 0) is None,
        },
{
    let mut k: usize = 0;
    while k < attributes.len()
        invariant
            k <= attributes.len(),
            index_of_name(attribute_views(attributes@), name@, 0) == index_of_name(
                attribute_views(attributes@),
                name@,
                k as int,
            ),
        decreases attributes.len() - k,
    {
        let found = match &attributes[k].name {
            Some(n) => *n == *name,
            None => false,
        };
        if found {
            return Some(k);
        }
        k += 1;
    }
    None
}

/// A copy of the attributes.
pub fn copy_attributes(attributes: &Vec<SimpleAttributeSchema>) -> (r: Vec<SimpleAttributeSchema>)
    ensures
        attribute_views(r@) == attribute_views(attributes@),
{
    let mut copy: Vec<SimpleAttributeSchema> = Vec::new();
    let mut i: usize = 0;
    while i < attributes.len()
        invariant
            i <= attributes.len(),
            copy@.len() == i,
            forall|k: int| 0 <= k < i ==> (#[trigger] copy@[k])@ == attributes@[k]@,
        decreases attributes.len() - i,
    {
        copy.push(attributes[i].duplicate());
        i += 1;
    }
    assert(attribute_views(copy@) =~= attribute_views(attributes@));
    copy
}

impl SimpleRelationSchema {
    /// The schema of the relation `name` with `attributes`. There must be an
    /// attribute, else the schema is refused as nullary; and no two attributes
    /// may have the same name, else the first name that repeats an earlier one
    /// is refused as invalid.
    pub fn new(name: Name, attributes: Vec<SimpleAttributeSchema>) -> (r: Result<Self, Error>)
        ensures
            attributes@.len() == 0 ==> r is Err && r->Err_0@ == ErrorView::NullaryFactsNotAllowed,
            attributes@.len() > 0 && first_repeated_name(attribute_views(attributes@), 0) is Some
                ==> r is Err && r->Err_0@ == (ErrorView::InvalidName {
                value: attribute_views(attributes@)[first_repeated_name(
                    attribute_views(attributes@),
                    0,
                )->Some_0].name->Some_0,
            }),
            attributes@.len() > 0 && first_repeated_name(attribute_views(attributes@), 0) is None
                ==> r is Ok && r->Ok_0@ == (RelationSchemaView {
                name: name@,
                attributes: attribute_views(attributes@),
            }) && names_unique(r->Ok_0@.attributes),
    {
        if attributes.len() == 0 {
            return Err(nullary_facts_not_allowed());
        }
        let ghost views = attribute_views(attributes@);
        let mut j: usize = 0;
        while j < attributes.len()
            invariant
                j <= attributes.len(),
                views == attribute_views(attributes@),
                first_repeated_name(views, 0) == first_repeated_name(views, j as int),
            decreases attributes.len() - j,
        {
            match &attributes[j].name {
                Some(n) => {
                    let first = find_attribute(&attributes, n);
                    if first != Some(j) {
                        return Err(Error::InvalidName { value: n.to_string() });
                    }
                },
                None => {},
            }
            j += 1;
        }
        proof {
            lemma_no_repeated_name(views, 0);
        }
        Ok(SimpleRelationSchema { name, attributes })
    }

    /// The number of attributes.
    pub fn len(&self) -> (r: usize)
        ensures
            r == self@.attributes.len(),
    {
        self.attributes.len()
    }

    /// Whether the schema has no attribute.
    pub fn is_empty(&self) -> (r: bool)
        ensures
            r == (self@.attributes.len() == 0),
    {
        self.attributes.len() == 0
    }

    /// The name of the relation.
    pub fn name(&self) -> (r: &Name)
        ensures
            r@ == self@.name,
    {
        &self.name
    }

    /// Whether an attribute is named `name`.
    pub fn has_attribute(&self, name: &Name) -> (r: bool)
        ensures
            r == index_of_name(self@.attributes, name@, 0) is Some,
    {
        find_attribute(&self.attributes, name).is_some()
    }

    /// The index of the first attribute named `name`.
    pub fn attribute_index(&self, name: &Name) -> (r: Option<usize>)
        ensures
            match r {
                Some(k) => index_of_name(self@.attributes, name@, 0) == Some(k as int)
                    && k < self@.attributes.len(),
                None => index_of_name(self@.attributes, name@, 0) is None,
            },
    {
        find_attribute(&self.attributes, name)
    }

    /// The attribute at `index`.
    pub fn attribute(&self, index: usize) -> (r: Option<&SimpleAttributeSchema>)
        ensures
            r is Some == (index < self@.attributes.len()),
            r is Some ==> r->Some_0@ == self@.attributes[index as int],
    {
        if index < self.attributes.len() {
            Some(&self.attributes[index])
        } else {
            None
        }
    }

    /// A copy of the schema.
    pub fn duplicate(&self) -> (r: Self)
        ensures
            r@ == self@,
    {
        let attributes = copy_attributes(&self.attributes);
        SimpleRelationSchema { name: self.name.clone(), attributes }
    }

    /// The attributes, one at a time.
    pub fn iter(&self) -> (r: Attributes<'_>)
        ensures
            r.remaining() == self@.attributes,
    {
        Attributes::new(&self.attributes)
    }

    /// The attributes, in order.
    pub fn attributes(&self) -> (r: &Vec<SimpleAttributeSchema>)
        ensures
            attribute_views(r@) == self@.attributes,
    {
        &self.attributes
    }
}

/// The views of a sequence of relation schemas.
pub open spec fn schema_views(relations: Seq<SimpleRelationSchema>) -> Seq<RelationSchemaView> {
    relations.map_values(|r: SimpleRelationSchema| r@)
}

/// A named collection of relation schemas.
#[derive(Clone, Debug)]
pub struct SimpleSchema {
    pub name: Name,
    pub relations: Vec<SimpleRelationSchema>,
}

impl View for SimpleSchema {
    type V = SchemaView;

    open spec fn view(&self) -> SchemaView {
        SchemaView { name: self.name@, relations: schema_views(self.relations@) }
    }
}

/// The first position from `from` on whose relation schema has the name of an
/// earlier one.
pub open spec fn first_repeated_relation(relations: Seq<RelationSchemaView>, from: int) -> Option<
    int,
>
    decreases relations.len() - from,
{
    if from >= relations.len() {
        None
    } else if index_of_relation(relations, relations[from].name, 0) != Some(from) {
        Some(from)
    } else {
        first_repeated_relation(relations, from + 1)
    }
}

/// Whether no two relation schemas have the same name.
pub open spec fn relations_unique(relations: Seq<RelationSchemaView>) -> bool {
    forall|i: int, j: int| 0 <= i < j < relations.len() ==> relations[i].name != relations[j].name
}

proof fn lemma_index_of_relation(relations: Seq<RelationSchemaView>, name: Seq<char>, from: int)
    requires
        0 <= from,
    ensures
        match index_of_relation(relations, name, from) {
            Some(k) => from <= k < relations.len() && relations[k].name == name && forall|j: int|
                from <= j < k ==> relations[j].name != name,
            None => forall|j: int| from <= j < relations.len() ==> relations[j].name != name,
        },
    decreases relations.len() - from,
{
    if from < relations.len() && relations[from].name != name {
        lemma_index_of_relation(relations, name, from + 1);
    }
}

proof fn lemma_no_repeated_relation(relations: Seq<RelationSchemaView>, from: int)
    requires
        0 <= from,
        first_repeated_relation(relations, from) is None,
    ensures
        forall|i: int, j: int|
            0 <= i < j < relations.len() && from <= j ==> relations[i].name != relations[j].name,
    decreases relations.len() - from,
{
    if from < relations.len() {
        lemma_no_repeated_relation(relations, from + 1);
        lemma_index_of_relation(relations, relations[from].name, 0);
    }
}

/// Looks for the relation schema named `name`.
pub fn find_relation_schema(relations: &Vec<SimpleRelationSchema>, name: &Name) -> (r: Option<usize>)
    ensures
        match r {
            Some(k) => index_of_relation(schema_views(relations@), name@, 0) == Some(k as int)
                && k < relations@.len(),
            None => index_of_relation(schema_views(relations@), name@, 0) is None,
        },
{
    let mut k: usize = 0;
    while k < relations.len()
        invariant
            k <= relations.len(),
            index_of_relation(schema_views(relations@), name@, 0) == index_of_relation(
                schema_views(relations@),
                name@,
                k as int,
            ),
        decreases relations.len() - k,
    {
        if relations[k].name == *name {
            return Some(k);
        }
        k += 1;
    }
    None
}

impl SimpleSchema {
    /// The schema `name` of `relations`. No two of them may have the same
    /// name, else the first name that repeats an earlier one is refused as
    /// invalid.
    pub fn new(name: Name, relations: Vec<SimpleRelationSchema>) -> (r: Result<Self, Error>)
        ensures
            first_repeated_relation(schema_views(relations@), 0) is Some ==> r is Err && r->Err_0@
                == (ErrorView::InvalidName {
                value: schema_views(relations@)[first_repeated_relation(
                    schema_views(relations@),
                    0,
                )->Some_0].name,
            }),
            first_repeated_relation(schema_views(relations@), 0) is None ==> r is Ok && r->Ok_0@
                == (SchemaView { name: name@, relations: schema_views(relations@) })
                && relations_unique(r->Ok_0@.relations),
    {
        let ghost views = schema_views(relations@);
        let mut j: usize = 0;
        while j < relations.len()
            invariant
                j <= relations.len(),
                views == schema_views(relations@),
                first_repeated_relation(views, 0) == first_repeated_relation(views, j as int),
            decreases relations.len() - j,
        {
            let first = find_relation_schema(&relations, &relations[j].name);
            if first != Some(j) {
                return Err(Error::InvalidName { value: relations[j].name.to_string() });
            }
            j += 1;
        }
        proof {
            lemma_no_repeated_relation(views, 0);
        }
        Ok(SimpleSchema { name, relations })
    }

    /// The number of relation schemas.
    pub fn len(&self) -> (r: usize)
        ensures
            r == self@.relations.len(),
    {
        self.relations.len()
    }

    /// Whether the schema has no relation schema.
    pub fn is_empty(&self) -> (r: bool)
        ensures
            r == (self@.relations.len() == 0),
    {
        self.relations.len() == 0
    }

    /// The name of the schema.
    pub fn name(&self) -> (r: &Name)
        ensures
            r@ == self@.name,
    {
        &self.name
    }

    /// Whether a relation schema is named `name`.
    pub fn has_relation(&self, name: &Name) -> (r: bool)
        ensures
            r == index_of_relation(self@.relations, name@, 0) is Some,
    {
        find_relation_schema(&self.relations, name).is_some()
    }

    /// The first relation schema named `name`.
    pub fn relation(&self, name: &Name) -> (r: Option<&SimpleRelationSchema>)
        ensures
            r is Some == index_of_relation(self@.relations, name@, 0) is Some,
            r is Some ==> r->Some_0@ == self@.relations[index_of_relation(
                self@.relations,
                name@,
                0,
            )->Some_0],
    {
        match find_relation_schema(&self.relations, name) {
            Some(k) => Some(&self.relations[k]),
            None => None,
        }
    }

    /// The relation schemas, one at a time.
    pub fn iter(&self) -> (r: Relations<'_>)
        ensures
            r.remaining() == self@.relations,
    {
        Relations::new(&self.relations)
    }

    /// The relation schemas, in order.
    pub fn relations(&self) -> (r: &Vec<SimpleRelationSchema>)
        ensures
            schema_views(r@) == self@.relations,
    {
        &self.relations
    }
}

/// The attributes of a relation schema, handed out one at a time.
#[derive(Debug)]
pub struct Attributes<'a> {
    items: &'a Vec<SimpleAttributeSchema>,
    position: usize,
}

impl<'a> Attributes<'a> {
    #[verifier::type_invariant]
    spec fn within(&self) -> bool {
        self.position <= self.items@.len()
    }

    /// What is still to be handed out, in order.
    pub closed spec fn remaining(&self) -> Seq<AttributeView> {
        attribute_views(self.items@).skip(self.position as int)
    }

    /// Starts at the first of `items`.
    pub fn new(items: &'a Vec<SimpleAttributeSchema>) -> (r: Self)
        ensures
            r.remaining() == attribute_views(items@),
    {
        assert(attribute_views(items@).skip(0) =~= attribute_views(items@));
        Attributes { items, position: 0 }
    }

    /// Hands out the next one, if one is left.
    pub fn next(&mut self) -> (r: Option<&'a SimpleAttributeSchema>)
        ensures
            match r {
                Some(item) => old(self).remaining().len() > 0 && item@ == old(self).remaining()[0]
                    && final(self).remaining() == old(self).remaining().drop_first(),
                None => old(self).remaining().len() == 0 && final(self).remaining() == old(
                    self,
                ).remaining(),
            },
    {
        proof {
            use_type_invariant(&*self);
        }
        if self.position < self.items.len() {
            let item = &self.items[self.position];
            let ghost before = self.remaining();
            self.position = self.position + 1;
            assert(self.remaining() =~= before.drop_first());
            Some(item)
        } else {
            None
        }
    }
}

/// The relation schemas of a schema, handed out one at a time.
#[derive(Debug)]
pub struct Relations<'a> {
    items: &'a Vec<SimpleRelationSchema>,
    position: usize,
}

impl<'a> Relations<'a> {
    #[verifier::type_invariant]
    spec fn within(&self) -> bool {
        self.position <= self.items@.len()
    }

    /// What is still to be handed out, in order.
    pub closed spec fn remaining(&self) -> Seq<RelationSchemaView> {
        schema_views(self.items@).skip(self.position as int)
    }

    /// Starts at the first of `items`.
    pub fn new(items: &'a Vec<SimpleRelationSchema>) -> (r: Self)
        ensures
            r.remaining() == schema_views(items@),
    {
        assert(schema_views(items@).skip(0) =~= schema_views(items@));
        Relations { items, position: 0 }
    }

    /// Hands out the next one, if one is left.
    pub fn next(&mut self) -> (r: Option<&'a SimpleRelationSchema>)
        ensures
            match r {
                Some(item) => old(self).remaining().len() > 0 && item@ == old(self).remaining()[0]
                    && final(self).remaining() == old(self).remaining().drop_first(),
                None => old(self).remaining().len() == 0 && final(self).remaining() == old(
                    self,
                ).remaining(),
            },
    {
        proof {
            use_type_invariant(&*self);
        }
        if self.position < self.items.len() {
            let item = &self.items[self.position];
            let ghost before = self.remaining();
            self.position = self.position + 1;
            assert(self.remaining() =~= before.drop_first());
            Some(item)
        } else {
            None
        }
    }
}

impl AttributeSchema for SimpleAttributeSchema {
    fn new(name: Name, data_type: Domain) -> (r: Self) {
        SimpleAttributeSchema::new(name, data_type)
    }

    fn name(&self) -> (r: Option<&Name>) {
        SimpleAttributeSchema::name(self)
    }

    fn domain(&self) -> (r: &Domain) {
        SimpleAttributeSchema::domain(self)
    }
}

impl RelationSchema for SimpleRelationSchema {
    type Item = SimpleAttributeSchema;

    fn new(name: Name, attributes: Vec<SimpleAttributeSchema>) -> (r: Result<Self, Error>)
        ensures
            attributes@.len() == 0 ==> r is Err && r->Err_0@ == ErrorView::NullaryFactsNotAllowed,
            attributes@.len() > 0 && first_repeated_name(attribute_views(attributes@), 0) is Some
                ==> r is Err && r->Err_0@ == (ErrorView::InvalidName {
                value: attribute_views(attributes@)[first_repeated_name(
                    attribute_views(attributes@),
                    0,
                )->Some_0].name->Some_0,
            }),
            attributes@.len() > 0 && first_repeated_name(attribute_views(attributes@), 0) is None
                ==> r is Ok && r->Ok_0@ == (RelationSchemaView {
                name: name@,
                attributes: attribute_views(attributes@),
            }) && names_unique(r->Ok_0@.attributes),
    {
        SimpleRelationSchema::new(name, attributes)
    }

    fn len(&self) -> (r: usize) {
        SimpleRelationSchema::len(self)
    }

    fn is_empty(&self) -> (r: bool) {
        SimpleRelationSchema::is_empty(self)
    }

    fn name(&self) -> (r: &Name) {
        SimpleRelationSchema::name(self)
    }

    fn has_attribute(&self, name: &Name) -> (r: bool) {
        SimpleRelationSchema::has_attribute(self, name)
    }

    fn attribute_index(&self, name: &Name) -> (r: Option<usize>) {
        SimpleRelationSchema::attribute_index(self, name)
    }

    fn attribute(&self, index: usize) -> (r: Option<&SimpleAttributeSchema>) {
        SimpleRelationSchema::attribute(self, index)
    }

    fn attributes(&self) -> (r: &Vec<SimpleAttributeSchema>) {
        SimpleRelationSchema::attributes(self)
    }
}

impl Schema for SimpleSchema {
    type Item = SimpleRelationSchema;

    fn new(name: Name, relations: Vec<SimpleRelationSchema>) -> (r: Result<Self, Error>)
        ensures
            first_repeated_relation(schema_views(relations@), 0) is Some ==> r is Err && r->Err_0@
                == (ErrorView::InvalidName {
                value: schema_views(relations@)[first_repeated_relation(
                    schema_views(relations@),
                    0,
                )->Some_0].name,
            }),
            first_repeated_relation(schema_views(relations@), 0) is None ==> r is Ok && r->Ok_0@
                == (SchemaView { name: name@, relations: schema_views(relations@) })
                && relations_unique(r->Ok_0@.relations),
    {
        SimpleSchema::new(name, relations)
    }

    fn len(&self) -> (r: usize) {
        SimpleSchema::len(self)
    }

    fn is_empty(&self) -> (r: bool) {
        SimpleSchema::is_empty(self)
    }

    fn name(&self) -> (r: &Name) {
        SimpleSchema::name(self)
    }

    fn has_relation(&self, name: &Name) -> (r: bool) {
        SimpleSchema::has_relation(self, name)
    }

    fn relation(&self, name: &Name) -> (r: Option<&SimpleRelationSchema>) {
        SimpleSchema::relation(self, name)
    }

    fn relations(&self) -> (r: &Vec<SimpleRelationSchema>) {
        SimpleSchema::relations(self)
    }
}

} // verus!
