//! Sorts: the domains of values and the schemas that relations conform to.

use crate::Name;
use crate::error::Error;
use vstd::prelude::*;

verus! {

/// A domain is one data type; every value belongs to exactly one.
#[derive(Clone, Copy, Debug, PartialEq, Eq, Structural)]
pub enum Domain {
    Boolean,
    Byte,
    UnsignedInteger,
    Integer,
    Float,
    Char,
    String,
    Binary,
}

/// The lower-case word that names a domain.
pub open spec fn domain_text(d: Domain) -> Seq<char> {
    match d {
        Domain::Boolean => "boolean"@,
        Domain::Byte => "byte"@,
        Domain::UnsignedInteger => "unsigned"@,
        Domain::Integer => "integer"@,
        Domain::Float => "float"@,
        Domain::Char => "char"@,
        Domain::String => "string"@,
        Domain::Binary => "binary"@,
    }
}

impl Domain {
    /// The word that names this domain.
    pub fn to_string(&self) -> (r: String)
        ensures
            r@ == domain_text(*self),
    {
        match self {
            Domain::Boolean => "boolean".to_string(),
            Domain::Byte => "byte".to_string(),
            Domain::UnsignedInteger => "unsigned".to_string(),
            Domain::Integer => "integer".to_string(),
            Domain::Float => "float".to_string(),
            Domain::Char => "char".to_string(),
            Domain::String => "string".to_string(),
            Domain::Binary => "binary".to_string(),
        }
    }
}

/// The mathematical content of an attribute schema: its name, if it has one,
/// and its domain.
pub ghost struct AttributeView {
    pub name: Option<Seq<char>>,
    pub domain: Domain,
}

/// The first position from `from` on whose attribute is named `name`.
pub open spec fn index_of_name(attributes: Seq<AttributeView>, name: Seq<char>, from: int) -> Option<
    int,
>
    decreases attributes.len() - from,
{
    if from >= attributes.len() {
        None
    } else if attributes[from].name == Some(name) {
        Some(from)
    } else {
        index_of_name(attributes, name, from + 1)
    }
}

/// What `index_of_name` finds is a position at or after `from` with that name,
/// and no position between has it; it finds nothing only where no position has
/// it.
pub proof fn lemma_index_of_name(attributes: Seq<AttributeView>, name: Seq<char>, from: int)
    requires
        0 <= from,
    ensures
        match index_of_name(attributes, name, from) {
            Some(k) => from <= k < attributes.len() && attributes[k].name == Some(name)
                && forall|j: int| from <= j < k ==> attributes[j].name != Some(name),
            None => forall|j: int| from <= j < attributes.len() ==> attributes[j].name != Some(name),
        },
    decreases attributes.len() - from,
{
    if from < attributes.len() && attributes[from].name != Some(name) {
        lemma_index_of_name(attributes, name, from + 1);
    }
}

/// Whether no two named attributes have the same name.
pub open spec fn names_unique(attributes: Seq<AttributeView>) -> bool {
    forall|i: int, j: int|
        0 <= i < j < attributes.len() && attributes[i].name is Some ==> attributes[i].name
            != attributes[j].name
}

/// Whether two attribute lists agree in length and, position by position, in
/// domain; the names play no part.
pub open spec fn union_compatible(lhs: Seq<AttributeView>, rhs: Seq<AttributeView>) -> bool {
    lhs.len() == rhs.len() && forall|i: int| 0 <= i < lhs.len() ==> lhs[i].domain == rhs[i].domain
}

/// An attribute schema describes one member of a tuple: a name and the
/// domain of its values.
pub trait AttributeSchema: View<V = AttributeView> + Sized {
    /// The attribute `name` of domain `data_type`.
    fn new(name: Name, data_type: Domain) -> (r: Self)
        ensures
            r@ == (AttributeView { name: Some(name@), domain: data_type }),
    ;

    /// The name of the attribute, if it has one.
    fn name(&self) -> (r: Option<&Name>)
        ensures
            r is Some == self@.name is Some,
            r is Some ==> r->Some_0@ == self@.name->Some_0,
    ;

    /// The domain of the attribute.
    fn domain(&self) -> (r: &Domain)
        ensures
            *r == self@.domain,
    ;
}

/// The mathematical content of a relation schema.
pub ghost struct RelationSchemaView {
    pub name: Seq<char>,
    pub attributes: Seq<AttributeView>,
}

/// A relation schema is a named sequence of attribute schemas; an attribute's
/// position is its index.
pub trait RelationSchema: View<V = RelationSchemaView> + Sized {
    type Item: AttributeSchema;

    /// The schema of the relation `name` with `attributes`, where the
    /// implementation accepts them.
    fn new(name: Name, attributes: Vec<Self::Item>) -> (r: Result<Self, Error>)
        ensures
            r is Ok ==> r->Ok_0@ == (RelationSchemaView {
                name: name@,
                attributes: attributes@.map_values(|a: Self::Item| a@),
            }),
    ;

    /// The number of attributes.
    fn len(&self) -> (r: usize)
        ensures
            r == self@.attributes.len(),
    ;

    /// Whether the schema has no attribute.
    fn is_empty(&self) -> (r: bool)
        ensures
            r == (self@.attributes.len() == 0),
    ;

    /// The name of the relation.
    fn name(&self) -> (r: &Name)
        ensures
            r@ == self@.name,
    ;

    /// Whether an attribute is named `name`.
    fn has_attribute(&self, name: &Name) -> (r: bool)
        ensures
            r == index_of_name(self@.attributes, name@, 0) is Some,
    ;

    /// The index of the first attribute named `name`.
    fn attribute_index(&self, name: &Name) -> (r: Option<usize>)
        ensures
            match r {
                Some(k) => index_of_name(self@.attributes, name@, 0) == Some(k as int),
                None => index_of_name(self@.attributes, name@, 0) is None,
            },
    ;

    /// The attribute at `index`.
    fn attribute(&self, index: usize) -> (r: Option<&Self::Item>)
        ensures
            r is Some == (index < self@.attributes.len()),
            r is Some ==> r->Some_0@ == self@.attributes[index as int],
    ;

    /// The attributes, in order.
    fn attributes(&self) -> (r: &Vec<Self::Item>)
        ensures
            r@.map_values(|a: Self::Item| a@) == self@.attributes,
    ;
}

/// The mathematical content of a schema.
pub ghost struct SchemaView {
    pub name: Seq<char>,
    pub relations: Seq<RelationSchemaView>,
}

/// The first position from `from` on whose relation schema is named `name`.
pub open spec fn index_of_relation(relations: Seq<RelationSchemaView>, name: Seq<char>, from: int) -> Option<
    int,
>
    decreases relations.len() - from,
{
    if from >= relations.len() {
        None
    } else if relations[from].name == name {
        Some(from)
    } else {
        index_of_relation(relations, name, from + 1)
    }
}

/// A schema is a named collection of relation schemas.
pub trait Schema: View<V = SchemaView> + Sized {
    type Item: RelationSchema;

    /// The schema `name` of `relations`, where the implementation accepts
    /// them.
    fn new(name: Name, relations: Vec<Self::Item>) -> (r: Result<Self, Error>)
        ensures
            r is Ok ==> r->Ok_0@ == (SchemaView {
                name: name@,
                relations: relations@.map_values(|s: Self::Item| s@),
            }),
    ;

    /// The number of relation schemas.
    fn len(&self) -> (r: usize)
        ensures
            r == self@.relations.len(),
    ;

    /// Whether the schema has no relation schema.
    fn is_empty(&self) -> (r: bool)
        ensures
            r == (self@.relations.len() == 0),
    ;

    /// The name of the schema.
    fn name(&self) -> (r: &Name)
        ensures
            r@ == self@.name,
    ;

    /// Whether a relation schema is named `name`.
    fn has_relation(&self, name: &Name) -> (r: bool)
        ensures
            r == index_of_relation(self@.relations, name@, 0) is Some,
    ;

    /// The first relation schema named `name`.
    fn relation(&self, name: &Name) -> (r: Option<&Self::Item>)
        ensures
            r is Some == index_of_relation(self@.relations, name@, 0) is Some,
            r is Some ==> r->Some_0@ == self@.relations[index_of_relation(
                self@.relations,
                name@,
                0,
            )->Some_0],
    ;

    /// The relation schemas, in order.
    fn relations(&self) -> (r: &Vec<Self::Item>)
        ensures
            r@.map_values(|s: Self::Item| s@) == self@.relations,
    ;
}

} // verus!
