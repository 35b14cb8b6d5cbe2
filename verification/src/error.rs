//! The error type of the library and the functions that construct its values.

use crate::Name;
use crate::data::{Value, value_text, ValueView};
use crate::sort::{Domain, domain_text};
use crate::text::{decimal, decimal_string};
use vstd::prelude::*;
use vstd::std_specs::convert::IntoSpec;

verus! {

/// The type for all errors returned from this library.
#[derive(Debug)]
pub enum Error {
    /// The text is not a legal name.
    InvalidName { value: String },
    /// The named relation does not exist.
    RelationDoesNotExist { name: Name },
    /// The named attribute is not a member of the relation schema.
    AttributeDoesNotExist { name: Name },
    /// The attribute index is not valid for the relation schema.
    AttributeIndexInvalid { index: usize },
    /// The operation cannot be performed as the values have incompatible types.
    IncompatibleTypes { lhs_domain: Domain, rhs_domain: Domain },
    /// The value is not a valid representation for the expected type.
    InvalidValue { expecting_domain: Domain, given_value: Value },
    /// The arity of facts must be greater than, or equal to, 1.
    NullaryFactsNotAllowed,
}

/// The mathematical content of an [`Error`].
#[verifier::ext_equal]
pub ghost enum ErrorView {
    InvalidName { value: Seq<char> },
    RelationDoesNotExist { name: Seq<char> },
    AttributeDoesNotExist { name: Seq<char> },
    AttributeIndexInvalid { index: usize },
    IncompatibleTypes { lhs_domain: Domain, rhs_domain: Domain },
    InvalidValue { expecting_domain: Domain, given_value: ValueView },
    NullaryFactsNotAllowed,
}

impl View for Error {
    type V = ErrorView;

    open spec fn view(&self) -> ErrorView {
        match self {
            Error::InvalidName { value } => ErrorView::InvalidName { value: value@ },
            Error::RelationDoesNotExist { name } => ErrorView::RelationDoesNotExist {
                name: name@,
            },
            Error::AttributeDoesNotExist { name } => ErrorView::AttributeDoesNotExist {
                name: name@,
            },
            Error::AttributeIndexInvalid { index } => ErrorView::AttributeIndexInvalid {
                index: *index,
            },
            Error::IncompatibleTypes { lhs_domain, rhs_domain } => ErrorView::IncompatibleTypes {
                lhs_domain: *lhs_domain,
                rhs_domain: *rhs_domain,
            },
            Error::InvalidValue { expecting_domain, given_value } => ErrorView::InvalidValue {
                expecting_domain: *expecting_domain,
                given_value: given_value@,
            },
            Error::NullaryFactsNotAllowed => ErrorView::NullaryFactsNotAllowed,
        }
    }
}

/// The sentence that reports an error, naming the offending value, name, index
/// or domains.
pub open spec fn error_text(e: ErrorView) -> Seq<char> {
    match e {
        ErrorView::InvalidName { value } => "The value `"@ + value
            + "` provided is not a legal name."@,
        ErrorView::RelationDoesNotExist { name } => "The relation named `"@ + name
            + "` does not exist."@,
        ErrorView::AttributeDoesNotExist { name } => "The attribute named `"@ + name
            + "` does not exist."@,
        ErrorView::AttributeIndexInvalid { index } => "The attribute index `"@ + decimal(
            index as nat,
        ) + "` does not exist."@,
        ErrorView::IncompatibleTypes { lhs_domain, rhs_domain } =>
            "The attempted operation cannot be performed as the values have incompatible types (`"@
            + domain_text(lhs_domain) + "`, `"@ + domain_text(rhs_domain) + "`)."@,
        ErrorView::InvalidValue { expecting_domain, given_value } => "The value `"@ + value_text(
            given_value,
        ) + "` is not a valid `"@ + domain_text(expecting_domain) + "`."@,
        ErrorView::NullaryFactsNotAllowed => "Nullary facts are not allowed"@,
    }
}

/// The text is not a legal name.
pub fn invalid_name_value<S>(value: S) -> (e: Error) where S: Into<String>
    ensures
        e is InvalidName,
        <S as IntoSpec<String>>::obeys_into_spec() ==> e@ == (ErrorView::InvalidName {
            value: value.into_spec()@,
        }),
{
    Error::InvalidName { value: value.into() }
}

/// The named relation does not exist.
pub fn relation_does_not_exist(name: Name) -> (e: Error)
    ensures
        e@ == (ErrorView::RelationDoesNotExist { name: name@ }),
{
    Error::RelationDoesNotExist { name }
}

/// The attribute does not exist in the relation schema.
pub fn attribute_does_not_exist(name: Name) -> (e: Error)
    ensures
        e@ == (ErrorView::AttributeDoesNotExist { name: name@ }),
{
    Error::AttributeDoesNotExist { name }
}

/// The attribute index is not valid for the relation schema.
pub fn attribute_index_invalid(index: usize) -> (e: Error)
    ensures
        e@ == (ErrorView::AttributeIndexInvalid { index }),
{
    Error::AttributeIndexInvalid { index }
}

/// The arity of facts must be greater than, or equal to, 1.
pub fn nullary_facts_not_allowed() -> (e: Error)
    ensures
        e@ == ErrorView::NullaryFactsNotAllowed,
{
    Error::NullaryFactsNotAllowed
}

/// A requested operation cannot be performed as the values have incompatible
/// types.
pub fn incompatible_types(lhs_domain: Domain, rhs_domain: Domain) -> (e: Error)
    ensures
        e@ == (ErrorView::IncompatibleTypes { lhs_domain, rhs_domain }),
{
    Error::IncompatibleTypes { lhs_domain, rhs_domain }
}

/// A value provided is not valid for the expected type.
pub fn invalid_value<V>(expecting_domain: Domain, given_value: V) -> (e: Error) where
    V: Into<Value>,

    ensures
        e is InvalidValue,
        e->expecting_domain == expecting_domain,
        <V as IntoSpec<Value>>::obeys_into_spec() ==> e@ == (ErrorView::InvalidValue {
            expecting_domain,
            given_value: given_value.into_spec()@,
        }),
{
    Error::InvalidValue { expecting_domain, given_value: given_value.into() }
}

impl Error {
    /// The sentence that reports this error.
    pub fn to_string(&self) -> (r: String)
        ensures
            r@ == error_text(self@),
    {
        match self {
            Error::InvalidName { value } => {
                let mut r = "The value `".to_string();
                r.append(value.as_str());
                r.append("` provided is not a legal name.");
                r
            },
            Error::RelationDoesNotExist { name } => {
                let mut r = "The relation named `".to_string();
                r.append(name.as_str());
                r.append("` does not exist.");
                r
            },
            Error::AttributeDoesNotExist { name } => {
                let mut r = "The attribute named `".to_string();
                r.append(name.as_str());
                r.append("` does not exist.");
                r
            },
            Error::AttributeIndexInvalid { index } => {
                let mut r = "The attribute index `".to_string();
                r.append(decimal_string(*index as u64).as_str());
                r.append("` does not exist.");
                r
            },
            Error::IncompatibleTypes { lhs_domain, rhs_domain } => {
                let mut r =
                    "The attempted operation cannot be performed as the values have incompatible types (`".to_string();
                r.append(lhs_domain.to_string().as_str());
                r.append("`, `");
                r.append(rhs_domain.to_string().as_str());
                r.append("`).");
                r
            },
            Error::InvalidValue { expecting_domain, given_value } => {
                let mut r = "The value `".to_string();
                r.append(given_value.to_string().as_str());
                r.append("` is not a valid `");
                r.append(expecting_domain.to_string().as_str());
                r.append("`.");
                r
            },
            Error::NullaryFactsNotAllowed => "Nullary facts are not allowed".to_string(),
        }
    }
}

} // verus!
