//! Reading records from the store: the queries to ask and what their
//! results mean. Asking the store is left to the caller.

use vstd::prelude::*;
use vstd::string::StringExecFns;
use crate::entity::{FieldDefinition, Keyword, MentatError};
use crate::facts::{Identifier, TypedValue, TypedValueView};

verus! {

/// The result of a query, as far as reading a record looks at it.
#[derive(Debug)]
pub enum QueryResults {
    /// One binding at most was asked for, and this came back: a value, a
    /// binding that is no single value, or nothing.
    Scalar(Option<Binding>),
    /// A result of any other shape.
    Other,
}

/// What a variable of a query is bound to.
#[derive(Debug)]
pub enum Binding {
    /// A single value.
    Scalar(TypedValue),
    /// A list or a map of values.
    Structured,
}

impl Binding {
    /// The single value, where the binding is one.
    pub fn into_typed_value(self) -> (r: Option<TypedValue>)
        ensures
            match self {
                Binding::Scalar(v) => r == Some(v),
                Binding::Structured => r is None,
            },
    {
        match self {
            Binding::Scalar(v) => Some(v),
            Binding::Structured => None,
        }
    }
}

/// The query for the value that an entity holds under an attribute.
pub open spec fn attribute_query_text(ident: Keyword) -> Seq<char> {
    "[:find ?v . :in $ ?e :where [?e :"@ + ident.text() + " ?v]]"@
}

/// Writes the query for the value that an entity holds under an
/// attribute. The entity is bound to `?e`.
pub fn attribute_query(ident: &Keyword) -> (query: String)
    ensures
        query@ == attribute_query_text(*ident),
{
    let mut query = String::from_str("[:find ?v . :in $ ?e :where [?e :");
    query.append(ident.to_text().as_str());
    query.append(" ?v]]");
    query
}

/// The query for the entity that holds a value under an attribute.
pub open spec fn unique_query_text(attribute: Keyword) -> Seq<char> {
    "[:find ?e . :in $ ?v :where [?e :"@ + attribute.text() + " ?v]]"@
}

/// Writes the query for the entity that holds a value under an attribute.
/// The value is bound to `?v`.
pub fn unique_query(attribute: &Keyword) -> (query: String)
    ensures
        query@ == unique_query_text(*attribute),
{
    let mut query = String::from_str("[:find ?e . :in $ ?v :where [?e :");
    query.append(attribute.to_text().as_str());
    query.append(" ?v]]");
    query
}

/// What the answer to the query for one field adds to a record that is
/// being read: the value where there is one, nothing where the entity holds
/// none or the binding is no single value. A result that is not scalar is
/// `UnexpectedResultsType`. A failure of the query is passed on for a
/// required field and passed over for an optional one.
pub fn attribute_from_result(
    field: &FieldDefinition,
    outcome: Result<QueryResults, MentatError>,
) -> (r: Result<Option<TypedValue>, MentatError>)
    ensures
        match outcome {
            Ok(QueryResults::Scalar(Some(Binding::Scalar(v)))) => r == Ok::<
                Option<TypedValue>,
                MentatError,
            >(Some(v)),
            Ok(QueryResults::Scalar(_)) => r == Ok::<Option<TypedValue>, MentatError>(None),
            Ok(QueryResults::Other) => r matches Err(MentatError::UnexpectedResultsType(_)),
            Err(e) => if field.optional {
                r == Ok::<Option<TypedValue>, MentatError>(None)
            } else {
                r == Err::<Option<TypedValue>, MentatError>(e)
            },
        },
{
    match outcome {
        Ok(QueryResults::Scalar(Some(binding))) => Ok(binding.into_typed_value()),
        Ok(QueryResults::Scalar(None)) => Ok(None),
        Ok(QueryResults::Other) => Err(
            MentatError::UnexpectedResultsType(String::from_str("Expected scalar result")),
        ),
        Err(e) => {
            if field.optional {
                Ok(None)
            } else {
                Err(e)
            }
        },
    }
}

/// The entity that the answer to the query for a unique value names: its
/// identifier, or nothing where no entity holds the value. A binding that
/// is no reference to an entity and a result that is not scalar are
/// `UnexpectedResultsType`; a failure of the query is passed on.
pub fn entity_from_result(outcome: Result<QueryResults, MentatError>) -> (r: Result<
    Option<i64>,
    MentatError,
>)
    ensures
        match outcome {
            Ok(QueryResults::Scalar(Some(binding))) => match binding {
                Binding::Scalar(TypedValue::Ref(Identifier::Stable(entid))) => r == Ok::<
                    Option<i64>,
                    MentatError,
                >(Some(entid)),
                _ => r matches Err(MentatError::UnexpectedResultsType(_)),
            },
            Ok(QueryResults::Scalar(None)) => r == Ok::<Option<i64>, MentatError>(None),
            Ok(QueryResults::Other) => r matches Err(MentatError::UnexpectedResultsType(_)),
            Err(e) => r == Err::<Option<i64>, MentatError>(e),
        },
{
    match outcome {
        Ok(QueryResults::Scalar(Some(binding))) => match binding.into_typed_value() {
            Some(TypedValue::Ref(Identifier::Stable(entid))) => Ok(Some(entid)),
            _ => Err(MentatError::UnexpectedResultsType(String::from_str("Expected entid"))),
        },
        Ok(QueryResults::Scalar(None)) => Ok(None),
        Ok(QueryResults::Other) => Err(
            MentatError::UnexpectedResultsType(String::from_str("Expected scalar result")),
        ),
        Err(e) => Err(e),
    }
}

} // verus!
