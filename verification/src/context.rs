//! What analyses know of the types of a compilation: the types under their
//! names, the fields of each record type, and the type of errors, where
//! there is one.
use crate::error::AnalysisError;
use crate::tables::{record_map_contents, type_map_contents, RecordMap, TypeMap};
use crate::types::Type;
use vstd::prelude::*;

verus! {

/// The types and record fields that analyses look names up in.
pub struct AnalysisContext {
    types: TypeMap,
    records: RecordMap,
    error_type: Option<Type>,
}

impl AnalysisContext {
    /// A context of types and record fields, without an error type.
    pub fn new(types: TypeMap, records: RecordMap) -> (context: AnalysisContext)
        ensures
            type_map_contents(*context.types()) == type_map_contents(types),
            record_map_contents(*context.records()) == record_map_contents(records),
            *context.error_type_option() == None::<Type>,
    {
        AnalysisContext { types, records, error_type: None }
    }

    /// A context of types and record fields, with the type of the errors
    /// that try operations pass on, if there is one.
    pub fn with_error_type(types: TypeMap, records: RecordMap, error_type: Option<Type>) -> (context:
        AnalysisContext)
        ensures
            type_map_contents(*context.types()) == type_map_contents(types),
            record_map_contents(*context.records()) == record_map_contents(records),
            *context.error_type_option() == error_type,
    {
        AnalysisContext { types, records, error_type }
    }

    /// The error type, or `ErrorTypeUndefined` where the context has none.
    pub fn error_type(&self) -> (error_type: Result<&Type, AnalysisError>)
        ensures
            match *self.error_type_option() {
                Some(type_) => error_type == Ok::<&Type, AnalysisError>(&type_),
                None => error_type == Err::<&Type, AnalysisError>(AnalysisError::ErrorTypeUndefined),
            },
    {
        match &self.error_type {
            Some(type_) => Ok(type_),
            None => Err(AnalysisError::ErrorTypeUndefined),
        }
    }

    /// The error type, if the context has one.
    #[verifier::when_used_as_spec(error_type_option_spec)]
    pub fn error_type_option(&self) -> (error_type: &Option<Type>)
        ensures
            error_type == self.error_type_option_spec(),
    {
        &self.error_type
    }

    /// The error type, if the context has one.
    pub closed spec fn error_type_option_spec(&self) -> &Option<Type> {
        &self.error_type
    }

    /// The types under their names.
    #[verifier::when_used_as_spec(types_spec)]
    pub fn types(&self) -> (types: &TypeMap)
        ensures
            types == self.types_spec(),
    {
        &self.types
    }

    /// The fields of each record type under its name.
    #[verifier::when_used_as_spec(records_spec)]
    pub fn records(&self) -> (records: &RecordMap)
        ensures
            records == self.records_spec(),
    {
        &self.records
    }

    /// The types under their names.
    pub closed spec fn types_spec(&self) -> &TypeMap {
        &self.types
    }

    /// The fields of each record type under its name.
    pub closed spec fn records_spec(&self) -> &RecordMap {
        &self.records
    }
}

} // verus!
