//! The fields of the record type that a type stands for.
use crate::error::{AnalysisError, SpecAnalysisError};
use crate::position::{Position, SpecPosition};
use crate::tables::{record_map_contents, type_map_contents, RecordMap, TypeMap};
use crate::type_canonicalizer::{canonical, canonicalizable, canonicalize_record};
use crate::types::{view_fields, RecordField, SpecRecordField, SpecType, Type};
use vstd::prelude::*;

verus! {

/// The fields of the record type that `type_` canonicalizes to; an error
/// at `position` if it is no record type, or the record type if it has no
/// fields in `records`.
pub open spec fn record_fields(
    type_: SpecType,
    position: SpecPosition,
    types: Map<Seq<char>, SpecType>,
    records: Map<Seq<char>, Seq<SpecRecordField>>,
) -> Result<Seq<SpecRecordField>, SpecAnalysisError> {
    match canonical(type_, types) {
        Ok(canonical) => if canonical is Record {
            if records.contains_key(canonical->Record_name) {
                Ok(records[canonical->Record_name])
            } else {
                Err(SpecAnalysisError::RecordNotFound(canonical))
            }
        } else {
            Err(SpecAnalysisError::RecordExpected(position, type_))
        },
        Err(error) => Err(error),
    }
}

/// The models of a result that holds record fields.
pub open spec fn view_fields_result(result: Result<&Vec<RecordField>, AnalysisError>) -> Result<
    Seq<SpecRecordField>,
    SpecAnalysisError,
> {
    match result {
        Ok(fields) => Ok(view_fields(fields@)),
        Err(error) => Err(error@),
    }
}

/// A record type canonicalizes to itself.
pub proof fn lemma_record_canonical(type_: SpecType, types: Map<Seq<char>, SpecType>)
    requires
        type_ is Record,
    ensures
        canonicalizable(type_, types),
        canonical(type_, types) == Ok::<SpecType, SpecAnalysisError>(type_),
{
    assert(crate::type_canonicalizer::canonical_fuel(type_, types, 0) is Some);
}

/// The fields of the record type that a type stands for.
pub fn resolve<'a>(type_: &Type, position: &Position, types: &TypeMap, records: &'a RecordMap) -> (fields:
    Result<&'a Vec<RecordField>, AnalysisError>)
    requires
        canonicalizable(type_@, type_map_contents(*types)),
    ensures
        view_fields_result(fields) == record_fields(
            type_@,
            position@,
            type_map_contents(*types),
            record_map_contents(*records),
        ),
{
    match canonicalize_record(type_, types)? {
        Some(record) => match &record {
            Type::Record { name, .. } => match records.get(name.as_str()) {
                Some(fields) => Ok(fields),
                None => Err(AnalysisError::RecordNotFound(record)),
            },
            _ => Err(AnalysisError::RecordNotFound(record)),
        },
        None => Err(AnalysisError::RecordExpected(position.copy(), type_.clone())),
    }
}

} // verus!
