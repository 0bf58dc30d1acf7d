//! Resolution of references to named types.
use crate::error::{AnalysisError, SpecAnalysisError};
use crate::position::SpecPosition;
use crate::tables::{type_map_contents, TypeMap};
use crate::types::{clone_type, SpecType, Type};
use vstd::prelude::*;

verus! {

/// The type that a reference names, at the reference's position, or the
/// error that it names nothing.
pub open spec fn resolve_spec(
    name: Seq<char>,
    position: SpecPosition,
    types: Map<Seq<char>, SpecType>,
) -> Result<SpecType, SpecAnalysisError> {
    if types.contains_key(name) {
        Ok(types[name].with_position(position))
    } else {
        Err(SpecAnalysisError::TypeNotFound(SpecType::Reference { name, position }))
    }
}

/// The models of a result that holds a type.
pub open spec fn view_result(result: Result<Type, AnalysisError>) -> Result<
    SpecType,
    SpecAnalysisError,
> {
    match result {
        Ok(type_) => Ok(type_@),
        Err(error) => Err(error@),
    }
}

/// Resolves a reference type to the type that it names.
pub fn resolve(reference: &Type, types: &TypeMap) -> (resolved: Result<Type, AnalysisError>)
    requires
        reference@ is Reference,
    ensures
        view_result(resolved) == resolve_spec(
            reference@->Reference_name,
            reference@->Reference_position,
            type_map_contents(*types),
        ),
{
    match reference {
        Type::Reference { name, position } => match types.get(name.as_str()) {
            Some(type_) => Ok(clone_type(type_).set_position(position.copy())),
            None => Err(AnalysisError::TypeNotFound(clone_type(reference))),
        },
        _ => Err(AnalysisError::TypeNotFound(clone_type(reference))),
    }
}

} // verus!
