//! Validation that every record type and type reference written in a
//! module names a known record or type.
use crate::error::{AnalysisError, SpecAnalysisError};
use crate::ir::Module;
use crate::tables::{name_set_contents, NameSet};
use crate::type_visitor::{derefs, types_in_module, visit};
use crate::types::Type;
use vstd::prelude::*;

verus! {

/// The error for a type that names nothing known, if it does.
pub open spec fn missing(type_: Type, types: Set<Seq<char>>, records: Set<Seq<char>>) -> Option<
    SpecAnalysisError,
> {
    match type_ {
        Type::Record { name, .. } => if records.contains(name@) {
            None
        } else {
            Some(SpecAnalysisError::RecordNotFound(type_@))
        },
        Type::Reference { name, .. } => if types.contains(name@) {
            None
        } else {
            Some(SpecAnalysisError::TypeNotFound(type_@))
        },
        _ => None,
    }
}

/// The error for the first of some types that names nothing known.
pub open spec fn first_missing(types_: Seq<Type>, types: Set<Seq<char>>, records: Set<Seq<char>>) -> Option<
    SpecAnalysisError,
>
    decreases types_.len(),
{
    if types_.len() == 0 {
        None
    } else {
        match missing(types_[0], types, records) {
            Some(error) => Some(error),
            None => first_missing(types_.drop_first(), types, records),
        }
    }
}

/// Validates that the record types and type references of a module name
/// known records and types; the error is that of the first type, in the
/// order in which `type_visitor::visit` lists them, that does not.
pub fn validate(module: &Module, types: &NameSet, records: &NameSet) -> (result: Result<
    (),
    AnalysisError,
>)
    ensures
        match result {
            Ok(()) => first_missing(
                types_in_module(*module),
                name_set_contents(*types),
                name_set_contents(*records),
            ) is None,
            Err(error) => first_missing(
                types_in_module(*module),
                name_set_contents(*types),
                name_set_contents(*records),
            ) == Some(error@),
        },
{
    let visited = visit(module);
    let ghost all = derefs(visited@);
    let mut i: usize = 0;
    proof {
        assert(all.skip(0) =~= all);
    }
    while i < visited.len()
        invariant
            i <= visited.len(),
            all == derefs(visited@),
            all == types_in_module(*module),
            first_missing(all, name_set_contents(*types), name_set_contents(*records))
                == first_missing(all.skip(i as int), name_set_contents(*types), name_set_contents(*records)),
        decreases visited.len() - i,
    {
        let type_ = visited[i];
        proof {
            assert(all.skip(i as int)[0] == *type_);
            assert(all.skip(i as int).drop_first() =~= all.skip(i + 1));
        }
        match type_ {
            Type::Record { name, .. } => {
                if !records.contains(name.as_str()) {
                    return Err(AnalysisError::RecordNotFound(type_.clone()));
                }
            },
            Type::Reference { name, .. } => {
                if !types.contains(name.as_str()) {
                    return Err(AnalysisError::TypeNotFound(type_.clone()));
                }
            },
            _ => {},
        }
        i = i + 1;
    }
    proof {
        assert(all.skip(i as int).len() == 0);
    }
    Ok(())
}

} // verus!
