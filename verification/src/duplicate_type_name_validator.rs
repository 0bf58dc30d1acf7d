//! Validation that no two type definitions or type aliases of a module
//! share a name.
use crate::duplicate_function_name_validator::{first_duplicate, first_index, indexes_first, lemma_first_index_step};
use crate::error::{AnalysisError, SpecAnalysisError};
use crate::ir::{Module, TypeAlias, TypeDefinition};
use crate::position::{Position, SpecPosition};
use crate::tables::{name_index_map_contents, NameIndexMap};
use vstd::prelude::*;

verus! {

/// The names of the type definitions of a module, then those of its type
/// aliases.
pub open spec fn type_names(module: Module) -> Seq<Seq<char>> {
    module.type_definitions@.map_values(|definition: TypeDefinition| definition.name@)
        + module.type_aliases@.map_values(|alias: TypeAlias| alias.name@)
}

/// The positions of the type definitions of a module, then those of its
/// type aliases.
pub open spec fn type_positions(module: Module) -> Seq<SpecPosition> {
    module.type_definitions@.map_values(|definition: TypeDefinition| definition.position@)
        + module.type_aliases@.map_values(|alias: TypeAlias| alias.position@)
}

/// The error for the first type definition or alias whose name an earlier
/// one has: the position of the earliest, twice.
pub open spec fn duplicate_type_error(module: Module) -> Option<SpecAnalysisError> {
    match first_duplicate(type_names(module), 0) {
        Some((i, j)) => Some(
            SpecAnalysisError::DuplicateTypeNames(type_positions(module)[i], type_positions(module)[i]),
        ),
        None => None,
    }
}

fn position_of_type(module: &Module, i: usize) -> (position: &Position)
    requires
        i < module.type_definitions@.len() + module.type_aliases@.len(),
    ensures
        position@ == type_positions(*module)[i as int],
{
    if i < module.type_definitions.len() {
        &module.type_definitions[i].position
    } else {
        &module.type_aliases[i - module.type_definitions.len()].position
    }
}

fn name_of_type(module: &Module, i: usize) -> (name: &String)
    requires
        i < module.type_definitions@.len() + module.type_aliases@.len(),
    ensures
        name@ == type_names(*module)[i as int],
{
    if i < module.type_definitions.len() {
        &module.type_definitions[i].name
    } else {
        &module.type_aliases[i - module.type_definitions.len()].name
    }
}

/// Validates that no two type definitions or type aliases of a module
/// share a name.
pub fn validate(module: &Module) -> (result: Result<(), AnalysisError>)
    requires
        module.type_definitions@.len() + module.type_aliases@.len() <= usize::MAX,
    ensures
        match result {
            Ok(()) => duplicate_type_error(*module) is None,
            Err(error) => duplicate_type_error(*module) == Some(error@),
        },
{
    let ghost names = type_names(*module);
    let count = module.type_definitions.len() + module.type_aliases.len();
    let mut definitions = NameIndexMap::new();
    let mut j: usize = 0;
    proof {
        assert(first_duplicate(names, 0) == first_duplicate(names, j as int));
    }
    while j < count
        invariant
            j <= count,
            count == module.type_definitions@.len() + module.type_aliases@.len(),
            names == type_names(*module),
            names.len() == count,
            indexes_first(name_index_map_contents(definitions), names, j as int),
            first_duplicate(names, 0) == first_duplicate(names, j as int),
        decreases count - j,
    {
        let name = name_of_type(module, j);
        proof {
            lemma_first_index_step(names, name@, j as int);
        }
        match definitions.get(name.as_str()) {
            Some(i) => {
                proof {
                    lemma_first_index_step(names, name@, i as int);
                }
                let position = position_of_type(module, i);
                return Err(AnalysisError::DuplicateTypeNames(position.copy(), position.copy()));
            },
            None => {},
        }
        definitions.insert(name.clone(), j);
        proof {
            assert forall|other: Seq<char>| #[trigger]
                name_index_map_contents(definitions).contains_key(other) <==> first_index(
                    names,
                    other,
                    j + 1,
                ) is Some by {
                lemma_first_index_step(names, other, j as int);
            }
            assert forall|other: Seq<char>| #[trigger]
                name_index_map_contents(definitions).contains_key(other) implies first_index(
                    names,
                    other,
                    j + 1,
                ) == Some(name_index_map_contents(definitions)[other] as int) by {
                lemma_first_index_step(names, other, j as int);
            }
        }
        j = j + 1;
    }
    Ok(())
}

} // verus!
