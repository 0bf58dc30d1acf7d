//! Validation that no two function definitions of a module share a name.
use crate::error::{AnalysisError, SpecAnalysisError};
use crate::ir::Module;
use crate::position::SpecPosition;
use crate::tables::{name_index_map_contents, NameIndexMap};
use vstd::prelude::*;

verus! {

/// The index of the first of the first `j` names that is `name`, if any.
pub open spec fn first_index(names: Seq<Seq<char>>, name: Seq<char>, j: int) -> Option<int>
    decreases j,
{
    if j <= 0 {
        None
    } else {
        match first_index(names, name, j - 1) {
            Some(i) => Some(i),
            None => if names[j - 1] == name {
                Some(j - 1)
            } else {
                None
            },
        }
    }
}

/// The first name from the `j`th on that an earlier name equals, with the
/// index of the earliest such name, if any.
pub open spec fn first_duplicate(names: Seq<Seq<char>>, j: int) -> Option<(int, int)>
    decreases names.len() - j,
{
    if j < 0 || j >= names.len() {
        None
    } else {
        match first_index(names, names[j], j) {
            Some(i) => Some((i, j)),
            None => first_duplicate(names, j + 1),
        }
    }
}

/// The names of the function definitions of a module.
pub open spec fn function_names(module: Module) -> Seq<Seq<char>> {
    module.function_definitions@.map_values(|definition: crate::ir::FunctionDefinition| definition.name@)
}

/// The positions of the function definitions of a module.
pub open spec fn function_positions(module: Module) -> Seq<SpecPosition> {
    module.function_definitions@.map_values(
        |definition: crate::ir::FunctionDefinition| definition.position@,
    )
}

/// The error for the first function definition whose name an earlier one
/// has: the positions of the earliest and of that one.
pub open spec fn duplicate_function_error(module: Module) -> Option<SpecAnalysisError> {
    match first_duplicate(function_names(module), 0) {
        Some((i, j)) => Some(
            SpecAnalysisError::DuplicateFunctionNames(
                function_positions(module)[i],
                function_positions(module)[j],
            ),
        ),
        None => None,
    }
}

/// The table holds the first index of each of the first `j` names.
pub open spec fn indexes_first(table: Map<Seq<char>, usize>, names: Seq<Seq<char>>, j: int) -> bool {
    &&& forall|name: Seq<char>| #[trigger]
        table.contains_key(name) <==> first_index(names, name, j) is Some
    &&& forall|name: Seq<char>| #[trigger]
        table.contains_key(name) ==> first_index(names, name, j) == Some(table[name] as int)
}

/// A name's first index among the first `j + 1` names is its first among
/// the first `j`, else `j` if it is the `j`th.
pub proof fn lemma_first_index_step(names: Seq<Seq<char>>, name: Seq<char>, j: int)
    requires
        0 <= j < names.len(),
    ensures
        first_index(names, name, j + 1) == match first_index(names, name, j) {
            Some(i) => Some(i),
            None => if names[j] == name {
                Some(j)
            } else {
                None
            },
        },
        first_index(names, name, j) matches Some(i) ==> 0 <= i < j && names[i] == name,
    decreases j,
{
    if j > 0 {
        lemma_first_index_step(names, name, j - 1);
    }
}

/// Validates that no two function definitions of a module share a name.
pub fn validate(module: &Module) -> (result: Result<(), AnalysisError>)
    ensures
        match result {
            Ok(()) => duplicate_function_error(*module) is None,
            Err(error) => duplicate_function_error(*module) == Some(error@),
        },
{
    let ghost names = function_names(*module);
    let mut definitions = NameIndexMap::new();
    let mut j: usize = 0;
    proof {
        assert(first_duplicate(names, 0) == first_duplicate(names, j as int));
    }
    while j < module.function_definitions.len()
        invariant
            j <= module.function_definitions.len(),
            names == function_names(*module),
            names.len() == module.function_definitions@.len(),
            indexes_first(name_index_map_contents(definitions), names, j as int),
            first_duplicate(names, 0) == first_duplicate(names, j as int),
        decreases module.function_definitions.len() - j,
    {
        let definition = &module.function_definitions[j];
        proof {
            assert(names[j as int] == definition.name@);
            lemma_first_index_step(names, definition.name@, j as int);
        }
        match definitions.get(definition.name.as_str()) {
            Some(i) => {
                proof {
                    lemma_first_index_step(names, definition.name@, i as int);
                }
                return Err(
                    AnalysisError::DuplicateFunctionNames(
                        module.function_definitions[i].position.copy(),
                        definition.position.copy(),
                    ),
                );
            },
            None => {},
        }
        definitions.insert(definition.name.clone(), j);
        proof {
            assert forall|name: Seq<char>| #[trigger]
                name_index_map_contents(definitions).contains_key(name) <==> first_index(
                    names,
                    name,
                    j + 1,
                ) is Some by {
                lemma_first_index_step(names, name, j as int);
            }
            assert forall|name: Seq<char>| #[trigger]
                name_index_map_contents(definitions).contains_key(name) implies first_index(
                    names,
                    name,
                    j + 1,
                ) == Some(name_index_map_contents(definitions)[name] as int) by {
                lemma_first_index_step(names, name, j as int);
            }
        }
        j = j + 1;
    }
    Ok(())
}

} // verus!
