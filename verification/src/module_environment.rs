//! The types of the names that a module defines or declares.
use crate::ir::{ForeignDeclaration, FunctionDeclaration, FunctionDefinition, Module};
use crate::tables::{type_map_contents, TypeMap};
use crate::type_extractor::{extract_from_lambda, lambda_type};
use crate::types::SpecType;
use vstd::prelude::*;

verus! {

/// A map with names bound to types one after another, a later binding of
/// a name replacing an earlier one.
pub open spec fn bind_all<V>(map: Map<Seq<char>, V>, entries: Seq<(Seq<char>, V)>) -> Map<
    Seq<char>,
    V,
>
    decreases entries.len(),
{
    if entries.len() == 0 {
        map
    } else {
        bind_all(map, entries.drop_last()).insert(entries.last().0, entries.last().1)
    }
}

/// The names and types of function declarations.
pub open spec fn function_declaration_entries(declarations: Seq<FunctionDeclaration>) -> Seq<
    (Seq<char>, SpecType),
> {
    declarations.map_values(|declaration: FunctionDeclaration| (declaration.name@, declaration.type_@))
}

/// The names and types of foreign declarations.
pub open spec fn foreign_declaration_entries(declarations: Seq<ForeignDeclaration>) -> Seq<
    (Seq<char>, SpecType),
> {
    declarations.map_values(|declaration: ForeignDeclaration| (declaration.name@, declaration.type_@))
}

/// The names and lambda types of function definitions.
pub open spec fn function_definition_entries(definitions: Seq<FunctionDefinition>) -> Seq<
    (Seq<char>, SpecType),
> {
    definitions.map_values(|definition: FunctionDefinition| (definition.name@, lambda_type(definition.lambda)))
}

/// The types of the names of a module: its function declarations, then its
/// foreign declarations, then its function definitions, a later one of a
/// name replacing an earlier one.
pub open spec fn environment(module: Module) -> Map<Seq<char>, SpecType> {
    bind_all(
        bind_all(
            bind_all(Map::empty(), function_declaration_entries(module.function_declarations@)),
            foreign_declaration_entries(module.foreign_declarations@),
        ),
        function_definition_entries(module.function_definitions@),
    )
}

/// The types of the names that a module defines or declares.
pub fn create(module: &Module) -> (variables: TypeMap)
    ensures
        type_map_contents(variables) == environment(*module),
{
    let mut variables = TypeMap::new();
    proof {
        assert(type_map_contents(variables) =~= Map::<Seq<char>, SpecType>::empty());
    }
    let ghost start = type_map_contents(variables);
    let mut i: usize = 0;
    while i < module.function_declarations.len()
        invariant
            i <= module.function_declarations.len(),
            type_map_contents(variables) == bind_all(
                start,
                function_declaration_entries(module.function_declarations@).take(i as int),
            ),
        decreases module.function_declarations.len() - i,
    {
        let declaration = &module.function_declarations[i];
        variables.insert(declaration.name.clone(), declaration.type_.clone());
        proof {
            assert(function_declaration_entries(module.function_declarations@).take(
                i + 1,
            ).drop_last() =~= function_declaration_entries(module.function_declarations@).take(
                i as int,
            ));
        }
        i = i + 1;
    }
    proof {
        assert(function_declaration_entries(module.function_declarations@).take(i as int)
            =~= function_declaration_entries(module.function_declarations@));
    }
    let ghost after_declarations = type_map_contents(variables);
    let mut i: usize = 0;
    while i < module.foreign_declarations.len()
        invariant
            i <= module.foreign_declarations.len(),
            type_map_contents(variables) == bind_all(
                after_declarations,
                foreign_declaration_entries(module.foreign_declarations@).take(i as int),
            ),
        decreases module.foreign_declarations.len() - i,
    {
        let declaration = &module.foreign_declarations[i];
        variables.insert(declaration.name.clone(), declaration.type_.clone());
        proof {
            assert(foreign_declaration_entries(module.foreign_declarations@).take(
                i + 1,
            ).drop_last() =~= foreign_declaration_entries(module.foreign_declarations@).take(
                i as int,
            ));
        }
        i = i + 1;
    }
    proof {
        assert(foreign_declaration_entries(module.foreign_declarations@).take(i as int)
            =~= foreign_declaration_entries(module.foreign_declarations@));
    }
    let ghost after_foreign = type_map_contents(variables);
    let mut i: usize = 0;
    while i < module.function_definitions.len()
        invariant
            i <= module.function_definitions.len(),
            type_map_contents(variables) == bind_all(
                after_foreign,
                function_definition_entries(module.function_definitions@).take(i as int),
            ),
        decreases module.function_definitions.len() - i,
    {
        let definition = &module.function_definitions[i];
        variables.insert(definition.name.clone(), extract_from_lambda(&definition.lambda));
        proof {
            assert(function_definition_entries(module.function_definitions@).take(
                i + 1,
            ).drop_last() =~= function_definition_entries(module.function_definitions@).take(
                i as int,
            ));
        }
        i = i + 1;
    }
    proof {
        assert(function_definition_entries(module.function_definitions@).take(i as int)
            =~= function_definition_entries(module.function_definitions@));
    }
    variables
}

} // verus!
