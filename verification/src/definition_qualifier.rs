//! Qualification of the names of a module's foreign declarations and
//! function definitions by a prefix, and of the variables that refer to
//! them.
use crate::ir::{ForeignDeclaration, FunctionDefinition, Module};
use crate::ir_copy::{same_function_declarations, same_type_aliases, same_type_definitions};
use crate::position::Position;
use crate::tables::{name_map_contents, NameMap};
use crate::ir::Expression;
use crate::variable_renamer::{rename, renames, variables_renamed};
use crate::variable_transformer::{substituted_lambda, variables_replaced};
use vstd::prelude::*;
use vstd::string::StringExecFns;

verus! {

/// The names that a module defines by foreign declarations and function
/// definitions.
pub open spec fn defined_names(module: Module) -> Set<Seq<char>> {
    Set::new(
        |name: Seq<char>|
            (exists|i: int|
                0 <= i < module.foreign_declarations@.len() && (
                #[trigger] module.foreign_declarations@[i]).name@ == name) || (exists|i: int|
                0 <= i < module.function_definitions@.len() && (
                #[trigger] module.function_definitions@[i]).name@ == name),
    )
}

/// Each name that a module defines, qualified by a prefix.
pub open spec fn qualified_names(module: Module, prefix: Seq<char>) -> Map<Seq<char>, Seq<char>> {
    Map::new(|name: Seq<char>| defined_names(module).contains(name), |name: Seq<char>| prefix + name)
}

/// `new` is `old` with the names of its foreign declarations and function
/// definitions qualified by `prefix`, and the free variables of its
/// function definitions renamed as `replaced` does.
pub open spec fn qualified_by(
    old: Module,
    new: Module,
    prefix: Seq<char>,
    replaced: spec_fn(String, Position, Expression) -> bool,
) -> bool {
    &&& same_type_definitions(old.type_definitions@, new.type_definitions@)
    &&& same_type_aliases(old.type_aliases@, new.type_aliases@)
    &&& new.foreign_declarations@.len() == old.foreign_declarations@.len()
    &&& forall|i: int|
        0 <= i < old.foreign_declarations@.len() ==> {
            let a = #[trigger] old.foreign_declarations@[i];
            let b = new.foreign_declarations@[i];
            &&& b.name@ == prefix + a.name@
            &&& b.foreign_name@ == a.foreign_name@
            &&& b.calling_convention == a.calling_convention
            &&& b.type_@ == a.type_@
            &&& b.position@ == a.position@
        }
    &&& same_function_declarations(old.function_declarations@, new.function_declarations@)
    &&& new.function_definitions@.len() == old.function_definitions@.len()
    &&& forall|i: int|
        0 <= i < old.function_definitions@.len() ==> {
            let a = #[trigger] old.function_definitions@[i];
            let b = new.function_definitions@[i];
            &&& b.name@ == prefix + a.name@
            &&& b.original_name@ == a.original_name@
            &&& substituted_lambda(a.lambda, b.lambda, Seq::empty(), replaced)
            &&& b.foreign_definition_configuration == a.foreign_definition_configuration
            &&& b.is_public == a.is_public
            &&& b.position@ == a.position@
        }
    &&& new.position@ == old.position@
}

/// `new` is `old` with its foreign declarations and function definitions
/// qualified by `prefix`, and every free variable that names one of them
/// renamed to its qualified name.
pub open spec fn qualified(old: Module, new: Module, prefix: Seq<char>) -> bool {
    exists|replaced: spec_fn(String, Position, Expression) -> bool|
        #![trigger qualified_by(old, new, prefix, replaced)]
        qualified_by(old, new, prefix, replaced) && renames(
            replaced,
            qualified_names(old, prefix),
        )
}

fn prefixed(prefix: &str, name: &String) -> (qualified: String)
    ensures
        qualified@ == prefix@ + name@,
{
    let mut qualified = String::from_str(prefix);
    qualified.append(name.as_str());
    qualified
}

/// Qualifies the names of the foreign declarations and function
/// definitions of a module by a prefix, and the variables that refer to
/// them.
pub fn qualify(module: &Module, prefix: &str) -> (qualified_module: Module)
    ensures
        qualified(*module, qualified_module, prefix@),
{
    let mut names = NameMap::new();
    let mut i: usize = 0;
    while i < module.foreign_declarations.len()
        invariant
            i <= module.foreign_declarations.len(),
            name_map_contents(names) == Map::new(
                |name: Seq<char>|
                    exists|k: int|
                        0 <= k < i && (#[trigger] module.foreign_declarations@[k]).name@ == name,
                |name: Seq<char>| prefix@ + name,
            ),
        decreases module.foreign_declarations.len() - i,
    {
        let name = &module.foreign_declarations[i].name;
        names.insert(name.clone(), prefixed(prefix, name));
        proof {
            assert(name_map_contents(names) =~= Map::new(
                |name: Seq<char>|
                    exists|k: int|
                        0 <= k < i + 1 && (#[trigger] module.foreign_declarations@[k]).name@
                            == name,
                |name: Seq<char>| prefix@ + name,
            ));
        }
        i = i + 1;
    }
    let mut i: usize = 0;
    while i < module.function_definitions.len()
        invariant
            i <= module.function_definitions.len(),
            name_map_contents(names) == Map::new(
                |name: Seq<char>|
                    (exists|k: int|
                        0 <= k < module.foreign_declarations@.len() && (
                        #[trigger] module.foreign_declarations@[k]).name@ == name) || (exists|
                        k: int,
                    |
                        0 <= k < i && (#[trigger] module.function_definitions@[k]).name@ == name),
                |name: Seq<char>| prefix@ + name,
            ),
        decreases module.function_definitions.len() - i,
    {
        let name = &module.function_definitions[i].name;
        names.insert(name.clone(), prefixed(prefix, name));
        proof {
            assert(name_map_contents(names) =~= Map::new(
                |name: Seq<char>|
                    (exists|k: int|
                        0 <= k < module.foreign_declarations@.len() && (
                        #[trigger] module.foreign_declarations@[k]).name@ == name) || (exists|
                        k: int,
                    |
                        0 <= k < i + 1 && (#[trigger] module.function_definitions@[k]).name@
                            == name),
                |name: Seq<char>| prefix@ + name,
            ));
        }
        i = i + 1;
    }
    proof {
        assert(name_map_contents(names) =~= qualified_names(*module, prefix@));
    }
    let renamed = rename(module, &names);
    let ghost replaced = choose|replaced: spec_fn(String, Position, Expression) -> bool|
        variables_replaced(*module, renamed, replaced) && renames(
            replaced,
            name_map_contents(names),
        );
    let Module {
        type_definitions,
        type_aliases,
        foreign_declarations: renamed_foreign_declarations,
        function_declarations,
        function_definitions: renamed_definitions,
        position,
    } = renamed;
    let mut foreign_declarations: Vec<ForeignDeclaration> = Vec::new();
    let mut i: usize = 0;
    while i < module.foreign_declarations.len()
        invariant
            i <= module.foreign_declarations.len(),
            renamed_foreign_declarations@.len() == module.foreign_declarations@.len(),
            foreign_declarations@.len() == i,
            forall|k: int|
                0 <= k < module.foreign_declarations@.len() ==> {
                    let a = #[trigger] module.foreign_declarations@[k];
                    let b = renamed_foreign_declarations@[k];
                    &&& b.name@ == a.name@
                    &&& b.foreign_name@ == a.foreign_name@
                    &&& b.calling_convention == a.calling_convention
                    &&& b.type_@ == a.type_@
                    &&& b.position@ == a.position@
                },
            forall|k: int|
                0 <= k < i ==> {
                    let a = #[trigger] module.foreign_declarations@[k];
                    let b = foreign_declarations@[k];
                    &&& b.name@ == prefix@ + a.name@
                    &&& b.foreign_name@ == a.foreign_name@
                    &&& b.calling_convention == a.calling_convention
                    &&& b.type_@ == a.type_@
                    &&& b.position@ == a.position@
                },
        decreases module.foreign_declarations.len() - i,
    {
        let declaration = &renamed_foreign_declarations[i];
        foreign_declarations.push(
            ForeignDeclaration {
                name: prefixed(prefix, &declaration.name),
                foreign_name: declaration.foreign_name.clone(),
                calling_convention: declaration.calling_convention,
                type_: declaration.type_.clone(),
                position: declaration.position.copy(),
            },
        );
        i = i + 1;
    }
    let mut function_definitions: Vec<FunctionDefinition> = Vec::new();
    let mut remaining = renamed_definitions;
    let ghost all = remaining@;
    let mut i: usize = 0;
    while i < module.function_definitions.len()
        invariant
            i <= module.function_definitions.len(),
            all.len() == module.function_definitions@.len(),
            remaining@ == all.skip(i as int),
            function_definitions@.len() == i,
            forall|k: int|
                0 <= k < module.function_definitions@.len() ==> {
                    let a = #[trigger] module.function_definitions@[k];
                    let b = all[k];
                    &&& b.name@ == a.name@
                    &&& b.original_name@ == a.original_name@
                    &&& substituted_lambda(a.lambda, b.lambda, Seq::empty(), replaced)
                    &&& b.foreign_definition_configuration == a.foreign_definition_configuration
                    &&& b.is_public == a.is_public
                    &&& b.position@ == a.position@
                },
            forall|k: int|
                0 <= k < i ==> {
                    let a = #[trigger] module.function_definitions@[k];
                    let b = function_definitions@[k];
                    &&& b.name@ == prefix@ + a.name@
                    &&& b.original_name@ == a.original_name@
                    &&& substituted_lambda(a.lambda, b.lambda, Seq::empty(), replaced)
                    &&& b.foreign_definition_configuration == a.foreign_definition_configuration
                    &&& b.is_public == a.is_public
                    &&& b.position@ == a.position@
                },
        decreases module.function_definitions.len() - i,
    {
        let definition = remaining.remove(0);
        proof {
            assert(remaining@ =~= all.skip(i + 1));
        }
        let name = prefixed(prefix, &definition.name);
        let FunctionDefinition {
            original_name,
            lambda,
            foreign_definition_configuration,
            is_public,
            position,
            ..
        } = definition;
        function_definitions.push(
            FunctionDefinition {
                name,
                original_name,
                lambda,
                foreign_definition_configuration,
                is_public,
                position,
            },
        );
        i = i + 1;
    }
    let qualified_module = Module {
        type_definitions,
        type_aliases,
        foreign_declarations,
        function_declarations,
        function_definitions,
        position,
    };
    proof {
        assert(qualified_by(*module, qualified_module, prefix@, replaced));
    }
    qualified_module
}

} // verus!
