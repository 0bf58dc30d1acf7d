//! Qualification of the names of a module's own type definitions and type
//! aliases by a prefix, and of the record types and references that name
//! them.
use crate::ir::{Module, TypeAlias, TypeDefinition};
use crate::ir_copy::same_function_declarations;
use crate::tables::{name_map_contents, NameMap};
use crate::type_transformer::{
    foreign_declaration_retyped,
    function_definition_retyped,
    module_retyped,
    record_fields_retyped,
    transform,
    type_relation,
    type_transformed,
};
use crate::types::{view_fields, SpecType, Type};
use vstd::prelude::*;
use vstd::string::StringExecFns;

verus! {

/// The new name of a name: its entry in `names`, or the name itself.
pub open spec fn renamed(names: Map<Seq<char>, Seq<char>>, name: Seq<char>) -> Seq<char> {
    if names.contains_key(name) {
        names[name]
    } else {
        name
    }
}

/// Each name of a type definition or type alias of a module that is not
/// external, qualified by a prefix.
pub open spec fn qualified_type_names(module: Module, prefix: Seq<char>) -> Map<Seq<char>, Seq<char>> {
    Map::new(
        |name: Seq<char>|
            (exists|i: int|
                0 <= i < module.type_definitions@.len() && !(
                #[trigger] module.type_definitions@[i]).is_external
                    && module.type_definitions@[i].name@ == name) || (exists|i: int|
                0 <= i < module.type_aliases@.len() && !(#[trigger] module.type_aliases@[i]).is_external
                    && module.type_aliases@[i].name@ == name),
        |name: Seq<char>| prefix + name,
    )
}

/// `new` is what `old` becomes: a record type or reference with its name
/// renamed; any other type stays.
pub open spec fn type_renaming(names: Map<Seq<char>, Seq<char>>, old: Type, new: Type) -> bool {
    match old@ {
        SpecType::Record { name, original_name, position } => new@ == SpecType::Record {
            name: renamed(names, name),
            original_name,
            position,
        },
        SpecType::Reference { name, position } => new@ == SpecType::Reference {
            name: renamed(names, name),
            position,
        },
        _ => new@ == old@,
    }
}

/// A type definition with its name renamed and, unless it is external, its
/// field types transformed.
pub open spec fn type_definition_qualified(
    old: TypeDefinition,
    new: TypeDefinition,
    names: Map<Seq<char>, Seq<char>>,
    replaced: spec_fn(Type, Type) -> bool,
) -> bool {
    &&& new.name@ == renamed(names, old.name@)
    &&& new.original_name@ == old.original_name@
    &&& if old.is_external {
        view_fields(new.fields@) == view_fields(old.fields@)
    } else {
        record_fields_retyped(old.fields@, new.fields@, replaced)
    }
    &&& new.is_open == old.is_open
    &&& new.is_public == old.is_public
    &&& new.is_external == old.is_external
    &&& new.position@ == old.position@
}

/// A type alias with its name renamed and, unless it is external, its type
/// transformed.
pub open spec fn type_alias_qualified(
    old: TypeAlias,
    new: TypeAlias,
    names: Map<Seq<char>, Seq<char>>,
    replaced: spec_fn(Type, Type) -> bool,
) -> bool {
    &&& new.name@ == renamed(names, old.name@)
    &&& new.original_name@ == old.original_name@
    &&& if old.is_external {
        new.type_@ == old.type_@
    } else {
        type_transformed(old.type_, new.type_, replaced)
    }
    &&& new.is_public == old.is_public
    &&& new.is_external == old.is_external
    &&& new.position@ == old.position@
}

/// `new` is `old` with its own type definitions and aliases renamed by
/// `names`, and its types transformed as `replaced` relates them.
pub open spec fn qualified_by(
    old: Module,
    new: Module,
    names: Map<Seq<char>, Seq<char>>,
    replaced: spec_fn(Type, Type) -> bool,
) -> bool {
    &&& new.type_definitions@.len() == old.type_definitions@.len()
    &&& forall|i: int|
        0 <= i < old.type_definitions@.len() ==> type_definition_qualified(
            #[trigger] old.type_definitions@[i],
            new.type_definitions@[i],
            names,
            replaced,
        )
    &&& new.type_aliases@.len() == old.type_aliases@.len()
    &&& forall|i: int|
        0 <= i < old.type_aliases@.len() ==> type_alias_qualified(
            #[trigger] old.type_aliases@[i],
            new.type_aliases@[i],
            names,
            replaced,
        )
    &&& new.foreign_declarations@.len() == old.foreign_declarations@.len()
    &&& forall|i: int|
        0 <= i < old.foreign_declarations@.len() ==> foreign_declaration_retyped(
            #[trigger] old.foreign_declarations@[i],
            new.foreign_declarations@[i],
            replaced,
        )
    &&& same_function_declarations(old.function_declarations@, new.function_declarations@)
    &&& new.function_definitions@.len() == old.function_definitions@.len()
    &&& forall|i: int|
        0 <= i < old.function_definitions@.len() ==> function_definition_retyped(
            #[trigger] old.function_definitions@[i],
            new.function_definitions@[i],
            replaced,
        )
    &&& new.position@ == old.position@
}

/// `new` is `old` with its own type definitions and aliases renamed by the
/// names qualified by `prefix`, and every record type and reference in it
/// renamed likewise, as `type_transformer::transform` does it.
pub open spec fn types_qualified(old: Module, new: Module, prefix: Seq<char>) -> bool {
    exists|replaced: spec_fn(Type, Type) -> bool|
        #![trigger qualified_by(old, new, qualified_type_names(old, prefix), replaced)]
        qualified_by(old, new, qualified_type_names(old, prefix), replaced) && forall|
            a: Type,
            b: Type,
        | #[trigger] replaced(a, b) ==> type_renaming(qualified_type_names(old, prefix), a, b)
}

fn rename(names: &NameMap, name: &String) -> (new_name: String)
    ensures
        new_name@ == renamed(name_map_contents(*names), name@),
{
    match names.get(name.as_str()) {
        Some(new_name) => new_name.clone(),
        None => name.clone(),
    }
}

fn prefixed(prefix: &str, name: &String) -> (qualified: String)
    ensures
        qualified@ == prefix@ + name@,
{
    let mut qualified = String::from_str(prefix);
    qualified.append(name.as_str());
    qualified
}

/// What a type becomes under qualification.
pub fn rename_type(names: &NameMap, type_: &Type) -> (renamed_type: Type)
    ensures
        type_renaming(name_map_contents(*names), *type_, renamed_type),
{
    match type_ {
        Type::Record { name, original_name, position } => Type::Record {
            name: rename(names, name),
            original_name: original_name.clone(),
            position: position.copy(),
        },
        Type::Reference { name, position } => Type::Reference {
            name: rename(names, name),
            position: position.copy(),
        },
        _ => type_.clone(),
    }
}

/// Qualifies the names of the type definitions and type aliases of a
/// module that are not external by a prefix, and the record types and
/// references that name them.
pub fn qualify(module: &Module, prefix: &str) -> (qualified: Module)
    ensures
        types_qualified(*module, qualified, prefix@),
{
    let mut names = NameMap::new();
    let mut i: usize = 0;
    while i < module.type_definitions.len()
        invariant
            i <= module.type_definitions.len(),
            name_map_contents(names) == Map::new(
                |name: Seq<char>|
                    exists|k: int|
                        0 <= k < i && !(#[trigger] module.type_definitions@[k]).is_external
                            && module.type_definitions@[k].name@ == name,
                |name: Seq<char>| prefix@ + name,
            ),
        decreases module.type_definitions.len() - i,
    {
        let definition = &module.type_definitions[i];
        if !definition.is_external {
            names.insert(definition.name.clone(), prefixed(prefix, &definition.name));
        }
        proof {
            assert(name_map_contents(names) =~= Map::new(
                |name: Seq<char>|
                    exists|k: int|
                        0 <= k < i + 1 && !(#[trigger] module.type_definitions@[k]).is_external
                            && module.type_definitions@[k].name@ == name,
                |name: Seq<char>| prefix@ + name,
            ));
        }
        i = i + 1;
    }
    let mut i: usize = 0;
    while i < module.type_aliases.len()
        invariant
            i <= module.type_aliases.len(),
            name_map_contents(names) == Map::new(
                |name: Seq<char>|
                    (exists|k: int|
                        0 <= k < module.type_definitions@.len() && !(
                        #[trigger] module.type_definitions@[k]).is_external
                            && module.type_definitions@[k].name@ == name) || (exists|k: int|
                        0 <= k < i && !(#[trigger] module.type_aliases@[k]).is_external
                            && module.type_aliases@[k].name@ == name),
                |name: Seq<char>| prefix@ + name,
            ),
        decreases module.type_aliases.len() - i,
    {
        let alias = &module.type_aliases[i];
        if !alias.is_external {
            names.insert(alias.name.clone(), prefixed(prefix, &alias.name));
        }
        proof {
            assert(name_map_contents(names) =~= Map::new(
                |name: Seq<char>|
                    (exists|k: int|
                        0 <= k < module.type_definitions@.len() && !(
                        #[trigger] module.type_definitions@[k]).is_external
                            && module.type_definitions@[k].name@ == name) || (exists|k: int|
                        0 <= k < i + 1 && !(#[trigger] module.type_aliases@[k]).is_external
                            && module.type_aliases@[k].name@ == name),
                |name: Seq<char>| prefix@ + name,
            ));
        }
        i = i + 1;
    }
    proof {
        assert(name_map_contents(names) =~= qualified_type_names(*module, prefix@));
    }
    let names = &names;
    let rename_closure = |type_: &Type| -> (renamed_type: Type)
        ensures
            type_renaming(name_map_contents(*names), *type_, renamed_type),
        { rename_type(names, type_) };
    let transformed = transform(module, &rename_closure);
    let ghost replaced = type_relation(rename_closure);
    proof {
        assert(module_retyped(*module, transformed, replaced));
    }
    proof {
        assert forall|a: Type, b: Type| #[trigger] replaced(a, b) implies type_renaming(
            name_map_contents(*names),
            a,
            b,
        ) by {
            assert(rename_closure.ensures((&a,), b));
        }
    }
    let Module {
        type_definitions: retyped_definitions,
        type_aliases: retyped_aliases,
        foreign_declarations,
        function_declarations,
        function_definitions,
        position,
    } = transformed;
    let mut type_definitions: Vec<TypeDefinition> = Vec::new();
    let mut remaining = retyped_definitions;
    let ghost all = remaining@;
    let mut i: usize = 0;
    while i < module.type_definitions.len()
        invariant
            i <= module.type_definitions.len(),
            all.len() == module.type_definitions@.len(),
            remaining@ == all.skip(i as int),
            type_definitions@.len() == i,
            forall|k: int|
                0 <= k < module.type_definitions@.len() ==> crate::type_transformer::type_definition_retyped(
                    #[trigger] module.type_definitions@[k],
                    all[k],
                    replaced,
                ),
            forall|k: int|
                0 <= k < i ==> type_definition_qualified(
                    #[trigger] module.type_definitions@[k],
                    type_definitions@[k],
                    name_map_contents(*names),
                    replaced,
                ),
        decreases module.type_definitions.len() - i,
    {
        let definition = remaining.remove(0);
        proof {
            assert(remaining@ =~= all.skip(i + 1));
        }
        let name = rename(names, &definition.name);
        let TypeDefinition {
            original_name,
            fields,
            is_open,
            is_public,
            is_external,
            position,
            ..
        } = definition;
        type_definitions.push(
            TypeDefinition { name, original_name, fields, is_open, is_public, is_external, position },
        );
        i = i + 1;
    }
    let mut type_aliases: Vec<TypeAlias> = Vec::new();
    let mut remaining = retyped_aliases;
    let ghost all = remaining@;
    let mut i: usize = 0;
    while i < module.type_aliases.len()
        invariant
            i <= module.type_aliases.len(),
            all.len() == module.type_aliases@.len(),
            remaining@ == all.skip(i as int),
            type_aliases@.len() == i,
            forall|k: int|
                0 <= k < module.type_aliases@.len() ==> crate::type_transformer::type_alias_retyped(
                    #[trigger] module.type_aliases@[k],
                    all[k],
                    replaced,
                ),
            forall|k: int|
                0 <= k < i ==> type_alias_qualified(
                    #[trigger] module.type_aliases@[k],
                    type_aliases@[k],
                    name_map_contents(*names),
                    replaced,
                ),
        decreases module.type_aliases.len() - i,
    {
        let alias = remaining.remove(0);
        proof {
            assert(remaining@ =~= all.skip(i + 1));
        }
        let name = rename(names, &alias.name);
        let TypeAlias { original_name, type_, is_public, is_external, position, .. } = alias;
        type_aliases.push(TypeAlias { name, original_name, type_, is_public, is_external, position });
        i = i + 1;
    }
    let qualified = Module {
        type_definitions,
        type_aliases,
        foreign_declarations,
        function_declarations,
        function_definitions,
        position,
    };
    proof {
        assert(qualified_by(*module, qualified, name_map_contents(*names), replaced));
    }
    qualified
}

} // verus!
