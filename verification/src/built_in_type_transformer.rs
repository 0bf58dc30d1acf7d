//! Replacement of references to built-in types by those types, where no
//! type definition or alias of the module takes the name.
use crate::ir::Module;
use crate::position::SpecPosition;
use crate::tables::{name_set_contents, NameSet};
use crate::type_transformer::{module_retyped, transform as transform_types, type_relation};
use crate::types::{clone_type, SpecType, Type};
use vstd::prelude::*;
use vstd::string::StringExecFns;

verus! {

/// The built-in type that a name stands for, at a position.
pub open spec fn built_in_type(name: Seq<char>, position: SpecPosition) -> Option<SpecType> {
    if name == "any"@ {
        Some(SpecType::Any { position })
    } else if name == "boolean"@ {
        Some(SpecType::Boolean { position })
    } else if name == "error"@ {
        Some(SpecType::Error { position })
    } else if name == "none"@ {
        Some(SpecType::Unit { position })
    } else if name == "number"@ {
        Some(SpecType::Number { position })
    } else if name == "string"@ {
        Some(SpecType::String { position })
    } else {
        None
    }
}

/// `new` is what `old` becomes: a reference to a built-in type that none of
/// `names` overrides becomes that type at the reference's position; any
/// other type stays.
pub open spec fn built_in_type_replacement(names: Set<Seq<char>>, old: Type, new: Type) -> bool {
    match old {
        Type::Reference { name, position } => if !names.contains(name@) && built_in_type(
            name@,
            position@,
        ) is Some {
            new@ == built_in_type(name@, position@).unwrap()
        } else {
            new@ == old@
        },
        _ => new@ == old@,
    }
}

/// The names of the type definitions and type aliases of a module.
pub open spec fn defined_type_names(module: Module) -> Set<Seq<char>> {
    Set::new(
        |name: Seq<char>|
            (exists|i: int|
                0 <= i < module.type_definitions@.len() && (
                #[trigger] module.type_definitions@[i]).name@ == name) || (exists|i: int|
                0 <= i < module.type_aliases@.len() && (#[trigger] module.type_aliases@[i]).name@
                    == name),
    )
}

/// `new` is `old` with its types transformed bottom up as
/// `built_in_type_replacement` says, given the names that `old` defines.
pub open spec fn built_in_types_replaced(old: Module, new: Module) -> bool {
    exists|replaced: spec_fn(Type, Type) -> bool|
        #![trigger module_retyped(old, new, replaced)]
        module_retyped(old, new, replaced) && forall|a: Type, b: Type|
            #[trigger] replaced(a, b) ==> built_in_type_replacement(defined_type_names(old), a, b)
}

fn is_named(name: &String, literal: &str) -> (equal: bool)
    ensures
        equal == (name@ == literal@),
{
    let literal = String::from_str(literal);
    name.eq(&literal)
}

/// What a type becomes, given the names that the module defines.
pub fn replace_type(names: &NameSet, type_: &Type) -> (replaced: Type)
    ensures
        built_in_type_replacement(name_set_contents(*names), *type_, replaced),
{
    match type_ {
        Type::Reference { name, position } => {
            if names.contains(name.as_str()) {
                clone_type(type_)
            } else if is_named(name, "any") {
                Type::Any { position: position.copy() }
            } else if is_named(name, "boolean") {
                Type::Boolean { position: position.copy() }
            } else if is_named(name, "error") {
                Type::Error { position: position.copy() }
            } else if is_named(name, "none") {
                Type::Unit { position: position.copy() }
            } else if is_named(name, "number") {
                Type::Number { position: position.copy() }
            } else if is_named(name, "string") {
                Type::String { position: position.copy() }
            } else {
                clone_type(type_)
            }
        },
        _ => clone_type(type_),
    }
}

/// Replaces references to built-in types by those types, unless a type
/// definition or alias of the module takes the name.
pub fn transform(module: &Module) -> (transformed: Module)
    ensures
        built_in_types_replaced(*module, transformed),
{
    let mut names = NameSet::new();
    let mut i: usize = 0;
    while i < module.type_definitions.len()
        invariant
            i <= module.type_definitions.len(),
            forall|name: Seq<char>|
                name_set_contents(names).contains(name) <==> exists|k: int|
                    0 <= k < i && (#[trigger] module.type_definitions@[k]).name@ == name,
        decreases module.type_definitions.len() - i,
    {
        names.insert(module.type_definitions[i].name.clone());
        i = i + 1;
    }
    let mut i: usize = 0;
    while i < module.type_aliases.len()
        invariant
            i <= module.type_aliases.len(),
            forall|name: Seq<char>|
                name_set_contents(names).contains(name) <==> (exists|k: int|
                    0 <= k < module.type_definitions@.len() && (
                    #[trigger] module.type_definitions@[k]).name@ == name) || (exists|k: int|
                    0 <= k < i && (#[trigger] module.type_aliases@[k]).name@ == name),
        decreases module.type_aliases.len() - i,
    {
        names.insert(module.type_aliases[i].name.clone());
        i = i + 1;
    }
    proof {
        assert(name_set_contents(names) =~= defined_type_names(*module));
    }
    let names = &names;
    let replace = |type_: &Type| -> (replaced: Type)
        ensures
            built_in_type_replacement(name_set_contents(*names), *type_, replaced),
        { replace_type(names, type_) };
    let transformed = transform_types(module, &replace);
    proof {
        let replaced = type_relation(replace);
        assert forall|a: Type, b: Type| #[trigger] replaced(a, b) implies built_in_type_replacement(
            defined_type_names(*module),
            a,
            b,
        ) by {
            assert(replace.ensures((&a,), b));
        }
        assert(module_retyped(*module, transformed, replaced));
    }
    transformed
}

} // verus!
