//! Replacement of references to built-in types by those types, which carry
//! a position of their own, unless a type definition takes the name.
use crate::built_in_type_transformer::built_in_type;
use crate::ir::Module;
use crate::position::{Position, SpecPosition};
use crate::tables::{type_map_contents, TypeMap};
use crate::type_transformer::{module_retyped, transform as transform_types, type_relation};
use crate::types::{clone_type, SpecType, Type};
use vstd::prelude::*;
use vstd::string::StringExecFns;

verus! {

/// The position of built-in types.
pub open spec fn built_in_position() -> SpecPosition {
    SpecPosition { path: "<built-in>"@, line_number: 1, column_number: 1, line: ""@ }
}

/// The names of the type definitions of a module.
pub open spec fn type_definition_names(module: Module) -> Set<Seq<char>> {
    Set::new(
        |name: Seq<char>|
            exists|i: int|
                0 <= i < module.type_definitions@.len() && (
                #[trigger] module.type_definitions@[i]).name@ == name,
    )
}

/// `new` is what `old` becomes: a reference to a built-in type that none of
/// `names` overrides becomes that type at the built-in position; any other
/// type stays.
pub open spec fn built_in_reference_replacement(names: Set<Seq<char>>, old: Type, new: Type) -> bool {
    match old {
        Type::Reference { name, position } => if !names.contains(name@) && built_in_type(
            name@,
            built_in_position(),
        ) is Some {
            new@ == built_in_type(name@, built_in_position()).unwrap()
        } else {
            new@ == old@
        },
        _ => new@ == old@,
    }
}

/// `new` is `old` with its types transformed bottom up as
/// `built_in_reference_replacement` says, given the names of the type
/// definitions of `old`.
pub open spec fn built_in_references_replaced(old: Module, new: Module) -> bool {
    exists|replaced: spec_fn(Type, Type) -> bool|
        #![trigger module_retyped(old, new, replaced)]
        module_retyped(old, new, replaced) && forall|a: Type, b: Type|
            #[trigger] replaced(a, b) ==> built_in_reference_replacement(
                type_definition_names(old),
                a,
                b,
            )
}

/// The built-in types under their names.
pub fn built_in_types() -> (types: TypeMap)
    ensures
        forall|name: Seq<char>|
            #[trigger] type_map_contents(types).contains_key(name) <==> built_in_type(
                name,
                built_in_position(),
            ) is Some,
        forall|name: Seq<char>|
            #[trigger] type_map_contents(types).contains_key(name) ==> type_map_contents(
                types,
            )[name] == built_in_type(name, built_in_position()).unwrap(),
{
    let position = Position::new("<built-in>", 1, 1, "");
    let mut types = TypeMap::new();
    types.insert(String::from_str("any"), Type::Any { position: position.copy() });
    types.insert(String::from_str("boolean"), Type::Boolean { position: position.copy() });
    types.insert(String::from_str("error"), Type::Error { position: position.copy() });
    types.insert(String::from_str("none"), Type::Unit { position: position.copy() });
    types.insert(String::from_str("number"), Type::Number { position: position.copy() });
    types.insert(String::from_str("string"), Type::String { position });
    proof {
        reveal_strlit("any");
        reveal_strlit("boolean");
        reveal_strlit("error");
        reveal_strlit("none");
        reveal_strlit("number");
        reveal_strlit("string");
        assert("any"@.len() == 3 && "none"@.len() == 4 && "error"@.len() == 5);
        assert("number"@.len() == 6 && "string"@.len() == 6 && "boolean"@.len() == 7);
        assert("number"@[0] != "string"@[0]);
        assert forall|name: Seq<char>|
            #[trigger] type_map_contents(types).contains_key(name) <==> built_in_type(
                name,
                built_in_position(),
            ) is Some by {}
        assert forall|name: Seq<char>|
            #[trigger] type_map_contents(types).contains_key(name) implies type_map_contents(
                types,
            )[name] == built_in_type(name, built_in_position()).unwrap() by {
        }
    }
    types
}

/// Replaces references to built-in types by those types, unless a type
/// definition of the module takes the name.
pub fn replace(module: &Module) -> (replaced: Module)
    ensures
        built_in_references_replaced(*module, replaced),
{
    let mut types = built_in_types();
    let mut i: usize = 0;
    while i < module.type_definitions.len()
        invariant
            i <= module.type_definitions.len(),
            forall|name: Seq<char>|
                #[trigger] type_map_contents(types).contains_key(name) <==> (built_in_type(
                    name,
                    built_in_position(),
                ) is Some && !exists|k: int|
                    0 <= k < i && (#[trigger] module.type_definitions@[k]).name@ == name),
            forall|name: Seq<char>|
                #[trigger] type_map_contents(types).contains_key(name) ==> type_map_contents(
                    types,
                )[name] == built_in_type(name, built_in_position()).unwrap(),
        decreases module.type_definitions.len() - i,
    {
        types.remove(module.type_definitions[i].name.as_str());
        i = i + 1;
    }
    let types = &types;
    let replace = |type_: &Type| -> (replaced: Type)
        ensures
            type_ is Reference && type_map_contents(*types).contains_key(type_->Reference_name@)
                ==> replaced@ == type_map_contents(*types)[type_->Reference_name@],
            !(type_ is Reference && type_map_contents(*types).contains_key(
                type_->Reference_name@,
            )) ==> replaced@ == type_@,
        {
            match type_ {
                Type::Reference { name, .. } => match types.get(name.as_str()) {
                    Some(built_in) => clone_type(built_in),
                    None => clone_type(type_),
                },
                _ => clone_type(type_),
            }
        };
    let replaced = transform_types(module, &replace);
    proof {
        let relation = type_relation(replace);
        assert forall|a: Type, b: Type| #[trigger] relation(a, b) implies built_in_reference_replacement(
            type_definition_names(*module),
            a,
            b,
        ) by {
            assert(replace.ensures((&a,), b));
        }
        assert(module_retyped(*module, replaced, relation));
    }
    replaced
}

} // verus!
