//! Copies of the parts of modules that transformations keep, and what it
//! means for two such parts to be the same.
use crate::ir::{
    Argument,
    ForeignDeclaration,
    FunctionDeclaration,
    TypeAlias,
    TypeDefinition,
};
use crate::types::{clone_type, view_fields, RecordField, Type};
use vstd::prelude::*;

verus! {

/// Two optional types are both absent or have the same model.
pub open spec fn same_option_type(a: Option<Type>, b: Option<Type>) -> bool {
    match (a, b) {
        (Some(x), Some(y)) => x@ == y@,
        (None, None) => true,
        _ => false,
    }
}

/// Two lists of names are the same, name by name.
pub open spec fn same_strings(a: Seq<String>, b: Seq<String>) -> bool {
    a.len() == b.len() && forall|i: int| 0 <= i < a.len() ==> (#[trigger] a[i])@ == b[i]@
}

/// Two lists of lambda arguments are the same.
pub open spec fn same_arguments(a: Seq<Argument>, b: Seq<Argument>) -> bool {
    a.len() == b.len() && forall|i: int|
        0 <= i < a.len() ==> (#[trigger] a[i]).name@ == b[i].name@ && a[i].type_@ == b[i].type_@
}

pub open spec fn same_type_definition(a: TypeDefinition, b: TypeDefinition) -> bool {
    &&& a.name@ == b.name@
    &&& a.original_name@ == b.original_name@
    &&& view_fields(a.fields@) == view_fields(b.fields@)
    &&& a.is_open == b.is_open
    &&& a.is_public == b.is_public
    &&& a.is_external == b.is_external
    &&& a.position@ == b.position@
}

pub open spec fn same_type_definitions(a: Seq<TypeDefinition>, b: Seq<TypeDefinition>) -> bool {
    a.len() == b.len() && forall|i: int|
        0 <= i < a.len() ==> same_type_definition(#[trigger] a[i], b[i])
}

pub open spec fn same_type_alias(a: TypeAlias, b: TypeAlias) -> bool {
    &&& a.name@ == b.name@
    &&& a.original_name@ == b.original_name@
    &&& a.type_@ == b.type_@
    &&& a.is_public == b.is_public
    &&& a.is_external == b.is_external
    &&& a.position@ == b.position@
}

pub open spec fn same_type_aliases(a: Seq<TypeAlias>, b: Seq<TypeAlias>) -> bool {
    a.len() == b.len() && forall|i: int| 0 <= i < a.len() ==> same_type_alias(#[trigger] a[i], b[i])
}

pub open spec fn same_foreign_declaration(a: ForeignDeclaration, b: ForeignDeclaration) -> bool {
    &&& a.name@ == b.name@
    &&& a.foreign_name@ == b.foreign_name@
    &&& a.calling_convention == b.calling_convention
    &&& a.type_@ == b.type_@
    &&& a.position@ == b.position@
}

pub open spec fn same_foreign_declarations(
    a: Seq<ForeignDeclaration>,
    b: Seq<ForeignDeclaration>,
) -> bool {
    a.len() == b.len() && forall|i: int|
        0 <= i < a.len() ==> same_foreign_declaration(#[trigger] a[i], b[i])
}

pub open spec fn same_function_declaration(a: FunctionDeclaration, b: FunctionDeclaration) -> bool {
    &&& a.name@ == b.name@
    &&& a.type_@ == b.type_@
    &&& a.position@ == b.position@
}

pub open spec fn same_function_declarations(
    a: Seq<FunctionDeclaration>,
    b: Seq<FunctionDeclaration>,
) -> bool {
    a.len() == b.len() && forall|i: int|
        0 <= i < a.len() ==> same_function_declaration(#[trigger] a[i], b[i])
}

pub fn copy_option_type(type_: &Option<Type>) -> (copy: Option<Type>)
    ensures
        same_option_type(*type_, copy),
{
    match type_ {
        Some(t) => Some(clone_type(t)),
        None => None,
    }
}

pub fn copy_strings(strings: &Vec<String>) -> (copy: Vec<String>)
    ensures
        same_strings(strings@, copy@),
{
    let mut copy: Vec<String> = Vec::new();
    let mut i: usize = 0;
    while i < strings.len()
        invariant
            i <= strings.len(),
            copy@.len() == i,
            forall|k: int| 0 <= k < i ==> (#[trigger] strings@[k])@ == copy@[k]@,
        decreases strings.len() - i,
    {
        copy.push(strings[i].clone());
        i = i + 1;
    }
    copy
}

pub fn copy_arguments(arguments: &Vec<Argument>) -> (copy: Vec<Argument>)
    ensures
        same_arguments(arguments@, copy@),
{
    let mut copy: Vec<Argument> = Vec::new();
    let mut i: usize = 0;
    while i < arguments.len()
        invariant
            i <= arguments.len(),
            copy@.len() == i,
            forall|k: int|
                0 <= k < i ==> (#[trigger] arguments@[k]).name@ == copy@[k].name@
                    && arguments@[k].type_@ == copy@[k].type_@,
        decreases arguments.len() - i,
    {
        copy.push(
            Argument { name: arguments[i].name.clone(), type_: clone_type(&arguments[i].type_) },
        );
        i = i + 1;
    }
    copy
}

pub fn copy_fields(fields: &Vec<RecordField>) -> (copy: Vec<RecordField>)
    ensures
        view_fields(copy@) == view_fields(fields@),
{
    let mut copy: Vec<RecordField> = Vec::new();
    let mut i: usize = 0;
    while i < fields.len()
        invariant
            i <= fields.len(),
            copy@.len() == i,
            forall|k: int| 0 <= k < i ==> (#[trigger] copy@[k])@ == fields@[k]@,
        decreases fields.len() - i,
    {
        copy.push(fields[i].clone());
        i = i + 1;
    }
    assert(view_fields(copy@) =~= view_fields(fields@));
    copy
}

pub fn copy_type_definition(definition: &TypeDefinition) -> (copy: TypeDefinition)
    ensures
        same_type_definition(*definition, copy),
{
    TypeDefinition {
        name: definition.name.clone(),
        original_name: definition.original_name.clone(),
        fields: copy_fields(&definition.fields),
        is_open: definition.is_open,
        is_public: definition.is_public,
        is_external: definition.is_external,
        position: definition.position.copy(),
    }
}

pub fn copy_type_definitions(definitions: &Vec<TypeDefinition>) -> (copy: Vec<TypeDefinition>)
    ensures
        same_type_definitions(definitions@, copy@),
{
    let mut copy: Vec<TypeDefinition> = Vec::new();
    let mut i: usize = 0;
    while i < definitions.len()
        invariant
            i <= definitions.len(),
            copy@.len() == i,
            forall|k: int| 0 <= k < i ==> same_type_definition(#[trigger] definitions@[k], copy@[k]),
        decreases definitions.len() - i,
    {
        copy.push(copy_type_definition(&definitions[i]));
        i = i + 1;
    }
    copy
}

pub fn copy_type_alias(alias: &TypeAlias) -> (copy: TypeAlias)
    ensures
        same_type_alias(*alias, copy),
{
    TypeAlias {
        name: alias.name.clone(),
        original_name: alias.original_name.clone(),
        type_: clone_type(&alias.type_),
        is_public: alias.is_public,
        is_external: alias.is_external,
        position: alias.position.copy(),
    }
}

pub fn copy_type_aliases(aliases: &Vec<TypeAlias>) -> (copy: Vec<TypeAlias>)
    ensures
        same_type_aliases(aliases@, copy@),
{
    let mut copy: Vec<TypeAlias> = Vec::new();
    let mut i: usize = 0;
    while i < aliases.len()
        invariant
            i <= aliases.len(),
            copy@.len() == i,
            forall|k: int| 0 <= k < i ==> same_type_alias(#[trigger] aliases@[k], copy@[k]),
        decreases aliases.len() - i,
    {
        copy.push(copy_type_alias(&aliases[i]));
        i = i + 1;
    }
    copy
}

pub fn copy_foreign_declarations(declarations: &Vec<ForeignDeclaration>) -> (copy: Vec<
    ForeignDeclaration,
>)
    ensures
        same_foreign_declarations(declarations@, copy@),
{
    let mut copy: Vec<ForeignDeclaration> = Vec::new();
    let mut i: usize = 0;
    while i < declarations.len()
        invariant
            i <= declarations.len(),
            copy@.len() == i,
            forall|k: int|
                0 <= k < i ==> same_foreign_declaration(#[trigger] declarations@[k], copy@[k]),
        decreases declarations.len() - i,
    {
        let d = &declarations[i];
        copy.push(
            ForeignDeclaration {
                name: d.name.clone(),
                foreign_name: d.foreign_name.clone(),
                calling_convention: d.calling_convention,
                type_: clone_type(&d.type_),
                position: d.position.copy(),
            },
        );
        i = i + 1;
    }
    copy
}

pub fn copy_function_declarations(declarations: &Vec<FunctionDeclaration>) -> (copy: Vec<
    FunctionDeclaration,
>)
    ensures
        same_function_declarations(declarations@, copy@),
{
    let mut copy: Vec<FunctionDeclaration> = Vec::new();
    let mut i: usize = 0;
    while i < declarations.len()
        invariant
            i <= declarations.len(),
            copy@.len() == i,
            forall|k: int|
                0 <= k < i ==> same_function_declaration(#[trigger] declarations@[k], copy@[k]),
        decreases declarations.len() - i,
    {
        let d = &declarations[i];
        copy.push(
            FunctionDeclaration {
                name: d.name.clone(),
                type_: clone_type(&d.type_),
                position: d.position.copy(),
            },
        );
        i = i + 1;
    }
    copy
}

/// A copy of a byte string.
pub fn copy_bytes(bytes: &Vec<u8>) -> (copy: Vec<u8>)
    ensures
        copy@ == bytes@,
{
    let mut copy: Vec<u8> = Vec::new();
    let mut i: usize = 0;
    while i < bytes.len()
        invariant
            i <= bytes.len(),
            copy@ == bytes@.take(i as int),
        decreases bytes.len() - i,
    {
        copy.push(bytes[i]);
        proof {
            assert(bytes@.take(i + 1) =~= bytes@.take(i as int).push(bytes@[i as int]));
        }
        i = i + 1;
    }
    proof {
        assert(bytes@.take(i as int) =~= bytes@);
    }
    copy
}

} // verus!
