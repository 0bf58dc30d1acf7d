//! The types and record fields that a module's type definitions and type
//! aliases name.
use crate::ir::{Module, TypeAlias, TypeDefinition};
use crate::ir_copy::copy_fields;
use crate::module_environment::bind_all;
use crate::position::SpecPosition;
use crate::tables::{record_map_contents, type_map_contents, RecordMap, TypeMap};
use crate::types::{view_fields, SpecRecordField, SpecType, Type};
use vstd::prelude::*;

verus! {

/// The record type of a type definition.
pub open spec fn record_type(definition: TypeDefinition) -> SpecType {
    SpecType::Record {
        name: definition.name@,
        original_name: definition.original_name@,
        position: definition.position@,
    }
}

/// The names and record types of type definitions.
pub open spec fn record_entries(definitions: Seq<TypeDefinition>) -> Seq<(Seq<char>, SpecType)> {
    definitions.map_values(|definition: TypeDefinition| (definition.name@, record_type(definition)))
}

/// The names and types of type aliases.
pub open spec fn alias_entries(aliases: Seq<TypeAlias>) -> Seq<(Seq<char>, SpecType)> {
    aliases.map_values(|alias: TypeAlias| (alias.name@, alias.type_@))
}

/// The names and fields of type definitions.
pub open spec fn field_entries(definitions: Seq<TypeDefinition>) -> Seq<
    (Seq<char>, Seq<SpecRecordField>),
> {
    definitions.map_values(
        |definition: TypeDefinition| (definition.name@, view_fields(definition.fields@)),
    )
}

/// The record type of each type definition of a module, under its name.
pub open spec fn records_of(module: Module) -> Map<Seq<char>, SpecType> {
    bind_all(Map::empty(), record_entries(module.type_definitions@))
}

/// The record types of a module, then the types of its aliases, under
/// their names.
pub open spec fn types_of(module: Module) -> Map<Seq<char>, SpecType> {
    bind_all(records_of(module), alias_entries(module.type_aliases@))
}

/// The fields of each type definition of a module, under its name.
pub open spec fn record_fields_of(module: Module) -> Map<Seq<char>, Seq<SpecRecordField>> {
    bind_all(Map::empty(), field_entries(module.type_definitions@))
}

fn insert_records(types: &mut TypeMap, module: &Module)
    ensures
        type_map_contents(*final(types)) == bind_all(
            type_map_contents(*old(types)),
            record_entries(module.type_definitions@),
        ),
{
    let mut i: usize = 0;
    while i < module.type_definitions.len()
        invariant
            i <= module.type_definitions.len(),
            type_map_contents(*types) == bind_all(
                type_map_contents(*old(types)),
                record_entries(module.type_definitions@).take(i as int),
            ),
        decreases module.type_definitions.len() - i,
    {
        let definition = &module.type_definitions[i];
        types.insert(
            definition.name.clone(),
            Type::Record {
                name: definition.name.clone(),
                original_name: definition.original_name.clone(),
                position: definition.position.copy(),
            },
        );
        proof {
            assert(record_entries(module.type_definitions@).take(i + 1).drop_last()
                =~= record_entries(module.type_definitions@).take(i as int));
        }
        i = i + 1;
    }
    proof {
        assert(record_entries(module.type_definitions@).take(i as int) =~= record_entries(
            module.type_definitions@,
        ));
    }
}

/// The record type of each type definition of a module, under its name.
pub fn collect_records(module: &Module) -> (records: TypeMap)
    ensures
        type_map_contents(records) == records_of(*module),
{
    let mut records = TypeMap::new();
    proof {
        assert(type_map_contents(records) =~= Map::<Seq<char>, SpecType>::empty());
    }
    insert_records(&mut records, module);
    records
}

/// The record types of a module and the types of its aliases, under their
/// names; an alias replaces a record of its name.
pub fn collect(module: &Module) -> (types: TypeMap)
    ensures
        type_map_contents(types) == types_of(*module),
{
    let mut types = collect_records(module);
    let ghost records = type_map_contents(types);
    let mut i: usize = 0;
    while i < module.type_aliases.len()
        invariant
            i <= module.type_aliases.len(),
            type_map_contents(types) == bind_all(
                records,
                alias_entries(module.type_aliases@).take(i as int),
            ),
        decreases module.type_aliases.len() - i,
    {
        let alias = &module.type_aliases[i];
        types.insert(alias.name.clone(), alias.type_.clone());
        proof {
            assert(alias_entries(module.type_aliases@).take(i + 1).drop_last() =~= alias_entries(
                module.type_aliases@,
            ).take(i as int));
        }
        i = i + 1;
    }
    proof {
        assert(alias_entries(module.type_aliases@).take(i as int) =~= alias_entries(
            module.type_aliases@,
        ));
    }
    types
}

/// The fields of each type definition of a module, under its name.
pub fn collect_record_fields(module: &Module) -> (records: RecordMap)
    ensures
        record_map_contents(records) == record_fields_of(*module),
{
    let mut records = RecordMap::new();
    proof {
        assert(record_map_contents(records) =~= Map::<Seq<char>, Seq<SpecRecordField>>::empty());
    }
    let ghost start = record_map_contents(records);
    let mut i: usize = 0;
    while i < module.type_definitions.len()
        invariant
            i <= module.type_definitions.len(),
            record_map_contents(records) == bind_all(
                start,
                field_entries(module.type_definitions@).take(i as int),
            ),
        decreases module.type_definitions.len() - i,
    {
        let definition = &module.type_definitions[i];
        records.insert(definition.name.clone(), copy_fields(&definition.fields));
        proof {
            assert(field_entries(module.type_definitions@).take(i + 1).drop_last()
                =~= field_entries(module.type_definitions@).take(i as int));
        }
        i = i + 1;
    }
    proof {
        assert(field_entries(module.type_definitions@).take(i as int) =~= field_entries(
            module.type_definitions@,
        ));
    }
    records
}

} // verus!
