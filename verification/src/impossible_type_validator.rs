//! Validation that every record type can have values: no record may hold
//! itself in every one of its values, through fields, references and
//! unions whose every member does.
use crate::context::AnalysisContext;
use crate::error::{AnalysisError, SpecAnalysisError};
use crate::ir::{Module, TypeDefinition};
use crate::tables::{name_set_contents, record_map_contents, type_map_contents, NameSet, RecordMap, TypeMap};
use crate::type_comparability_checker::field_types;
use crate::type_resolver::{resolve as resolve_reference, resolve_spec};
use crate::types::{view_fields, SpecRecordField, SpecType, Type};
use crate::unused_error_validator::view_unit;
use vstd::prelude::*;

verus! {

/// Whether every value of a type holds a value of the record type `name`,
/// the records in `cache` not looked into again, at most `fuel` references
/// and records deep; `None` when that is not enough.
pub open spec fn recursive_fuel(
    type_: SpecType,
    name: Seq<char>,
    cache: Set<Seq<char>>,
    types: Map<Seq<char>, SpecType>,
    records: Map<Seq<char>, Seq<SpecRecordField>>,
    fuel: nat,
) -> Option<Result<bool, SpecAnalysisError>>
    decreases fuel, type_,
{
    match type_ {
        SpecType::Reference { name: reference, position } => if fuel == 0 {
            None
        } else {
            match resolve_spec(reference, position, types) {
                Ok(resolved) => recursive_fuel(resolved, name, cache, types, records, (fuel - 1) as nat),
                Err(error) => Some(Err(error)),
            }
        },
        SpecType::Record { name: record, .. } => if cache.contains(record) {
            Some(Ok(false))
        } else if name == record {
            Some(Ok(true))
        } else if fuel == 0 {
            None
        } else if records.contains_key(record) {
            any_recursive_fuel(
                field_types(records[record]),
                name,
                cache.insert(record),
                types,
                records,
                (fuel - 1) as nat,
            )
        } else {
            Some(Err(SpecAnalysisError::RecordNotFound(type_)))
        },
        SpecType::Union { lhs, rhs, .. } => match recursive_fuel(*lhs, name, cache, types, records, fuel) {
            Some(Ok(left)) => match recursive_fuel(*rhs, name, cache, types, records, fuel) {
                Some(Ok(right)) => Some(Ok(left && right)),
                other => other,
            },
            other => other,
        },
        _ => Some(Ok(false)),
    }
}

/// Whether one of some types is recursive as `recursive_fuel` says, all of
/// them looked into in order: the first error among them, else whether one
/// is.
pub open spec fn any_recursive_fuel(
    types_: Seq<SpecType>,
    name: Seq<char>,
    cache: Set<Seq<char>>,
    types: Map<Seq<char>, SpecType>,
    records: Map<Seq<char>, Seq<SpecRecordField>>,
    fuel: nat,
) -> Option<Result<bool, SpecAnalysisError>>
    decreases fuel, types_,
{
    if types_.len() == 0 {
        Some(Ok(false))
    } else {
        match recursive_fuel(types_[0], name, cache, types, records, fuel) {
            Some(Ok(first)) => match any_recursive_fuel(
                types_.drop_first(),
                name,
                cache,
                types,
                records,
                fuel,
            ) {
                Some(Ok(rest)) => Some(Ok(first || rest)),
                other => other,
            },
            other => other,
        }
    }
}

/// Whether a type definition holds itself in every value is decided: some
/// chain of references and records ends.
pub open spec fn recursion_decided(
    definition: TypeDefinition,
    types: Map<Seq<char>, SpecType>,
    records: Map<Seq<char>, Seq<SpecRecordField>>,
) -> bool {
    exists|fuel: nat|
        #[trigger] any_recursive_fuel(
            field_types(view_fields(definition.fields@)),
            definition.name@,
            Set::empty(),
            types,
            records,
            fuel,
        ) is Some
}

/// Whether a type definition holds itself in every value, or the first
/// error of resolving its fields.
pub open spec fn impossible(
    definition: TypeDefinition,
    types: Map<Seq<char>, SpecType>,
    records: Map<Seq<char>, Seq<SpecRecordField>>,
) -> Result<bool, SpecAnalysisError> {
    any_recursive_fuel(
        field_types(view_fields(definition.fields@)),
        definition.name@,
        Set::empty(),
        types,
        records,
        choose|fuel: nat|
            #[trigger] any_recursive_fuel(
                field_types(view_fields(definition.fields@)),
                definition.name@,
                Set::empty(),
                types,
                records,
                fuel,
            ) is Some,
    ).unwrap()
}

/// What validating the type definitions from the `i`th on finds.
pub open spec fn impossible_records(
    definitions: Seq<TypeDefinition>,
    i: int,
    types: Map<Seq<char>, SpecType>,
    records: Map<Seq<char>, Seq<SpecRecordField>>,
) -> Result<(), SpecAnalysisError>
    decreases definitions.len() - i,
{
    if i < 0 || i >= definitions.len() {
        Ok(())
    } else {
        match impossible(definitions[i], types, records) {
            Err(error) => Err(error),
            Ok(true) => Err(SpecAnalysisError::ImpossibleRecord(definitions[i].position@)),
            Ok(false) => impossible_records(definitions, i + 1, types, records),
        }
    }
}

/// Validates that no record type of a module holds itself in every value.
pub fn validate(context: &AnalysisContext, module: &Module) -> (result: Result<(), AnalysisError>)
    requires
        forall|i: int|
            0 <= i < module.type_definitions@.len() ==> recursion_decided(
                #[trigger] module.type_definitions@[i],
                type_map_contents(*context.types()),
                record_map_contents(*context.records()),
            ),
    ensures
        view_unit(result) == impossible_records(
            module.type_definitions@,
            0,
            type_map_contents(*context.types()),
            record_map_contents(*context.records()),
        ),
{
    let mut i: usize = 0;
    while i < module.type_definitions.len()
        invariant
            i <= module.type_definitions.len(),
            forall|k: int|
                0 <= k < module.type_definitions@.len() ==> recursion_decided(
                    #[trigger] module.type_definitions@[k],
                    type_map_contents(*context.types()),
                    record_map_contents(*context.records()),
                ),
            impossible_records(
                module.type_definitions@,
                0,
                type_map_contents(*context.types()),
                record_map_contents(*context.records()),
            ) == impossible_records(
                module.type_definitions@,
                i as int,
                type_map_contents(*context.types()),
                record_map_contents(*context.records()),
            ),
        decreases module.type_definitions.len() - i,
    {
        let definition = &module.type_definitions[i];
        let ghost fuel = choose|fuel: nat|
            #[trigger] any_recursive_fuel(
                field_types(view_fields(definition.fields@)),
                definition.name@,
                Set::empty(),
                type_map_contents(*context.types()),
                record_map_contents(*context.records()),
                fuel,
            ) is Some;
        proof {
            assert(recursion_decided(
                *definition,
                type_map_contents(*context.types()),
                record_map_contents(*context.records()),
            ));
        }
        let cache = NameSet::new();
        if any_recursive(context, &definition.name, &cache, &definition.fields, Ghost(fuel))? {
            return Err(AnalysisError::ImpossibleRecord(definition.position.copy()));
        }
        i = i + 1;
    }
    Ok(())
}

fn any_recursive(
    context: &AnalysisContext,
    name: &String,
    cache: &NameSet,
    fields: &Vec<crate::types::RecordField>,
    Ghost(fuel): Ghost<nat>,
) -> (recursive: Result<bool, AnalysisError>)
    requires
        any_recursive_fuel(
            field_types(view_fields(fields@)),
            name@,
            name_set_contents(*cache),
            type_map_contents(*context.types()),
            record_map_contents(*context.records()),
            fuel,
        ) is Some,
    ensures
        crate::type_equality_checker::view_bool_result(recursive) == any_recursive_fuel(
            field_types(view_fields(fields@)),
            name@,
            name_set_contents(*cache),
            type_map_contents(*context.types()),
            record_map_contents(*context.records()),
            fuel,
        ).unwrap(),
    decreases fuel, field_types(view_fields(fields@)), 1int,
{
    let ghost all = field_types(view_fields(fields@));
    let ghost whole = any_recursive_fuel(
        all,
        name@,
        name_set_contents(*cache),
        type_map_contents(*context.types()),
        record_map_contents(*context.records()),
        fuel,
    );
    let mut found = false;
    let mut i: usize = 0;
    proof {
        assert(all.skip(0) =~= all);
    }
    while i < fields.len()
        invariant
            i <= fields.len(),
            all == field_types(view_fields(fields@)),
            whole == any_recursive_fuel(
                all,
                name@,
                name_set_contents(*cache),
                type_map_contents(*context.types()),
                record_map_contents(*context.records()),
                fuel,
            ),
            whole is Some,
            whole == if found {
                match any_recursive_fuel(
                    all.skip(i as int),
                    name@,
                    name_set_contents(*cache),
                    type_map_contents(*context.types()),
                    record_map_contents(*context.records()),
                    fuel,
                ) {
                    Some(Ok(_)) => Some(Ok(true)),
                    other => other,
                }
            } else {
                any_recursive_fuel(
                    all.skip(i as int),
                    name@,
                    name_set_contents(*cache),
                    type_map_contents(*context.types()),
                    record_map_contents(*context.records()),
                    fuel,
                )
            },
        decreases fields.len() - i,
    {
        let ghost rest = all.skip(i as int);
        proof {
            assert(rest[0] == fields@[i as int].type_@);
            assert(rest.drop_first() =~= all.skip(i + 1));
            assert(decreases_to!(all => all.skip(i as int)[0]));
        }
        let field_recursive = is_recursive(context, name, cache, &fields[i].type_, Ghost(fuel))?;
        found = found || field_recursive;
        i = i + 1;
    }
    proof {
        assert(all.skip(i as int).len() == 0);
    }
    Ok(found)
}

fn is_recursive(
    context: &AnalysisContext,
    name: &String,
    cache: &NameSet,
    type_: &Type,
    Ghost(fuel): Ghost<nat>,
) -> (recursive: Result<bool, AnalysisError>)
    requires
        recursive_fuel(
            type_@,
            name@,
            name_set_contents(*cache),
            type_map_contents(*context.types()),
            record_map_contents(*context.records()),
            fuel,
        ) is Some,
    ensures
        crate::type_equality_checker::view_bool_result(recursive) == recursive_fuel(
            type_@,
            name@,
            name_set_contents(*cache),
            type_map_contents(*context.types()),
            record_map_contents(*context.records()),
            fuel,
        ).unwrap(),
    decreases fuel, type_@, 0int,
{
    match type_ {
        Type::Reference { .. } => {
            let resolved = resolve_reference(type_, context.types())?;
            is_recursive(context, name, cache, &resolved, Ghost((fuel - 1) as nat))
        },
        Type::Record { name: record, .. } => {
            if cache.contains(record.as_str()) {
                Ok(false)
            } else if name.eq(record) {
                Ok(true)
            } else {
                match context.records().get(record.as_str()) {
                    Some(fields) => {
                        let mut extended = cache.duplicate();
                        extended.insert(record.clone());
                        any_recursive(context, name, &extended, fields, Ghost((fuel - 1) as nat))
                    },
                    None => Err(AnalysisError::RecordNotFound(type_.clone())),
                }
            }
        },
        Type::Union { lhs, rhs, .. } => {
            let left = is_recursive(context, name, cache, lhs, Ghost(fuel))?;
            let right = is_recursive(context, name, cache, rhs, Ghost(fuel))?;
            Ok(left && right)
        },
        _ => Ok(false),
    }
}

} // verus!
