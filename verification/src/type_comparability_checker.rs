//! Comparability of types: whether values of a type can be compared for
//! equality. Functions, `any` and `error` cannot; lists, maps, unions and
//! records can where their parts can. A record met again inside itself
//! counts as comparable.
use crate::error::{AnalysisError, SpecAnalysisError};
use crate::position::{Position, SpecPosition};
use crate::record_field_resolver::{lemma_record_canonical, resolve as resolve_fields};
use crate::tables::{name_set_contents, record_map_contents, type_map_contents, NameSet, RecordMap, TypeMap};
use crate::type_equality_checker::view_bool_result;
use crate::type_resolver::{resolve as resolve_reference, resolve_spec};
use crate::types::{SpecRecordField, SpecType, Type};
use vstd::prelude::*;

verus! {

/// Whether a type is comparable, with the records in `cache` taken as
/// comparable, at most `fuel` references and records deep; `None` when
/// that is not enough, as when a type alias refers to itself.
pub open spec fn comparable_fuel(
    type_: SpecType,
    cache: Set<Seq<char>>,
    types: Map<Seq<char>, SpecType>,
    records: Map<Seq<char>, Seq<SpecRecordField>>,
    fuel: nat,
) -> Option<Result<bool, SpecAnalysisError>>
    decreases fuel, type_,
{
    match type_ {
        SpecType::Any { .. } | SpecType::Error { .. } | SpecType::Function { .. } => Some(Ok(false)),
        SpecType::Boolean { .. }
        | SpecType::Unit { .. }
        | SpecType::Number { .. }
        | SpecType::String { .. } => Some(Ok(true)),
        SpecType::List { element, .. } => comparable_fuel(*element, cache, types, records, fuel),
        SpecType::Mapping { key, value, .. } => match comparable_fuel(
            *key,
            cache,
            types,
            records,
            fuel,
        ) {
            Some(Ok(true)) => comparable_fuel(*value, cache, types, records, fuel),
            other => other,
        },
        SpecType::Union { lhs, rhs, .. } => match comparable_fuel(*lhs, cache, types, records, fuel) {
            Some(Ok(true)) => comparable_fuel(*rhs, cache, types, records, fuel),
            other => other,
        },
        SpecType::Record { name, .. } => if cache.contains(name) {
            Some(Ok(true))
        } else if fuel == 0 {
            None
        } else if records.contains_key(name) {
            all_comparable_fuel(
                field_types(records[name]),
                cache.insert(name),
                types,
                records,
                (fuel - 1) as nat,
            )
        } else {
            Some(Err(SpecAnalysisError::RecordNotFound(type_)))
        },
        SpecType::Reference { name, position } => if fuel == 0 {
            None
        } else {
            match resolve_spec(name, position, types) {
                Ok(resolved) => comparable_fuel(resolved, cache, types, records, (fuel - 1) as nat),
                Err(error) => Some(Err(error)),
            }
        },
    }
}

/// The types of record fields.
pub open spec fn field_types(fields: Seq<SpecRecordField>) -> Seq<SpecType> {
    fields.map_values(|field: SpecRecordField| field.type_)
}

/// Whether all of some types are comparable: the first error among them,
/// else whether all are.
pub open spec fn all_comparable_fuel(
    types_: Seq<SpecType>,
    cache: Set<Seq<char>>,
    types: Map<Seq<char>, SpecType>,
    records: Map<Seq<char>, Seq<SpecRecordField>>,
    fuel: nat,
) -> Option<Result<bool, SpecAnalysisError>>
    decreases fuel, types_,
{
    if types_.len() == 0 {
        Some(Ok(true))
    } else {
        match comparable_fuel(types_[0], cache, types, records, fuel) {
            Some(Ok(first)) => match all_comparable_fuel(
                types_.drop_first(),
                cache,
                types,
                records,
                fuel,
            ) {
                Some(Ok(rest)) => Some(Ok(first && rest)),
                other => other,
            },
            other => other,
        }
    }
}

/// Comparability of a type is decided: some chain of references and
/// records ends.
pub open spec fn comparability_decided(
    type_: SpecType,
    types: Map<Seq<char>, SpecType>,
    records: Map<Seq<char>, Seq<SpecRecordField>>,
) -> bool {
    exists|fuel: nat| #[trigger] comparable_fuel(type_, Set::empty(), types, records, fuel) is Some
}

/// Whether a type is comparable, or the first error of resolving it.
pub open spec fn comparable(
    type_: SpecType,
    types: Map<Seq<char>, SpecType>,
    records: Map<Seq<char>, Seq<SpecRecordField>>,
) -> Result<bool, SpecAnalysisError> {
    comparable_fuel(
        type_,
        Set::empty(),
        types,
        records,
        choose|fuel: nat| comparable_fuel(type_, Set::empty(), types, records, fuel) is Some,
    ).unwrap()
}

/// Checks whether values of a type can be compared for equality.
pub fn check(type_: &Type, position: &Position, types: &TypeMap, records: &RecordMap) -> (comparable_type:
    Result<bool, AnalysisError>)
    requires
        comparability_decided(type_@, type_map_contents(*types), record_map_contents(*records)),
    ensures
        view_bool_result(comparable_type) == comparable(
            type_@,
            type_map_contents(*types),
            record_map_contents(*records),
        ),
{
    let ghost fuel = choose|fuel: nat|
        comparable_fuel(
            type_@,
            Set::empty(),
            type_map_contents(*types),
            record_map_contents(*records),
            fuel,
        ) is Some;
    let cache = NameSet::new();
    check_with_cache(type_, position, &cache, types, records, Ghost(fuel))
}

fn check_with_cache(
    type_: &Type,
    position: &Position,
    cache: &NameSet,
    types: &TypeMap,
    records: &RecordMap,
    Ghost(fuel): Ghost<nat>,
) -> (comparable_type: Result<bool, AnalysisError>)
    requires
        comparable_fuel(
            type_@,
            name_set_contents(*cache),
            type_map_contents(*types),
            record_map_contents(*records),
            fuel,
        ) is Some,
    ensures
        view_bool_result(comparable_type) == comparable_fuel(
            type_@,
            name_set_contents(*cache),
            type_map_contents(*types),
            record_map_contents(*records),
            fuel,
        ).unwrap(),
    decreases fuel, type_,
{
    match type_ {
        Type::Any { .. } | Type::Error { .. } | Type::Function { .. } => Ok(false),
        Type::Boolean { .. } | Type::Unit { .. } | Type::Number { .. } | Type::String { .. } => Ok(
            true,
        ),
        Type::List { element, .. } => check_with_cache(
            element,
            position,
            cache,
            types,
            records,
            Ghost(fuel),
        ),
        Type::Mapping { key, value, .. } => Ok(
            check_with_cache(key, position, cache, types, records, Ghost(fuel))?
                && check_with_cache(value, position, cache, types, records, Ghost(fuel))?,
        ),
        Type::Union { lhs, rhs, .. } => Ok(
            check_with_cache(lhs, position, cache, types, records, Ghost(fuel))?
                && check_with_cache(rhs, position, cache, types, records, Ghost(fuel))?,
        ),
        Type::Record { name, .. } => {
            if cache.contains(name.as_str()) {
                Ok(true)
            } else {
                let mut extended = cache.duplicate();
                extended.insert(name.clone());
                proof {
                    lemma_record_canonical(type_@, type_map_contents(*types));
                }
                let fields = resolve_fields(type_, position, types, records)?;
                let mut comparable_type = true;
                let mut i: usize = 0;
                proof {
                    assert(field_types(crate::types::view_fields(fields@)).skip(0) =~= field_types(
                        crate::types::view_fields(fields@),
                    ));
                }
                while i < fields.len()
                    invariant
                        i <= fields.len(),
                        fuel > 0,
                        comparable_fuel(
                            type_@,
                            name_set_contents(*cache),
                            type_map_contents(*types),
                            record_map_contents(*records),
                            fuel,
                        ) == all_comparable_fuel(
                            field_types(crate::types::view_fields(fields@)),
                            name_set_contents(extended),
                            type_map_contents(*types),
                            record_map_contents(*records),
                            (fuel - 1) as nat,
                        ),
                        all_comparable_fuel(
                            field_types(crate::types::view_fields(fields@)),
                            name_set_contents(extended),
                            type_map_contents(*types),
                            record_map_contents(*records),
                            (fuel - 1) as nat,
                        ) is Some,
                        all_comparable_fuel(
                            field_types(crate::types::view_fields(fields@)),
                            name_set_contents(extended),
                            type_map_contents(*types),
                            record_map_contents(*records),
                            (fuel - 1) as nat,
                        ) == if comparable_type {
                            all_comparable_fuel(
                                field_types(crate::types::view_fields(fields@)).skip(i as int),
                                name_set_contents(extended),
                                type_map_contents(*types),
                                record_map_contents(*records),
                                (fuel - 1) as nat,
                            )
                        } else {
                            match all_comparable_fuel(
                                field_types(crate::types::view_fields(fields@)).skip(i as int),
                                name_set_contents(extended),
                                type_map_contents(*types),
                                record_map_contents(*records),
                                (fuel - 1) as nat,
                            ) {
                                Some(Ok(_)) => Some(Ok(false)),
                                other => other,
                            }
                        },
                    decreases fields.len() - i,
                {
                    let ghost rest = field_types(crate::types::view_fields(fields@)).skip(i as int);
                    proof {
                        assert(rest[0] == fields@[i as int].type_@);
                        assert(rest.drop_first() =~= field_types(crate::types::view_fields(fields@)).skip(
                            i + 1,
                        ));
                    }
                    let field_comparable = check_with_cache(
                        &fields[i].type_,
                        position,
                        &extended,
                        types,
                        records,
                        Ghost((fuel - 1) as nat),
                    )?;
                    comparable_type = comparable_type && field_comparable;
                    i = i + 1;
                }
                proof {
                    assert(field_types(crate::types::view_fields(fields@)).skip(i as int).len() == 0);
                }
                Ok(comparable_type)
            }
        },
        Type::Reference { .. } => {
            let resolved = resolve_reference(type_, types)?;
            check_with_cache(&resolved, position, cache, types, records, Ghost((fuel - 1) as nat))
        },
    }
}

/// More fuel than enough decides comparability the same way.
pub proof fn lemma_comparable_fuel_more(
    type_: SpecType,
    cache: Set<Seq<char>>,
    types: Map<Seq<char>, SpecType>,
    records: Map<Seq<char>, Seq<SpecRecordField>>,
    fuel: nat,
    more: nat,
)
    requires
        fuel <= more,
        comparable_fuel(type_, cache, types, records, fuel) is Some,
    ensures
        comparable_fuel(type_, cache, types, records, more) == comparable_fuel(
            type_,
            cache,
            types,
            records,
            fuel,
        ),
    decreases fuel, type_,
{
    match type_ {
        SpecType::List { element, .. } => {
            lemma_comparable_fuel_more(*element, cache, types, records, fuel, more);
        },
        SpecType::Mapping { key, value, .. } => {
            lemma_comparable_fuel_more(*key, cache, types, records, fuel, more);
            if comparable_fuel(*key, cache, types, records, fuel) == Some(Ok::<bool, SpecAnalysisError>(true)) {
                lemma_comparable_fuel_more(*value, cache, types, records, fuel, more);
            }
        },
        SpecType::Union { lhs, rhs, .. } => {
            lemma_comparable_fuel_more(*lhs, cache, types, records, fuel, more);
            if comparable_fuel(*lhs, cache, types, records, fuel) == Some(Ok::<bool, SpecAnalysisError>(true)) {
                lemma_comparable_fuel_more(*rhs, cache, types, records, fuel, more);
            }
        },
        SpecType::Record { name, .. } => {
            if !cache.contains(name) && fuel > 0 && records.contains_key(name) {
                lemma_all_comparable_fuel_more(
                    field_types(records[name]),
                    cache.insert(name),
                    types,
                    records,
                    (fuel - 1) as nat,
                    (more - 1) as nat,
                );
            }
        },
        SpecType::Reference { name, position } => {
            if let Ok(resolved) = resolve_spec(name, position, types) {
                lemma_comparable_fuel_more(resolved, cache, types, records, (fuel - 1) as nat, (more - 1) as nat);
            }
        },
        _ => {},
    }
}

/// More fuel than enough decides the comparability of several types the
/// same way.
pub proof fn lemma_all_comparable_fuel_more(
    types_: Seq<SpecType>,
    cache: Set<Seq<char>>,
    types: Map<Seq<char>, SpecType>,
    records: Map<Seq<char>, Seq<SpecRecordField>>,
    fuel: nat,
    more: nat,
)
    requires
        fuel <= more,
        all_comparable_fuel(types_, cache, types, records, fuel) is Some,
    ensures
        all_comparable_fuel(types_, cache, types, records, more) == all_comparable_fuel(
            types_,
            cache,
            types,
            records,
            fuel,
        ),
    decreases fuel, types_,
{
    if types_.len() > 0 {
        lemma_comparable_fuel_more(types_[0], cache, types, records, fuel, more);
        if comparable_fuel(types_[0], cache, types, records, fuel) is Some
            && comparable_fuel(types_[0], cache, types, records, fuel)->0 is Ok {
            lemma_all_comparable_fuel_more(types_.drop_first(), cache, types, records, fuel, more);
        }
    }
}

/// A list is comparable exactly where its elements are: its comparability
/// is decided where theirs is, and is then the same, an error included.
pub proof fn law_list_comparable_as_element(
    element: SpecType,
    position: SpecPosition,
    types: Map<Seq<char>, SpecType>,
    records: Map<Seq<char>, Seq<SpecRecordField>>,
)
    ensures
        comparability_decided(SpecType::List { element: Box::new(element), position }, types, records)
            == comparability_decided(element, types, records),
        comparability_decided(element, types, records) ==> comparable(
            SpecType::List { element: Box::new(element), position },
            types,
            records,
        ) == comparable(element, types, records),
{
    let list = SpecType::List { element: Box::new(element), position };
    assert forall|fuel: nat|
        #[trigger] comparable_fuel(list, Set::empty(), types, records, fuel) == comparable_fuel(
            element,
            Set::empty(),
            types,
            records,
            fuel,
        ) by {}
    if comparability_decided(element, types, records) {
        let f = choose|fuel: nat| comparable_fuel(element, Set::empty(), types, records, fuel) is Some;
        assert(comparable_fuel(list, Set::empty(), types, records, f) is Some);
        let g = choose|fuel: nat| comparable_fuel(list, Set::empty(), types, records, fuel) is Some;
        assert(comparable_fuel(element, Set::empty(), types, records, g) is Some);
        if f <= g {
            lemma_comparable_fuel_more(element, Set::empty(), types, records, f, g);
        } else {
            lemma_comparable_fuel_more(element, Set::empty(), types, records, g, f);
        }
    }
    if comparability_decided(list, types, records) {
        let g = choose|fuel: nat| comparable_fuel(list, Set::empty(), types, records, fuel) is Some;
        assert(comparable_fuel(element, Set::empty(), types, records, g) is Some);
    }
}

/// Values of functions, of `any` and of `error` cannot be compared.
pub proof fn law_incomparable_types(type_: SpecType, types: Map<Seq<char>, SpecType>, records: Map<Seq<char>, Seq<SpecRecordField>>)
    requires
        type_ is Function || type_ is Any || type_ is Error,
    ensures
        comparability_decided(type_, types, records),
        comparable(type_, types, records) == Ok::<bool, SpecAnalysisError>(false),
{
    assert(comparable_fuel(type_, Set::empty(), types, records, 0) is Some);
}

/// Comparability at any fuel that decides it is comparability itself.
pub proof fn lemma_comparable_at(
    type_: SpecType,
    types: Map<Seq<char>, SpecType>,
    records: Map<Seq<char>, Seq<SpecRecordField>>,
    fuel: nat,
)
    requires
        comparable_fuel(type_, Set::empty(), types, records, fuel) is Some,
    ensures
        comparability_decided(type_, types, records),
        comparable(type_, types, records) == comparable_fuel(type_, Set::empty(), types, records, fuel)->0,
{
    let g = choose|f: nat| comparable_fuel(type_, Set::empty(), types, records, f) is Some;
    if fuel <= g {
        lemma_comparable_fuel_more(type_, Set::empty(), types, records, fuel, g);
    } else {
        lemma_comparable_fuel_more(type_, Set::empty(), types, records, g, fuel);
    }
}

/// A map is comparable exactly where its keys and its values are: the
/// first error or `false` of its key, else what its value gives.
pub proof fn law_map_comparable_as_parts(
    key: SpecType,
    value: SpecType,
    position: SpecPosition,
    types: Map<Seq<char>, SpecType>,
    records: Map<Seq<char>, Seq<SpecRecordField>>,
)
    requires
        comparability_decided(key, types, records),
        comparability_decided(value, types, records),
    ensures
        comparability_decided(
            SpecType::Mapping { key: Box::new(key), value: Box::new(value), position },
            types,
            records,
        ),
        comparable(SpecType::Mapping { key: Box::new(key), value: Box::new(value), position }, types, records)
            == match comparable(key, types, records) {
            Ok(true) => comparable(value, types, records),
            other => other,
        },
{
    let map = SpecType::Mapping { key: Box::new(key), value: Box::new(value), position };
    let f = choose|f: nat| comparable_fuel(key, Set::empty(), types, records, f) is Some;
    let g = choose|f: nat| comparable_fuel(value, Set::empty(), types, records, f) is Some;
    let h = if f <= g { g } else { f };
    lemma_comparable_fuel_more(key, Set::empty(), types, records, f, h);
    lemma_comparable_fuel_more(value, Set::empty(), types, records, g, h);
    lemma_comparable_at(key, types, records, h);
    lemma_comparable_at(value, types, records, h);
    lemma_comparable_at(map, types, records, h);
}

/// A union is comparable exactly where both its sides are: the first
/// error or `false` of its left side, else what its right side gives.
pub proof fn law_union_comparable_as_sides(
    lhs: SpecType,
    rhs: SpecType,
    position: SpecPosition,
    types: Map<Seq<char>, SpecType>,
    records: Map<Seq<char>, Seq<SpecRecordField>>,
)
    requires
        comparability_decided(lhs, types, records),
        comparability_decided(rhs, types, records),
    ensures
        comparability_decided(SpecType::Union { lhs: Box::new(lhs), rhs: Box::new(rhs), position }, types, records),
        comparable(SpecType::Union { lhs: Box::new(lhs), rhs: Box::new(rhs), position }, types, records)
            == match comparable(lhs, types, records) {
            Ok(true) => comparable(rhs, types, records),
            other => other,
        },
{
    let union = SpecType::Union { lhs: Box::new(lhs), rhs: Box::new(rhs), position };
    let f = choose|f: nat| comparable_fuel(lhs, Set::empty(), types, records, f) is Some;
    let g = choose|f: nat| comparable_fuel(rhs, Set::empty(), types, records, f) is Some;
    let h = if f <= g { g } else { f };
    lemma_comparable_fuel_more(lhs, Set::empty(), types, records, f, h);
    lemma_comparable_fuel_more(rhs, Set::empty(), types, records, g, h);
    lemma_comparable_at(lhs, types, records, h);
    lemma_comparable_at(rhs, types, records, h);
    lemma_comparable_at(union, types, records, h);
}

/// Booleans, `none`, numbers and strings can be compared.
pub proof fn law_comparable_types(type_: SpecType, types: Map<Seq<char>, SpecType>, records: Map<Seq<char>, Seq<SpecRecordField>>)
    requires
        type_ is Boolean || type_ is Unit || type_ is Number || type_ is String,
    ensures
        comparability_decided(type_, types, records),
        comparable(type_, types, records) == Ok::<bool, SpecAnalysisError>(true),
{
    assert(comparable_fuel(type_, Set::empty(), types, records, 0) is Some);
}

} // verus!
