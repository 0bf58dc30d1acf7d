//! Deep canonicalization of types: references are resolved, and unions are
//! flattened into their distinct members, sorted in the order of
//! `type_order`, absorbed by `any` when it is among them.
use crate::error::{AnalysisError, SpecAnalysisError};
use crate::position::{Position, SpecPosition};
use crate::tables::{type_map_contents, TypeMap};
use crate::type_order::{compare, compare_spec};
use crate::type_resolver::{resolve, resolve_spec, view_result};
use crate::types::{clone_type, lemma_view_types, view_types, SpecType, Type};
use vstd::prelude::*;

verus! {

/// The members of a union so far, with `type_` added unless a member is
/// the same type up to positions: the insertion of an ordered set.
pub open spec fn insert_member(members: Seq<SpecType>, type_: SpecType) -> Seq<SpecType>
    decreases members.len(),
{
    if members.len() == 0 {
        seq![type_]
    } else {
        let c = compare_spec(type_, members[0]);
        if c < 0 {
            seq![type_] + members
        } else if c == 0 {
            members
        } else {
            seq![members[0]] + insert_member(members.drop_first(), type_)
        }
    }
}

/// The members after inserting each type of `types` in turn.
pub open spec fn insert_members(members: Seq<SpecType>, types: Seq<SpecType>) -> Seq<SpecType>
    decreases types.len(),
{
    if types.len() == 0 {
        members
    } else {
        insert_member(insert_members(members, types.drop_last()), types.last())
    }
}

/// Two members combined: `any` absorbs the other; otherwise their union.
pub open spec fn combine(one: SpecType, other: SpecType, position: SpecPosition) -> SpecType {
    if one is Any {
        one.with_position(position)
    } else if other is Any {
        other.with_position(position)
    } else {
        SpecType::Union { lhs: Box::new(one), rhs: Box::new(other), position }
    }
}

/// The members folded from the left by `combine`.
pub open spec fn fold_members(members: Seq<SpecType>, position: SpecPosition) -> SpecType
    decreases members.len(),
{
    if members.len() <= 1 {
        members[0]
    } else {
        combine(fold_members(members.drop_last(), position), members.last(), position)
    }
}

/// The canonical form of a type, with at most `fuel` references resolved in
/// a chain; `None` when that is not enough, as when a type alias refers to
/// itself.
pub open spec fn canonical_fuel(type_: SpecType, types: Map<Seq<char>, SpecType>, fuel: nat) -> Option<
    Result<SpecType, SpecAnalysisError>,
>
    decreases fuel, type_, 0nat,
{
    match type_ {
        SpecType::Function { arguments, result, position } => match canonical_list_fuel(
            arguments,
            types,
            fuel,
        ) {
            Some(Ok(arguments)) => match canonical_fuel(*result, types, fuel) {
                Some(Ok(result)) => Some(
                    Ok(SpecType::Function { arguments, result: Box::new(result), position }),
                ),
                Some(Err(error)) => Some(Err(error)),
                None => None,
            },
            Some(Err(error)) => Some(Err(error)),
            None => None,
        },
        SpecType::List { element, position } => match canonical_fuel(*element, types, fuel) {
            Some(Ok(element)) => Some(Ok(SpecType::List { element: Box::new(element), position })),
            Some(Err(error)) => Some(Err(error)),
            None => None,
        },
        SpecType::Mapping { key, value, position } => match canonical_fuel(*key, types, fuel) {
            Some(Ok(key)) => match canonical_fuel(*value, types, fuel) {
                Some(Ok(value)) => Some(
                    Ok(SpecType::Mapping { key: Box::new(key), value: Box::new(value), position }),
                ),
                Some(Err(error)) => Some(Err(error)),
                None => None,
            },
            Some(Err(error)) => Some(Err(error)),
            None => None,
        },
        SpecType::Union { lhs, rhs, position } => match members_fuel(*lhs, types, fuel) {
            Some(Ok(left)) => match members_fuel(*rhs, types, fuel) {
                Some(Ok(right)) => Some(
                    Ok(fold_members(insert_members(Seq::empty(), left + right), position)),
                ),
                Some(Err(error)) => Some(Err(error)),
                None => None,
            },
            Some(Err(error)) => Some(Err(error)),
            None => None,
        },
        SpecType::Reference { name, position } => if fuel == 0 {
            None
        } else {
            match resolve_spec(name, position, types) {
                Ok(resolved) => canonical_fuel(resolved, types, (fuel - 1) as nat),
                Err(error) => Some(Err(error)),
            }
        },
        _ => Some(Ok(type_)),
    }
}

/// The canonical forms of types in order, up to the first error.
pub open spec fn canonical_list_fuel(
    types_: Seq<SpecType>,
    types: Map<Seq<char>, SpecType>,
    fuel: nat,
) -> Option<Result<Seq<SpecType>, SpecAnalysisError>>
    decreases fuel, types_, 0nat,
{
    if types_.len() == 0 {
        Some(Ok(Seq::empty()))
    } else {
        match canonical_list_fuel(types_.drop_last(), types, fuel) {
            Some(Ok(init)) => match canonical_fuel(types_.last(), types, fuel) {
                Some(Ok(last)) => Some(Ok(init.push(last))),
                Some(Err(error)) => Some(Err(error)),
                None => None,
            },
            Some(Err(error)) => Some(Err(error)),
            None => None,
        }
    }
}

/// The canonical forms of the members of a union, in the order in which
/// they appear, references resolved and nested unions flattened.
pub open spec fn members_fuel(type_: SpecType, types: Map<Seq<char>, SpecType>, fuel: nat) -> Option<
    Result<Seq<SpecType>, SpecAnalysisError>,
>
    decreases fuel, type_, 1nat,
{
    match type_ {
        SpecType::Union { lhs, rhs, .. } => match members_fuel(*lhs, types, fuel) {
            Some(Ok(left)) => match members_fuel(*rhs, types, fuel) {
                Some(Ok(right)) => Some(Ok(left + right)),
                Some(Err(error)) => Some(Err(error)),
                None => None,
            },
            Some(Err(error)) => Some(Err(error)),
            None => None,
        },
        SpecType::Reference { name, position } => if fuel == 0 {
            None
        } else {
            match resolve_spec(name, position, types) {
                Ok(resolved) => members_fuel(resolved, types, (fuel - 1) as nat),
                Err(error) => Some(Err(error)),
            }
        },
        _ => match canonical_fuel(type_, types, fuel) {
            Some(Ok(canonical)) => Some(Ok(seq![canonical])),
            Some(Err(error)) => Some(Err(error)),
            None => None,
        },
    }
}

/// Canonicalization of a type ends: some chain of references ends.
pub open spec fn canonicalizable(type_: SpecType, types: Map<Seq<char>, SpecType>) -> bool {
    exists|fuel: nat| #[trigger] canonical_fuel(type_, types, fuel) is Some
}

/// Every type canonicalizes: no chain of type aliases loops.
pub open spec fn aliases_acyclic(types: Map<Seq<char>, SpecType>) -> bool {
    forall|type_: SpecType| #[trigger] canonicalizable(type_, types)
}

/// The canonical form of a type, or the first reference that names nothing.
pub open spec fn canonical(type_: SpecType, types: Map<Seq<char>, SpecType>) -> Result<
    SpecType,
    SpecAnalysisError,
> {
    canonical_fuel(type_, types, choose|fuel: nat| canonical_fuel(type_, types, fuel) is Some).unwrap()
}

pub proof fn lemma_insert_member_len(members: Seq<SpecType>, type_: SpecType)
    ensures
        insert_member(members, type_).len() >= 1,
        insert_member(members, type_).len() >= members.len(),
    decreases members.len(),
{
    if members.len() > 0 && compare_spec(type_, members[0]) > 0 {
        lemma_insert_member_len(members.drop_first(), type_);
    }
}

pub proof fn lemma_insert_members_len(members: Seq<SpecType>, types: Seq<SpecType>)
    ensures
        insert_members(members, types).len() >= members.len(),
        types.len() > 0 ==> insert_members(members, types).len() >= 1,
    decreases types.len(),
{
    if types.len() > 0 {
        lemma_insert_members_len(members, types.drop_last());
        lemma_insert_member_len(insert_members(members, types.drop_last()), types.last());
    }
}

pub proof fn lemma_insert_members_append(members: Seq<SpecType>, a: Seq<SpecType>, b: Seq<SpecType>)
    ensures
        insert_members(members, a + b) == insert_members(insert_members(members, a), b),
    decreases b.len(),
{
    if b.len() == 0 {
        assert(a + b =~= a);
    } else {
        assert((a + b).drop_last() =~= a + b.drop_last());
        lemma_insert_members_append(members, a, b.drop_last());
    }
}

pub proof fn lemma_members_nonempty(type_: SpecType, types: Map<Seq<char>, SpecType>, fuel: nat)
    requires
        members_fuel(type_, types, fuel) matches Some(Ok(_)),
    ensures
        members_fuel(type_, types, fuel)->0->Ok_0.len() >= 1,
    decreases fuel, type_,
{
    match type_ {
        SpecType::Union { lhs, rhs, .. } => {
            lemma_members_nonempty(*lhs, types, fuel);
        },
        SpecType::Reference { name, position } => {
            if let Ok(resolved) = resolve_spec(name, position, types) {
                lemma_members_nonempty(resolved, types, (fuel - 1) as nat);
            }
        },
        _ => {},
    }
}

/// A type holds no reference to a named type.
pub open spec fn reference_free(type_: SpecType) -> bool
    decreases type_,
{
    match type_ {
        SpecType::Function { arguments, result, .. } => reference_free_list(arguments)
            && reference_free(*result),
        SpecType::List { element, .. } => reference_free(*element),
        SpecType::Mapping { key, value, .. } => reference_free(*key) && reference_free(*value),
        SpecType::Union { lhs, rhs, .. } => reference_free(*lhs) && reference_free(*rhs),
        SpecType::Reference { .. } => false,
        _ => true,
    }
}

/// No type of a list holds a reference.
pub open spec fn reference_free_list(types_: Seq<SpecType>) -> bool
    decreases types_,
{
    if types_.len() == 0 {
        true
    } else {
        reference_free_list(types_.drop_last()) && reference_free(types_.last())
    }
}

pub proof fn lemma_insert_member_from(members: Seq<SpecType>, type_: SpecType)
    ensures
        forall|i: int|
            0 <= i < insert_member(members, type_).len() ==> #[trigger] insert_member(
                members,
                type_,
            )[i] == type_ || members.contains(insert_member(members, type_)[i]),
    decreases members.len(),
{
    if members.len() > 0 {
        let c = compare_spec(type_, members[0]);
        if c > 0 {
            lemma_insert_member_from(members.drop_first(), type_);
            let rest = insert_member(members.drop_first(), type_);
            assert forall|i: int| 0 <= i < insert_member(members, type_).len() implies #[trigger] insert_member(
                members,
                type_,
            )[i] == type_ || members.contains(insert_member(members, type_)[i]) by {
                if i > 0 {
                    let x = rest[i - 1];
                    if x != type_ {
                        let k = choose|k: int| 0 <= k < members.drop_first().len() && members.drop_first()[k] == x;
                        assert(members[k + 1] == x);
                    }
                } else {
                    assert(members[0] == members[0]);
                }
            }
        } else if c < 0 {
            assert forall|i: int| 0 <= i < insert_member(members, type_).len() implies #[trigger] insert_member(
                members,
                type_,
            )[i] == type_ || members.contains(insert_member(members, type_)[i]) by {
                if i > 0 {
                    assert(members[i - 1] == insert_member(members, type_)[i]);
                }
            }
        }
    }
}

proof fn lemma_insert_members_reference_free(members: Seq<SpecType>, types_: Seq<SpecType>)
    requires
        forall|i: int| 0 <= i < members.len() ==> reference_free(#[trigger] members[i]),
        forall|i: int| 0 <= i < types_.len() ==> reference_free(#[trigger] types_[i]),
    ensures
        forall|i: int|
            0 <= i < insert_members(members, types_).len() ==> reference_free(
                #[trigger] insert_members(members, types_)[i],
            ),
    decreases types_.len(),
{
    if types_.len() > 0 {
        let init = insert_members(members, types_.drop_last());
        lemma_insert_members_reference_free(members, types_.drop_last());
        lemma_insert_member_from(init, types_.last());
        assert forall|i: int| 0 <= i < insert_member(init, types_.last()).len() implies reference_free(
            #[trigger] insert_member(init, types_.last())[i],
        ) by {
            let x = insert_member(init, types_.last())[i];
            if x != types_.last() {
                let k = choose|k: int| 0 <= k < init.len() && init[k] == x;
                assert(reference_free(init[k]));
            }
        }
    }
}

proof fn lemma_fold_reference_free(members: Seq<SpecType>, position: SpecPosition)
    requires
        members.len() >= 1,
        forall|i: int| 0 <= i < members.len() ==> reference_free(#[trigger] members[i]),
    ensures
        reference_free(fold_members(members, position)),
    decreases members.len(),
{
    if members.len() > 1 {
        lemma_fold_reference_free(members.drop_last(), position);
        assert(reference_free(members[members.len() - 1]));
    } else {
        assert(reference_free(members[0]));
    }
}

/// Canonical types hold no references.
pub proof fn lemma_canonical_reference_free(type_: SpecType, types: Map<Seq<char>, SpecType>, fuel: nat)
    ensures
        canonical_fuel(type_, types, fuel) matches Some(Ok(c)) ==> reference_free(c),
        members_fuel(type_, types, fuel) matches Some(Ok(ms)) ==> forall|i: int|
            0 <= i < ms.len() ==> reference_free(#[trigger] ms[i]),
    decreases fuel, type_,
{
    match type_ {
        SpecType::Function { arguments, result, .. } => {
            lemma_canonical_list_reference_free(arguments, types, fuel);
            lemma_canonical_reference_free(*result, types, fuel);
        },
        SpecType::List { element, .. } => {
            lemma_canonical_reference_free(*element, types, fuel);
        },
        SpecType::Mapping { key, value, .. } => {
            lemma_canonical_reference_free(*key, types, fuel);
            lemma_canonical_reference_free(*value, types, fuel);
        },
        SpecType::Union { lhs, rhs, position } => {
            lemma_canonical_reference_free(*lhs, types, fuel);
            lemma_canonical_reference_free(*rhs, types, fuel);
            if let Some(Ok(left)) = members_fuel(*lhs, types, fuel) {
                if let Some(Ok(right)) = members_fuel(*rhs, types, fuel) {
                    assert forall|i: int| 0 <= i < (left + right).len() implies reference_free(
                        #[trigger] (left + right)[i],
                    ) by {
                        if i >= left.len() {
                            assert(reference_free(right[i - left.len()]));
                        }
                    }
                    lemma_insert_members_reference_free(Seq::empty(), left + right);
                    lemma_members_nonempty(*lhs, types, fuel);
                    lemma_insert_members_len(Seq::empty(), left + right);
                    lemma_fold_reference_free(insert_members(Seq::empty(), left + right), position);
                }
            }
        },
        SpecType::Reference { name, position } => {
            if fuel > 0 {
                if let Ok(resolved) = resolve_spec(name, position, types) {
                    lemma_canonical_reference_free(resolved, types, (fuel - 1) as nat);
                }
            }
        },
        _ => {},
    }
}

proof fn lemma_canonical_list_reference_free(
    types_: Seq<SpecType>,
    types: Map<Seq<char>, SpecType>,
    fuel: nat,
)
    ensures
        canonical_list_fuel(types_, types, fuel) matches Some(Ok(cs)) ==> reference_free_list(cs),
    decreases fuel, types_,
{
    if types_.len() > 0 {
        lemma_canonical_list_reference_free(types_.drop_last(), types, fuel);
        lemma_canonical_reference_free(types_.last(), types, fuel);
        if let Some(Ok(cs)) = canonical_list_fuel(types_, types, fuel) {
            assert(cs.drop_last() =~= canonical_list_fuel(types_.drop_last(), types, fuel)->0->Ok_0);
        }
    }
}

/// A type without references canonicalizes without resolving any.
pub proof fn lemma_reference_free_canonicalizable(type_: SpecType, types: Map<Seq<char>, SpecType>)
    requires
        reference_free(type_),
    ensures
        canonical_fuel(type_, types, 0) is Some,
        members_fuel(type_, types, 0) is Some,
    decreases type_,
{
    match type_ {
        SpecType::Function { arguments, result, .. } => {
            lemma_reference_free_list_canonicalizable(arguments, types);
            lemma_reference_free_canonicalizable(*result, types);
        },
        SpecType::List { element, .. } => {
            lemma_reference_free_canonicalizable(*element, types);
        },
        SpecType::Mapping { key, value, .. } => {
            lemma_reference_free_canonicalizable(*key, types);
            lemma_reference_free_canonicalizable(*value, types);
        },
        SpecType::Union { lhs, rhs, .. } => {
            lemma_reference_free_canonicalizable(*lhs, types);
            lemma_reference_free_canonicalizable(*rhs, types);
        },
        _ => {},
    }
}

proof fn lemma_reference_free_list_canonicalizable(
    types_: Seq<SpecType>,
    types: Map<Seq<char>, SpecType>,
)
    requires
        reference_free_list(types_),
    ensures
        canonical_list_fuel(types_, types, 0) is Some,
    decreases types_,
{
    if types_.len() > 0 {
        lemma_reference_free_list_canonicalizable(types_.drop_last(), types);
        lemma_reference_free_canonicalizable(types_.last(), types);
    }
}

/// A type without references canonicalizes without error, whatever the
/// fuel.
pub proof fn lemma_reference_free_ok(type_: SpecType, types: Map<Seq<char>, SpecType>, fuel: nat)
    requires
        reference_free(type_),
    ensures
        canonical_fuel(type_, types, fuel) matches Some(Ok(_)),
        members_fuel(type_, types, fuel) matches Some(Ok(_)),
    decreases type_,
{
    match type_ {
        SpecType::Function { arguments, result, .. } => {
            lemma_reference_free_list_ok(arguments, types, fuel);
            lemma_reference_free_ok(*result, types, fuel);
        },
        SpecType::List { element, .. } => {
            lemma_reference_free_ok(*element, types, fuel);
        },
        SpecType::Mapping { key, value, .. } => {
            lemma_reference_free_ok(*key, types, fuel);
            lemma_reference_free_ok(*value, types, fuel);
        },
        SpecType::Union { lhs, rhs, .. } => {
            lemma_reference_free_ok(*lhs, types, fuel);
            lemma_reference_free_ok(*rhs, types, fuel);
        },
        _ => {},
    }
}

proof fn lemma_reference_free_list_ok(types_: Seq<SpecType>, types: Map<Seq<char>, SpecType>, fuel: nat)
    requires
        reference_free_list(types_),
    ensures
        canonical_list_fuel(types_, types, fuel) matches Some(Ok(_)),
    decreases types_,
{
    if types_.len() > 0 {
        lemma_reference_free_list_ok(types_.drop_last(), types, fuel);
        lemma_reference_free_ok(types_.last(), types, fuel);
    }
}

/// The canonical form of a type canonicalizes in turn.
pub proof fn lemma_canonical_canonicalizable(type_: SpecType, types: Map<Seq<char>, SpecType>)
    requires
        canonicalizable(type_, types),
    ensures
        canonical(type_, types) matches Ok(c) ==> canonicalizable(c, types) && reference_free(c),
{
    let fuel = choose|fuel: nat| canonical_fuel(type_, types, fuel) is Some;
    lemma_canonical_reference_free(type_, types, fuel);
    if let Ok(c) = canonical(type_, types) {
        lemma_reference_free_canonicalizable(c, types);
    }
}

/// The models of the result of a canonicalization.
pub open spec fn view_option_result(result: Result<Option<Type>, AnalysisError>) -> Result<
    Option<SpecType>,
    SpecAnalysisError,
> {
    match result {
        Ok(Some(type_)) => Ok(Some(type_@)),
        Ok(None) => Ok(None),
        Err(error) => Err(error@),
    }
}

/// Canonicalizes a type deeply.
pub fn canonicalize(type_: &Type, types: &TypeMap) -> (canonical_type: Result<Type, AnalysisError>)
    requires
        canonicalizable(type_@, type_map_contents(*types)),
    ensures
        view_result(canonical_type) == canonical(type_@, type_map_contents(*types)),
{
    let ghost fuel = choose|fuel: nat|
        canonical_fuel(type_@, type_map_contents(*types), fuel) is Some;
    canonicalize_fuel(type_, types, Ghost(fuel))
}

/// The canonical form of a type if it is a function type.
pub fn canonicalize_function(type_: &Type, types: &TypeMap) -> (function: Result<
    Option<Type>,
    AnalysisError,
>)
    requires
        canonicalizable(type_@, type_map_contents(*types)),
    ensures
        view_option_result(function) == match canonical(type_@, type_map_contents(*types)) {
            Ok(canonical) => Ok(
                if canonical is Function {
                    Some(canonical)
                } else {
                    None
                },
            ),
            Err(error) => Err(error),
        },
{
    let canonical = canonicalize(type_, types)?;
    Ok(
        if matches!(canonical, Type::Function { .. }) {
            Some(canonical)
        } else {
            None
        },
    )
}

/// The canonical form of a type if it is a list type.
pub fn canonicalize_list(type_: &Type, types: &TypeMap) -> (list: Result<
    Option<Type>,
    AnalysisError,
>)
    requires
        canonicalizable(type_@, type_map_contents(*types)),
    ensures
        view_option_result(list) == match canonical(type_@, type_map_contents(*types)) {
            Ok(canonical) => Ok(
                if canonical is List {
                    Some(canonical)
                } else {
                    None
                },
            ),
            Err(error) => Err(error),
        },
{
    let canonical = canonicalize(type_, types)?;
    Ok(
        if canonical.is_list() {
            Some(canonical)
        } else {
            None
        },
    )
}

/// The canonical form of a type if it is a map type.
pub fn canonicalize_map(type_: &Type, types: &TypeMap) -> (map: Result<
    Option<Type>,
    AnalysisError,
>)
    requires
        canonicalizable(type_@, type_map_contents(*types)),
    ensures
        view_option_result(map) == match canonical(type_@, type_map_contents(*types)) {
            Ok(canonical) => Ok(
                if canonical is Mapping {
                    Some(canonical)
                } else {
                    None
                },
            ),
            Err(error) => Err(error),
        },
{
    let canonical = canonicalize(type_, types)?;
    Ok(
        if canonical.is_map() {
            Some(canonical)
        } else {
            None
        },
    )
}

/// The canonical form of a type if it is a record type.
pub fn canonicalize_record(type_: &Type, types: &TypeMap) -> (record: Result<
    Option<Type>,
    AnalysisError,
>)
    requires
        canonicalizable(type_@, type_map_contents(*types)),
    ensures
        view_option_result(record) == match canonical(type_@, type_map_contents(*types)) {
            Ok(canonical) => Ok(
                if canonical is Record {
                    Some(canonical)
                } else {
                    None
                },
            ),
            Err(error) => Err(error),
        },
{
    let canonical = canonicalize(type_, types)?;
    Ok(
        if matches!(canonical, Type::Record { .. }) {
            Some(canonical)
        } else {
            None
        },
    )
}

fn canonicalize_fuel(type_: &Type, types: &TypeMap, Ghost(fuel): Ghost<nat>) -> (canonical_type:
    Result<Type, AnalysisError>)
    requires
        canonical_fuel(type_@, type_map_contents(*types), fuel) is Some,
    ensures
        Some(view_result(canonical_type)) == canonical_fuel(
            type_@,
            type_map_contents(*types),
            fuel,
        ),
    decreases fuel, type_, 0nat,
{
    match type_ {
        Type::Function { arguments, result, position } => {
            let arguments = canonicalize_list_fuel(arguments, types, Ghost(fuel))?;
            let result = canonicalize_fuel(result, types, Ghost(fuel))?;
            Ok(Type::function(arguments, result, position.copy()))
        },
        Type::List { element, position } => {
            let element = canonicalize_fuel(element, types, Ghost(fuel))?;
            Ok(Type::list(element, position.copy()))
        },
        Type::Mapping { key, value, position } => {
            let key = canonicalize_fuel(key, types, Ghost(fuel))?;
            let value = canonicalize_fuel(value, types, Ghost(fuel))?;
            Ok(Type::map(key, value, position.copy()))
        },
        Type::Union { lhs, rhs, position } => {
            let ghost left = members_fuel(lhs@, type_map_contents(*types), fuel)->0->Ok_0;
            let mut members: Vec<Type> = Vec::new();
            collect_members(lhs, &mut members, types, Ghost(fuel))?;
            collect_members(rhs, &mut members, types, Ghost(fuel))?;
            proof {
                let right = members_fuel(rhs@, type_map_contents(*types), fuel)->0->Ok_0;
                lemma_insert_members_append(Seq::empty(), left, right);
                lemma_members_nonempty(lhs@, type_map_contents(*types), fuel);
                lemma_insert_members_len(Seq::empty(), left + right);
            }
            Ok(fold(&members, position))
        },
        Type::Reference { .. } => {
            let resolved = resolve(type_, types)?;
            canonicalize_fuel(&resolved, types, Ghost((fuel - 1) as nat))
        },
        _ => Ok(clone_type(type_)),
    }
}

fn canonicalize_list_fuel(types_: &Vec<Type>, types: &TypeMap, Ghost(fuel): Ghost<nat>) -> (canonical_types:
    Result<Vec<Type>, AnalysisError>)
    requires
        canonical_list_fuel(view_types(types_@), type_map_contents(*types), fuel) is Some,
    ensures
        Some(
            match canonical_types {
                Ok(canonical_types) => Ok(view_types(canonical_types@)),
                Err(error) => Err(error@),
            },
        ) == canonical_list_fuel(view_types(types_@), type_map_contents(*types), fuel),
    decreases fuel, types_, 0nat,
{
    let ghost env = type_map_contents(*types);
    let ghost all = view_types(types_@);
    proof {
        lemma_view_types(types_@);
    }
    let mut canonical_types: Vec<Type> = Vec::new();
    let mut i: usize = 0;
    while i < types_.len()
        invariant
            i <= types_.len(),
            env == type_map_contents(*types),
            all == view_types(types_@),
            all.len() == types_@.len(),
            forall|k: int| 0 <= k < types_@.len() ==> #[trigger] all[k] == types_@[k]@,
            canonical_list_fuel(all, env, fuel) is Some,
            canonical_list_fuel(all.take(i as int), env, fuel) == Some(
                Ok::<Seq<SpecType>, SpecAnalysisError>(view_types(canonical_types@)),
            ),
        decreases types_.len() - i,
    {
        proof {
            assert(decreases_to!(types_ => types_@[i as int]));
            lemma_list_prefix(all, (i + 1) as nat, env, fuel);
            assert(all.take(i + 1).drop_last() =~= all.take(i as int));
            assert(all.take(i + 1).last() == types_@[i as int]@);
        }
        let canonical_type = match canonicalize_fuel(&types_[i], types, Ghost(fuel)) {
            Ok(canonical_type) => canonical_type,
            Err(error) => {
                proof {
                    lemma_list_error_prefix(all, (i + 1) as nat, env, fuel);
                }
                return Err(error);
            },
        };
        let ghost before = canonical_types@;
        canonical_types.push(canonical_type);
        proof {
            assert(canonical_types@.drop_last() =~= before);
        }
        i = i + 1;
    }
    proof {
        assert(all.take(i as int) =~= all);
    }
    Ok(canonical_types)
}

/// A prefix of a list whose canonicalization ends also ends.
proof fn lemma_list_prefix(
    types_: Seq<SpecType>,
    n: nat,
    types: Map<Seq<char>, SpecType>,
    fuel: nat,
)
    requires
        n <= types_.len(),
        canonical_list_fuel(types_, types, fuel) is Some,
    ensures
        canonical_list_fuel(types_.take(n as int), types, fuel) is Some,
        canonical_list_fuel(types_.take(n as int), types, fuel) matches Some(Err(e))
            ==> canonical_list_fuel(types_, types, fuel) == Some(
            Err::<Seq<SpecType>, SpecAnalysisError>(e),
        ),
    decreases types_.len(),
{
    if n < types_.len() {
        assert(types_.drop_last().take(n as int) =~= types_.take(n as int));
        lemma_list_prefix(types_.drop_last(), n, types, fuel);
    } else {
        assert(types_.take(n as int) =~= types_);
    }
}

proof fn lemma_list_error_prefix(
    types_: Seq<SpecType>,
    n: nat,
    types: Map<Seq<char>, SpecType>,
    fuel: nat,
)
    requires
        n <= types_.len(),
        canonical_list_fuel(types_, types, fuel) is Some,
        canonical_list_fuel(types_.take(n as int), types, fuel) matches Some(Err(_)),
    ensures
        canonical_list_fuel(types_, types, fuel) == canonical_list_fuel(
            types_.take(n as int),
            types,
            fuel,
        ),
{
    lemma_list_prefix(types_, n, types, fuel);
}

fn collect_members(
    type_: &Type,
    members: &mut Vec<Type>,
    types: &TypeMap,
    Ghost(fuel): Ghost<nat>,
) -> (collected: Result<(), AnalysisError>)
    requires
        members_fuel(type_@, type_map_contents(*types), fuel) is Some,
    ensures
        match members_fuel(type_@, type_map_contents(*types), fuel).unwrap() {
            Ok(list) => collected is Ok && view_types(final(members)@) == insert_members(
                view_types(old(members)@),
                list,
            ),
            Err(error) => collected matches Err(e) && e@ == error,
        },
    decreases fuel, type_, 1nat,
{
    match type_ {
        Type::Union { lhs, rhs, .. } => {
            let ghost start = view_types(members@);
            collect_members(lhs, members, types, Ghost(fuel))?;
            collect_members(rhs, members, types, Ghost(fuel))?;
            proof {
                let left = members_fuel(lhs@, type_map_contents(*types), fuel)->0->Ok_0;
                let right = members_fuel(rhs@, type_map_contents(*types), fuel)->0->Ok_0;
                lemma_insert_members_append(start, left, right);
            }
            Ok(())
        },
        Type::Reference { .. } => {
            let resolved = resolve(type_, types)?;
            collect_members(&resolved, members, types, Ghost((fuel - 1) as nat))
        },
        _ => {
            let canonical_type = canonicalize_fuel(type_, types, Ghost(fuel))?;
            let ghost before = view_types(members@);
            let ghost added = canonical_type@;
            insert_sorted(members, canonical_type);
            proof {
                assert(seq![added].drop_last() =~= Seq::<SpecType>::empty());
                assert(insert_members(before, Seq::empty()) == before);
                assert(insert_members(before, seq![added]) == insert_member(before, added));
            }
            Ok(())
        },
    }
}

/// Inserts a type into members sorted by `compare_spec`, unless a member is
/// the same type up to positions.
pub fn insert_sorted(members: &mut Vec<Type>, type_: Type)
    ensures
        view_types(final(members)@) == insert_member(view_types(old(members)@), type_@),
{
    let ghost m = view_types(members@);
    proof {
        lemma_view_types(members@);
        assert(m.take(0) + m.skip(0) =~= m);
    }
    let mut j: usize = 0;
    while j < members.len()
        invariant
            j <= members.len(),
            m == view_types(members@),
            m.len() == members@.len(),
            members@ == old(members)@,
            forall|k: int| 0 <= k < members@.len() ==> #[trigger] m[k] == members@[k]@,
            insert_member(m, type_@) == m.take(j as int) + insert_member(m.skip(j as int), type_@),
        decreases members.len() - j,
    {
        let c = compare(&type_, &members[j]);
        if c == 0 {
            proof {
                assert(m.take(j as int) + m.skip(j as int) =~= m);
            }
            return;
        } else if c < 0 {
            let ghost before = members@;
            members.insert(j, type_);
            proof {
                lemma_view_types(members@);
                assert(view_types(members@) =~= m.take(j as int) + (seq![type_@] + m.skip(
                    j as int,
                )));
            }
            return;
        }
        proof {
            assert(m.skip(j as int).drop_first() =~= m.skip(j + 1));
            assert(m.take(j as int) + seq![m[j as int]] =~= m.take(j + 1));
        }
        j = j + 1;
    }
    let ghost before = members@;
    members.push(type_);
    proof {
        lemma_view_types(members@);
        assert(m.take(j as int) =~= m);
        assert(view_types(members@) =~= m + seq![type_@]);
    }
}

/// Folds members from the left by `combine`.
fn fold(members: &Vec<Type>, position: &Position) -> (type_: Type)
    requires
        members.len() >= 1,
    ensures
        type_@ == fold_members(view_types(members@), position@),
{
    let ghost m = view_types(members@);
    proof {
        lemma_view_types(members@);
    }
    let mut type_ = clone_type(&members[0]);
    let mut i: usize = 1;
    proof {
        assert(m.take(1).drop_last().len() == 0);
    }
    while i < members.len()
        invariant
            1 <= i <= members.len(),
            m == view_types(members@),
            m.len() == members@.len(),
            forall|k: int| 0 <= k < members@.len() ==> #[trigger] m[k] == members@[k]@,
            type_@ == fold_members(m.take(i as int), position@),
        decreases members.len() - i,
    {
        let other = &members[i];
        type_ = if type_.is_any() {
            type_.set_position(position.copy())
        } else if other.is_any() {
            clone_type(other).set_position(position.copy())
        } else {
            Type::union(type_, clone_type(other), position.copy())
        };
        proof {
            assert(m.take(i + 1).drop_last() =~= m.take(i as int));
        }
        i = i + 1;
    }
    proof {
        assert(m.take(i as int) =~= m);
    }
    type_
}

} // verus!
