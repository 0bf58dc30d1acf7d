//! The member types of a union type.
use crate::error::{AnalysisError, SpecAnalysisError};
use crate::tables::{type_map_contents, TypeMap};
use crate::type_canonicalizer::{canonical, canonicalizable, canonicalize, insert_members};
use crate::types::{clone_type, view_types, SpecType, Type};
use vstd::prelude::*;

verus! {

/// The types that a canonical type unites, in order of appearance.
pub open spec fn flatten(type_: SpecType) -> Seq<SpecType>
    decreases type_,
{
    match type_ {
        SpecType::Union { lhs, rhs, .. } => flatten(*lhs) + flatten(*rhs),
        _ => seq![type_],
    }
}

/// The distinct members of a type, sorted in the order of `type_order`, or
/// the first error of canonicalizing it.
pub open spec fn members_spec(type_: SpecType, types: Map<Seq<char>, SpecType>) -> Result<
    Seq<SpecType>,
    SpecAnalysisError,
> {
    match canonical(type_, types) {
        Ok(c) => Ok(insert_members(Seq::empty(), flatten(c))),
        Err(error) => Err(error),
    }
}

/// The models of a result that holds types.
pub open spec fn view_types_result(result: Result<Vec<Type>, AnalysisError>) -> Result<
    Seq<SpecType>,
    SpecAnalysisError,
> {
    match result {
        Ok(types) => Ok(view_types(types@)),
        Err(error) => Err(error@),
    }
}

/// Calculates the distinct members of a type's canonical form, sorted.
pub fn calculate(type_: &Type, types: &TypeMap) -> (members: Result<Vec<Type>, AnalysisError>)
    requires
        canonicalizable(type_@, type_map_contents(*types)),
    ensures
        view_types_result(members) == members_spec(type_@, type_map_contents(*types)),
{
    let canonical = canonicalize(type_, types)?;
    let mut members: Vec<Type> = Vec::new();
    calculate_canonical(&canonical, &mut members);
    Ok(members)
}

fn calculate_canonical(type_: &Type, members: &mut Vec<Type>)
    ensures
        view_types(final(members)@) == insert_members(view_types(old(members)@), flatten(type_@)),
    decreases type_,
{
    match type_ {
        Type::Union { lhs, rhs, .. } => {
            let ghost start = view_types(members@);
            calculate_canonical(lhs, members);
            calculate_canonical(rhs, members);
            proof {
                crate::type_canonicalizer::lemma_insert_members_append(
                    start,
                    flatten(lhs@),
                    flatten(rhs@),
                );
            }
        },
        _ => {
            let ghost before = view_types(members@);
            let ghost added = type_@;
            crate::type_canonicalizer::insert_sorted(members, clone_type(type_));
            proof {
                assert(seq![added].drop_last() =~= Seq::<SpecType>::empty());
                assert(insert_members(before, Seq::empty()) == before);
                assert(insert_members(before, seq![added]) == crate::type_canonicalizer::insert_member(
                    before,
                    added,
                ));
            }
        },
    }
}

/// The members of a union do not depend on the order of its two sides:
/// swapped, they compare equal one by one, differing at most in
/// positions.
pub proof fn law_members_independent_of_order(
    one: SpecType,
    other: SpecType,
    position: crate::position::SpecPosition,
    other_position: crate::position::SpecPosition,
    types: Map<Seq<char>, SpecType>,
)
    requires
        canonicalizable(SpecType::Union { lhs: Box::new(one), rhs: Box::new(other), position }, types),
        canonical(SpecType::Union { lhs: Box::new(one), rhs: Box::new(other), position }, types) is Ok,
    ensures
        members_spec(SpecType::Union { lhs: Box::new(one), rhs: Box::new(other), position }, types) is Ok,
        members_spec(
            SpecType::Union { lhs: Box::new(other), rhs: Box::new(one), position: other_position },
            types,
        ) is Ok,
        crate::canonical_form::same_members(
            members_spec(SpecType::Union { lhs: Box::new(one), rhs: Box::new(other), position }, types)->Ok_0,
            members_spec(
                SpecType::Union { lhs: Box::new(other), rhs: Box::new(one), position: other_position },
                types,
            )->Ok_0,
        ),
{
    crate::canonical_form::lemma_union_swap(one, other, position, other_position, types);
}

} // verus!
