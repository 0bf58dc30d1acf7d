//! Subsumption of types: whether every value of a lower type is a value of
//! an upper type.
use crate::error::{AnalysisError, SpecAnalysisError};
use crate::tables::{type_map_contents, TypeMap};
use crate::type_canonicalizer::{
    canonical,
    canonicalizable,
    canonicalize,
    canonical_fuel,
    fold_members,
    insert_members,
    lemma_canonical_canonicalizable,
    lemma_insert_members_len,
    lemma_members_nonempty,
    members_fuel,
    lemma_reference_free_canonicalizable,
    lemma_reference_free_ok,
    reference_free,
};
use crate::position::SpecPosition;
use crate::canonical_form::{
    covered,
    is_canonical,
    strictly_sorted,
    lemma_canonical_form,
    lemma_canonical_members,
    lemma_fold_any,
    lemma_fold_canonical,
    lemma_fuel_monotone,
    lemma_insert_members_covers,
    lemma_insert_members_from,
    lemma_insert_members_sorted,
    lemma_canonical_form_reference_free,
    lemma_canonical_is_canonical,
    lemma_canonical_of_canonical,
};
use crate::type_equality_checker::{equal_canonical, law_equality_reflexive, types_equal, view_bool_result};
use crate::types::{SpecType, Type};
use crate::type_order::compare_spec;
use crate::union_type_creator::union_of;
use crate::union_type_member_calculator::flatten;
use vstd::prelude::*;

verus! {

/// Subsumption of canonical types: `any` subsumes everything, a union is
/// subsumed when both its sides are, a union subsumes what one of its sides
/// subsumes, and otherwise the types must be equal.
pub open spec fn subsumes_canonical(
    lower: SpecType,
    upper: SpecType,
    types: Map<Seq<char>, SpecType>,
) -> Result<bool, SpecAnalysisError>
    decreases lower, upper,
{
    if upper is Any {
        Ok(true)
    } else if lower is Union && upper is Union {
        match subsumes_canonical(*lower->Union_lhs, upper, types) {
            Ok(true) => subsumes_canonical(*lower->Union_rhs, upper, types),
            other => other,
        }
    } else if upper is Union {
        match subsumes_canonical(lower, *upper->Union_lhs, types) {
            Ok(false) => subsumes_canonical(lower, *upper->Union_rhs, types),
            other => other,
        }
    } else {
        types_equal(lower, upper, types)
    }
}

/// Whether a type subsumes another, or the first error of canonicalizing
/// them.
pub open spec fn subsumes(lower: SpecType, upper: SpecType, types: Map<Seq<char>, SpecType>) -> Result<
    bool,
    SpecAnalysisError,
> {
    match canonical(lower, types) {
        Ok(a) => match canonical(upper, types) {
            Ok(b) => subsumes_canonical(a, b, types),
            Err(error) => Err(error),
        },
        Err(error) => Err(error),
    }
}

/// Checks whether `upper` subsumes `lower`.
pub fn check(lower: &Type, upper: &Type, types: &TypeMap) -> (subsumed: Result<bool, AnalysisError>)
    requires
        canonicalizable(lower@, type_map_contents(*types)),
        canonicalizable(upper@, type_map_contents(*types)),
    ensures
        view_bool_result(subsumed) == subsumes(lower@, upper@, type_map_contents(*types)),
{
    proof {
        lemma_canonical_canonicalizable(lower@, type_map_contents(*types));
        lemma_canonical_canonicalizable(upper@, type_map_contents(*types));
    }
    let lower = canonicalize(lower, types)?;
    let upper = canonicalize(upper, types)?;
    check_canonical(&lower, &upper, types)
}

fn check_canonical(lower: &Type, upper: &Type, types: &TypeMap) -> (subsumed: Result<
    bool,
    AnalysisError,
>)
    requires
        reference_free(lower@),
        reference_free(upper@),
    ensures
        view_bool_result(subsumed) == subsumes_canonical(lower@, upper@, type_map_contents(*types)),
    decreases lower, upper,
{
    proof {
        lemma_reference_free_canonicalizable(lower@, type_map_contents(*types));
        lemma_reference_free_canonicalizable(upper@, type_map_contents(*types));
    }
    match (lower, upper) {
        (_, Type::Any { .. }) => Ok(true),
        (Type::Union { lhs, rhs, .. }, Type::Union { .. }) => Ok(
            check_canonical(lhs, upper, types)? && check_canonical(rhs, upper, types)?,
        ),
        (_, Type::Union { lhs, rhs, .. }) => Ok(
            check_canonical(lower, lhs, types)? || check_canonical(lower, rhs, types)?,
        ),
        _ => crate::type_equality_checker::check(lower, upper, types),
    }
}


/// `any` subsumes every type that canonicalizes.
pub proof fn law_any_subsumes(type_: SpecType, position: SpecPosition, types: Map<Seq<char>, SpecType>)
    requires
        canonical(type_, types) is Ok,
    ensures
        subsumes(type_, SpecType::Any { position }, types) == Ok::<bool, SpecAnalysisError>(true),
{
    let any = SpecType::Any { position };
    assert(canonical_fuel(any, types, 0) is Some);
}

/// A type without references canonicalizes, to a form without errors.
proof fn lemma_reference_free_canonical(type_: SpecType, types: Map<Seq<char>, SpecType>)
    requires
        reference_free(type_),
    ensures
        canonicalizable(type_, types),
        canonical(type_, types) is Ok,
{
    lemma_reference_free_canonicalizable(type_, types);
    assert(canonical_fuel(type_, types, 0) is Some);
    let fuel = choose|fuel: nat| canonical_fuel(type_, types, fuel) is Some;
    lemma_reference_free_ok(type_, types, fuel);
}

/// Subsumption between types without references meets no error.
proof fn lemma_subsumes_ok(lower: SpecType, upper: SpecType, types: Map<Seq<char>, SpecType>)
    requires
        reference_free(lower),
        reference_free(upper),
    ensures
        subsumes_canonical(lower, upper, types) is Ok,
    decreases lower, upper,
{
    if upper is Any {
    } else if lower is Union && upper is Union {
        lemma_subsumes_ok(*lower->Union_lhs, upper, types);
        lemma_subsumes_ok(*lower->Union_rhs, upper, types);
    } else if upper is Union {
        lemma_subsumes_ok(lower, *upper->Union_lhs, types);
        lemma_subsumes_ok(lower, *upper->Union_rhs, types);
    } else {
        lemma_reference_free_canonical(lower, types);
        lemma_reference_free_canonical(upper, types);
    }
}

/// A type that is no union is subsumed by a type of which it is a member.
proof fn lemma_member_subsumed(member: SpecType, upper: SpecType, types: Map<Seq<char>, SpecType>)
    requires
        reference_free(member),
        reference_free(upper),
        !(member is Union),
        flatten(upper).contains(member),
    ensures
        subsumes_canonical(member, upper, types) == Ok::<bool, SpecAnalysisError>(true),
    decreases upper,
{
    if upper is Any {
    } else if upper is Union {
        let lhs = *upper->Union_lhs;
        let rhs = *upper->Union_rhs;
        assert(flatten(upper) == flatten(lhs) + flatten(rhs));
        if flatten(lhs).contains(member) {
            lemma_member_subsumed(member, lhs, types);
        } else {
            let j = choose|j: int| 0 <= j < flatten(upper).len() && flatten(upper)[j] == member;
            assert(flatten(rhs)[j - flatten(lhs).len()] == member);
            assert(flatten(rhs).contains(member));
            lemma_subsumes_ok(member, lhs, types);
            lemma_member_subsumed(member, rhs, types);
        }
    } else {
        assert(flatten(upper) == seq![upper]);
        assert(member == upper);
        lemma_reference_free_canonical(member, types);
        law_equality_reflexive(member, types);
    }
}

/// A type whose members are all members of a union is subsumed by it.
proof fn lemma_members_subsumed(lower: SpecType, upper: SpecType, types: Map<Seq<char>, SpecType>)
    requires
        reference_free(lower),
        reference_free(upper),
        upper is Union,
        forall|j: int| 0 <= j < flatten(lower).len() ==> flatten(upper).contains(#[trigger] flatten(lower)[j]),
    ensures
        subsumes_canonical(lower, upper, types) == Ok::<bool, SpecAnalysisError>(true),
    decreases lower,
{
    if lower is Union {
        let lhs = *lower->Union_lhs;
        let rhs = *lower->Union_rhs;
        assert(flatten(lower) == flatten(lhs) + flatten(rhs));
        assert forall|j: int| 0 <= j < flatten(lhs).len() implies flatten(upper).contains(
            #[trigger] flatten(lhs)[j],
        ) by {
            assert(flatten(lower)[j] == flatten(lhs)[j]);
        }
        assert forall|j: int| 0 <= j < flatten(rhs).len() implies flatten(upper).contains(
            #[trigger] flatten(rhs)[j],
        ) by {
            assert(flatten(lower)[flatten(lhs).len() + j] == flatten(rhs)[j]);
        }
        lemma_members_subsumed(lhs, upper, types);
        lemma_members_subsumed(rhs, upper, types);
    } else {
        assert(flatten(lower) == seq![lower]);
        assert(flatten(lower)[0] == lower);
        lemma_member_subsumed(lower, upper, types);
    }
}

/// Every type that canonicalizes subsumes itself.
pub proof fn law_subsumption_reflexive(type_: SpecType, types: Map<Seq<char>, SpecType>)
    requires
        canonicalizable(type_, types),
        canonical(type_, types) is Ok,
    ensures
        subsumes(type_, type_, types) == Ok::<bool, SpecAnalysisError>(true),
{
    lemma_canonical_canonicalizable(type_, types);
    let c = canonical(type_, types)->Ok_0;
    if c is Union {
        lemma_members_subsumed(c, c, types);
    } else if !(c is Any) {
        let fuel = choose|fuel: nat| canonical_fuel(c, types, fuel) is Some;
        lemma_reference_free_ok(c, types, fuel);
        law_equality_reflexive(c, types);
    }
}

/// Equal types flatten to members that are equal one by one.
proof fn lemma_equal_flatten(one: SpecType, other: SpecType)
    requires
        equal_canonical(one, other),
    ensures
        flatten(one).len() == flatten(other).len(),
        forall|j: int|
            0 <= j < flatten(one).len() ==> equal_canonical(
                #[trigger] flatten(one)[j],
                flatten(other)[j],
            ),
    decreases one,
{
    if one is Union {
        let (a, b) = (*one->Union_lhs, *one->Union_rhs);
        let (c, d) = (*other->Union_lhs, *other->Union_rhs);
        lemma_equal_flatten(a, c);
        lemma_equal_flatten(b, d);
        assert forall|j: int| 0 <= j < flatten(one).len() implies equal_canonical(
            #[trigger] flatten(one)[j],
            flatten(other)[j],
        ) by {
            if j < flatten(a).len() {
                assert(flatten(one)[j] == flatten(a)[j] && flatten(other)[j] == flatten(c)[j]);
            } else {
                let i = j - flatten(a).len();
                assert(flatten(one)[j] == flatten(b)[i] && flatten(other)[j] == flatten(d)[i]);
            }
        }
    } else {
        assert(!(other is Union));
        assert(flatten(one) =~= seq![one]);
        assert(flatten(other) =~= seq![other]);
    }
}

/// A type in canonical form that is no union is subsumed by a type in
/// canonical form with a member equal to it.
proof fn lemma_member_subsumed_by_equal(
    member: SpecType,
    upper: SpecType,
    types: Map<Seq<char>, SpecType>,
    k: int,
)
    requires
        is_canonical(member),
        is_canonical(upper),
        !(member is Union),
        0 <= k < flatten(upper).len(),
        equal_canonical(member, flatten(upper)[k]),
    ensures
        subsumes_canonical(member, upper, types) == Ok::<bool, SpecAnalysisError>(true),
    decreases upper,
{
    if upper is Any {
    } else if upper is Union {
        let lhs = *upper->Union_lhs;
        let rhs = *upper->Union_rhs;
        if k < flatten(lhs).len() {
            assert(flatten(upper)[k] == flatten(lhs)[k]);
            lemma_member_subsumed_by_equal(member, lhs, types, k);
        } else {
            let i = k - flatten(lhs).len();
            assert(flatten(upper)[k] == flatten(rhs)[i]);
            lemma_canonical_form_reference_free(member);
            lemma_canonical_form_reference_free(lhs);
            lemma_subsumes_ok(member, lhs, types);
            lemma_member_subsumed_by_equal(member, rhs, types, i);
        }
    } else {
        assert(flatten(upper) =~= seq![upper]);
        lemma_canonical_of_canonical(member, types);
        lemma_canonical_of_canonical(upper, types);
    }
}

/// A type in canonical form whose members equal, one by one, members of a
/// union in canonical form from `offset` on is subsumed by that union.
proof fn lemma_members_subsumed_by_equal(
    lower: SpecType,
    upper: SpecType,
    types: Map<Seq<char>, SpecType>,
    offset: int,
)
    requires
        is_canonical(lower),
        is_canonical(upper),
        upper is Union,
        0 <= offset,
        offset + flatten(lower).len() <= flatten(upper).len(),
        forall|j: int|
            0 <= j < flatten(lower).len() ==> equal_canonical(
                #[trigger] flatten(lower)[j],
                flatten(upper)[offset + j],
            ),
    ensures
        subsumes_canonical(lower, upper, types) == Ok::<bool, SpecAnalysisError>(true),
    decreases lower,
{
    if lower is Union {
        let lhs = *lower->Union_lhs;
        let rhs = *lower->Union_rhs;
        let n = flatten(lhs).len();
        assert forall|j: int| 0 <= j < flatten(lhs).len() implies equal_canonical(
            #[trigger] flatten(lhs)[j],
            flatten(upper)[offset + j],
        ) by {
            assert(flatten(lower)[j] == flatten(lhs)[j]);
        }
        assert forall|j: int| 0 <= j < flatten(rhs).len() implies equal_canonical(
            #[trigger] flatten(rhs)[j],
            flatten(upper)[offset + n + j],
        ) by {
            assert(flatten(lower)[n + j] == flatten(rhs)[j]);
        }
        lemma_members_subsumed_by_equal(lhs, upper, types, offset);
        lemma_members_subsumed_by_equal(rhs, upper, types, offset + n);
    } else {
        assert(flatten(lower) =~= seq![lower]);
        assert(equal_canonical(flatten(lower)[0], flatten(upper)[offset + 0]));
        lemma_member_subsumed_by_equal(lower, upper, types, offset);
    }
}

/// Of two equal types in canonical form, each subsumes the other.
proof fn lemma_equal_subsumed(lower: SpecType, upper: SpecType, types: Map<Seq<char>, SpecType>)
    requires
        is_canonical(lower),
        is_canonical(upper),
        equal_canonical(lower, upper),
    ensures
        subsumes_canonical(lower, upper, types) == Ok::<bool, SpecAnalysisError>(true),
{
    if upper is Any {
    } else if upper is Union {
        lemma_equal_flatten(lower, upper);
        lemma_members_subsumed_by_equal(lower, upper, types, 0);
    } else {
        lemma_canonical_of_canonical(lower, types);
        lemma_canonical_of_canonical(upper, types);
    }
}

/// Equal types subsume each other.
pub proof fn law_equal_types_subsume(one: SpecType, other: SpecType, types: Map<Seq<char>, SpecType>)
    requires
        canonicalizable(one, types),
        canonicalizable(other, types),
        types_equal(one, other, types) == Ok::<bool, SpecAnalysisError>(true),
    ensures
        subsumes(one, other, types) == Ok::<bool, SpecAnalysisError>(true),
        subsumes(other, one, types) == Ok::<bool, SpecAnalysisError>(true),
{
    lemma_canonical_is_canonical(one, types);
    lemma_canonical_is_canonical(other, types);
    let a = canonical(one, types)->Ok_0;
    let b = canonical(other, types)->Ok_0;
    lemma_equal_subsumed(a, b, types);
    crate::type_equality_checker::lemma_equal_canonical_symmetric(a, b);
    lemma_equal_subsumed(b, a, types);
}

/// A type in canonical form each of whose members equals some member of a
/// union in canonical form is subsumed by that union.
proof fn lemma_covered_members_subsumed(lower: SpecType, upper: SpecType, types: Map<Seq<char>, SpecType>)
    requires
        is_canonical(lower),
        is_canonical(upper),
        upper is Union,
        forall|j: int|
            0 <= j < flatten(lower).len() ==> exists|k: int|
                0 <= k < flatten(upper).len() && equal_canonical(
                    #[trigger] flatten(lower)[j],
                    #[trigger] flatten(upper)[k],
                ),
    ensures
        subsumes_canonical(lower, upper, types) == Ok::<bool, SpecAnalysisError>(true),
    decreases lower,
{
    if lower is Union {
        let lhs = *lower->Union_lhs;
        let rhs = *lower->Union_rhs;
        let n = flatten(lhs).len();
        assert forall|j: int| 0 <= j < flatten(lhs).len() implies exists|k: int|
            0 <= k < flatten(upper).len() && equal_canonical(
                #[trigger] flatten(lhs)[j],
                #[trigger] flatten(upper)[k],
            ) by {
            assert(flatten(lower)[j] == flatten(lhs)[j]);
        }
        assert forall|j: int| 0 <= j < flatten(rhs).len() implies exists|k: int|
            0 <= k < flatten(upper).len() && equal_canonical(
                #[trigger] flatten(rhs)[j],
                #[trigger] flatten(upper)[k],
            ) by {
            assert(flatten(lower)[n + j] == flatten(rhs)[j]);
        }
        lemma_covered_members_subsumed(lhs, upper, types);
        lemma_covered_members_subsumed(rhs, upper, types);
    } else {
        assert(flatten(lower) =~= seq![lower]);
        assert(flatten(lower)[0] == lower);
        let k = choose|k: int|
            0 <= k < flatten(upper).len() && equal_canonical(flatten(lower)[0], #[trigger] flatten(upper)[k]);
        lemma_member_subsumed_by_equal(lower, upper, types, k);
    }
}

proof fn lemma_union_members(
    types_: Seq<SpecType>,
    position: SpecPosition,
    types: Map<Seq<char>, SpecType>,
    fuel: nat,
)
    requires
        types_.len() >= 1,
        members_fuel(union_of(types_, position), types, fuel) matches Some(Ok(_)),
    ensures
        forall|i: int|
            0 <= i < types_.len() ==> (#[trigger] members_fuel(types_[i], types, fuel) matches Some(
                Ok(ms),
            ) && forall|k: int|
                0 <= k < ms.len() ==> members_fuel(union_of(types_, position), types, fuel)->0->Ok_0.contains(
                    #[trigger] ms[k],
                )),
    decreases types_.len(),
{
    let all = members_fuel(union_of(types_, position), types, fuel)->0->Ok_0;
    if types_.len() == 1 {
        assert forall|i: int| 0 <= i < types_.len() implies (#[trigger] members_fuel(
            types_[i],
            types,
            fuel,
        ) matches Some(Ok(ms)) && forall|k: int| 0 <= k < ms.len() ==> all.contains(#[trigger] ms[k])) by {
            let ms = members_fuel(types_[i], types, fuel)->0->Ok_0;
            assert forall|k: int| 0 <= k < ms.len() implies all.contains(#[trigger] ms[k]) by {
                assert(all[k] == ms[k]);
            }
        }
    } else {
        let init = types_.drop_last();
        let left = members_fuel(union_of(init, position), types, fuel)->0->Ok_0;
        let right = members_fuel(types_.last(), types, fuel)->0->Ok_0;
        assert(all == left + right);
        lemma_union_members(init, position, types, fuel);
        assert forall|i: int| 0 <= i < types_.len() implies (#[trigger] members_fuel(
            types_[i],
            types,
            fuel,
        ) matches Some(Ok(ms)) && forall|k: int| 0 <= k < ms.len() ==> all.contains(#[trigger] ms[k])) by {
            let ms = members_fuel(types_[i], types, fuel)->0->Ok_0;
            if i == types_.len() - 1 {
                assert forall|k: int| 0 <= k < ms.len() implies all.contains(#[trigger] ms[k]) by {
                    assert(all[left.len() + k] == ms[k]);
                }
            } else {
                assert(init[i] == types_[i]);
                assert forall|k: int| 0 <= k < ms.len() implies all.contains(#[trigger] ms[k]) by {
                    assert(left.contains(ms[k]));
                    let l = choose|l: int| 0 <= l < left.len() && left[l] == ms[k];
                    assert(all[l] == ms[k]);
                }
            }
        }
    }
}

/// A type in canonical form, not `any`, each of whose members compares
/// equal to one of some distinct members in increasing order, none of them
/// a union or `any`, is subsumed by their fold.
proof fn lemma_subsumed_by_covering_fold(
    lower: SpecType,
    members: Seq<SpecType>,
    position: SpecPosition,
    types: Map<Seq<char>, SpecType>,
)
    requires
        is_canonical(lower),
        !(lower is Any),
        members.len() >= 1,
        strictly_sorted(members),
        forall|j: int|
            0 <= j < members.len() ==> !(#[trigger] members[j] is Union) && !(members[j] is Any)
                && is_canonical(members[j]),
        forall|j: int| 0 <= j < flatten(lower).len() ==> covered(#[trigger] flatten(lower)[j], members),
    ensures
        subsumes_canonical(lower, fold_members(members, position), types) == Ok::<bool, SpecAnalysisError>(
            true,
        ),
{
    let upper = fold_members(members, position);
    lemma_fold_canonical(members, position);
    crate::canonical_form::lemma_flatten_canonical(lower);
    assert forall|j: int| 0 <= j < flatten(lower).len() implies exists|k: int|
        0 <= k < flatten(upper).len() && equal_canonical(
            #[trigger] flatten(lower)[j],
            #[trigger] flatten(upper)[k],
        ) by {
        let x = flatten(lower)[j];
        assert(covered(x, members));
        let k = choose|k: int| 0 <= k < members.len() && compare_spec(x, #[trigger] members[k]) == 0;
        lemma_canonical_form_reference_free(x);
        crate::type_equality_checker::lemma_compare_zero_equal(x, members[k]);
        assert(flatten(upper)[k] == members[k]);
    }
    if upper is Union {
        if lower is Union {
            lemma_covered_members_subsumed(lower, upper, types);
        } else {
            assert(flatten(lower) =~= seq![lower]);
            assert(flatten(lower)[0] == lower);
            let k = choose|k: int|
                0 <= k < flatten(upper).len() && equal_canonical(flatten(lower)[0], #[trigger] flatten(upper)[k]);
            lemma_member_subsumed_by_equal(lower, upper, types, k);
        }
    } else {
        assert(members.len() == 1);
        assert(flatten(upper) =~= seq![upper]);
        if lower is Union {
            crate::canonical_form::lemma_flatten_nonempty(*lower->Union_lhs);
            crate::canonical_form::lemma_flatten_nonempty(*lower->Union_rhs);
            let x0 = flatten(lower)[0];
            let x1 = flatten(lower)[1];
            assert(compare_spec(x0, x1) < 0);
            assert(covered(x0, members) && covered(x1, members));
            assert(compare_spec(x0, members[0]) == 0);
            assert(compare_spec(x1, members[0]) == 0);
            crate::type_order::lemma_compare_antisymmetric(x0, members[0]);
            crate::type_order::lemma_compare_transitive(x1, members[0], x0);
            crate::type_order::lemma_compare_antisymmetric(x0, x1);
        } else {
            lemma_canonical_of_canonical(lower, types);
            lemma_canonical_of_canonical(upper, types);
            assert(flatten(lower) =~= seq![lower]);
            assert(flatten(lower)[0] == lower);
        }
    }
}

proof fn lemma_union_canonical_parts(
    types_: Seq<SpecType>,
    position: SpecPosition,
    types: Map<Seq<char>, SpecType>,
    fuel: nat,
)
    requires
        types_.len() >= 2,
        canonical_fuel(union_of(types_, position), types, fuel) matches Some(Ok(_)),
    ensures
        members_fuel(union_of(types_, position), types, fuel) matches Some(Ok(all)) && all.len() >= 1
            && canonical_fuel(union_of(types_, position), types, fuel) == Some(
            Ok::<SpecType, SpecAnalysisError>(fold_members(insert_members(Seq::empty(), all), position)),
        ) && forall|j: int|
            0 <= j < all.len() ==> !(#[trigger] all[j] is Union) && is_canonical(all[j]),
{
    let u = union_of(types_, position);
    let lhs = union_of(types_.drop_last(), position);
    let rhs = types_.last();
    assert(u == SpecType::Union { lhs: Box::new(lhs), rhs: Box::new(rhs), position });
    let left = members_fuel(lhs, types, fuel)->0->Ok_0;
    let right = members_fuel(rhs, types, fuel)->0->Ok_0;
    let all = left + right;
    assert(members_fuel(u, types, fuel) == Some(Ok::<Seq<SpecType>, SpecAnalysisError>(all)));
    lemma_members_nonempty(lhs, types, fuel);
    lemma_canonical_form(u, types, fuel);
}

proof fn lemma_member_canonical(type_: SpecType, types: Map<Seq<char>, SpecType>, fuel: nat)
    requires
        members_fuel(type_, types, fuel) matches Some(Ok(_)),
    ensures
        canonicalizable(type_, types),
        canonical(type_, types) is Ok,
        canonical(type_, types) == canonical_fuel(type_, types, fuel)->0,
        is_canonical(canonical(type_, types)->Ok_0),
{
    lemma_canonical_members(type_, types, fuel);
    lemma_canonical_form(type_, types, fuel);
    assert(canonical_fuel(type_, types, fuel) is Some);
    let other = choose|f: nat| canonical_fuel(type_, types, f) is Some;
    lemma_fuel_monotone(type_, types, fuel, fuel + other);
    lemma_fuel_monotone(type_, types, other, fuel + other);
}

/// A type in canonical form whose members are among some members, or that
/// is `any` where one of them is, is subsumed by the canonical union of those
/// members.
proof fn lemma_fold_subsumes(
    lower: SpecType,
    lower_members: Seq<SpecType>,
    all: Seq<SpecType>,
    position: SpecPosition,
    types: Map<Seq<char>, SpecType>,
)
    requires
        is_canonical(lower),
        all.len() >= 1,
        forall|j: int| 0 <= j < all.len() ==> !(#[trigger] all[j] is Union) && is_canonical(all[j]),
        forall|k: int| 0 <= k < lower_members.len() ==> all.contains(#[trigger] lower_members[k]),
        lower is Any ==> exists|k: int| 0 <= k < lower_members.len() && #[trigger] lower_members[k] is Any,
        !(lower is Any) ==> forall|j: int|
            0 <= j < flatten(lower).len() ==> lower_members.contains(#[trigger] flatten(lower)[j]),
    ensures
        subsumes_canonical(lower, fold_members(insert_members(Seq::empty(), all), position), types)
            == Ok::<bool, SpecAnalysisError>(true),
{
    let members = insert_members(Seq::empty(), all);
    lemma_insert_members_covers(all);
    lemma_insert_members_from(all);
    if exists|k: int| 0 <= k < all.len() && #[trigger] all[k] is Any {
        let k = choose|k: int| 0 <= k < all.len() && #[trigger] all[k] is Any;
        assert(covered(all[k], members));
        let j = choose|j: int| 0 <= j < members.len() && compare_spec(all[k], #[trigger] members[j]) == 0;
        assert(members[j] is Any);
        lemma_fold_any(members, position, j);
    } else {
        assert(!(lower is Any)) by {
            if lower is Any {
                let k = choose|k: int| 0 <= k < lower_members.len() && #[trigger] lower_members[k] is Any;
                assert(all.contains(lower_members[k]));
            }
        }
        lemma_insert_members_sorted(all);
        lemma_insert_members_len(Seq::empty(), all);
        assert forall|j: int| 0 <= j < members.len() implies !(#[trigger] members[j] is Union)
            && !(members[j] is Any) && is_canonical(members[j]) by {
            assert(all.contains(members[j]));
        }
        assert forall|j: int| 0 <= j < flatten(lower).len() implies covered(
            #[trigger] flatten(lower)[j],
            members,
        ) by {
            let x = flatten(lower)[j];
            assert(lower_members.contains(x));
            let l = choose|l: int| 0 <= l < lower_members.len() && lower_members[l] == x;
            assert(all.contains(lower_members[l]));
            let a = choose|a: int| 0 <= a < all.len() && all[a] == x;
            assert(covered(all[a], members));
        }
        lemma_subsumed_by_covering_fold(lower, members, position, types);
    }
}

/// The union of types subsumes each of them.
pub proof fn law_union_subsumes_members(
    types_: Seq<SpecType>,
    position: SpecPosition,
    i: int,
    types: Map<Seq<char>, SpecType>,
)
    requires
        0 <= i < types_.len(),
        canonicalizable(union_of(types_, position), types),
        canonical(union_of(types_, position), types) is Ok,
    ensures
        subsumes(types_[i], union_of(types_, position), types) == Ok::<bool, SpecAnalysisError>(true),
{
    let u = union_of(types_, position);
    if types_.len() == 1 {
        law_subsumption_reflexive(types_[0], types);
    } else {
        let fuel = choose|fuel: nat| canonical_fuel(u, types, fuel) is Some;
        lemma_union_canonical_parts(types_, position, types, fuel);
        let all = members_fuel(u, types, fuel)->0->Ok_0;
        lemma_union_members(types_, position, types, fuel);
        let t = types_[i];
        let mi = members_fuel(t, types, fuel)->0->Ok_0;
        lemma_member_canonical(t, types, fuel);
        lemma_canonical_members(t, types, fuel);
        lemma_fold_subsumes(canonical(t, types)->Ok_0, mi, all, position, types);
    }
}

/// Some type of `types_` equals `type_`.
pub open spec fn equal_member(type_: SpecType, types_: Seq<SpecType>) -> bool {
    exists|k: int| 0 <= k < types_.len() && equal_canonical(type_, #[trigger] types_[k])
}

/// Every type of `lower` equals some type of `upper`.
pub open spec fn all_covered(lower: Seq<SpecType>, upper: Seq<SpecType>) -> bool {
    forall|j: int| 0 <= j < lower.len() ==> equal_member(#[trigger] lower[j], upper)
}

/// Subsumption of a type in canonical form by one that is not `any`: each
/// member of the lower type equals some member of the upper one, and a
/// union is subsumed by unions only.
pub proof fn lemma_subsumes_members(lower: SpecType, upper: SpecType, types: Map<Seq<char>, SpecType>)
    requires
        is_canonical(lower),
        is_canonical(upper),
        !(upper is Any),
    ensures
        subsumes_canonical(lower, upper, types) == Ok::<bool, SpecAnalysisError>(
            (lower is Union ==> upper is Union) && all_covered(flatten(lower), flatten(upper)),
        ),
    decreases lower, upper,
{
    if lower is Union && upper is Union {
        let lhs = *lower->Union_lhs;
        let rhs = *lower->Union_rhs;
        lemma_subsumes_members(lhs, upper, types);
        lemma_subsumes_members(rhs, upper, types);
        let n = flatten(lhs).len();
        let all = flatten(lower);
        let up = flatten(upper);
        assert(all_covered(all, up) == (all_covered(flatten(lhs), up) && all_covered(flatten(rhs), up))) by {
            if all_covered(all, up) {
                assert forall|j: int| 0 <= j < flatten(lhs).len() implies
                    equal_member(#[trigger] flatten(lhs)[j], up) by {
                    assert(all[j] == flatten(lhs)[j]);
                }
                assert forall|j: int| 0 <= j < flatten(rhs).len() implies
                    equal_member(#[trigger] flatten(rhs)[j], up) by {
                    assert(all[n + j] == flatten(rhs)[j]);
                }
            }
            if all_covered(flatten(lhs), up) && all_covered(flatten(rhs), up) {
                assert forall|j: int| 0 <= j < all.len() implies
                    equal_member(#[trigger] all[j], up) by {
                    if j < n {
                        assert(all[j] == flatten(lhs)[j]);
                    } else {
                        assert(all[j] == flatten(rhs)[j - n]);
                    }
                }
            }
        }
    } else if upper is Union {
        let lhs = *upper->Union_lhs;
        let rhs = *upper->Union_rhs;
        lemma_subsumes_members(lower, lhs, types);
        lemma_subsumes_members(lower, rhs, types);
        let n = flatten(lhs).len();
        let up = flatten(upper);
        assert(flatten(lower) =~= seq![lower]);
        assert(flatten(lower)[0] == lower);
        assert(all_covered(flatten(lower), up) == (all_covered(flatten(lower), flatten(lhs))
            || all_covered(flatten(lower), flatten(rhs)))) by {
            if all_covered(flatten(lower), up) {
                let k = choose|k: int|
                    0 <= k < up.len() && equal_canonical(flatten(lower)[0], #[trigger] up[k]);
                if k < n {
                    assert(up[k] == flatten(lhs)[k]);
                    assert forall|j: int| 0 <= j < flatten(lower).len() implies
                        equal_member(#[trigger] flatten(lower)[j], flatten(lhs)) by {
                        assert(j == 0);
                        assert(equal_canonical(flatten(lower)[0], flatten(lhs)[k]));
                    }
                } else {
                    assert(up[k] == flatten(rhs)[k - n]);
                    assert forall|j: int| 0 <= j < flatten(lower).len() implies
                        equal_member(#[trigger] flatten(lower)[j], flatten(rhs)) by {
                        assert(j == 0);
                        assert(equal_canonical(flatten(lower)[0], flatten(rhs)[k - n]));
                    }
                }
            }
            if all_covered(flatten(lower), flatten(lhs)) {
                let k = choose|k: int|
                    0 <= k < flatten(lhs).len() && equal_canonical(flatten(lower)[0], #[trigger] flatten(lhs)[k]);
                assert(up[k] == flatten(lhs)[k]);
                assert forall|j: int| 0 <= j < flatten(lower).len() implies
                    equal_member(#[trigger] flatten(lower)[j], up) by {
                    assert(j == 0);
                    assert(equal_canonical(flatten(lower)[0], up[k]));
                }
            }
            if all_covered(flatten(lower), flatten(rhs)) {
                let k = choose|k: int|
                    0 <= k < flatten(rhs).len() && equal_canonical(flatten(lower)[0], #[trigger] flatten(rhs)[k]);
                assert(up[n + k] == flatten(rhs)[k]);
                assert forall|j: int| 0 <= j < flatten(lower).len() implies
                    equal_member(#[trigger] flatten(lower)[j], up) by {
                    assert(j == 0);
                    assert(equal_canonical(flatten(lower)[0], up[n + k]));
                }
            }
        }
    } else {
        lemma_canonical_of_canonical(lower, types);
        lemma_canonical_of_canonical(upper, types);
        assert(flatten(upper) =~= seq![upper]);
        if lower is Union {
        } else {
            assert(flatten(lower) =~= seq![lower]);
            assert(flatten(lower)[0] == lower);
            if all_covered(flatten(lower), flatten(upper)) {
                let k = choose|k: int|
                    0 <= k < flatten(upper).len() && equal_canonical(flatten(lower)[0], #[trigger] flatten(upper)[k]);
                assert(k == 0);
            }
            if equal_canonical(lower, upper) {
                assert forall|j: int| 0 <= j < flatten(lower).len() implies
                    equal_member(#[trigger] flatten(lower)[j], flatten(upper)) by {
                    assert(j == 0);
                    assert(equal_canonical(flatten(lower)[0], flatten(upper)[0]));
                }
            }
        }
    }
}

proof fn lemma_all_covered_transitive(one: Seq<SpecType>, two: Seq<SpecType>, three: Seq<SpecType>)
    requires
        all_covered(one, two),
        all_covered(two, three),
    ensures
        all_covered(one, three),
{
    assert forall|j: int| 0 <= j < one.len() implies equal_member(#[trigger] one[j], three) by {
        assert(equal_member(one[j], two));
        let k = choose|k: int| 0 <= k < two.len() && equal_canonical(one[j], #[trigger] two[k]);
        assert(equal_member(two[k], three));
        let l = choose|l: int| 0 <= l < three.len() && equal_canonical(two[k], #[trigger] three[l]);
        crate::type_equality_checker::lemma_equal_canonical_transitive(one[j], two[k], three[l]);
    }
}

/// Only `any` is subsumed by `any` alone.
proof fn lemma_any_subsumed_by_any(upper: SpecType, position: SpecPosition, types: Map<Seq<char>, SpecType>)
    requires
        is_canonical(upper),
        !(upper is Any),
    ensures
        subsumes_canonical(SpecType::Any { position }, upper, types) == Ok::<bool, SpecAnalysisError>(false),
{
    let any = SpecType::Any { position };
    lemma_subsumes_members(any, upper, types);
    crate::canonical_form::lemma_flatten_canonical(upper);
    assert(flatten(any) =~= seq![any]);
    if all_covered(flatten(any), flatten(upper)) {
        let k = choose|k: int|
            0 <= k < flatten(upper).len() && equal_canonical(#[trigger] flatten(any)[0], #[trigger] flatten(upper)[k]);
        if upper is Union {
            assert(!(flatten(upper)[k] is Any)) by {
                lemma_no_any_member(upper);
            }
        } else {
            assert(flatten(upper) =~= seq![upper]);
        }
    }
}

/// A union in canonical form has no member `any`.
pub proof fn lemma_no_any_member(type_: SpecType)
    requires
        is_canonical(type_),
        type_ is Union,
    ensures
        forall|j: int| 0 <= j < flatten(type_).len() ==> !(#[trigger] flatten(type_)[j] is Any),
    decreases type_,
{
    let lhs = *type_->Union_lhs;
    let rhs = *type_->Union_rhs;
    let n = flatten(lhs).len();
    if lhs is Union {
        lemma_no_any_member(lhs);
    } else {
        assert(flatten(lhs) =~= seq![lhs]);
    }
    assert(flatten(rhs) =~= seq![rhs]);
    assert forall|j: int| 0 <= j < flatten(type_).len() implies !(#[trigger] flatten(type_)[j] is Any) by {
        if j < n {
            assert(flatten(type_)[j] == flatten(lhs)[j]);
        } else {
            assert(flatten(type_)[j] == flatten(rhs)[j - n]);
        }
    }
}

/// Subsumption is transitive: a type subsumed by a second one that a third
/// one subsumes is subsumed by the third.
pub proof fn law_subsumption_transitive(
    one: SpecType,
    two: SpecType,
    three: SpecType,
    types: Map<Seq<char>, SpecType>,
)
    requires
        canonicalizable(one, types),
        canonicalizable(two, types),
        canonicalizable(three, types),
        subsumes(one, two, types) == Ok::<bool, SpecAnalysisError>(true),
        subsumes(two, three, types) == Ok::<bool, SpecAnalysisError>(true),
    ensures
        subsumes(one, three, types) == Ok::<bool, SpecAnalysisError>(true),
{
    lemma_canonical_is_canonical(one, types);
    lemma_canonical_is_canonical(two, types);
    lemma_canonical_is_canonical(three, types);
    let a = canonical(one, types)->Ok_0;
    let b = canonical(two, types)->Ok_0;
    let c = canonical(three, types)->Ok_0;
    if !(c is Any) {
        if b is Any {
            lemma_any_subsumed_by_any(c, b->Any_position, types);
        }
        lemma_subsumes_members(a, b, types);
        lemma_subsumes_members(b, c, types);
        lemma_subsumes_members(a, c, types);
        lemma_all_covered_transitive(flatten(a), flatten(b), flatten(c));
    }
}

} // verus!
