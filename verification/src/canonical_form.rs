//! The shape of canonical types: canonicalization yields it, and leaves a
//! type of that shape as it is.
use crate::position::SpecPosition;
use crate::type_canonicalizer::{
    canonical,
    canonical_fuel,
    canonical_list_fuel,
    canonicalizable,
    combine,
    fold_members,
    insert_member,
    insert_members,
    lemma_insert_member_from,
    members_fuel,
};
use crate::type_order::{compare_spec, lemma_compare_antisymmetric, lemma_compare_transitive};
use crate::types::SpecType;
use crate::union_type_member_calculator::flatten;
use vstd::prelude::*;

verus! {

/// Members listed in strictly increasing order of `type_order`.
pub open spec fn strictly_sorted(members: Seq<SpecType>) -> bool {
    forall|i: int, j: int|
        0 <= i < j < members.len() ==> compare_spec(#[trigger] members[i], #[trigger] members[j]) < 0
}

/// A type in canonical form: no references; every union is a chain folded
/// from the left, at one position, of distinct members in increasing order,
/// none of them a union or `any`, each in canonical form.
pub open spec fn is_canonical(type_: SpecType) -> bool
    decreases type_,
{
    match type_ {
        SpecType::Function { arguments, result, .. } => canonical_list(arguments) && is_canonical(
            *result,
        ),
        SpecType::List { element, .. } => is_canonical(*element),
        SpecType::Mapping { key, value, .. } => is_canonical(*key) && is_canonical(*value),
        SpecType::Union { lhs, rhs, position } => {
            &&& !(*rhs is Union)
            &&& !(*rhs is Any)
            &&& is_canonical(*rhs)
            &&& !(*lhs is Any)
            &&& (*lhs is Union ==> (*lhs)->Union_position == position)
            &&& is_canonical(*lhs)
            &&& strictly_sorted(flatten(type_))
        },
        SpecType::Reference { .. } => false,
        _ => true,
    }
}

/// Every type of a list is in canonical form.
pub open spec fn canonical_list(types_: Seq<SpecType>) -> bool
    decreases types_,
{
    if types_.len() == 0 {
        true
    } else {
        canonical_list(types_.drop_last()) && is_canonical(types_.last())
    }
}

proof fn lemma_insert_member_sorted(members: Seq<SpecType>, type_: SpecType)
    requires
        strictly_sorted(members),
    ensures
        strictly_sorted(insert_member(members, type_)),
    decreases members.len(),
{
    if members.len() > 0 {
        let c = compare_spec(type_, members[0]);
        let result = insert_member(members, type_);
        if c < 0 {
            assert forall|i: int, j: int| 0 <= i < j < result.len() implies compare_spec(
                #[trigger] result[i],
                #[trigger] result[j],
            ) < 0 by {
                if i == 0 {
                    if j > 1 {
                        lemma_compare_transitive(type_, members[0], members[j - 1]);
                    }
                } else {
                    assert(result[i] == members[i - 1] && result[j] == members[j - 1]);
                }
            }
        } else if c > 0 {
            let rest = members.drop_first();
            lemma_insert_member_sorted(rest, type_);
            lemma_insert_member_from(rest, type_);
            lemma_compare_antisymmetric(type_, members[0]);
            let inserted = insert_member(rest, type_);
            assert forall|i: int, j: int| 0 <= i < j < result.len() implies compare_spec(
                #[trigger] result[i],
                #[trigger] result[j],
            ) < 0 by {
                if i == 0 {
                    let x = inserted[j - 1];
                    assert(result[j] == x);
                    if x != type_ {
                        let k = choose|k: int| 0 <= k < rest.len() && rest[k] == x;
                        assert(members[k + 1] == x);
                    }
                } else {
                    assert(result[i] == inserted[i - 1] && result[j] == inserted[j - 1]);
                }
            }
        }
    }
}

/// Inserting types one by one gives members in strictly increasing order.
pub proof fn lemma_insert_members_sorted(types_: Seq<SpecType>)
    ensures
        strictly_sorted(insert_members(Seq::empty(), types_)),
    decreases types_.len(),
{
    if types_.len() > 0 {
        lemma_insert_members_sorted(types_.drop_last());
        lemma_insert_member_sorted(insert_members(Seq::empty(), types_.drop_last()), types_.last());
    }
}

proof fn lemma_insert_member_last(members: Seq<SpecType>, type_: SpecType)
    requires
        forall|i: int| 0 <= i < members.len() ==> compare_spec(#[trigger] members[i], type_) < 0,
    ensures
        insert_member(members, type_) == members.push(type_),
    decreases members.len(),
{
    if members.len() > 0 {
        lemma_compare_antisymmetric(members[0], type_);
        let rest = members.drop_first();
        assert forall|i: int| 0 <= i < rest.len() implies compare_spec(#[trigger] rest[i], type_) < 0 by {
            assert(rest[i] == members[i + 1]);
        }
        lemma_insert_member_last(rest, type_);
        assert(seq![members[0]] + rest.push(type_) =~= members.push(type_));
    }
}

/// Inserting the members of a strictly increasing list one by one gives
/// that list back.
pub proof fn lemma_insert_sorted_members(types_: Seq<SpecType>)
    requires
        strictly_sorted(types_),
    ensures
        insert_members(Seq::empty(), types_) == types_,
    decreases types_.len(),
{
    if types_.len() > 0 {
        let init = types_.drop_last();
        assert(strictly_sorted(init)) by {
            assert forall|i: int, j: int| 0 <= i < j < init.len() implies compare_spec(
                #[trigger] init[i],
                #[trigger] init[j],
            ) < 0 by {
                assert(init[i] == types_[i] && init[j] == types_[j]);
            }
        }
        lemma_insert_sorted_members(init);
        assert forall|i: int| 0 <= i < init.len() implies compare_spec(#[trigger] init[i], types_.last()) < 0 by {
            assert(init[i] == types_[i]);
        }
        lemma_insert_member_last(init, types_.last());
        assert(init.push(types_.last()) =~= types_);
    }
}

/// Folding members of which one is `any` gives `any`.
pub proof fn lemma_fold_any(members: Seq<SpecType>, position: SpecPosition, k: int)
    requires
        0 <= k < members.len(),
        members[k] is Any,
    ensures
        fold_members(members, position) is Any,
    decreases members.len(),
{
    if members.len() > 1 && k < members.len() - 1 {
        lemma_fold_any(members.drop_last(), position, k);
    }
}

/// Folding members in increasing order, none of them a union or `any`,
/// gives a type in canonical form that flattens back to them.
pub proof fn lemma_fold_canonical(members: Seq<SpecType>, position: SpecPosition)
    requires
        members.len() >= 1,
        strictly_sorted(members),
        forall|i: int|
            0 <= i < members.len() ==> !(#[trigger] members[i] is Union) && !(members[i] is Any)
                && is_canonical(members[i]),
    ensures
        is_canonical(fold_members(members, position)),
        flatten(fold_members(members, position)) == members,
        !(fold_members(members, position) is Any),
        members.len() >= 2 ==> fold_members(members, position) is Union && fold_members(
            members,
            position,
        )->Union_position == position,
    decreases members.len(),
{
    if members.len() == 1 {
        assert(members[0] == members[0]);
        assert(flatten(members[0]) =~= members);
    } else {
        let init = members.drop_last();
        assert(strictly_sorted(init)) by {
            assert forall|i: int, j: int| 0 <= i < j < init.len() implies compare_spec(
                #[trigger] init[i],
                #[trigger] init[j],
            ) < 0 by {
                assert(init[i] == members[i] && init[j] == members[j]);
            }
        }
        assert forall|i: int| 0 <= i < init.len() implies !(#[trigger] init[i] is Union) && !(
        init[i] is Any) && is_canonical(init[i]) by {
            assert(init[i] == members[i]);
        }
        lemma_fold_canonical(init, position);
        let last = members[members.len() - 1];
        assert(!(last is Union) && !(last is Any) && is_canonical(last));
        assert(flatten(last) =~= seq![last]);
        assert(flatten(fold_members(members, position)) =~= members);
    }
}

/// Every type has at least one member.
pub proof fn lemma_flatten_nonempty(type_: SpecType)
    ensures
        flatten(type_).len() >= 1,
    decreases type_,
{
    if let SpecType::Union { lhs, .. } = type_ {
        lemma_flatten_nonempty(*lhs);
    }
}

/// A union in canonical form is the fold of its members at its position.
proof fn lemma_fold_flatten(type_: SpecType)
    requires
        is_canonical(type_),
        type_ is Union,
    ensures
        fold_members(flatten(type_), type_->Union_position) == type_,
    decreases type_,
{
    let lhs = *type_->Union_lhs;
    let rhs = *type_->Union_rhs;
    let position = type_->Union_position;
    assert(flatten(rhs) =~= seq![rhs]);
    let members = flatten(type_);
    assert(members.drop_last() =~= flatten(lhs));
    if lhs is Union {
        lemma_fold_flatten(lhs);
    } else {
        assert(flatten(lhs) =~= seq![lhs]);
    }
    lemma_flatten_nonempty(lhs);
    assert(members.len() >= 2);
    assert(members.last() == rhs);
    assert(fold_members(members, position) == combine(fold_members(members.drop_last(), position), rhs, position));
}

pub proof fn lemma_insert_members_from(types_: Seq<SpecType>)
    ensures
        forall|i: int|
            0 <= i < insert_members(Seq::empty(), types_).len() ==> types_.contains(
                #[trigger] insert_members(Seq::empty(), types_)[i],
            ),
    decreases types_.len(),
{
    if types_.len() > 0 {
        let init = types_.drop_last();
        let members = insert_members(Seq::empty(), init);
        lemma_insert_members_from(init);
        lemma_insert_member_from(members, types_.last());
        assert forall|i: int| 0 <= i < insert_member(members, types_.last()).len() implies types_.contains(
            #[trigger] insert_member(members, types_.last())[i],
        ) by {
            let x = insert_member(members, types_.last());
            if x[i] == types_.last() {
                assert(types_[types_.len() - 1] == x[i]);
            } else {
                let k = choose|k: int| 0 <= k < members.len() && members[k] == x[i];
                assert(init.contains(members[k]));
                let l = choose|l: int| 0 <= l < init.len() && init[l] == members[k];
                assert(types_[l] == x[i]);
            }
        }
    }
}

/// Canonicalization yields types in canonical form, and members of unions
/// that are no unions.
pub proof fn lemma_canonical_form(type_: SpecType, types: Map<Seq<char>, SpecType>, fuel: nat)
    ensures
        canonical_fuel(type_, types, fuel) matches Some(Ok(c)) ==> is_canonical(c),
        members_fuel(type_, types, fuel) matches Some(Ok(ms)) ==> forall|i: int|
            0 <= i < ms.len() ==> !(#[trigger] ms[i] is Union) && is_canonical(ms[i]),
    decreases fuel, type_,
{
    match type_ {
        SpecType::Function { arguments, result, .. } => {
            lemma_canonical_list_form(arguments, types, fuel);
            lemma_canonical_form(*result, types, fuel);
        },
        SpecType::List { element, .. } => {
            lemma_canonical_form(*element, types, fuel);
        },
        SpecType::Mapping { key, value, .. } => {
            lemma_canonical_form(*key, types, fuel);
            lemma_canonical_form(*value, types, fuel);
        },
        SpecType::Union { lhs, rhs, position } => {
            lemma_canonical_form(*lhs, types, fuel);
            lemma_canonical_form(*rhs, types, fuel);
            if let Some(Ok(left)) = members_fuel(*lhs, types, fuel) {
                if let Some(Ok(right)) = members_fuel(*rhs, types, fuel) {
                    let all = left + right;
                    assert forall|i: int| 0 <= i < all.len() implies !(#[trigger] all[i] is Union)
                        && is_canonical(all[i]) by {
                        if i >= left.len() {
                            assert(all[i] == right[i - left.len()]);
                        } else {
                            assert(all[i] == left[i]);
                        }
                    }
                    let members = insert_members(Seq::empty(), all);
                    lemma_insert_members_from(all);
                    lemma_insert_members_sorted(all);
                    crate::type_canonicalizer::lemma_members_nonempty(*lhs, types, fuel);
                    crate::type_canonicalizer::lemma_insert_members_len(Seq::empty(), all);
                    assert forall|i: int| 0 <= i < members.len() implies !(#[trigger] members[i] is Union)
                        && is_canonical(members[i]) by {
                        assert(all.contains(members[i]));
                    }
                    if exists|k: int| 0 <= k < members.len() && #[trigger] members[k] is Any {
                        let k = choose|k: int| 0 <= k < members.len() && #[trigger] members[k] is Any;
                        lemma_fold_any(members, position, k);
                    } else {
                        lemma_fold_canonical(members, position);
                    }
                }
            }
        },
        SpecType::Reference { name, position } => {
            if fuel > 0 {
                if let Ok(resolved) = crate::type_resolver::resolve_spec(name, position, types) {
                    lemma_canonical_form(resolved, types, (fuel - 1) as nat);
                }
            }
        },
        _ => {},
    }
}

proof fn lemma_canonical_list_form(types_: Seq<SpecType>, types: Map<Seq<char>, SpecType>, fuel: nat)
    ensures
        canonical_list_fuel(types_, types, fuel) matches Some(Ok(cs)) ==> canonical_list(cs),
    decreases fuel, types_,
{
    if types_.len() > 0 {
        lemma_canonical_list_form(types_.drop_last(), types, fuel);
        lemma_canonical_form(types_.last(), types, fuel);
        if let Some(Ok(cs)) = canonical_list_fuel(types_, types, fuel) {
            assert(cs.drop_last() =~= canonical_list_fuel(types_.drop_last(), types, fuel)->0->Ok_0);
        }
    }
}

/// A type in canonical form canonicalizes to itself, whatever the fuel, and
/// its members are those it flattens to.
pub proof fn lemma_canonical_fixed(type_: SpecType, types: Map<Seq<char>, SpecType>, fuel: nat)
    requires
        is_canonical(type_),
    ensures
        canonical_fuel(type_, types, fuel) == Some(Ok::<SpecType, crate::error::SpecAnalysisError>(type_)),
        members_fuel(type_, types, fuel) == Some(
            Ok::<Seq<SpecType>, crate::error::SpecAnalysisError>(flatten(type_)),
        ),
    decreases type_,
{
    match type_ {
        SpecType::Function { arguments, result, .. } => {
            lemma_canonical_list_fixed(arguments, types, fuel);
            lemma_canonical_fixed(*result, types, fuel);
        },
        SpecType::List { element, .. } => {
            lemma_canonical_fixed(*element, types, fuel);
        },
        SpecType::Mapping { key, value, .. } => {
            lemma_canonical_fixed(*key, types, fuel);
            lemma_canonical_fixed(*value, types, fuel);
        },
        SpecType::Union { lhs, rhs, position } => {
            lemma_canonical_fixed(*lhs, types, fuel);
            lemma_canonical_fixed(*rhs, types, fuel);
            assert(flatten(*rhs) =~= seq![*rhs]);
            lemma_insert_sorted_members(flatten(type_));
            lemma_fold_flatten(type_);
        },
        _ => {
            assert(flatten(type_) =~= seq![type_]);
        },
    }
}

proof fn lemma_canonical_list_fixed(types_: Seq<SpecType>, types: Map<Seq<char>, SpecType>, fuel: nat)
    requires
        canonical_list(types_),
    ensures
        canonical_list_fuel(types_, types, fuel) == Some(
            Ok::<Seq<SpecType>, crate::error::SpecAnalysisError>(types_),
        ),
    decreases types_,
{
    if types_.len() > 0 {
        lemma_canonical_list_fixed(types_.drop_last(), types, fuel);
        lemma_canonical_fixed(types_.last(), types, fuel);
        assert(types_.drop_last().push(types_.last()) =~= types_);
    } else {
        assert(types_ =~= Seq::empty());
    }
}

/// Canonicalization is idempotent: the canonical form of a canonical form
/// is that form itself.
pub proof fn law_canonicalization_idempotent(type_: SpecType, types: Map<Seq<char>, SpecType>)
    requires
        canonicalizable(type_, types),
        canonical(type_, types) is Ok,
    ensures
        canonical(canonical(type_, types)->Ok_0, types) == canonical(type_, types),
{
    let fuel = choose|fuel: nat| canonical_fuel(type_, types, fuel) is Some;
    lemma_canonical_form(type_, types, fuel);
    let c = canonical(type_, types)->Ok_0;
    lemma_canonical_fixed(c, types, 0);
    assert(canonical_fuel(c, types, 0) is Some);
    let again = choose|fuel: nat| canonical_fuel(c, types, fuel) is Some;
    lemma_canonical_fixed(c, types, again);
}

/// A type in canonical form holds no references.
pub proof fn lemma_canonical_form_reference_free(type_: SpecType)
    requires
        is_canonical(type_),
    ensures
        crate::type_canonicalizer::reference_free(type_),
    decreases type_,
{
    match type_ {
        SpecType::Function { arguments, result, .. } => {
            lemma_canonical_list_reference_free(arguments);
            lemma_canonical_form_reference_free(*result);
        },
        SpecType::List { element, .. } => lemma_canonical_form_reference_free(*element),
        SpecType::Mapping { key, value, .. } => {
            lemma_canonical_form_reference_free(*key);
            lemma_canonical_form_reference_free(*value);
        },
        SpecType::Union { lhs, rhs, .. } => {
            lemma_canonical_form_reference_free(*lhs);
            lemma_canonical_form_reference_free(*rhs);
        },
        _ => {},
    }
}

proof fn lemma_canonical_list_reference_free(types_: Seq<SpecType>)
    requires
        canonical_list(types_),
    ensures
        crate::type_canonicalizer::reference_free_list(types_),
    decreases types_,
{
    if types_.len() > 0 {
        lemma_canonical_list_reference_free(types_.drop_last());
        lemma_canonical_form_reference_free(types_.last());
    }
}

/// A type in canonical form is its own canonical form.
pub proof fn lemma_canonical_of_canonical(type_: SpecType, types: Map<Seq<char>, SpecType>)
    requires
        is_canonical(type_),
    ensures
        canonicalizable(type_, types),
        canonical(type_, types) == Ok::<SpecType, crate::error::SpecAnalysisError>(type_),
{
    lemma_canonical_fixed(type_, types, 0);
    let fuel = choose|fuel: nat| canonical_fuel(type_, types, fuel) is Some;
    lemma_canonical_fixed(type_, types, fuel);
}

/// The canonical form of a type, where it has one, is in canonical form.
pub proof fn lemma_canonical_is_canonical(type_: SpecType, types: Map<Seq<char>, SpecType>)
    requires
        canonicalizable(type_, types),
    ensures
        canonical(type_, types) matches Ok(c) ==> is_canonical(c),
{
    let fuel = choose|fuel: nat| canonical_fuel(type_, types, fuel) is Some;
    lemma_canonical_form(type_, types, fuel);
}

/// More fuel changes no result that canonicalization reached with less.
pub proof fn lemma_fuel_monotone(type_: SpecType, types: Map<Seq<char>, SpecType>, fuel: nat, more: nat)
    requires
        fuel <= more,
    ensures
        canonical_fuel(type_, types, fuel) is Some ==> canonical_fuel(type_, types, more)
            == canonical_fuel(type_, types, fuel),
        members_fuel(type_, types, fuel) is Some ==> members_fuel(type_, types, more) == members_fuel(
            type_,
            types,
            fuel,
        ),
    decreases fuel, type_,
{
    match type_ {
        SpecType::Function { arguments, result, .. } => {
            lemma_list_fuel_monotone(arguments, types, fuel, more);
            lemma_fuel_monotone(*result, types, fuel, more);
        },
        SpecType::List { element, .. } => {
            lemma_fuel_monotone(*element, types, fuel, more);
        },
        SpecType::Mapping { key, value, .. } => {
            lemma_fuel_monotone(*key, types, fuel, more);
            lemma_fuel_monotone(*value, types, fuel, more);
        },
        SpecType::Union { lhs, rhs, .. } => {
            lemma_fuel_monotone(*lhs, types, fuel, more);
            lemma_fuel_monotone(*rhs, types, fuel, more);
        },
        SpecType::Reference { name, position } => {
            if fuel > 0 {
                if let Ok(resolved) = crate::type_resolver::resolve_spec(name, position, types) {
                    lemma_fuel_monotone(resolved, types, (fuel - 1) as nat, (more - 1) as nat);
                }
            }
        },
        _ => {},
    }
}

proof fn lemma_list_fuel_monotone(
    types_: Seq<SpecType>,
    types: Map<Seq<char>, SpecType>,
    fuel: nat,
    more: nat,
)
    requires
        fuel <= more,
    ensures
        canonical_list_fuel(types_, types, fuel) is Some ==> canonical_list_fuel(types_, types, more)
            == canonical_list_fuel(types_, types, fuel),
    decreases fuel, types_,
{
    if types_.len() > 0 {
        lemma_list_fuel_monotone(types_.drop_last(), types, fuel, more);
        lemma_fuel_monotone(types_.last(), types, fuel, more);
    }
}

/// Some member compares equal to a type.
pub open spec fn covered(type_: SpecType, members: Seq<SpecType>) -> bool {
    exists|j: int| 0 <= j < members.len() && compare_spec(type_, #[trigger] members[j]) == 0
}

proof fn lemma_insert_member_covers(members: Seq<SpecType>, type_: SpecType)
    ensures
        covered(type_, insert_member(members, type_)),
        forall|k: int|
            0 <= k < members.len() ==> insert_member(members, type_).contains(#[trigger] members[k]),
    decreases members.len(),
{
    let result = insert_member(members, type_);
    if members.len() == 0 {
        crate::type_order::lemma_compare_reflexive(type_);
        assert(compare_spec(type_, result[0]) == 0);
    } else {
        let c = compare_spec(type_, members[0]);
        if c < 0 {
            crate::type_order::lemma_compare_reflexive(type_);
            assert(compare_spec(type_, result[0]) == 0);
            assert forall|k: int| 0 <= k < members.len() implies result.contains(#[trigger] members[k]) by {
                assert(result[k + 1] == members[k]);
            }
        } else if c == 0 {
            assert(compare_spec(type_, result[0]) == 0);
            assert forall|k: int| 0 <= k < members.len() implies result.contains(#[trigger] members[k]) by {
                assert(result[k] == members[k]);
            }
        } else {
            let rest = members.drop_first();
            lemma_insert_member_covers(rest, type_);
            let inserted = insert_member(rest, type_);
            let j = choose|j: int| 0 <= j < inserted.len() && compare_spec(type_, #[trigger] inserted[j]) == 0;
            assert(result[j + 1] == inserted[j]);
            assert forall|k: int| 0 <= k < members.len() implies result.contains(#[trigger] members[k]) by {
                if k == 0 {
                    assert(result[0] == members[0]);
                } else {
                    assert(rest[k - 1] == members[k]);
                    assert(inserted.contains(rest[k - 1]));
                    let l = choose|l: int| 0 <= l < inserted.len() && inserted[l] == rest[k - 1];
                    assert(result[l + 1] == members[k]);
                }
            }
        }
    }
}

/// Every type inserted is covered by the members that result.
pub proof fn lemma_insert_members_covers(types_: Seq<SpecType>)
    ensures
        forall|i: int|
            0 <= i < types_.len() ==> covered(#[trigger] types_[i], insert_members(Seq::empty(), types_)),
    decreases types_.len(),
{
    if types_.len() > 0 {
        let init = types_.drop_last();
        let members = insert_members(Seq::empty(), init);
        let result = insert_members(Seq::empty(), types_);
        lemma_insert_members_covers(init);
        lemma_insert_member_covers(members, types_.last());
        assert forall|i: int| 0 <= i < types_.len() implies covered(#[trigger] types_[i], result) by {
            if i < types_.len() - 1 {
                assert(init[i] == types_[i]);
                assert(covered(init[i], members));
                let j = choose|j: int| 0 <= j < members.len() && compare_spec(init[i], #[trigger] members[j]) == 0;
                assert(result.contains(members[j]));
                let l = choose|l: int| 0 <= l < result.len() && result[l] == members[j];
                assert(compare_spec(types_[i], result[l]) == 0);
            }
        }
    }
}

/// The canonical form of a type flattens to some of its members, unless it
/// is `any`, which then is one of them.
pub proof fn lemma_canonical_members(type_: SpecType, types: Map<Seq<char>, SpecType>, fuel: nat)
    requires
        members_fuel(type_, types, fuel) matches Some(Ok(_)),
    ensures
        canonical_fuel(type_, types, fuel) matches Some(Ok(_)),
        ({
            let c = canonical_fuel(type_, types, fuel)->0->Ok_0;
            let ms = members_fuel(type_, types, fuel)->0->Ok_0;
            &&& c is Any ==> exists|k: int| 0 <= k < ms.len() && #[trigger] ms[k] is Any
            &&& !(c is Any) ==> forall|j: int| 0 <= j < flatten(c).len() ==> ms.contains(#[trigger] flatten(c)[j])
        }),
    decreases fuel, type_,
{
    lemma_canonical_form(type_, types, fuel);
    match type_ {
        SpecType::Union { lhs, rhs, position } => {
            lemma_canonical_members(*lhs, types, fuel);
            lemma_canonical_members(*rhs, types, fuel);
            lemma_canonical_form(*lhs, types, fuel);
            lemma_canonical_form(*rhs, types, fuel);
            let left = members_fuel(*lhs, types, fuel)->0->Ok_0;
            let right = members_fuel(*rhs, types, fuel)->0->Ok_0;
            let all = left + right;
            let members = insert_members(Seq::empty(), all);
            lemma_insert_members_from(all);
            lemma_insert_members_sorted(all);
            crate::type_canonicalizer::lemma_members_nonempty(*lhs, types, fuel);
            crate::type_canonicalizer::lemma_insert_members_len(Seq::empty(), all);
            assert forall|i: int| 0 <= i < all.len() implies !(#[trigger] all[i] is Union) && is_canonical(
                all[i],
            ) by {
                if i >= left.len() {
                    assert(all[i] == right[i - left.len()]);
                } else {
                    assert(all[i] == left[i]);
                }
            }
            assert forall|i: int| 0 <= i < members.len() implies !(#[trigger] members[i] is Union)
                && is_canonical(members[i]) by {
                assert(all.contains(members[i]));
            }
            if exists|k: int| 0 <= k < members.len() && #[trigger] members[k] is Any {
                let k = choose|k: int| 0 <= k < members.len() && #[trigger] members[k] is Any;
                lemma_fold_any(members, position, k);
                assert(all.contains(members[k]));
                let l = choose|l: int| 0 <= l < all.len() && all[l] == members[k];
                assert(all[l] is Any);
            } else {
                lemma_fold_canonical(members, position);
                assert forall|j: int| 0 <= j < flatten(fold_members(members, position)).len() implies all.contains(
                    #[trigger] flatten(fold_members(members, position))[j],
                ) by {
                    assert(all.contains(members[j]));
                }
            }
        },
        SpecType::Reference { name, position } => {
            if let Ok(resolved) = crate::type_resolver::resolve_spec(name, position, types) {
                lemma_canonical_members(resolved, types, (fuel - 1) as nat);
            }
        },
        _ => {
            let c = canonical_fuel(type_, types, fuel)->0->Ok_0;
            assert(flatten(c) =~= seq![c]);
            let ms = members_fuel(type_, types, fuel)->0->Ok_0;
            assert(ms[0] == c);
        },
    }
}

/// The members of a type in canonical form are in canonical form, and no
/// unions.
pub proof fn lemma_flatten_canonical(type_: SpecType)
    requires
        is_canonical(type_),
    ensures
        forall|j: int|
            0 <= j < flatten(type_).len() ==> is_canonical(#[trigger] flatten(type_)[j]) && !(
            flatten(type_)[j] is Union),
    decreases type_,
{
    if let SpecType::Union { lhs, rhs, .. } = type_ {
        lemma_flatten_canonical(*lhs);
        lemma_flatten_canonical(*rhs);
        let n = flatten(*lhs).len();
        assert forall|j: int| 0 <= j < flatten(type_).len() implies is_canonical(
            #[trigger] flatten(type_)[j],
        ) && !(flatten(type_)[j] is Union) by {
            if j < n {
                assert(flatten(type_)[j] == flatten(*lhs)[j]);
            } else {
                assert(flatten(type_)[j] == flatten(*rhs)[j - n]);
            }
        }
    } else {
        assert(flatten(type_) =~= seq![type_]);
    }
}

/// Folding members none of which is `any` does not give `any`.
pub proof fn lemma_fold_not_any(members: Seq<SpecType>, position: SpecPosition)
    requires
        members.len() >= 1,
        forall|i: int| 0 <= i < members.len() ==> !(#[trigger] members[i] is Any),
    ensures
        !(fold_members(members, position) is Any),
    decreases members.len(),
{
    if members.len() > 1 {
        let init = members.drop_last();
        assert forall|i: int| 0 <= i < init.len() implies !(#[trigger] init[i] is Any) by {
            assert(init[i] == members[i]);
        }
        lemma_fold_not_any(init, position);
        assert(!(members[members.len() - 1] is Any));
    } else {
        assert(!(members[0] is Any));
    }
}

/// Two lists compare equal in `type_order` member by member.
pub open spec fn same_members(one: Seq<SpecType>, other: Seq<SpecType>) -> bool {
    &&& one.len() == other.len()
    &&& forall|i: int| 0 <= i < one.len() ==> compare_spec(#[trigger] one[i], other[i]) == 0
}

/// Two lists in strictly increasing order, each of whose members compares
/// equal to some member of the other, compare equal member by member.
pub proof fn lemma_sorted_cover_same(one: Seq<SpecType>, other: Seq<SpecType>)
    requires
        strictly_sorted(one),
        strictly_sorted(other),
        forall|i: int| 0 <= i < one.len() ==> covered(#[trigger] one[i], other),
        forall|j: int| 0 <= j < other.len() ==> covered(#[trigger] other[j], one),
    ensures
        same_members(one, other),
    decreases one.len(),
{
    if one.len() == 0 {
        if other.len() > 0 {
            assert(covered(other[0], one));
        }
    } else if other.len() == 0 {
        assert(covered(one[0], other));
    } else {
        assert(covered(one[0], other));
        let j = choose|j: int| 0 <= j < other.len() && compare_spec(one[0], #[trigger] other[j]) == 0;
        assert(covered(other[0], one));
        let i = choose|i: int| 0 <= i < one.len() && compare_spec(other[0], #[trigger] one[i]) == 0;
        crate::type_order::lemma_compare_antisymmetric(other[0], one[i]);
        crate::type_order::lemma_compare_antisymmetric(one[0], other[j]);
        if i > 0 {
            assert(compare_spec(one[0], one[i]) < 0);
            crate::type_order::lemma_compare_transitive(one[0], one[i], other[0]);
            if j > 0 {
                assert(compare_spec(other[0], other[j]) < 0);
                crate::type_order::lemma_compare_transitive(one[0], other[0], other[j]);
                crate::type_order::lemma_compare_transitive(other[j], one[0], other[0]);
                crate::type_order::lemma_compare_antisymmetric(other[0], other[j]);
            } else {
                crate::type_order::lemma_compare_transitive(one[i], other[0], one[0]);
                crate::type_order::lemma_compare_antisymmetric(one[0], one[i]);
            }
        } else if j > 0 {
            assert(compare_spec(other[0], other[j]) < 0);
            crate::type_order::lemma_compare_transitive(other[0], other[j], one[0]);
            crate::type_order::lemma_compare_transitive(other[j], one[0], other[0]);
            crate::type_order::lemma_compare_antisymmetric(other[0], other[j]);
        }
        assert(i == 0 && j == 0);
        let a = one.drop_first();
        let b = other.drop_first();
        assert(strictly_sorted(a)) by {
            assert forall|x: int, y: int| 0 <= x < y < a.len() implies compare_spec(
                #[trigger] a[x],
                #[trigger] a[y],
            ) < 0 by {
                assert(a[x] == one[x + 1] && a[y] == one[y + 1]);
            }
        }
        assert(strictly_sorted(b)) by {
            assert forall|x: int, y: int| 0 <= x < y < b.len() implies compare_spec(
                #[trigger] b[x],
                #[trigger] b[y],
            ) < 0 by {
                assert(b[x] == other[x + 1] && b[y] == other[y + 1]);
            }
        }
        assert forall|x: int| 0 <= x < a.len() implies covered(#[trigger] a[x], b) by {
            assert(a[x] == one[x + 1]);
            assert(covered(one[x + 1], other));
            let k = choose|k: int| 0 <= k < other.len() && compare_spec(one[x + 1], #[trigger] other[k]) == 0;
            if k == 0 {
                assert(compare_spec(one[0], one[x + 1]) < 0);
                crate::type_order::lemma_compare_antisymmetric(one[x + 1], other[0]);
                crate::type_order::lemma_compare_transitive(one[x + 1], other[0], one[0]);
                crate::type_order::lemma_compare_antisymmetric(one[0], one[x + 1]);
            }
            assert(b[k - 1] == other[k]);
        }
        assert forall|y: int| 0 <= y < b.len() implies covered(#[trigger] b[y], a) by {
            assert(b[y] == other[y + 1]);
            assert(covered(other[y + 1], one));
            let k = choose|k: int| 0 <= k < one.len() && compare_spec(other[y + 1], #[trigger] one[k]) == 0;
            if k == 0 {
                assert(compare_spec(other[0], other[y + 1]) < 0);
                crate::type_order::lemma_compare_antisymmetric(other[y + 1], one[0]);
                crate::type_order::lemma_compare_transitive(other[y + 1], one[0], other[0]);
                crate::type_order::lemma_compare_antisymmetric(other[0], other[y + 1]);
            }
            assert(a[k - 1] == one[k]);
        }
        lemma_sorted_cover_same(a, b);
        assert forall|x: int| 0 <= x < one.len() implies compare_spec(#[trigger] one[x], other[x]) == 0 by {
            if x > 0 {
                assert(a[x - 1] == one[x] && b[x - 1] == other[x]);
            }
        }
    }
}

/// Folds of members that compare equal one by one, none of them a union
/// and none holding a reference, are equal types.
proof fn lemma_fold_same(
    one: Seq<SpecType>,
    other: Seq<SpecType>,
    position: SpecPosition,
    other_position: SpecPosition,
)
    requires
        one.len() >= 1,
        same_members(one, other),
        forall|i: int| 0 <= i < one.len() ==> is_canonical(#[trigger] one[i]),
    ensures
        crate::type_equality_checker::equal_canonical(
            fold_members(one, position),
            fold_members(other, other_position),
        ),
    decreases one.len(),
{
    if one.len() == 1 {
        assert(compare_spec(one[0], other[0]) == 0);
        lemma_canonical_form_reference_free(one[0]);
        crate::type_equality_checker::lemma_compare_zero_equal(one[0], other[0]);
    } else {
        let a = one.drop_last();
        let b = other.drop_last();
        assert forall|i: int| 0 <= i < a.len() implies compare_spec(#[trigger] a[i], b[i]) == 0 by {
            assert(a[i] == one[i] && b[i] == other[i]);
        }
        assert forall|i: int| 0 <= i < a.len() implies is_canonical(#[trigger] a[i]) by {
            assert(a[i] == one[i]);
        }
        lemma_fold_same(a, b, position, other_position);
        let x = one[one.len() - 1];
        let y = other[other.len() - 1];
        assert(compare_spec(x, y) == 0);
        lemma_canonical_form_reference_free(x);
        crate::type_equality_checker::lemma_compare_zero_equal(x, y);
    }
}

proof fn lemma_swap_contains(ma: Seq<SpecType>, mb: Seq<SpecType>)
    ensures
        forall|k: int| 0 <= k < (ma + mb).len() ==> (mb + ma).contains(#[trigger] (ma + mb)[k]),
{
    assert forall|k: int| 0 <= k < (ma + mb).len() implies (mb + ma).contains(#[trigger] (ma + mb)[k]) by {
        if k < ma.len() {
            assert((ma + mb)[k] == ma[k]);
            assert((mb + ma)[mb.len() + k] == ma[k]);
        } else {
            assert((ma + mb)[k] == mb[k - ma.len()]);
            assert((mb + ma)[k - ma.len()] == mb[k - ma.len()]);
        }
    }
}

/// Every member of the canonical members of `ma` then `mb` compares equal
/// to a member of those of `mb` then `ma`.
proof fn lemma_swap_covered(ma: Seq<SpecType>, mb: Seq<SpecType>)
    ensures
        forall|i: int|
            0 <= i < insert_members(Seq::empty(), ma + mb).len() ==> covered(
                #[trigger] insert_members(Seq::empty(), ma + mb)[i],
                insert_members(Seq::empty(), mb + ma),
            ),
{
    let s1 = insert_members(Seq::empty(), ma + mb);
    let s2 = insert_members(Seq::empty(), mb + ma);
    lemma_swap_contains(ma, mb);
    lemma_insert_members_from(ma + mb);
    lemma_insert_members_covers(mb + ma);
    assert forall|i: int| 0 <= i < s1.len() implies covered(#[trigger] s1[i], s2) by {
        assert((ma + mb).contains(s1[i]));
        let k = choose|k: int| 0 <= k < (ma + mb).len() && (ma + mb)[k] == s1[i];
        assert((mb + ma).contains((ma + mb)[k]));
        let l = choose|l: int| 0 <= l < (mb + ma).len() && (mb + ma)[l] == s1[i];
        assert(covered((mb + ma)[l], s2));
    }
}

proof fn lemma_members_shape(ma: Seq<SpecType>, mb: Seq<SpecType>)
    requires
        forall|k: int| 0 <= k < ma.len() ==> !(#[trigger] ma[k] is Union) && is_canonical(ma[k]),
        forall|k: int| 0 <= k < mb.len() ==> !(#[trigger] mb[k] is Union) && is_canonical(mb[k]),
    ensures
        forall|i: int|
            0 <= i < insert_members(Seq::empty(), ma + mb).len() ==> !(
            #[trigger] insert_members(Seq::empty(), ma + mb)[i] is Union) && is_canonical(
                insert_members(Seq::empty(), ma + mb)[i],
            ),
{
    let s1 = insert_members(Seq::empty(), ma + mb);
    lemma_insert_members_from(ma + mb);
    assert forall|i: int| 0 <= i < s1.len() implies !(#[trigger] s1[i] is Union) && is_canonical(s1[i]) by {
        assert((ma + mb).contains(s1[i]));
        let k = choose|k: int| 0 <= k < (ma + mb).len() && (ma + mb)[k] == s1[i];
        if k < ma.len() {
            assert((ma + mb)[k] == ma[k]);
        } else {
            assert((ma + mb)[k] == mb[k - ma.len()]);
        }
    }
}

/// Canonical unions of members in increasing order that compare equal one
/// by one are equal, and so are their members.
#[verifier::spinoff_prover]
proof fn lemma_same_folds(one: Seq<SpecType>, other: Seq<SpecType>, position: SpecPosition, other_position: SpecPosition)
    requires
        one.len() >= 1,
        strictly_sorted(one),
        strictly_sorted(other),
        same_members(one, other),
        forall|i: int| 0 <= i < one.len() ==> !(#[trigger] one[i] is Union) && is_canonical(one[i]),
        forall|i: int| 0 <= i < other.len() ==> !(#[trigger] other[i] is Union) && is_canonical(other[i]),
    ensures
        crate::type_equality_checker::equal_canonical(
            fold_members(one, position),
            fold_members(other, other_position),
        ),
        same_members(
            insert_members(Seq::empty(), flatten(fold_members(one, position))),
            insert_members(Seq::empty(), flatten(fold_members(other, other_position))),
        ),
{
    lemma_fold_same(one, other, position, other_position);
    if exists|k: int| 0 <= k < one.len() && #[trigger] one[k] is Any {
        let k = choose|k: int| 0 <= k < one.len() && #[trigger] one[k] is Any;
        assert(compare_spec(one[k], other[k]) == 0);
        assert(other[k] is Any);
        lemma_fold_any(one, position, k);
        lemma_fold_any(other, other_position, k);
        let c1 = fold_members(one, position);
        let c2 = fold_members(other, other_position);
        assert(flatten(c1) =~= seq![c1]);
        assert(flatten(c2) =~= seq![c2]);
        lemma_insert_sorted_members(seq![c1]);
        lemma_insert_sorted_members(seq![c2]);
        assert(compare_spec(c1, c2) == 0);
    } else {
        assert forall|j: int| 0 <= j < other.len() implies !(#[trigger] other[j] is Any) by {
            assert(compare_spec(one[j], other[j]) == 0);
        }
        lemma_fold_canonical(one, position);
        lemma_fold_canonical(other, other_position);
        lemma_insert_sorted_members(one);
        lemma_insert_sorted_members(other);
    }
}

/// The canonical union of some members and that of the same members in
/// the other order are equal, and their members compare equal one by one.
proof fn lemma_swapped_members(
    ma: Seq<SpecType>,
    mb: Seq<SpecType>,
    position: SpecPosition,
    other_position: SpecPosition,
)
    requires
        ma.len() >= 1,
        forall|k: int| 0 <= k < ma.len() ==> !(#[trigger] ma[k] is Union) && is_canonical(ma[k]),
        forall|k: int| 0 <= k < mb.len() ==> !(#[trigger] mb[k] is Union) && is_canonical(mb[k]),
    ensures
        crate::type_equality_checker::equal_canonical(
            fold_members(insert_members(Seq::empty(), ma + mb), position),
            fold_members(insert_members(Seq::empty(), mb + ma), other_position),
        ),
        same_members(
            insert_members(Seq::empty(), flatten(fold_members(insert_members(Seq::empty(), ma + mb), position))),
            insert_members(
                Seq::empty(),
                flatten(fold_members(insert_members(Seq::empty(), mb + ma), other_position)),
            ),
        ),
{
    let s1 = insert_members(Seq::empty(), ma + mb);
    let s2 = insert_members(Seq::empty(), mb + ma);
    crate::type_canonicalizer::lemma_insert_members_len(Seq::empty(), ma + mb);
    lemma_insert_members_sorted(ma + mb);
    lemma_insert_members_sorted(mb + ma);
    lemma_swap_covered(ma, mb);
    lemma_swap_covered(mb, ma);
    lemma_sorted_cover_same(s1, s2);
    lemma_members_shape(ma, mb);
    lemma_members_shape(mb, ma);
    lemma_same_folds(s1, s2, position, other_position);
}

/// A union and the union of the same types swapped have equal canonical
/// forms, whose members compare equal one by one.
pub proof fn lemma_union_swap(
    one: SpecType,
    other: SpecType,
    position: SpecPosition,
    other_position: SpecPosition,
    types: Map<Seq<char>, SpecType>,
)
    requires
        canonicalizable(SpecType::Union { lhs: Box::new(one), rhs: Box::new(other), position }, types),
        canonical(SpecType::Union { lhs: Box::new(one), rhs: Box::new(other), position }, types) is Ok,
    ensures
        ({
            let first = SpecType::Union { lhs: Box::new(one), rhs: Box::new(other), position };
            let second = SpecType::Union { lhs: Box::new(other), rhs: Box::new(one), position: other_position };
            &&& canonicalizable(second, types)
            &&& canonical(second, types) is Ok
            &&& crate::type_equality_checker::equal_canonical(
                canonical(first, types)->Ok_0,
                canonical(second, types)->Ok_0,
            )
            &&& same_members(
                insert_members(Seq::empty(), flatten(canonical(first, types)->Ok_0)),
                insert_members(Seq::empty(), flatten(canonical(second, types)->Ok_0)),
            )
        }),
{
    let first = SpecType::Union { lhs: Box::new(one), rhs: Box::new(other), position };
    let second = SpecType::Union { lhs: Box::new(other), rhs: Box::new(one), position: other_position };
    let fuel = choose|fuel: nat| canonical_fuel(first, types, fuel) is Some;
    let ma = members_fuel(one, types, fuel)->0->Ok_0;
    let mb = members_fuel(other, types, fuel)->0->Ok_0;
    assert(canonical_fuel(second, types, fuel) is Some);
    let more = choose|f: nat| canonical_fuel(second, types, f) is Some;
    lemma_fuel_monotone(second, types, more, fuel + more);
    lemma_fuel_monotone(second, types, fuel, fuel + more);
    assert(canonical(first, types)->Ok_0 == fold_members(insert_members(Seq::empty(), ma + mb), position));
    assert(canonical(second, types)->Ok_0 == fold_members(
        insert_members(Seq::empty(), mb + ma),
        other_position,
    ));
    lemma_canonical_form(one, types, fuel);
    lemma_canonical_form(other, types, fuel);
    crate::type_canonicalizer::lemma_members_nonempty(one, types, fuel);
    lemma_swapped_members(ma, mb, position, other_position);
}

} // verus!
