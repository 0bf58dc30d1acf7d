//! The difference of two types: the members of one that are not members of
//! the other.
use crate::error::{AnalysisError, SpecAnalysisError};
use crate::tables::{type_map_contents, TypeMap};
use crate::type_canonicalizer::{
    canonical,
    canonicalizable,
    canonicalize,
    lemma_canonical_canonicalizable,
};
use crate::canonical_form::{
    is_canonical,
    lemma_canonical_form_reference_free,
    lemma_canonical_is_canonical,
    lemma_canonical_of_canonical,
    lemma_flatten_canonical,
    lemma_fold_canonical,
    lemma_insert_sorted_members,
    strictly_sorted,
};
use crate::position::SpecPosition;
use crate::type_canonicalizer::fold_members;
use crate::type_equality_checker::equal_canonical;
use crate::type_order::{compare, compare_spec};
use crate::type_subsumption_checker::{
    equal_member,
    lemma_no_any_member,
    lemma_subsumes_members,
    subsumes,
};
use crate::union_type_creator::union_of;
use crate::union_type_member_calculator::flatten;
use crate::types::{clone_type, lemma_view_types, view_types, SpecType, Type};
use crate::union_type_creator::{create, create_spec, view_option};
use crate::union_type_member_calculator::{calculate as calculate_members, members_spec};
use vstd::prelude::*;

verus! {

/// A list holds a type that is the same as `type_` up to positions.
pub open spec fn contains_same(types: Seq<SpecType>, type_: SpecType) -> bool {
    exists|j: int| 0 <= j < types.len() && compare_spec(type_, #[trigger] types[j]) == 0
}

/// The types of `one` that are not in `other`, in order.
pub open spec fn difference_members(one: Seq<SpecType>, other: Seq<SpecType>) -> Seq<SpecType>
    decreases one.len(),
{
    if one.len() == 0 {
        Seq::empty()
    } else if contains_same(other, one.last()) {
        difference_members(one.drop_last(), other)
    } else {
        difference_members(one.drop_last(), other).push(one.last())
    }
}

/// The difference of two types: nothing if `other` is `any`; `one` if it
/// is `any`; else the union of the members of `one` that are not members of
/// `other`, if any, at the position of `one`.
pub open spec fn difference_spec(one: SpecType, other: SpecType, types: Map<Seq<char>, SpecType>) -> Result<
    Option<SpecType>,
    SpecAnalysisError,
> {
    match canonical(one, types) {
        Err(error) => Err(error),
        Ok(a) => match canonical(other, types) {
            Err(error) => Err(error),
            Ok(b) => if b is Any {
                Ok(None)
            } else if a is Any {
                Ok(Some(a))
            } else {
                match members_spec(a, types) {
                    Err(error) => Err(error),
                    Ok(ma) => match members_spec(b, types) {
                        Err(error) => Err(error),
                        Ok(mb) => Ok(create_spec(difference_members(ma, mb), a.position_of())),
                    },
                }
            },
        },
    }
}

/// Calculates the difference of two types.
pub fn calculate(one: &Type, other: &Type, types: &TypeMap) -> (difference: Result<
    Option<Type>,
    AnalysisError,
>)
    requires
        canonicalizable(one@, type_map_contents(*types)),
        canonicalizable(other@, type_map_contents(*types)),
    ensures
        match difference {
            Ok(d) => Ok(view_option(d)),
            Err(error) => Err(error@),
        } == difference_spec(one@, other@, type_map_contents(*types)),
{
    proof {
        lemma_canonical_canonicalizable(one@, type_map_contents(*types));
        lemma_canonical_canonicalizable(other@, type_map_contents(*types));
    }
    let one = canonicalize(one, types)?;
    let other = canonicalize(other, types)?;
    if other.is_any() {
        Ok(None)
    } else if one.is_any() {
        Ok(Some(one))
    } else {
        let one_members = calculate_members(&one, types)?;
        let other_members = calculate_members(&other, types)?;
        let members = difference(&one_members, &other_members);
        Ok(create(&members, one.position()))
    }
}

fn difference(one: &Vec<Type>, other: &Vec<Type>) -> (members: Vec<Type>)
    ensures
        view_types(members@) == difference_members(view_types(one@), view_types(other@)),
{
    let ghost a = view_types(one@);
    let ghost b = view_types(other@);
    proof {
        lemma_view_types(one@);
        lemma_view_types(other@);
    }
    let mut members: Vec<Type> = Vec::new();
    let mut i: usize = 0;
    while i < one.len()
        invariant
            i <= one.len(),
            a == view_types(one@),
            b == view_types(other@),
            a.len() == one@.len(),
            b.len() == other@.len(),
            forall|k: int| 0 <= k < one@.len() ==> #[trigger] a[k] == one@[k]@,
            forall|k: int| 0 <= k < other@.len() ==> #[trigger] b[k] == other@[k]@,
            view_types(members@) == difference_members(a.take(i as int), b),
        decreases one.len() - i,
    {
        proof {
            assert(a.take(i + 1).drop_last() =~= a.take(i as int));
        }
        let mut found = false;
        let mut j: usize = 0;
        while j < other.len()
            invariant
                i < one.len(),
                j <= other.len(),
                b == view_types(other@),
                b.len() == other@.len(),
                a.len() == one@.len(),
                a[i as int] == one@[i as int]@,
                forall|k: int| 0 <= k < other@.len() ==> #[trigger] b[k] == other@[k]@,
                found == exists|k: int| 0 <= k < j && compare_spec(a[i as int], #[trigger] b[k]) == 0,
            decreases other.len() - j,
        {
            let c = compare(&one[i], &other[j]);
            proof {
                assert(b[j as int] == other@[j as int]@);
            }
            if c == 0 {
                found = true;
            }
            j = j + 1;
        }
        if !found {
            let ghost before = members@;
            members.push(clone_type(&one[i]));
            proof {
                assert(members@.drop_last() =~= before);
            }
        }
        i = i + 1;
    }
    proof {
        assert(a.take(i as int) =~= a);
    }
    members
}

/// The members of a prefix of a list that are not in the list: none.
proof fn lemma_difference_of_prefix(one: Seq<SpecType>, other: Seq<SpecType>)
    requires
        one.len() <= other.len(),
        one =~= other.take(one.len() as int),
    ensures
        difference_members(one, other) =~= Seq::<SpecType>::empty(),
    decreases one.len(),
{
    if one.len() > 0 {
        let j = one.len() - 1;
        crate::type_order::lemma_compare_reflexive(one.last());
        assert(compare_spec(one.last(), other[j]) == 0);
        assert(contains_same(other, one.last()));
        assert(one.drop_last() =~= other.take(j));
        lemma_difference_of_prefix(one.drop_last(), other);
    }
}

/// Taking a type away from itself leaves nothing.
pub proof fn law_difference_with_itself(type_: SpecType, types: Map<Seq<char>, SpecType>)
    requires
        canonicalizable(type_, types),
        canonical(type_, types) is Ok,
    ensures
        difference_spec(type_, type_, types) == Ok::<Option<SpecType>, SpecAnalysisError>(None),
{
    let a = canonical(type_, types)->Ok_0;
    crate::canonical_form::lemma_canonical_is_canonical(type_, types);
    crate::canonical_form::lemma_canonical_of_canonical(a, types);
    if !(a is Any) {
        let m = members_spec(a, types)->Ok_0;
        assert(m.take(m.len() as int) =~= m);
        lemma_difference_of_prefix(m, m);
    }
}

/// The members of a list that are not in another are some of its members,
/// in its order.
proof fn lemma_difference_sorted(one: Seq<SpecType>, other: Seq<SpecType>)
    requires
        strictly_sorted(one),
    ensures
        strictly_sorted(difference_members(one, other)),
        forall|i: int|
            0 <= i < difference_members(one, other).len() ==> one.contains(
                #[trigger] difference_members(one, other)[i],
            ),
    decreases one.len(),
{
    if one.len() > 0 {
        let init = one.drop_last();
        assert(strictly_sorted(init)) by {
            assert forall|i: int, j: int| 0 <= i < j < init.len() implies compare_spec(
                #[trigger] init[i],
                #[trigger] init[j],
            ) < 0 by {
                assert(init[i] == one[i] && init[j] == one[j]);
            }
        }
        lemma_difference_sorted(init, other);
        let rest = difference_members(init, other);
        let result = difference_members(one, other);
        assert forall|i: int| 0 <= i < rest.len() implies one.contains(#[trigger] rest[i]) by {
            assert(init.contains(rest[i]));
            let k = choose|k: int| 0 <= k < init.len() && init[k] == rest[i];
            assert(one[k] == rest[i]);
        }
        if !contains_same(other, one.last()) {
            assert forall|i: int, j: int| 0 <= i < j < result.len() implies compare_spec(
                #[trigger] result[i],
                #[trigger] result[j],
            ) < 0 by {
                if j == result.len() - 1 {
                    assert(init.contains(rest[i]));
                    let k = choose|k: int| 0 <= k < init.len() && init[k] == rest[i];
                    assert(one[k] == result[i]);
                    assert(result[j] == one[one.len() - 1]);
                } else {
                    assert(result[i] == rest[i] && result[j] == rest[j]);
                }
            }
            assert forall|i: int| 0 <= i < result.len() implies one.contains(#[trigger] result[i]) by {
                if i == result.len() - 1 {
                    assert(one[one.len() - 1] == result[i]);
                } else {
                    assert(result[i] == rest[i]);
                }
            }
        }
    }
}

/// The union of types none of which is `any` is their fold.
proof fn lemma_union_of_fold(types_: Seq<SpecType>, position: SpecPosition)
    requires
        types_.len() >= 1,
        forall|i: int| 0 <= i < types_.len() ==> !(#[trigger] types_[i] is Any),
    ensures
        union_of(types_, position) == fold_members(types_, position),
    decreases types_.len(),
{
    if types_.len() > 1 {
        let init = types_.drop_last();
        assert forall|i: int| 0 <= i < init.len() implies !(#[trigger] init[i] is Any) by {
            assert(init[i] == types_[i]);
        }
        lemma_union_of_fold(init, position);
        assert(!(types_[types_.len() - 1] is Any));
        if init.len() > 1 {
            crate::canonical_form::lemma_fold_not_any(init, position);
        } else {
            assert(!(init[0] is Any));
        }
    }
}

/// The difference of two types is subsumed by the first.
pub proof fn law_difference_subsumed(one: SpecType, other: SpecType, types: Map<Seq<char>, SpecType>)
    requires
        canonicalizable(one, types),
        canonicalizable(other, types),
        canonical(one, types) is Ok,
        canonical(other, types) is Ok,
    ensures
        difference_spec(one, other, types) matches Ok(Some(d)) ==> canonicalizable(d, types)
            && subsumes(d, one, types) == Ok::<bool, SpecAnalysisError>(true),
{
    let a = canonical(one, types)->Ok_0;
    let b = canonical(other, types)->Ok_0;
    lemma_canonical_is_canonical(one, types);
    lemma_canonical_is_canonical(other, types);
    lemma_canonical_of_canonical(a, types);
    lemma_canonical_of_canonical(b, types);
    if !(b is Any) && !(a is Any) {
        let fa = flatten(a);
        assert(strictly_sorted(fa)) by {
            if !(a is Union) {
                assert(fa =~= seq![a]);
            }
        }
        lemma_insert_sorted_members(fa);
        let ma = members_spec(a, types)->Ok_0;
        assert(ma == fa);
        let mb = members_spec(b, types)->Ok_0;
        let diff = difference_members(ma, mb);
        lemma_difference_sorted(ma, mb);
        lemma_flatten_canonical(a);
        if diff.len() > 0 {
            let position = a.position_of();
            assert forall|i: int| 0 <= i < diff.len() implies !(#[trigger] diff[i] is Union) && !(
            diff[i] is Any) && is_canonical(diff[i]) by {
                assert(fa.contains(diff[i]));
                let k = choose|k: int| 0 <= k < fa.len() && fa[k] == diff[i];
                if a is Union {
                    lemma_no_any_member(a);
                } else {
                    assert(fa =~= seq![a]);
                }
            }
            lemma_union_of_fold(diff, position);
            lemma_fold_canonical(diff, position);
            let d = union_of(diff, position);
            lemma_canonical_of_canonical(d, types);
            lemma_subsumes_members(d, a, types);
            assert forall|j: int| 0 <= j < flatten(d).len() implies equal_member(
                #[trigger] flatten(d)[j],
                fa,
            ) by {
                assert(fa.contains(diff[j]));
                let k = choose|k: int| 0 <= k < fa.len() && fa[k] == diff[j];
                lemma_canonical_form_reference_free(fa[k]);
                crate::type_equality_checker::lemma_equal_canonical_reflexive(fa[k]);
                assert(equal_canonical(flatten(d)[j], fa[k]));
            }
            if d is Union && !(a is Union) {
                assert(fa =~= seq![a]);
                assert(diff.len() >= 2);
                assert(fa.contains(diff[0]) && fa.contains(diff[1]));
                assert(diff[0] == a && diff[1] == a);
                assert(compare_spec(diff[0], diff[1]) < 0);
                crate::type_order::lemma_compare_reflexive(a);
            }
        }
    } else if !(b is Any) {
        assert(difference_spec(one, other, types) == Ok::<Option<SpecType>, SpecAnalysisError>(Some(a)));
    }
}

} // verus!
