//! Equality of types: two types are equal when their canonical forms are the
//! same up to positions and to the source names of record types.
use crate::error::{AnalysisError, SpecAnalysisError};
use crate::tables::{type_map_contents, TypeMap};
use crate::type_canonicalizer::{
    canonical,
    canonicalizable,
    canonicalize,
    lemma_canonical_canonicalizable,
    reference_free,
    reference_free_list,
};
use crate::type_order::{compare_lists_spec, compare_names_spec, compare_spec};
use crate::types::{lemma_view_types, view_types, SpecType, Type};
use vstd::prelude::*;

verus! {

/// Equality of canonical types.
pub open spec fn equal_canonical(one: SpecType, other: SpecType) -> bool
    decreases one,
{
    match (one, other) {
        (
            SpecType::Function { arguments: x, result: r, .. },
            SpecType::Function { arguments: y, result: s, .. },
        ) => equal_canonical_lists(x, y) && equal_canonical(*r, *s),
        (SpecType::List { element: x, .. }, SpecType::List { element: y, .. }) => equal_canonical(
            *x,
            *y,
        ),
        (
            SpecType::Mapping { key: k, value: v, .. },
            SpecType::Mapping { key: l, value: w, .. },
        ) => equal_canonical(*k, *l) && equal_canonical(*v, *w),
        (SpecType::Union { lhs: a, rhs: b, .. }, SpecType::Union { lhs: c, rhs: d, .. }) =>
            equal_canonical(*a, *c) && equal_canonical(*b, *d),
        (SpecType::Record { name: n, .. }, SpecType::Record { name: m, .. }) => n == m,
        (SpecType::Any { .. }, SpecType::Any { .. }) => true,
        (SpecType::Boolean { .. }, SpecType::Boolean { .. }) => true,
        (SpecType::Error { .. }, SpecType::Error { .. }) => true,
        (SpecType::Unit { .. }, SpecType::Unit { .. }) => true,
        (SpecType::Number { .. }, SpecType::Number { .. }) => true,
        (SpecType::String { .. }, SpecType::String { .. }) => true,
        _ => false,
    }
}

/// Equality of lists of canonical types, element by element.
pub open spec fn equal_canonical_lists(one: Seq<SpecType>, other: Seq<SpecType>) -> bool
    decreases one,
{
    if one.len() != other.len() {
        false
    } else if one.len() == 0 {
        true
    } else {
        equal_canonical_lists(one.drop_last(), other.drop_last()) && equal_canonical(
            one.last(),
            other.last(),
        )
    }
}

/// Whether two types are equal, or the first error of canonicalizing them.
pub open spec fn types_equal(one: SpecType, other: SpecType, types: Map<Seq<char>, SpecType>) -> Result<
    bool,
    SpecAnalysisError,
> {
    match canonical(one, types) {
        Ok(a) => match canonical(other, types) {
            Ok(b) => Ok(equal_canonical(a, b)),
            Err(error) => Err(error),
        },
        Err(error) => Err(error),
    }
}

/// The models of a result that holds a boolean.
pub open spec fn view_bool_result(result: Result<bool, AnalysisError>) -> Result<
    bool,
    SpecAnalysisError,
> {
    match result {
        Ok(b) => Ok(b),
        Err(error) => Err(error@),
    }
}

/// Checks whether two types are equal.
pub fn check(one: &Type, other: &Type, types: &TypeMap) -> (equal: Result<bool, AnalysisError>)
    requires
        canonicalizable(one@, type_map_contents(*types)),
        canonicalizable(other@, type_map_contents(*types)),
    ensures
        view_bool_result(equal) == types_equal(one@, other@, type_map_contents(*types)),
{
    let one = canonicalize(one, types)?;
    let other = canonicalize(other, types)?;
    Ok(check_canonical(&one, &other))
}

/// Checks whether two canonical types are equal.
pub fn check_canonical(one: &Type, other: &Type) -> (equal: bool)
    ensures
        equal == equal_canonical(one@, other@),
    decreases one,
{
    match (one, other) {
        (
            Type::Function { arguments: x, result: r, .. },
            Type::Function { arguments: y, result: s, .. },
        ) => check_canonical_lists(x, y) && check_canonical(r, s),
        (Type::List { element: x, .. }, Type::List { element: y, .. }) => check_canonical(x, y),
        (Type::Mapping { key: k, value: v, .. }, Type::Mapping { key: l, value: w, .. }) =>
            check_canonical(k, l) && check_canonical(v, w),
        (Type::Union { lhs: a, rhs: b, .. }, Type::Union { lhs: c, rhs: d, .. }) =>
            check_canonical(a, c) && check_canonical(b, d),
        (Type::Record { name: n, .. }, Type::Record { name: m, .. }) => n.eq(m),
        (Type::Any { .. }, Type::Any { .. }) => true,
        (Type::Boolean { .. }, Type::Boolean { .. }) => true,
        (Type::Error { .. }, Type::Error { .. }) => true,
        (Type::Unit { .. }, Type::Unit { .. }) => true,
        (Type::Number { .. }, Type::Number { .. }) => true,
        (Type::String { .. }, Type::String { .. }) => true,
        _ => false,
    }
}

fn check_canonical_lists(one: &Vec<Type>, other: &Vec<Type>) -> (equal: bool)
    ensures
        equal == equal_canonical_lists(view_types(one@), view_types(other@)),
    decreases one,
{
    let ghost x = view_types(one@);
    let ghost y = view_types(other@);
    proof {
        lemma_view_types(one@);
        lemma_view_types(other@);
    }
    if one.len() != other.len() {
        return false;
    }
    let mut i: usize = 0;
    while i < one.len()
        invariant
            i <= one.len(),
            one.len() == other.len(),
            x == view_types(one@),
            y == view_types(other@),
            x.len() == one@.len(),
            y.len() == other@.len(),
            forall|k: int| 0 <= k < one@.len() ==> #[trigger] x[k] == one@[k]@,
            forall|k: int| 0 <= k < other@.len() ==> #[trigger] y[k] == other@[k]@,
            equal_canonical_lists(x.take(i as int), y.take(i as int)),
        decreases one.len() - i,
    {
        proof {
            assert(decreases_to!(one => one@[i as int]));
            assert(x.take(i + 1).drop_last() =~= x.take(i as int));
            assert(y.take(i + 1).drop_last() =~= y.take(i as int));
        }
        if !check_canonical(&one[i], &other[i]) {
            proof {
                lemma_lists_prefix(x, y, (i + 1) as nat);
            }
            return false;
        }
        i = i + 1;
    }
    proof {
        assert(x.take(i as int) =~= x);
        assert(y.take(i as int) =~= y);
    }
    true
}

/// Lists equal element by element have equal prefixes.
proof fn lemma_lists_prefix(one: Seq<SpecType>, other: Seq<SpecType>, n: nat)
    requires
        one.len() == other.len(),
        n <= one.len(),
    ensures
        equal_canonical_lists(one, other) ==> equal_canonical_lists(
            one.take(n as int),
            other.take(n as int),
        ),
    decreases one.len(),
{
    if n < one.len() {
        assert(one.drop_last().take(n as int) =~= one.take(n as int));
        assert(other.drop_last().take(n as int) =~= other.take(n as int));
        lemma_lists_prefix(one.drop_last(), other.drop_last(), n);
    } else {
        assert(one.take(n as int) =~= one);
        assert(other.take(n as int) =~= other);
    }
}


/// A canonical type without references equals itself.
pub proof fn lemma_equal_canonical_reflexive(type_: SpecType)
    requires
        reference_free(type_),
    ensures
        equal_canonical(type_, type_),
    decreases type_,
{
    match type_ {
        SpecType::Function { arguments, result, .. } => {
            lemma_equal_canonical_lists_reflexive(arguments);
            lemma_equal_canonical_reflexive(*result);
        },
        SpecType::List { element, .. } => lemma_equal_canonical_reflexive(*element),
        SpecType::Mapping { key, value, .. } => {
            lemma_equal_canonical_reflexive(*key);
            lemma_equal_canonical_reflexive(*value);
        },
        SpecType::Union { lhs, rhs, .. } => {
            lemma_equal_canonical_reflexive(*lhs);
            lemma_equal_canonical_reflexive(*rhs);
        },
        _ => {},
    }
}

proof fn lemma_equal_canonical_lists_reflexive(types_: Seq<SpecType>)
    requires
        reference_free_list(types_),
    ensures
        equal_canonical_lists(types_, types_),
    decreases types_,
{
    if types_.len() > 0 {
        lemma_equal_canonical_lists_reflexive(types_.drop_last());
        lemma_equal_canonical_reflexive(types_.last());
    }
}

/// Equality of canonical types does not depend on the order of its
/// operands.
pub proof fn lemma_equal_canonical_symmetric(one: SpecType, other: SpecType)
    ensures
        equal_canonical(one, other) == equal_canonical(other, one),
    decreases one,
{
    match (one, other) {
        (
            SpecType::Function { arguments: x, result: r, .. },
            SpecType::Function { arguments: y, result: s, .. },
        ) => {
            lemma_equal_canonical_lists_symmetric(x, y);
            lemma_equal_canonical_symmetric(*r, *s);
        },
        (SpecType::List { element: x, .. }, SpecType::List { element: y, .. }) => {
            lemma_equal_canonical_symmetric(*x, *y);
        },
        (
            SpecType::Mapping { key: k, value: v, .. },
            SpecType::Mapping { key: l, value: w, .. },
        ) => {
            lemma_equal_canonical_symmetric(*k, *l);
            lemma_equal_canonical_symmetric(*v, *w);
        },
        (SpecType::Union { lhs: a, rhs: b, .. }, SpecType::Union { lhs: c, rhs: d, .. }) => {
            lemma_equal_canonical_symmetric(*a, *c);
            lemma_equal_canonical_symmetric(*b, *d);
        },
        _ => {},
    }
}

proof fn lemma_equal_canonical_lists_symmetric(one: Seq<SpecType>, other: Seq<SpecType>)
    ensures
        equal_canonical_lists(one, other) == equal_canonical_lists(other, one),
    decreases one,
{
    if one.len() == other.len() && one.len() > 0 {
        lemma_equal_canonical_lists_symmetric(one.drop_last(), other.drop_last());
        lemma_equal_canonical_symmetric(one.last(), other.last());
    }
}

/// Every type that canonicalizes equals itself.
pub proof fn law_equality_reflexive(type_: SpecType, types: Map<Seq<char>, SpecType>)
    requires
        canonicalizable(type_, types),
        canonical(type_, types) is Ok,
    ensures
        types_equal(type_, type_, types) == Ok::<bool, SpecAnalysisError>(true),
{
    lemma_canonical_canonicalizable(type_, types);
    lemma_equal_canonical_reflexive(canonical(type_, types)->Ok_0);
}

/// Type equality does not depend on the order of the types, where both
/// canonicalize.
pub proof fn law_equality_symmetric(one: SpecType, other: SpecType, types: Map<Seq<char>, SpecType>)
    requires
        canonical(one, types) is Ok,
        canonical(other, types) is Ok,
    ensures
        types_equal(one, other, types) == types_equal(other, one, types),
{
    lemma_equal_canonical_symmetric(canonical(one, types)->Ok_0, canonical(other, types)->Ok_0);
}

/// Equality of canonical types carries over from one type through a second
/// to a third.
pub proof fn lemma_equal_canonical_transitive(one: SpecType, two: SpecType, three: SpecType)
    requires
        equal_canonical(one, two),
        equal_canonical(two, three),
    ensures
        equal_canonical(one, three),
    decreases one,
{
    match (one, two, three) {
        (
            SpecType::Function { arguments: x, result: r, .. },
            SpecType::Function { arguments: y, result: s, .. },
            SpecType::Function { arguments: z, result: t, .. },
        ) => {
            lemma_equal_canonical_lists_transitive(x, y, z);
            lemma_equal_canonical_transitive(*r, *s, *t);
        },
        (
            SpecType::List { element: x, .. },
            SpecType::List { element: y, .. },
            SpecType::List { element: z, .. },
        ) => {
            lemma_equal_canonical_transitive(*x, *y, *z);
        },
        (
            SpecType::Mapping { key: k, value: v, .. },
            SpecType::Mapping { key: l, value: w, .. },
            SpecType::Mapping { key: m, value: u, .. },
        ) => {
            lemma_equal_canonical_transitive(*k, *l, *m);
            lemma_equal_canonical_transitive(*v, *w, *u);
        },
        (
            SpecType::Union { lhs: a, rhs: b, .. },
            SpecType::Union { lhs: c, rhs: d, .. },
            SpecType::Union { lhs: e, rhs: f, .. },
        ) => {
            lemma_equal_canonical_transitive(*a, *c, *e);
            lemma_equal_canonical_transitive(*b, *d, *f);
        },
        _ => {},
    }
}

proof fn lemma_equal_canonical_lists_transitive(
    one: Seq<SpecType>,
    two: Seq<SpecType>,
    three: Seq<SpecType>,
)
    requires
        equal_canonical_lists(one, two),
        equal_canonical_lists(two, three),
    ensures
        equal_canonical_lists(one, three),
    decreases one,
{
    if one.len() > 0 {
        lemma_equal_canonical_lists_transitive(one.drop_last(), two.drop_last(), three.drop_last());
        lemma_equal_canonical_transitive(one.last(), two.last(), three.last());
    }
}

/// Types equal to a common type are equal to each other.
pub proof fn law_equality_transitive(
    one: SpecType,
    two: SpecType,
    three: SpecType,
    types: Map<Seq<char>, SpecType>,
)
    requires
        types_equal(one, two, types) == Ok::<bool, SpecAnalysisError>(true),
        types_equal(two, three, types) == Ok::<bool, SpecAnalysisError>(true),
    ensures
        types_equal(one, three, types) == Ok::<bool, SpecAnalysisError>(true),
{
    lemma_equal_canonical_transitive(
        canonical(one, types)->Ok_0,
        canonical(two, types)->Ok_0,
        canonical(three, types)->Ok_0,
    );
}

proof fn lemma_compare_names_zero(a: Seq<char>, b: Seq<char>)
    requires
        compare_names_spec(a, b) == 0,
    ensures
        a == b,
    decreases a.len(),
{
    if a.len() > 0 {
        assert(b.len() > 0);
        vstd::utf8::char_u32_cast(a[0], a[0] as u32);
        vstd::utf8::char_u32_cast(b[0], b[0] as u32);
        lemma_compare_names_zero(a.drop_first(), b.drop_first());
        assert forall|i: int| 0 <= i < a.len() implies a[i] == b[i] by {
            if i > 0 {
                assert(a.drop_first()[i - 1] == a[i] && b.drop_first()[i - 1] == b[i]);
            }
        }
        assert(a =~= b);
    } else {
        assert(a =~= b);
    }
}

proof fn lemma_compare_lists_zero(a: Seq<SpecType>, b: Seq<SpecType>)
    requires
        compare_lists_spec(a, b) == 0,
    ensures
        a.len() == b.len(),
        forall|i: int| 0 <= i < a.len() ==> compare_spec(#[trigger] a[i], b[i]) == 0,
    decreases a,
{
    if a.len() > 0 {
        lemma_compare_lists_zero(a.drop_first(), b.drop_first());
        assert forall|i: int| 0 <= i < a.len() implies compare_spec(#[trigger] a[i], b[i]) == 0 by {
            if i > 0 {
                assert(a.drop_first()[i - 1] == a[i] && b.drop_first()[i - 1] == b[i]);
            }
        }
    }
}

proof fn lemma_equal_lists_pointwise(a: Seq<SpecType>, b: Seq<SpecType>)
    requires
        a.len() == b.len(),
        forall|i: int| 0 <= i < a.len() ==> equal_canonical(#[trigger] a[i], b[i]),
    ensures
        equal_canonical_lists(a, b),
    decreases a.len(),
{
    if a.len() > 0 {
        assert forall|i: int| 0 <= i < a.drop_last().len() implies equal_canonical(
            #[trigger] a.drop_last()[i],
            b.drop_last()[i],
        ) by {
            assert(a.drop_last()[i] == a[i] && b.drop_last()[i] == b[i]);
        }
        lemma_equal_lists_pointwise(a.drop_last(), b.drop_last());
        assert(equal_canonical(a[a.len() - 1], b[b.len() - 1]));
    }
}

proof fn lemma_reference_free_list_index(a: Seq<SpecType>)
    requires
        reference_free_list(a),
    ensures
        forall|i: int| 0 <= i < a.len() ==> reference_free(#[trigger] a[i]),
    decreases a.len(),
{
    if a.len() > 0 {
        lemma_reference_free_list_index(a.drop_last());
        assert forall|i: int| 0 <= i < a.len() implies reference_free(#[trigger] a[i]) by {
            if i < a.len() - 1 {
                assert(a.drop_last()[i] == a[i]);
            }
        }
    }
}

/// Types without references that compare equal in the order of union
/// members are equal.
pub proof fn lemma_compare_zero_equal(a: SpecType, b: SpecType)
    requires
        compare_spec(a, b) == 0,
        reference_free(a),
    ensures
        equal_canonical(a, b),
    decreases a,
{
    match (a, b) {
        (
            SpecType::Function { arguments: x, result: r, .. },
            SpecType::Function { arguments: y, result: s, .. },
        ) => {
            lemma_compare_lists_zero(x, y);
            lemma_reference_free_list_index(x);
            assert forall|i: int| 0 <= i < x.len() implies equal_canonical(#[trigger] x[i], y[i]) by {
                lemma_compare_zero_equal(x[i], y[i]);
            }
            lemma_equal_lists_pointwise(x, y);
            lemma_compare_zero_equal(*r, *s);
        },
        (SpecType::List { element: x, .. }, SpecType::List { element: y, .. }) => {
            lemma_compare_zero_equal(*x, *y);
        },
        (
            SpecType::Mapping { key: k, value: v, .. },
            SpecType::Mapping { key: l, value: w, .. },
        ) => {
            lemma_compare_zero_equal(*k, *l);
            lemma_compare_zero_equal(*v, *w);
        },
        (SpecType::Union { lhs: x, rhs: y, .. }, SpecType::Union { lhs: u, rhs: v, .. }) => {
            lemma_compare_zero_equal(*x, *u);
            lemma_compare_zero_equal(*y, *v);
        },
        (SpecType::Record { name: n, .. }, SpecType::Record { name: m, .. }) => {
            lemma_compare_names_zero(n, m);
        },
        _ => {},
    }
}

/// A type equals its canonical form.
pub proof fn law_equal_to_canonical_form(type_: SpecType, types: Map<Seq<char>, SpecType>)
    requires
        canonicalizable(type_, types),
        canonical(type_, types) is Ok,
    ensures
        types_equal(type_, canonical(type_, types)->Ok_0, types) == Ok::<bool, SpecAnalysisError>(true),
{
    crate::canonical_form::law_canonicalization_idempotent(type_, types);
    law_equality_reflexive(type_, types);
}

} // verus!
