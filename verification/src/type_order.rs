//! The order in which canonical unions list their member types: by variant
//! first (in the order of declaration of `Type`), then field by field, with
//! names compared character by character and argument lists
//! lexicographically. Positions take no part in it.
use crate::types::{lemma_view_types, view_types, SpecType, Type};
use vstd::prelude::*;
use vstd::string::StrSliceExecFns;

verus! {

/// The rank of a type's variant in the order of declaration.
pub open spec fn variant_rank(type_: SpecType) -> int {
    match type_ {
        SpecType::Any { .. } => 0,
        SpecType::Boolean { .. } => 1,
        SpecType::Error { .. } => 2,
        SpecType::Function { .. } => 3,
        SpecType::List { .. } => 4,
        SpecType::Mapping { .. } => 5,
        SpecType::Unit { .. } => 6,
        SpecType::Number { .. } => 7,
        SpecType::Record { .. } => 8,
        SpecType::Reference { .. } => 9,
        SpecType::String { .. } => 10,
        SpecType::Union { .. } => 11,
    }
}

/// Lexicographic comparison of names by character code: -1, 0 or 1.
pub open spec fn compare_names_spec(a: Seq<char>, b: Seq<char>) -> int
    decreases a.len(),
{
    if a.len() == 0 && b.len() == 0 {
        0
    } else if a.len() == 0 {
        -1
    } else if b.len() == 0 {
        1
    } else if (a[0] as u32) < (b[0] as u32) {
        -1
    } else if (a[0] as u32) > (b[0] as u32) {
        1
    } else {
        compare_names_spec(a.drop_first(), b.drop_first())
    }
}

/// Comparison of types: -1 if `a` comes first, 0 if they are the same up to
/// positions, 1 otherwise.
pub open spec fn compare_spec(a: SpecType, b: SpecType) -> int
    decreases a,
{
    if variant_rank(a) < variant_rank(b) {
        -1
    } else if variant_rank(a) > variant_rank(b) {
        1
    } else {
        match (a, b) {
            (
                SpecType::Function { arguments: x, result: r, .. },
                SpecType::Function { arguments: y, result: s, .. },
            ) => {
                let c = compare_lists_spec(x, y);
                if c != 0 {
                    c
                } else {
                    compare_spec(*r, *s)
                }
            },
            (SpecType::List { element: x, .. }, SpecType::List { element: y, .. }) => compare_spec(
                *x,
                *y,
            ),
            (
                SpecType::Mapping { key: k, value: v, .. },
                SpecType::Mapping { key: l, value: w, .. },
            ) => {
                let c = compare_spec(*k, *l);
                if c != 0 {
                    c
                } else {
                    compare_spec(*v, *w)
                }
            },
            (
                SpecType::Record { name: n, original_name: o, .. },
                SpecType::Record { name: m, original_name: p, .. },
            ) => {
                let c = compare_names_spec(n, m);
                if c != 0 {
                    c
                } else {
                    compare_names_spec(o, p)
                }
            },
            (SpecType::Reference { name: n, .. }, SpecType::Reference { name: m, .. }) =>
                compare_names_spec(n, m),
            (SpecType::Union { lhs: x, rhs: y, .. }, SpecType::Union { lhs: u, rhs: v, .. }) => {
                let c = compare_spec(*x, *u);
                if c != 0 {
                    c
                } else {
                    compare_spec(*y, *v)
                }
            },
            _ => 0,
        }
    }
}

/// Lexicographic comparison of lists of types.
pub open spec fn compare_lists_spec(a: Seq<SpecType>, b: Seq<SpecType>) -> int
    decreases a,
{
    if a.len() == 0 && b.len() == 0 {
        0
    } else if a.len() == 0 {
        -1
    } else if b.len() == 0 {
        1
    } else {
        let c = compare_spec(a[0], b[0]);
        if c != 0 {
            c
        } else {
            compare_lists_spec(a.drop_first(), b.drop_first())
        }
    }
}

/// Compares two names character by character.
pub fn compare_names(a: &str, b: &str) -> (order: i8)
    ensures
        order == compare_names_spec(a@, b@),
{
    let n = a.unicode_len();
    let m = b.unicode_len();
    proof {
        assert(a@.skip(0) =~= a@);
        assert(b@.skip(0) =~= b@);
    }
    let mut i: usize = 0;
    while i < n && i < m
        invariant
            i <= n,
            i <= m,
            n == a@.len(),
            m == b@.len(),
            compare_names_spec(a@, b@) == compare_names_spec(a@.skip(i as int), b@.skip(i as int)),
        decreases n - i,
    {
        let x = a.get_char(i);
        let y = b.get_char(i);
        if (x as u32) < (y as u32) {
            return -1;
        } else if (x as u32) > (y as u32) {
            return 1;
        }
        proof {
            assert(a@.skip(i as int).drop_first() =~= a@.skip(i + 1));
            assert(b@.skip(i as int).drop_first() =~= b@.skip(i + 1));
        }
        i = i + 1;
    }
    if i < m {
        -1
    } else if i < n {
        1
    } else {
        0
    }
}

/// Compares two types in the order of canonical union members.
pub fn compare(a: &Type, b: &Type) -> (order: i8)
    ensures
        order == compare_spec(a@, b@),
    decreases a,
{
    match (a, b) {
        (
            Type::Function { arguments: x, result: r, .. },
            Type::Function { arguments: y, result: s, .. },
        ) => {
            let c = compare_lists(x, y);
            if c != 0 {
                c
            } else {
                compare(r, s)
            }
        },
        (Type::List { element: x, .. }, Type::List { element: y, .. }) => compare(x, y),
        (Type::Mapping { key: k, value: v, .. }, Type::Mapping { key: l, value: w, .. }) => {
            let c = compare(k, l);
            if c != 0 {
                c
            } else {
                compare(v, w)
            }
        },
        (
            Type::Record { name: n, original_name: o, .. },
            Type::Record { name: m, original_name: p, .. },
        ) => {
            let c = compare_names(n.as_str(), m.as_str());
            if c != 0 {
                c
            } else {
                compare_names(o.as_str(), p.as_str())
            }
        },
        (Type::Reference { name: n, .. }, Type::Reference { name: m, .. }) => compare_names(
            n.as_str(),
            m.as_str(),
        ),
        (Type::Union { lhs: x, rhs: y, .. }, Type::Union { lhs: u, rhs: v, .. }) => {
            let c = compare(x, u);
            if c != 0 {
                c
            } else {
                compare(y, v)
            }
        },
        _ => {
            let i = rank(a);
            let j = rank(b);
            if i < j {
                -1
            } else if i > j {
                1
            } else {
                0
            }
        },
    }
}

fn rank(type_: &Type) -> (rank: u8)
    ensures
        rank == variant_rank(type_@),
{
    match type_ {
        Type::Any { .. } => 0,
        Type::Boolean { .. } => 1,
        Type::Error { .. } => 2,
        Type::Function { .. } => 3,
        Type::List { .. } => 4,
        Type::Mapping { .. } => 5,
        Type::Unit { .. } => 6,
        Type::Number { .. } => 7,
        Type::Record { .. } => 8,
        Type::Reference { .. } => 9,
        Type::String { .. } => 10,
        Type::Union { .. } => 11,
    }
}

fn compare_lists(a: &Vec<Type>, b: &Vec<Type>) -> (order: i8)
    ensures
        order == compare_lists_spec(view_types(a@), view_types(b@)),
    decreases a,
{
    let ghost x = view_types(a@);
    let ghost y = view_types(b@);
    proof {
        lemma_view_types(a@);
        lemma_view_types(b@);
        assert(x.skip(0) =~= x);
        assert(y.skip(0) =~= y);
    }
    let mut i: usize = 0;
    while i < a.len() && i < b.len()
        invariant
            i <= a.len(),
            i <= b.len(),
            x == view_types(a@),
            y == view_types(b@),
            x.len() == a@.len(),
            y.len() == b@.len(),
            forall|k: int| 0 <= k < a@.len() ==> #[trigger] x[k] == a@[k]@,
            forall|k: int| 0 <= k < b@.len() ==> #[trigger] y[k] == b@[k]@,
            compare_lists_spec(x, y) == compare_lists_spec(x.skip(i as int), y.skip(i as int)),
        decreases a.len() - i,
    {
        proof {
            assert(decreases_to!(a => a@[i as int]));
            assert(x[i as int] == a@[i as int]@);
        }
        let c = compare(&a[i], &b[i]);
        if c != 0 {
            return c;
        }
        proof {
            assert(x.skip(i as int).drop_first() =~= x.skip(i + 1));
            assert(y.skip(i as int).drop_first() =~= y.skip(i + 1));
        }
        i = i + 1;
    }
    if i < b.len() {
        -1
    } else if i < a.len() {
        1
    } else {
        0
    }
}

/// A name compares equal to itself.
pub proof fn lemma_compare_names_reflexive(name: Seq<char>)
    ensures
        compare_names_spec(name, name) == 0,
    decreases name.len(),
{
    if name.len() > 0 {
        lemma_compare_names_reflexive(name.drop_first());
    }
}

/// A type compares equal to itself.
pub proof fn lemma_compare_reflexive(type_: SpecType)
    ensures
        compare_spec(type_, type_) == 0,
    decreases type_,
{
    match type_ {
        SpecType::Function { arguments, result, .. } => {
            lemma_compare_lists_reflexive(arguments);
            lemma_compare_reflexive(*result);
        },
        SpecType::List { element, .. } => lemma_compare_reflexive(*element),
        SpecType::Mapping { key, value, .. } => {
            lemma_compare_reflexive(*key);
            lemma_compare_reflexive(*value);
        },
        SpecType::Record { name, original_name, .. } => {
            lemma_compare_names_reflexive(name);
            lemma_compare_names_reflexive(original_name);
        },
        SpecType::Reference { name, .. } => lemma_compare_names_reflexive(name),
        SpecType::Union { lhs, rhs, .. } => {
            lemma_compare_reflexive(*lhs);
            lemma_compare_reflexive(*rhs);
        },
        _ => {},
    }
}

/// A list of types compares equal to itself.
pub proof fn lemma_compare_lists_reflexive(types: Seq<SpecType>)
    ensures
        compare_lists_spec(types, types) == 0,
    decreases types,
{
    if types.len() > 0 {
        lemma_compare_reflexive(types[0]);
        lemma_compare_lists_reflexive(types.drop_first());
    }
}


/// Names compare in opposite ways when swapped.
pub proof fn lemma_compare_names_antisymmetric(a: Seq<char>, b: Seq<char>)
    ensures
        compare_names_spec(a, b) == -compare_names_spec(b, a),
    decreases a.len(),
{
    if a.len() > 0 && b.len() > 0 && (a[0] as u32) == (b[0] as u32) {
        lemma_compare_names_antisymmetric(a.drop_first(), b.drop_first());
    }
}

/// The order of names is transitive, and a chain compares equal only
/// where each of its steps does.
pub proof fn lemma_compare_names_transitive(a: Seq<char>, b: Seq<char>, c: Seq<char>)
    requires
        compare_names_spec(a, b) <= 0,
        compare_names_spec(b, c) <= 0,
    ensures
        compare_names_spec(a, c) <= 0,
        compare_names_spec(a, c) == 0 ==> compare_names_spec(a, b) == 0 && compare_names_spec(b, c) == 0,
    decreases a.len(),
{
    if a.len() > 0 && b.len() > 0 && c.len() > 0 && (a[0] as u32) == (b[0] as u32) && (b[0] as u32)
        == (c[0] as u32) {
        lemma_compare_names_transitive(a.drop_first(), b.drop_first(), c.drop_first());
    }
}

/// Types compare in opposite ways when swapped.
pub proof fn lemma_compare_antisymmetric(a: SpecType, b: SpecType)
    ensures
        compare_spec(a, b) == -compare_spec(b, a),
    decreases a,
{
    if variant_rank(a) == variant_rank(b) {
        match (a, b) {
            (
                SpecType::Function { arguments: x, result: r, .. },
                SpecType::Function { arguments: y, result: s, .. },
            ) => {
                lemma_compare_lists_antisymmetric(x, y);
                lemma_compare_antisymmetric(*r, *s);
            },
            (SpecType::List { element: x, .. }, SpecType::List { element: y, .. }) => {
                lemma_compare_antisymmetric(*x, *y);
            },
            (
                SpecType::Mapping { key: k, value: v, .. },
                SpecType::Mapping { key: l, value: w, .. },
            ) => {
                lemma_compare_antisymmetric(*k, *l);
                lemma_compare_antisymmetric(*v, *w);
            },
            (
                SpecType::Record { name: n, original_name: o, .. },
                SpecType::Record { name: m, original_name: p, .. },
            ) => {
                lemma_compare_names_antisymmetric(n, m);
                lemma_compare_names_antisymmetric(o, p);
            },
            (SpecType::Reference { name: n, .. }, SpecType::Reference { name: m, .. }) => {
                lemma_compare_names_antisymmetric(n, m);
            },
            (SpecType::Union { lhs: x, rhs: y, .. }, SpecType::Union { lhs: u, rhs: v, .. }) => {
                lemma_compare_antisymmetric(*x, *u);
                lemma_compare_antisymmetric(*y, *v);
            },
            _ => {},
        }
    }
}

/// Lists of types compare in opposite ways when swapped.
pub proof fn lemma_compare_lists_antisymmetric(a: Seq<SpecType>, b: Seq<SpecType>)
    ensures
        compare_lists_spec(a, b) == -compare_lists_spec(b, a),
    decreases a,
{
    if a.len() > 0 && b.len() > 0 {
        lemma_compare_antisymmetric(a[0], b[0]);
        lemma_compare_lists_antisymmetric(a.drop_first(), b.drop_first());
    }
}

/// The order of types is transitive, and a chain compares equal only where
/// each of its steps does.
pub proof fn lemma_compare_transitive(a: SpecType, b: SpecType, c: SpecType)
    requires
        compare_spec(a, b) <= 0,
        compare_spec(b, c) <= 0,
    ensures
        compare_spec(a, c) <= 0,
        compare_spec(a, c) == 0 ==> compare_spec(a, b) == 0 && compare_spec(b, c) == 0,
    decreases a,
{
    if variant_rank(a) == variant_rank(b) && variant_rank(b) == variant_rank(c) {
        match (a, b, c) {
            (
                SpecType::Function { arguments: x, result: r, .. },
                SpecType::Function { arguments: y, result: s, .. },
                SpecType::Function { arguments: z, result: t, .. },
            ) => {
                lemma_compare_lists_transitive(x, y, z);
                if compare_lists_spec(x, y) == 0 && compare_lists_spec(y, z) == 0 {
                    lemma_compare_transitive(*r, *s, *t);
                }
            },
            (
                SpecType::List { element: x, .. },
                SpecType::List { element: y, .. },
                SpecType::List { element: z, .. },
            ) => {
                lemma_compare_transitive(*x, *y, *z);
            },
            (
                SpecType::Mapping { key: k, value: v, .. },
                SpecType::Mapping { key: l, value: w, .. },
                SpecType::Mapping { key: m, value: u, .. },
            ) => {
                lemma_compare_transitive(*k, *l, *m);
                if compare_spec(*k, *l) == 0 && compare_spec(*l, *m) == 0 {
                    lemma_compare_transitive(*v, *w, *u);
                }
            },
            (
                SpecType::Record { name: n, original_name: o, .. },
                SpecType::Record { name: m, original_name: p, .. },
                SpecType::Record { name: q, original_name: r, .. },
            ) => {
                lemma_compare_names_transitive(n, m, q);
                if compare_names_spec(n, m) == 0 && compare_names_spec(m, q) == 0 {
                    lemma_compare_names_transitive(o, p, r);
                }
            },
            (
                SpecType::Reference { name: n, .. },
                SpecType::Reference { name: m, .. },
                SpecType::Reference { name: q, .. },
            ) => {
                lemma_compare_names_transitive(n, m, q);
            },
            (
                SpecType::Union { lhs: x, rhs: y, .. },
                SpecType::Union { lhs: u, rhs: v, .. },
                SpecType::Union { lhs: s, rhs: t, .. },
            ) => {
                lemma_compare_transitive(*x, *u, *s);
                if compare_spec(*x, *u) == 0 && compare_spec(*u, *s) == 0 {
                    lemma_compare_transitive(*y, *v, *t);
                }
            },
            _ => {},
        }
    }
}

/// The order of lists of types is transitive, and a chain compares equal
/// only where each of its steps does.
pub proof fn lemma_compare_lists_transitive(a: Seq<SpecType>, b: Seq<SpecType>, c: Seq<SpecType>)
    requires
        compare_lists_spec(a, b) <= 0,
        compare_lists_spec(b, c) <= 0,
    ensures
        compare_lists_spec(a, c) <= 0,
        compare_lists_spec(a, c) == 0 ==> compare_lists_spec(a, b) == 0 && compare_lists_spec(b, c)
            == 0,
    decreases a,
{
    if a.len() > 0 && b.len() > 0 && c.len() > 0 {
        lemma_compare_transitive(a[0], b[0], c[0]);
        if compare_spec(a[0], b[0]) == 0 && compare_spec(b[0], c[0]) == 0 {
            lemma_compare_lists_transitive(a.drop_first(), b.drop_first(), c.drop_first());
        }
    }
}

} // verus!
