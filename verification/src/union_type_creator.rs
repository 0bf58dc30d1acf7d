//! Creation of a union type from a list of types.
use crate::position::{Position, SpecPosition};
use crate::types::{clone_type, lemma_view_types, view_types, SpecType, Type};
use vstd::prelude::*;

verus! {

/// The union of non-empty types, nested to the left:
/// `((t1 | t2) | t3) | ...`, each union at `position`.
pub open spec fn union_of(types: Seq<SpecType>, position: SpecPosition) -> SpecType
    decreases types.len(),
{
    if types.len() <= 1 {
        types[0]
    } else {
        SpecType::Union {
            lhs: Box::new(union_of(types.drop_last(), position)),
            rhs: Box::new(types.last()),
            position,
        }
    }
}

/// The union of types, if there are any.
pub open spec fn create_spec(types: Seq<SpecType>, position: SpecPosition) -> Option<SpecType> {
    if types.len() == 0 {
        None
    } else {
        Some(union_of(types, position))
    }
}

/// The models of an optional type.
pub open spec fn view_option(type_: Option<Type>) -> Option<SpecType> {
    match type_ {
        Some(t) => Some(t@),
        None => None,
    }
}

/// Creates the union of types, nested to the left; `None` for no types.
pub fn create(types: &Vec<Type>, position: &Position) -> (union: Option<Type>)
    ensures
        view_option(union) == create_spec(view_types(types@), position@),
{
    let ghost m = view_types(types@);
    proof {
        lemma_view_types(types@);
    }
    if types.len() == 0 {
        return None;
    }
    let mut union = clone_type(&types[0]);
    let mut i: usize = 1;
    while i < types.len()
        invariant
            1 <= i <= types.len(),
            m == view_types(types@),
            m.len() == types@.len(),
            forall|k: int| 0 <= k < types@.len() ==> #[trigger] m[k] == types@[k]@,
            union@ == union_of(m.take(i as int), position@),
        decreases types.len() - i,
    {
        union = Type::union(union, clone_type(&types[i]), position.copy());
        proof {
            assert(m.take(i + 1).drop_last() =~= m.take(i as int));
        }
        i = i + 1;
    }
    proof {
        assert(m.take(i as int) =~= m);
    }
    Some(union)
}

} // verus!
