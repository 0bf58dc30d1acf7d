//! Identifiers of types: a hash of a canonical textual form, so that equal
//! types get equal identifiers.
use crate::error::{AnalysisError, SpecAnalysisError};
use crate::tables::{type_map_contents, TypeMap};
use crate::type_canonicalizer::{
    canonical,
    canonicalizable,
    canonicalize,
    lemma_canonical_canonicalizable,
    reference_free,
    reference_free_list,
};
use crate::type_equality_checker::{equal_canonical, equal_canonical_lists, types_equal};
use crate::types::{lemma_view_types, view_types, SpecType, Type};
use std::collections::hash_map::DefaultHasher;
use std::hash::Hasher;
use vstd::std_specs::hash::DefaultHasherAdditionalSpecFns;
use vstd::utf8::encode_utf8;
use vstd::prelude::*;

verus! {

/// The canonical text of a reference-free type.
pub open spec fn type_string(type_: SpecType) -> Seq<char>
    decreases type_,
{
    match type_ {
        SpecType::Any { .. } => "any"@,
        SpecType::Boolean { .. } => "boolean"@,
        SpecType::Error { .. } => "error"@,
        SpecType::Function { arguments, result, .. } => "(\\("@ + type_list_string(arguments) + ")"@
            + type_string(*result) + ")"@,
        SpecType::List { element, .. } => "["@ + type_string(*element) + "]"@,
        SpecType::Mapping { key, value, .. } => "{"@ + type_string(*key) + ":"@ + type_string(
            *value,
        ) + "}"@,
        SpecType::Unit { .. } => "none"@,
        SpecType::Number { .. } => "number"@,
        SpecType::Record { name, .. } => "record("@ + name + ")"@,
        SpecType::String { .. } => "string"@,
        SpecType::Union { lhs, rhs, .. } => "("@ + type_string(*lhs) + "|"@ + type_string(*rhs)
            + ")"@,
        SpecType::Reference { .. } => Seq::empty(),
    }
}

/// The canonical texts of types joined by commas.
pub open spec fn type_list_string(types: Seq<SpecType>) -> Seq<char>
    decreases types,
{
    if types.len() == 0 {
        Seq::empty()
    } else if types.len() == 1 {
        type_string(types[0])
    } else {
        type_list_string(types.drop_last()) + ","@ + type_string(types.last())
    }
}

/// The lower-case hexadecimal digits of a number, without leading zeros.
pub open spec fn hex_spec(n: u64) -> Seq<char>
    decreases n,
{
    let digit = if n % 16 < 10 {
        ((n % 16) + ('0' as u64)) as char
    } else {
        ((n % 16) - 10 + ('a' as u64)) as char
    };
    if n < 16 {
        seq![digit]
    } else {
        hex_spec(n / 16).push(digit)
    }
}

/// What `DefaultHasher` makes of a string: `finish` after the bytes of the
/// string and then the byte `0xff` are written to a new hasher, as
/// hashing a string writes them.
pub open spec fn string_hash(text: Seq<char>) -> u64 {
    DefaultHasher::spec_finish(seq![encode_utf8(text), seq![0xffu8]])
}

/// The identifier of a type, or the first error of canonicalizing it.
pub open spec fn type_id(type_: SpecType, types: Map<Seq<char>, SpecType>) -> Result<
    Seq<char>,
    SpecAnalysisError,
> {
    match canonical(type_, types) {
        Ok(c) => Ok(hex_spec(string_hash(type_string(c)))),
        Err(error) => Err(error),
    }
}

/// Hashes a string as `Hash` for strings does: its bytes, then `0xff`.
fn hash_string(text: &String) -> (hash: u64)
    ensures
        hash == string_hash(text@),
{
    let mut hasher = DefaultHasher::new();
    let view = text.as_str();
    let bytes = view.as_bytes();
    proof {
        assert(view@ == text@);
        assert(bytes@ == encode_utf8(text@));
    }
    hasher.write(bytes);
    let end: [u8; 1] = [0xffu8];
    hasher.write(&end);
    proof {
        assert(end@ =~= seq![0xffu8]);
        assert(hasher@ =~= seq![encode_utf8(text@), seq![0xffu8]]);
    }
    hasher.finish()
}

fn hex_digit_text(d: u64) -> (text: String)
    requires
        d < 16,
    ensures
        text@ == hex_spec(d),
{
    proof {
        reveal_strlit("0");
        reveal_strlit("1");
        reveal_strlit("2");
        reveal_strlit("3");
        reveal_strlit("4");
        reveal_strlit("5");
        reveal_strlit("6");
        reveal_strlit("7");
        reveal_strlit("8");
        reveal_strlit("9");
        reveal_strlit("a");
        reveal_strlit("b");
        reveal_strlit("c");
        reveal_strlit("d");
        reveal_strlit("e");
        reveal_strlit("f");
    }
    let literal = if d == 0 {
        "0"
    } else if d == 1 {
        "1"
    } else if d == 2 {
        "2"
    } else if d == 3 {
        "3"
    } else if d == 4 {
        "4"
    } else if d == 5 {
        "5"
    } else if d == 6 {
        "6"
    } else if d == 7 {
        "7"
    } else if d == 8 {
        "8"
    } else if d == 9 {
        "9"
    } else if d == 10 {
        "a"
    } else if d == 11 {
        "b"
    } else if d == 12 {
        "c"
    } else if d == 13 {
        "d"
    } else if d == 14 {
        "e"
    } else {
        "f"
    };
    String::from_str(literal)
}

/// The lower-case hexadecimal digits of a number, as `format!("{:x}")`
/// writes them.
fn format_hex(n: u64) -> (text: String)
    ensures
        text@ == hex_spec(n),
    decreases n,
{
    if n < 16 {
        hex_digit_text(n)
    } else {
        let mut text = format_hex(n / 16);
        let digit = hex_digit_text(n % 16);
        text.append(digit.as_str());
        proof {
            assert(hex_spec(n % 16) =~= seq![hex_spec(n % 16)[0]]);
        }
        text
    }
}

/// Calculates the identifier of a type.
pub fn calculate(type_: &Type, types: &TypeMap) -> (id: Result<String, AnalysisError>)
    requires
        canonicalizable(type_@, type_map_contents(*types)),
    ensures
        match id {
            Ok(id) => Ok(id@),
            Err(error) => Err(error@),
        } == type_id(type_@, type_map_contents(*types)),
{
    proof {
        lemma_canonical_canonicalizable(type_@, type_map_contents(*types));
    }
    let canonical = canonicalize(type_, types)?;
    Ok(format_hex(hash_string(&calculate_string(&canonical))))
}

/// The canonical text of a type without references.
pub fn calculate_string(type_: &Type) -> (text: String)
    requires
        reference_free(type_@),
    ensures
        text@ == type_string(type_@),
    decreases type_,
{
    match type_ {
        Type::Any { .. } => String::from_str("any"),
        Type::Boolean { .. } => String::from_str("boolean"),
        Type::Error { .. } => String::from_str("error"),
        Type::Function { arguments, result, .. } => {
            let mut text = String::from_str("(\\(");
            text.append(calculate_list_string(arguments).as_str());
            text.append(")");
            text.append(calculate_string(result).as_str());
            text.append(")");
            text
        },
        Type::List { element, .. } => {
            let mut text = String::from_str("[");
            text.append(calculate_string(element).as_str());
            text.append("]");
            text
        },
        Type::Mapping { key, value, .. } => {
            let mut text = String::from_str("{");
            text.append(calculate_string(key).as_str());
            text.append(":");
            text.append(calculate_string(value).as_str());
            text.append("}");
            text
        },
        Type::Unit { .. } => String::from_str("none"),
        Type::Number { .. } => String::from_str("number"),
        Type::Record { name, .. } => {
            let mut text = String::from_str("record(");
            text.append(name.as_str());
            text.append(")");
            text
        },
        Type::String { .. } => String::from_str("string"),
        Type::Union { lhs, rhs, .. } => {
            let mut text = String::from_str("(");
            text.append(calculate_string(lhs).as_str());
            text.append("|");
            text.append(calculate_string(rhs).as_str());
            text.append(")");
            text
        },
        Type::Reference { .. } => String::new(),
    }
}

fn calculate_list_string(types: &Vec<Type>) -> (text: String)
    requires
        reference_free_list(view_types(types@)),
    ensures
        text@ == type_list_string(view_types(types@)),
    decreases types,
{
    let ghost all = view_types(types@);
    proof {
        lemma_view_types(types@);
        lemma_reference_free_elements(all);
    }
    let mut text = String::new();
    let mut i: usize = 0;
    while i < types.len()
        invariant
            i <= types.len(),
            all == view_types(types@),
            all.len() == types@.len(),
            forall|k: int| 0 <= k < types@.len() ==> #[trigger] all[k] == types@[k]@,
            forall|k: int| 0 <= k < all.len() ==> reference_free(#[trigger] all[k]),
            text@ == type_list_string(all.take(i as int)),
        decreases types.len() - i,
    {
        proof {
            assert(decreases_to!(types => types@[i as int]));
            assert(all.take(i + 1).drop_last() =~= all.take(i as int));
            assert(reference_free(all[i as int]));
        }
        if i > 0 {
            text.append(",");
        }
        text.append(calculate_string(&types[i]).as_str());
        i = i + 1;
        proof {
            if i == 1 {
                assert(text@ =~= type_list_string(all.take(i as int)));
            }
        }
    }
    proof {
        assert(all.take(i as int) =~= all);
    }
    text
}

proof fn lemma_reference_free_elements(types: Seq<SpecType>)
    requires
        reference_free_list(types),
    ensures
        forall|k: int| 0 <= k < types.len() ==> reference_free(#[trigger] types[k]),
    decreases types.len(),
{
    if types.len() > 0 {
        lemma_reference_free_elements(types.drop_last());
        assert forall|k: int| 0 <= k < types.len() implies reference_free(#[trigger] types[k]) by {
            if k < types.len() - 1 {
                assert(types.drop_last()[k] == types[k]);
            }
        }
    }
}


/// Equal canonical types have the same canonical text.
pub proof fn lemma_equal_canonical_same_string(one: SpecType, other: SpecType)
    requires
        equal_canonical(one, other),
    ensures
        type_string(one) == type_string(other),
    decreases one,
{
    match (one, other) {
        (
            SpecType::Function { arguments: x, result: r, .. },
            SpecType::Function { arguments: y, result: s, .. },
        ) => {
            lemma_equal_canonical_lists_same_string(x, y);
            lemma_equal_canonical_same_string(*r, *s);
        },
        (SpecType::List { element: x, .. }, SpecType::List { element: y, .. }) => {
            lemma_equal_canonical_same_string(*x, *y);
        },
        (
            SpecType::Mapping { key: k, value: v, .. },
            SpecType::Mapping { key: l, value: w, .. },
        ) => {
            lemma_equal_canonical_same_string(*k, *l);
            lemma_equal_canonical_same_string(*v, *w);
        },
        (SpecType::Union { lhs: a, rhs: b, .. }, SpecType::Union { lhs: c, rhs: d, .. }) => {
            lemma_equal_canonical_same_string(*a, *c);
            lemma_equal_canonical_same_string(*b, *d);
        },
        _ => {},
    }
}

proof fn lemma_equal_canonical_lists_same_string(one: Seq<SpecType>, other: Seq<SpecType>)
    requires
        equal_canonical_lists(one, other),
    ensures
        type_list_string(one) == type_list_string(other),
    decreases one,
{
    if one.len() > 0 {
        lemma_equal_canonical_lists_same_string(one.drop_last(), other.drop_last());
        lemma_equal_canonical_same_string(one.last(), other.last());
        if one.len() == 1 {
            assert(one[0] == one.last());
            assert(other[0] == other.last());
        }
    }
}

/// Equal types have equal identifiers.
pub proof fn law_equal_types_equal_ids(one: SpecType, other: SpecType, types: Map<Seq<char>, SpecType>)
    requires
        types_equal(one, other, types) == Ok::<bool, SpecAnalysisError>(true),
    ensures
        type_id(one, types) == type_id(other, types),
{
    lemma_equal_canonical_same_string(canonical(one, types)->Ok_0, canonical(other, types)->Ok_0);
}

/// A union and the union of its sides swapped get the same identifier.
pub proof fn law_swapped_union_same_id(
    one: SpecType,
    other: SpecType,
    position: crate::position::SpecPosition,
    other_position: crate::position::SpecPosition,
    types: Map<Seq<char>, SpecType>,
)
    requires
        crate::type_canonicalizer::canonicalizable(
            SpecType::Union { lhs: Box::new(one), rhs: Box::new(other), position },
            types,
        ),
        canonical(SpecType::Union { lhs: Box::new(one), rhs: Box::new(other), position }, types) is Ok,
    ensures
        type_id(SpecType::Union { lhs: Box::new(one), rhs: Box::new(other), position }, types) == type_id(
            SpecType::Union { lhs: Box::new(other), rhs: Box::new(one), position: other_position },
            types,
        ),
{
    crate::canonical_form::lemma_union_swap(one, other, position, other_position, types);
    law_equal_types_equal_ids(
        SpecType::Union { lhs: Box::new(one), rhs: Box::new(other), position },
        SpecType::Union { lhs: Box::new(other), rhs: Box::new(one), position: other_position },
        types,
    );
}

/// Two types are the same but for their positions.
pub open spec fn same_shape(a: SpecType, b: SpecType) -> bool
    decreases a,
{
    match (a, b) {
        (SpecType::Any { .. }, SpecType::Any { .. }) => true,
        (SpecType::Boolean { .. }, SpecType::Boolean { .. }) => true,
        (SpecType::Error { .. }, SpecType::Error { .. }) => true,
        (SpecType::Unit { .. }, SpecType::Unit { .. }) => true,
        (SpecType::Number { .. }, SpecType::Number { .. }) => true,
        (SpecType::String { .. }, SpecType::String { .. }) => true,
        (
            SpecType::Function { arguments: x, result: r, .. },
            SpecType::Function { arguments: y, result: q, .. },
        ) => x.len() == y.len() && (forall|i: int| 0 <= i < x.len() ==> same_shape(x[i], y[i]))
            && same_shape(*r, *q),
        (SpecType::List { element: e, .. }, SpecType::List { element: f, .. }) => same_shape(*e, *f),
        (SpecType::Mapping { key: k, value: v, .. }, SpecType::Mapping { key: l, value: w, .. }) => same_shape(
            *k,
            *l,
        ) && same_shape(*v, *w),
        (SpecType::Union { lhs: l, rhs: r, .. }, SpecType::Union { lhs: m, rhs: q, .. }) => same_shape(*l, *m)
            && same_shape(*r, *q),
        (SpecType::Record { name: n, .. }, SpecType::Record { name: m, .. }) => n == m,
        (SpecType::Reference { name: n, .. }, SpecType::Reference { name: m, .. }) => n == m,
        _ => false,
    }
}

/// A type without references whose record names hold no closing
/// parenthesis: its canonical text can be read back.
pub open spec fn plain_text(type_: SpecType) -> bool
    decreases type_,
{
    match type_ {
        SpecType::Function { arguments, result, .. } => (forall|i: int|
            0 <= i < arguments.len() ==> plain_text(arguments[i])) && plain_text(*result),
        SpecType::List { element, .. } => plain_text(*element),
        SpecType::Mapping { key, value, .. } => plain_text(*key) && plain_text(*value),
        SpecType::Union { lhs, rhs, .. } => plain_text(*lhs) && plain_text(*rhs),
        SpecType::Record { name, .. } => !name.contains(')'),
        SpecType::Reference { .. } => false,
        _ => true,
    }
}

/// The texts of types joined by commas, read from the first one.
pub open spec fn list_text(types: Seq<SpecType>) -> Seq<char>
    decreases types.len(),
{
    if types.len() == 0 {
        Seq::empty()
    } else if types.len() == 1 {
        type_string(types[0])
    } else {
        type_string(types[0]) + ","@ + list_text(types.drop_first())
    }
}

proof fn lemma_list_text_last(types: Seq<SpecType>)
    requires
        types.len() >= 2,
    ensures
        list_text(types) == list_text(types.drop_last()) + ","@ + type_string(types.last()),
    decreases types.len(),
{
    if types.len() == 2 {
        assert(types.drop_last().len() == 1);
        assert(types.drop_first().len() == 1);
        assert(types.drop_first()[0] == types.last());
        assert(types.drop_last()[0] == types[0]);
        assert(list_text(types.drop_first()) == type_string(types.last()));
        assert(list_text(types.drop_last()) == type_string(types[0]));
        assert(list_text(types) =~= list_text(types.drop_last()) + ","@ + type_string(types.last()));
    } else {
        lemma_list_text_last(types.drop_first());
        assert(types.drop_first().drop_last() =~= types.drop_last().drop_first());
        assert(types.drop_first().last() == types.last());
        assert(types.drop_last()[0] == types[0]);
        assert(list_text(types) =~= list_text(types.drop_last()) + ","@ + type_string(types.last()));
    }
}

proof fn lemma_list_text(types: Seq<SpecType>)
    ensures
        type_list_string(types) == list_text(types),
    decreases types.len(),
{
    if types.len() >= 2 {
        lemma_list_text(types.drop_last());
        lemma_list_text_last(types);
    }
}

proof fn lemma_cancel_prefix(p: Seq<char>, u: Seq<char>, v: Seq<char>)
    requires
        p + u == p + v,
    ensures
        u == v,
{
    assert(u =~= (p + u).subrange(p.len() as int, (p + u).len() as int));
    assert(v =~= (p + v).subrange(p.len() as int, (p + v).len() as int));
}

/// The first characters of the text of a type tell its kind.
proof fn lemma_text_start(type_: SpecType)
    requires
        plain_text(type_),
    ensures
        type_string(type_).len() >= 2,
        (type_string(type_)[0] == 'a') == (type_ is Any),
        (type_string(type_)[0] == 'b') == (type_ is Boolean),
        (type_string(type_)[0] == 'e') == (type_ is Error),
        (type_string(type_)[0] == '[') == (type_ is List),
        (type_string(type_)[0] == '{') == (type_ is Mapping),
        (type_string(type_)[0] == 'r') == (type_ is Record),
        (type_string(type_)[0] == 's') == (type_ is String),
        (type_string(type_)[0] == 'n') == (type_ is Unit || type_ is Number),
        (type_string(type_)[0] == '(') == (type_ is Function || type_ is Union),
        type_ is Unit ==> type_string(type_)[1] == 'o',
        type_ is Number ==> type_string(type_)[1] == 'u',
        type_ is Function ==> type_string(type_)[1] == '\\',
        type_ is Union ==> type_string(type_)[1] != '\\',
    decreases type_,
{
    reveal_strlit("any");
    reveal_strlit("boolean");
    reveal_strlit("error");
    reveal_strlit("(\\(");
    reveal_strlit("[");
    reveal_strlit("{");
    reveal_strlit("none");
    reveal_strlit("number");
    reveal_strlit("record(");
    reveal_strlit("string");
    reveal_strlit("(");
    reveal_strlit(")");
    reveal_strlit("]");
    reveal_strlit("}");
    reveal_strlit(":");
    reveal_strlit("|");
    if let SpecType::Union { lhs, .. } = type_ {
        lemma_text_start(*lhs);
    }
}

proof fn lemma_read_back_list(as_: Seq<SpecType>, bs: Seq<SpecType>, t1: Seq<char>, t2: Seq<char>)
    requires
        forall|i: int| 0 <= i < as_.len() ==> plain_text(#[trigger] as_[i]),
        forall|i: int| 0 <= i < bs.len() ==> plain_text(#[trigger] bs[i]),
        list_text(as_) + (")"@ + t1) == list_text(bs) + (")"@ + t2),
    ensures
        as_.len() == bs.len(),
        forall|i: int| 0 <= i < as_.len() ==> same_shape(#[trigger] as_[i], bs[i]),
        t1 == t2,
    decreases as_,
{
    reveal_strlit(")");
    reveal_strlit(",");
    let x = list_text(as_) + (")"@ + t1);
    if as_.len() > 0 {
        lemma_text_start(as_[0]);
        assert(x[0] == type_string(as_[0])[0]);
    }
    if bs.len() > 0 {
        lemma_text_start(bs[0]);
        assert(x[0] == type_string(bs[0])[0]);
    }
    if as_.len() == 0 {
        assert(bs.len() == 0);
        lemma_cancel_prefix(")"@, t1, t2);
    } else {
        assert(bs.len() > 0);
        let tail_a = if as_.len() == 1 { Seq::<char>::empty() } else { ","@ + list_text(as_.drop_first()) };
        let tail_b = if bs.len() == 1 { Seq::<char>::empty() } else { ","@ + list_text(bs.drop_first()) };
        assert(x =~= type_string(as_[0]) + (tail_a + (")"@ + t1)));
        assert(x =~= type_string(bs[0]) + (tail_b + (")"@ + t2)));
        assert(decreases_to!(as_ => as_[0]));
        lemma_read_back(as_[0], bs[0], tail_a + (")"@ + t1), tail_b + (")"@ + t2));
        let y = tail_a + (")"@ + t1);
        if as_.len() == 1 {
            assert(y[0] == ')');
            assert(bs.len() == 1);
            lemma_cancel_prefix(")"@, t1, t2);
        } else {
            assert(y[0] == ',');
            assert(bs.len() > 1);
            assert(y =~= ","@ + (list_text(as_.drop_first()) + (")"@ + t1)));
            assert(y =~= ","@ + (list_text(bs.drop_first()) + (")"@ + t2)));
            lemma_cancel_prefix(","@, list_text(as_.drop_first()) + (")"@ + t1), list_text(bs.drop_first()) + (")"@ + t2));
            assert(decreases_to!(as_ => as_.subrange(1, as_.len() as int)));
            assert(as_.drop_first() == as_.subrange(1, as_.len() as int));
            lemma_read_back_list(as_.drop_first(), bs.drop_first(), t1, t2);
            assert forall|i: int| 0 <= i < as_.len() implies same_shape(#[trigger] as_[i], bs[i]) by {
                if i > 0 {
                    assert(as_.drop_first()[i - 1] == as_[i]);
                    assert(bs.drop_first()[i - 1] == bs[i]);
                }
            }
        }
    }
}

/// The canonical text of a type, followed by anything, can be read back:
/// the type, but for positions, and what follows are found again.
proof fn lemma_read_back(a: SpecType, b: SpecType, s1: Seq<char>, s2: Seq<char>)
    requires
        plain_text(a),
        plain_text(b),
        type_string(a) + s1 == type_string(b) + s2,
    ensures
        same_shape(a, b),
        s1 == s2,
    decreases a,
{
    reveal_strlit("any");
    reveal_strlit("boolean");
    reveal_strlit("error");
    reveal_strlit("(\\(");
    reveal_strlit("[");
    reveal_strlit("]");
    reveal_strlit("{");
    reveal_strlit(":");
    reveal_strlit("}");
    reveal_strlit("none");
    reveal_strlit("number");
    reveal_strlit("record(");
    reveal_strlit("string");
    reveal_strlit("(");
    reveal_strlit(")");
    reveal_strlit("|");
    let x = type_string(a) + s1;
    lemma_text_start(a);
    lemma_text_start(b);
    assert(x[0] == type_string(a)[0] && x[1] == type_string(a)[1]);
    assert(x[0] == type_string(b)[0] && x[1] == type_string(b)[1]);
    match a {
        SpecType::Function { arguments, result, .. } => {
            let y = b->Function_arguments;
            let q = *b->Function_result;
            lemma_list_text(arguments);
            lemma_list_text(y);
            assert(x =~= "(\\("@ + (list_text(arguments) + (")"@ + (type_string(*result) + (")"@ + s1)))));
            assert(x =~= "(\\("@ + (list_text(y) + (")"@ + (type_string(q) + (")"@ + s2)))));
            lemma_cancel_prefix(
                "(\\("@,
                list_text(arguments) + (")"@ + (type_string(*result) + (")"@ + s1))),
                list_text(y) + (")"@ + (type_string(q) + (")"@ + s2))),
            );
            lemma_read_back_list(arguments, y, type_string(*result) + (")"@ + s1), type_string(q) + (")"@ + s2));
            lemma_read_back(*result, q, ")"@ + s1, ")"@ + s2);
            lemma_cancel_prefix(")"@, s1, s2);
        },
        SpecType::List { element, .. } => {
            let f = *b->List_element;
            assert(x =~= "["@ + (type_string(*element) + ("]"@ + s1)));
            assert(x =~= "["@ + (type_string(f) + ("]"@ + s2)));
            lemma_cancel_prefix("["@, type_string(*element) + ("]"@ + s1), type_string(f) + ("]"@ + s2));
            lemma_read_back(*element, f, "]"@ + s1, "]"@ + s2);
            lemma_cancel_prefix("]"@, s1, s2);
        },
        SpecType::Mapping { key, value, .. } => {
            let l = *b->Mapping_key;
            let w = *b->Mapping_value;
            assert(x =~= "{"@ + (type_string(*key) + (":"@ + (type_string(*value) + ("}"@ + s1)))));
            assert(x =~= "{"@ + (type_string(l) + (":"@ + (type_string(w) + ("}"@ + s2)))));
            lemma_cancel_prefix(
                "{"@,
                type_string(*key) + (":"@ + (type_string(*value) + ("}"@ + s1))),
                type_string(l) + (":"@ + (type_string(w) + ("}"@ + s2))),
            );
            lemma_read_back(*key, l, ":"@ + (type_string(*value) + ("}"@ + s1)), ":"@ + (type_string(w) + ("}"@ + s2)));
            lemma_cancel_prefix(":"@, type_string(*value) + ("}"@ + s1), type_string(w) + ("}"@ + s2));
            lemma_read_back(*value, w, "}"@ + s1, "}"@ + s2);
            lemma_cancel_prefix("}"@, s1, s2);
        },
        SpecType::Union { lhs, rhs, .. } => {
            let m = *b->Union_lhs;
            let q = *b->Union_rhs;
            assert(x =~= "("@ + (type_string(*lhs) + ("|"@ + (type_string(*rhs) + (")"@ + s1)))));
            assert(x =~= "("@ + (type_string(m) + ("|"@ + (type_string(q) + (")"@ + s2)))));
            lemma_cancel_prefix(
                "("@,
                type_string(*lhs) + ("|"@ + (type_string(*rhs) + (")"@ + s1))),
                type_string(m) + ("|"@ + (type_string(q) + (")"@ + s2))),
            );
            lemma_read_back(*lhs, m, "|"@ + (type_string(*rhs) + (")"@ + s1)), "|"@ + (type_string(q) + (")"@ + s2)));
            lemma_cancel_prefix("|"@, type_string(*rhs) + (")"@ + s1), type_string(q) + (")"@ + s2));
            lemma_read_back(*rhs, q, ")"@ + s1, ")"@ + s2);
            lemma_cancel_prefix(")"@, s1, s2);
        },
        SpecType::Record { name, .. } => {
            let m = b->Record_name;
            assert(x =~= "record("@ + (name + (")"@ + s1)));
            assert(x =~= "record("@ + (m + (")"@ + s2)));
            lemma_cancel_prefix("record("@, name + (")"@ + s1), m + (")"@ + s2));
            let y = name + (")"@ + s1);
            assert(y == m + (")"@ + s2));
            if name.len() < m.len() {
                assert(y[name.len() as int] == ')');
                assert(y[name.len() as int] == m[name.len() as int]);
                assert(m.contains(')'));
            } else if m.len() < name.len() {
                assert(y[m.len() as int] == ')');
                assert(y[m.len() as int] == name[m.len() as int]);
                assert(name.contains(')'));
            }
            assert(name =~= y.subrange(0, name.len() as int));
            assert(m =~= y.subrange(0, m.len() as int));
            assert(")"@ + s1 =~= y.subrange(name.len() as int, y.len() as int));
            assert(")"@ + s2 =~= y.subrange(m.len() as int, y.len() as int));
            lemma_cancel_prefix(")"@, s1, s2);
        },
        _ => {
            assert(type_string(a) == type_string(b));
            lemma_cancel_prefix(type_string(a), s1, s2);
        },
    }
}

/// Types whose canonical texts agree are the same type but for positions:
/// the text, and so the identifier built from it, tells apart types that
/// differ, `none` and `error` among them.
pub proof fn law_type_string_injective(a: SpecType, b: SpecType)
    requires
        plain_text(a),
        plain_text(b),
        type_string(a) == type_string(b),
    ensures
        same_shape(a, b),
{
    lemma_read_back(a, b, Seq::empty(), Seq::empty());
}

} // verus!
