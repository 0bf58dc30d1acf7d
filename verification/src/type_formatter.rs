//! Formatting of types as they are written in source code.
use crate::types::{lemma_view_types_len, view_types, SpecType, Type};
use vstd::prelude::*;

verus! {

/// The source text of a type.
pub open spec fn format_spec(type_: SpecType) -> Seq<char>
    decreases type_,
{
    match type_ {
        SpecType::Any { .. } => "any"@,
        SpecType::Boolean { .. } => "boolean"@,
        SpecType::Error { .. } => "error"@,
        SpecType::Function { arguments, result, .. } => "\\("@ + format_list_spec(arguments) + ") "@
            + format_spec(*result),
        SpecType::List { element, .. } => "["@ + format_spec(*element) + "]"@,
        SpecType::Mapping { key, value, .. } => "{"@ + format_spec(*key) + ": "@ + format_spec(
            *value,
        ) + "}"@,
        SpecType::Unit { .. } => "none"@,
        SpecType::Number { .. } => "number"@,
        SpecType::Record { original_name, .. } => original_name,
        SpecType::Reference { name, .. } => name,
        SpecType::String { .. } => "string"@,
        SpecType::Union { lhs, rhs, .. } => format_spec(*lhs) + " | "@ + format_spec(*rhs),
    }
}

/// The source texts of types joined by commas.
pub open spec fn format_list_spec(types: Seq<SpecType>) -> Seq<char>
    decreases types,
{
    if types.len() == 0 {
        Seq::empty()
    } else if types.len() == 1 {
        format_spec(types[0])
    } else {
        format_list_spec(types.drop_last()) + ", "@ + format_spec(types.last())
    }
}

/// Formats a type as it is written in source code.
pub fn format(type_: &Type) -> (text: String)
    ensures
        text@ == format_spec(type_@),
    decreases type_,
{
    match type_ {
        Type::Any { .. } => String::from_str("any"),
        Type::Boolean { .. } => String::from_str("boolean"),
        Type::Error { .. } => String::from_str("error"),
        Type::Function { arguments, result, .. } => {
            let mut text = String::from_str("\\(");
            text.append(format_list(arguments).as_str());
            text.append(") ");
            text.append(format(result).as_str());
            text
        },
        Type::List { element, .. } => {
            let mut text = String::from_str("[");
            text.append(format(element).as_str());
            text.append("]");
            text
        },
        Type::Mapping { key, value, .. } => {
            let mut text = String::from_str("{");
            text.append(format(key).as_str());
            text.append(": ");
            text.append(format(value).as_str());
            text.append("}");
            text
        },
        Type::Unit { .. } => String::from_str("none"),
        Type::Number { .. } => String::from_str("number"),
        Type::Record { original_name, .. } => original_name.clone(),
        Type::Reference { name, .. } => name.clone(),
        Type::String { .. } => String::from_str("string"),
        Type::Union { lhs, rhs, .. } => {
            let mut text = format(lhs);
            text.append(" | ");
            text.append(format(rhs).as_str());
            text
        },
    }
}

fn format_list(types: &Vec<Type>) -> (text: String)
    ensures
        text@ == format_list_spec(view_types(types@)),
    decreases types,
{
    let mut text = String::new();
    let mut i: usize = 0;
    while i < types.len()
        invariant
            i <= types.len(),
            text@ == format_list_spec(view_types(types@.take(i as int))),
        decreases types.len() - i,
    {
        proof {
            assert(decreases_to!(types => types@[i as int]));
            assert(types@.take(i + 1).drop_last() =~= types@.take(i as int));
            lemma_view_types_len(types@.take(i as int));
        }
        if i > 0 {
            text.append(", ");
        }
        text.append(format(&types[i]).as_str());
        i = i + 1;
        proof {
            assert(view_types(types@.take(i as int)).drop_last() =~= view_types(
                types@.take(i - 1),
            ));
            if i == 1 {
                assert(text@ =~= format_list_spec(view_types(types@.take(i as int))));
            }
        }
    }
    assert(types@.take(i as int) =~= types@);
    text
}

} // verus!
