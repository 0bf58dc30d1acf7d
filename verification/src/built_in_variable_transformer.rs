//! Replacement of the free variables that name built-in functions and
//! constants by those functions and constants.
use crate::ir::{BuiltInFunctionName, Expression, Module};
use crate::position::Position;
use crate::variable_transformer::{replaced_by, transform as transform_variables, variables_replaced};
use vstd::prelude::*;
use vstd::string::StringExecFns;

verus! {

/// The built-in function that a name stands for, if any.
pub open spec fn built_in_function(name: Seq<char>) -> Option<BuiltInFunctionName> {
    if name == "debug"@ {
        Some(BuiltInFunctionName::Debug)
    } else if name == "delete"@ {
        Some(BuiltInFunctionName::Delete)
    } else if name == "error"@ {
        Some(BuiltInFunctionName::Error)
    } else if name == "go"@ {
        Some(BuiltInFunctionName::Spawn)
    } else if name == "keys"@ {
        Some(BuiltInFunctionName::Keys)
    } else if name == "race"@ {
        Some(BuiltInFunctionName::Race)
    } else if name == "size"@ {
        Some(BuiltInFunctionName::Size)
    } else if name == "source"@ {
        Some(BuiltInFunctionName::Source)
    } else if name == "values"@ {
        Some(BuiltInFunctionName::Values)
    } else if name == "_reflect_debug"@ {
        Some(BuiltInFunctionName::ReflectDebug)
    } else if name == "_reflect_equal"@ {
        Some(BuiltInFunctionName::ReflectEqual)
    } else {
        None
    }
}

/// `expression` is what a free variable of a name at a position becomes:
/// the built-in function of that name, `true`, `false` or `none`, or the
/// variable itself.
pub open spec fn built_in_replacement(name: String, position: Position, expression: Expression) -> bool {
    match built_in_function(name@) {
        Some(function) => expression matches Expression::BuiltInFunction { name: f, position: p }
            && f == function && p@ == position@,
        None => if name@ == "false"@ || name@ == "true"@ {
            expression matches Expression::Boolean { value, position: p } && value == (name@
                == "true"@) && p@ == position@
        } else if name@ == "none"@ {
            expression matches Expression::Unit { position: p } && p@ == position@
        } else {
            expression matches Expression::Variable { name: n, position: p } && n@ == name@ && p@
                == position@
        },
    }
}

/// `new` is `old` with every free variable of its function definitions
/// replaced as `built_in_replacement` says.
pub open spec fn built_ins_replaced(old: Module, new: Module) -> bool {
    exists|replaced: spec_fn(String, Position, Expression) -> bool|
        #![trigger variables_replaced(old, new, replaced)]
        variables_replaced(old, new, replaced) && forall|
            name: String,
            position: Position,
            expression: Expression,
        | #[trigger] replaced(name, position, expression) ==> built_in_replacement(
            name,
            position,
            expression,
        )
}

fn is_named(name: &String, literal: &str) -> (equal: bool)
    ensures
        equal == (name@ == literal@),
{
    let literal = String::from_str(literal);
    name.eq(&literal)
}

fn built_in_function_named(name: &String) -> (function: Option<BuiltInFunctionName>)
    ensures
        function == built_in_function(name@),
{
    if is_named(name, "debug") {
        Some(BuiltInFunctionName::Debug)
    } else if is_named(name, "delete") {
        Some(BuiltInFunctionName::Delete)
    } else if is_named(name, "error") {
        Some(BuiltInFunctionName::Error)
    } else if is_named(name, "go") {
        Some(BuiltInFunctionName::Spawn)
    } else if is_named(name, "keys") {
        Some(BuiltInFunctionName::Keys)
    } else if is_named(name, "race") {
        Some(BuiltInFunctionName::Race)
    } else if is_named(name, "size") {
        Some(BuiltInFunctionName::Size)
    } else if is_named(name, "source") {
        Some(BuiltInFunctionName::Source)
    } else if is_named(name, "values") {
        Some(BuiltInFunctionName::Values)
    } else if is_named(name, "_reflect_debug") {
        Some(BuiltInFunctionName::ReflectDebug)
    } else if is_named(name, "_reflect_equal") {
        Some(BuiltInFunctionName::ReflectEqual)
    } else {
        None
    }
}

/// What a free variable of a name at a position becomes.
pub fn replace_variable(name: &String, position: &Position) -> (expression: Expression)
    ensures
        built_in_replacement(*name, *position, expression),
{
    match built_in_function_named(name) {
        Some(function) => Expression::BuiltInFunction { name: function, position: position.copy() },
        None => {
            let is_false = is_named(name, "false");
            let is_true = is_named(name, "true");
            if is_false || is_true {
                Expression::Boolean { value: is_true, position: position.copy() }
            } else if is_named(name, "none") {
                Expression::Unit { position: position.copy() }
            } else {
                Expression::Variable { name: name.clone(), position: position.copy() }
            }
        },
    }
}

/// Replaces the free variables of a module that name built-in functions and
/// constants.
pub fn transform(module: &Module) -> (transformed: Module)
    ensures
        built_ins_replaced(*module, transformed),
{
    let replace = |name: &String, position: &Position| -> (expression: Expression)
        ensures
            built_in_replacement(*name, *position, expression),
        { replace_variable(name, position) };
    let transformed = transform_variables(module, &replace);
    proof {
        let replaced = replaced_by(replace);
        assert forall|name: String, position: Position, expression: Expression|
            #[trigger] replaced(name, position, expression) implies built_in_replacement(
            name,
            position,
            expression,
        ) by {
            assert(replace.ensures((&name, &position), expression));
        }
        assert(variables_replaced(*module, transformed, replaced));
    }
    transformed
}

} // verus!
