//! Renaming of the free variables of a module's function definitions.
use crate::ir::{Expression, Module};
use crate::position::Position;
use crate::tables::{name_map_contents, NameMap};
use crate::variable_transformer::{replaced_by, transform, variables_replaced};
use vstd::prelude::*;

verus! {

/// `expression` is what a free variable of a name at a position becomes: a
/// variable of its new name, if `names` has one, else the variable itself.
pub open spec fn renaming(
    names: Map<Seq<char>, Seq<char>>,
    name: String,
    position: Position,
    expression: Expression,
) -> bool {
    expression matches Expression::Variable { name: n, position: p } && p@ == position@ && n@ == (
    if names.contains_key(name@) {
        names[name@]
    } else {
        name@
    })
}

/// Every expression that `replaced` relates to a variable is its renaming.
pub open spec fn renames(
    replaced: spec_fn(String, Position, Expression) -> bool,
    names: Map<Seq<char>, Seq<char>>,
) -> bool {
    forall|name: String, position: Position, expression: Expression|
        #[trigger] replaced(name, position, expression) ==> renaming(
            names,
            name,
            position,
            expression,
        )
}

/// `new` is `old` with the free variables of its function definitions
/// renamed as `names` says.
pub open spec fn variables_renamed(old: Module, new: Module, names: Map<Seq<char>, Seq<char>>) -> bool {
    exists|replaced: spec_fn(String, Position, Expression) -> bool|
        #![trigger variables_replaced(old, new, replaced)]
        variables_replaced(old, new, replaced) && renames(replaced, names)
}

/// What a free variable becomes.
pub fn rename_variable(names: &NameMap, name: &String, position: &Position) -> (expression:
    Expression)
    ensures
        renaming(name_map_contents(*names), *name, *position, expression),
{
    match names.get(name.as_str()) {
        Some(new_name) => Expression::Variable { name: new_name.clone(), position: position.copy() },
        None => Expression::Variable { name: name.clone(), position: position.copy() },
    }
}

/// Renames the free variables of the function definitions of a module.
pub fn rename(module: &Module, names: &NameMap) -> (renamed: Module)
    ensures
        variables_renamed(*module, renamed, name_map_contents(*names)),
{
    let rename = |name: &String, position: &Position| -> (expression: Expression)
        ensures
            renaming(name_map_contents(*names), *name, *position, expression),
        { rename_variable(names, name, position) };
    let renamed = transform(module, &rename);
    proof {
        let replaced = replaced_by(rename);
        assert forall|name: String, position: Position, expression: Expression|
            #[trigger] replaced(name, position, expression) implies renaming(
            name_map_contents(*names),
            name,
            position,
            expression,
        ) by {
            assert(rename.ensures((&name, &position), expression));
        }
        assert(variables_replaced(*module, renamed, replaced));
    }
    renamed
}

} // verus!
