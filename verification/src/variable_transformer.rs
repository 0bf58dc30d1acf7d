//! Transformation of free variables: every variable of the function
//! definitions of a module that no enclosing binder shadows is replaced by
//! what a function makes of it. Lambda arguments, the names of if-list,
//! if-map, if-type and let expressions and the names of list comprehension
//! branches bind variables in their scopes.
use crate::ir::{
    ElseBranch,
    Expression,
    FunctionDefinition,
    IfTypeBranch,
    Lambda,
    ListComprehensionBranch,
    ListComprehensionIteratee,
    ListElement,
    MapElement,
    MapEntry,
    Module,
    Operation,
    RecordFieldValue,
};
use crate::ir_copy::{
    copy_arguments,
    copy_foreign_declarations,
    copy_function_declarations,
    copy_type_aliases,
    copy_type_definitions,
    copy_option_type,
    copy_bytes,
    copy_strings,
    same_arguments,
    same_foreign_declarations,
    same_function_declarations,
    same_option_type,
    same_type_aliases,
    same_type_definitions,
    same_strings,
};
use crate::position::Position;
use crate::types::clone_type;
use vstd::prelude::*;

verus! {

/// A name is among the bound names.
pub open spec fn is_bound(bound: Seq<String>, name: String) -> bool {
    exists|i: int| 0 <= i < bound.len() && #[trigger] bound[i]@ == name@
}

/// The names bound by the first `n` branches of a list comprehension.
pub open spec fn branch_names(branches: Seq<ListComprehensionBranch<Expression>>, n: int) -> Seq<
    String,
>
    decreases n,
{
    if n <= 0 {
        Seq::empty()
    } else {
        branch_names(branches, n - 1) + branches[n - 1].names@
    }
}

/// The names of arguments.
pub open spec fn argument_names(lambda: Lambda<Expression>) -> Seq<String> {
    lambda.arguments@.map_values(|argument: crate::ir::Argument| argument.name)
}

/// `new` is `old` with each variable that `bound` does not shadow replaced
/// by an expression that `replaced` relates to the variable's name and
/// position; everything else is the same.
pub open spec fn substituted(
    old: Expression,
    new: Expression,
    bound: Seq<String>,
    replaced: spec_fn(String, Position, Expression) -> bool,
) -> bool
    decreases old,
{
    match old {
        Expression::Boolean { value, position } => new matches Expression::Boolean {
            value: v,
            position: p,
        } && v == value && p@ == position@,
        Expression::BuiltInFunction { name, position } => new matches Expression::BuiltInFunction {
            name: n,
            position: p,
        } && n == name && p@ == position@,
        Expression::Call { function_type, function, arguments, position } => new matches Expression::Call {
            function_type: t,
            function: g,
            arguments: a,
            position: p,
        } && same_option_type(function_type, t) && substituted(*function, *g, bound, replaced)
            && a@.len() == arguments@.len() && (forall|i: int|
            0 <= i < arguments@.len() ==> substituted(
                #[trigger] arguments@[i],
                a@[i],
                bound,
                replaced,
            )) && p@ == position@,
        Expression::If { condition, then, else_, position } => new matches Expression::If {
            condition: c,
            then: t,
            else_: e,
            position: p,
        } && substituted(*condition, *c, bound, replaced) && substituted(*then, *t, bound, replaced)
            && substituted(*else_, *e, bound, replaced) && p@ == position@,
        Expression::IfList { type_, list, first_name, rest_name, then, else_, position } => new matches Expression::IfList {
            type_: t,
            list: l,
            first_name: f,
            rest_name: r,
            then: u,
            else_: e,
            position: p,
        } && same_option_type(type_, t) && substituted(*list, *l, bound, replaced) && f@
            == first_name@ && r@ == rest_name@ && substituted(
            *then,
            *u,
            bound.push(first_name).push(rest_name),
            replaced,
        ) && substituted(*else_, *e, bound, replaced) && p@ == position@,
        Expression::IfMap { key_type, value_type, name, map, key, then, else_, position } => new matches Expression::IfMap {
            key_type: k,
            value_type: v,
            name: n,
            map: m,
            key: q,
            then: t,
            else_: e,
            position: p,
        } && same_option_type(key_type, k) && same_option_type(value_type, v) && n@ == name@
            && substituted(*map, *m, bound, replaced) && substituted(*key, *q, bound, replaced)
            && substituted(*then, *t, bound.push(name), replaced) && substituted(
            *else_,
            *e,
            bound,
            replaced,
        ) && p@ == position@,
        Expression::IfType { name, argument, branches, else_, position } => new matches Expression::IfType {
            name: n,
            argument: a,
            branches: b,
            else_: e,
            position: p,
        } && n@ == name@ && substituted(*argument, *a, bound, replaced) && b@.len()
            == branches@.len() && (forall|i: int|
            0 <= i < branches@.len() ==> #[trigger] branches@[i].type_@ == b@[i].type_@
                && substituted(branches@[i].expression, b@[i].expression, bound.push(name), replaced))
            && (match (else_, e) {
            (Some(x), Some(y)) => same_option_type(x.type_, y.type_) && substituted(
                x.expression,
                y.expression,
                bound.push(name),
                replaced,
            ) && x.position@ == y.position@,
            (None, None) => true,
            _ => false,
        }) && p@ == position@,
        Expression::Lambda(lambda) => new matches Expression::Lambda(l) && substituted_lambda(
            lambda,
            l,
            bound,
            replaced,
        ),
        Expression::Let { name, type_, bound_expression, expression, position } => new matches Expression::Let {
            name: n,
            type_: t,
            bound_expression: b,
            expression: e,
            position: p,
        } && (match (name, n) {
            (Some(x), Some(y)) => x@ == y@,
            (None, None) => true,
            _ => false,
        }) && same_option_type(type_, t) && substituted(*bound_expression, *b, bound, replaced)
            && substituted(
            *expression,
            *e,
            match name {
                Some(x) => bound.push(x),
                None => bound,
            },
            replaced,
        ) && p@ == position@,
        Expression::List { type_, elements, position } => new matches Expression::List {
            type_: t,
            elements: l,
            position: p,
        } && t@ == type_@ && l@.len() == elements@.len() && (forall|i: int|
            0 <= i < elements@.len() ==> match (#[trigger] elements@[i], l@[i]) {
                (ListElement::Multiple(x), ListElement::Multiple(y)) => substituted(
                    x,
                    y,
                    bound,
                    replaced,
                ),
                (ListElement::Single(x), ListElement::Single(y)) => substituted(
                    x,
                    y,
                    bound,
                    replaced,
                ),
                _ => false,
            }) && p@ == position@,
        Expression::ListComprehension { type_, element, branches, position } => new matches Expression::ListComprehension {
            type_: t,
            element: e,
            branches: b,
            position: p,
        } && t@ == type_@ && substituted(
            *element,
            *e,
            bound + branch_names(branches@, branches@.len() as int),
            replaced,
        ) && b@.len() == branches@.len() && (forall|i: int|
            0 <= i < branches@.len() ==> substituted_branch(
                #[trigger] branches@[i],
                b@[i],
                bound + branch_names(branches@, i),
                replaced,
            )) && p@ == position@,
        Expression::Mapping { key_type, value_type, elements, position } => new matches Expression::Mapping {
            key_type: k,
            value_type: v,
            elements: l,
            position: p,
        } && k@ == key_type@ && v@ == value_type@ && l@.len() == elements@.len() && (forall|
            i: int,
        |
            0 <= i < elements@.len() ==> match (#[trigger] elements@[i], l@[i]) {
                (MapElement::Single(x), MapElement::Single(y)) => substituted(
                    x.key,
                    y.key,
                    bound,
                    replaced,
                ) && substituted(x.value, y.value, bound, replaced) && x.position@
                    == y.position@,
                (MapElement::Multiple(x), MapElement::Multiple(y)) => substituted(
                    x,
                    y,
                    bound,
                    replaced,
                ),
                _ => false,
            }) && p@ == position@,
        Expression::Unit { position } => new matches Expression::Unit { position: p } && p@
            == position@,
        Expression::Number { value, position } => new matches Expression::Number {
            value: v,
            position: p,
        } && v == value && p@ == position@,
        Expression::Operation(operation) => new matches Expression::Operation(o)
            && substituted_operation(operation, o, bound, replaced),
        Expression::RecordConstruction { type_, fields, position } => new matches Expression::RecordConstruction {
            type_: t,
            fields: f,
            position: p,
        } && t@ == type_@ && substituted_fields(fields@, f@, bound, replaced) && p@ == position@,
        Expression::RecordDeconstruction { type_, record, field_name, position } => new matches Expression::RecordDeconstruction {
            type_: t,
            record: r,
            field_name: f,
            position: p,
        } && same_option_type(type_, t) && substituted(*record, *r, bound, replaced) && f@
            == field_name@ && p@ == position@,
        Expression::RecordUpdate { type_, record, fields, position } => new matches Expression::RecordUpdate {
            type_: t,
            record: r,
            fields: f,
            position: p,
        } && t@ == type_@ && substituted(*record, *r, bound, replaced) && substituted_fields(
            fields@,
            f@,
            bound,
            replaced,
        ) && p@ == position@,
        Expression::String { value, position } => new matches Expression::String {
            value: v,
            position: p,
        } && v@ == value@ && p@ == position@,
        Expression::Thunk { type_, expression, position } => new matches Expression::Thunk {
            type_: t,
            expression: e,
            position: p,
        } && same_option_type(type_, t) && substituted(*expression, *e, bound, replaced) && p@
            == position@,
        Expression::TypeCoercion { from, to, argument, position } => new matches Expression::TypeCoercion {
            from: f,
            to: t,
            argument: a,
            position: p,
        } && f@ == from@ && t@ == to@ && substituted(*argument, *a, bound, replaced) && p@
            == position@,
        Expression::Variable { name, position } => if is_bound(bound, name) {
            new matches Expression::Variable { name: n, position: p } && n@ == name@ && p@
                == position@
        } else {
            replaced(name, position, new)
        },
    }
}

/// A lambda with its body substituted, its arguments binding their names.
pub open spec fn substituted_lambda(
    old: Lambda<Expression>,
    new: Lambda<Expression>,
    bound: Seq<String>,
    replaced: spec_fn(String, Position, Expression) -> bool,
) -> bool
    decreases old,
{
    same_arguments(old.arguments@, new.arguments@) && new.result_type@ == old.result_type@
        && substituted(*old.body, *new.body, bound + argument_names(old), replaced)
        && new.position@ == old.position@
}

/// A list comprehension branch with its iteratees and condition
/// substituted; its names bind in its condition.
pub open spec fn substituted_branch(
    old: ListComprehensionBranch<Expression>,
    new: ListComprehensionBranch<Expression>,
    bound: Seq<String>,
    replaced: spec_fn(String, Position, Expression) -> bool,
) -> bool
    decreases old,
{
    same_strings(old.names@, new.names@) && new.iteratees@.len() == old.iteratees@.len() && (forall|
        i: int,
    |
        0 <= i < old.iteratees@.len() ==> same_option_type(
            #[trigger] old.iteratees@[i].type_,
            new.iteratees@[i].type_,
        ) && substituted(old.iteratees@[i].expression, new.iteratees@[i].expression, bound, replaced)
            && old.iteratees@[i].position@ == new.iteratees@[i].position@)
        && (match (old.condition, new.condition) {
        (Some(x), Some(y)) => substituted(x, y, bound + old.names@, replaced),
        (None, None) => true,
        _ => false,
    }) && new.position@ == old.position@
}

/// Record fields with their expressions substituted.
pub open spec fn substituted_fields(
    old: Seq<RecordFieldValue<Expression>>,
    new: Seq<RecordFieldValue<Expression>>,
    bound: Seq<String>,
    replaced: spec_fn(String, Position, Expression) -> bool,
) -> bool
    decreases old,
{
    new.len() == old.len() && forall|i: int|
        0 <= i < old.len() ==> (#[trigger] old[i]).name@ == new[i].name@ && substituted(
            old[i].expression,
            new[i].expression,
            bound,
            replaced,
        ) && old[i].position@ == new[i].position@
}

/// An operation with its operands substituted.
pub open spec fn substituted_operation(
    old: Operation<Expression>,
    new: Operation<Expression>,
    bound: Seq<String>,
    replaced: spec_fn(String, Position, Expression) -> bool,
) -> bool
    decreases old,
{
    match (old, new) {
        (
            Operation::Addition { type_: t, lhs: l, rhs: r, position: p },
            Operation::Addition { type_: u, lhs: m, rhs: s, position: q },
        ) => same_option_type(t, u) && substituted(*l, *m, bound, replaced) && substituted(
            *r,
            *s,
            bound,
            replaced,
        ) && p@ == q@,
        (
            Operation::Arithmetic { operator: o, lhs: l, rhs: r, position: p },
            Operation::Arithmetic { operator: n, lhs: m, rhs: s, position: q },
        ) => o == n && substituted(*l, *m, bound, replaced) && substituted(*r, *s, bound, replaced)
            && p@ == q@,
        (
            Operation::Boolean { operator: o, lhs: l, rhs: r, position: p },
            Operation::Boolean { operator: n, lhs: m, rhs: s, position: q },
        ) => o == n && substituted(*l, *m, bound, replaced) && substituted(*r, *s, bound, replaced)
            && p@ == q@,
        (
            Operation::Equality { type_: t, operator: o, lhs: l, rhs: r, position: p },
            Operation::Equality { type_: u, operator: n, lhs: m, rhs: s, position: q },
        ) => same_option_type(t, u) && o == n && substituted(*l, *m, bound, replaced)
            && substituted(*r, *s, bound, replaced) && p@ == q@,
        (
            Operation::Not { expression: e, position: p },
            Operation::Not { expression: f, position: q },
        ) => substituted(*e, *f, bound, replaced) && p@ == q@,
        (
            Operation::Order { operator: o, lhs: l, rhs: r, position: p },
            Operation::Order { operator: n, lhs: m, rhs: s, position: q },
        ) => o == n && substituted(*l, *m, bound, replaced) && substituted(*r, *s, bound, replaced)
            && p@ == q@,
        (
            Operation::Try { type_: t, expression: e, position: p },
            Operation::Try { type_: u, expression: f, position: q },
        ) => same_option_type(t, u) && substituted(*e, *f, bound, replaced) && p@ == q@,
        _ => false,
    }
}

/// The relation between a variable and what a function makes of it.
pub open spec fn replaced_by<F: Fn(&String, &Position) -> Expression>(f: F) -> spec_fn(
    String,
    Position,
    Expression,
) -> bool {
    |name: String, position: Position, expression: Expression|
        f.ensures((&name, &position), expression)
}

/// Every replacement that `r` allows, `s` allows too.
pub open spec fn allows_less(
    r: spec_fn(String, Position, Expression) -> bool,
    s: spec_fn(String, Position, Expression) -> bool,
) -> bool {
    forall|name: String, position: Position, expression: Expression|
        #[trigger] r(name, position, expression) ==> s(name, position, expression)
}

/// A substitution that `r` allows is one that any relation allowing more
/// than `r` allows.
pub proof fn lemma_substituted_allows_more(
    old: Expression,
    new: Expression,
    bound: Seq<String>,
    r: spec_fn(String, Position, Expression) -> bool,
    s: spec_fn(String, Position, Expression) -> bool,
)
    requires
        substituted(old, new, bound, r),
        allows_less(r, s),
    ensures
        substituted(old, new, bound, s),
    decreases old,
{
    match old {
        Expression::Call { function, arguments, .. } => {
            lemma_substituted_allows_more(*function, *new->Call_function, bound, r, s);
            let a = new->Call_arguments;
            assert forall|i: int| 0 <= i < arguments@.len() implies substituted(
                #[trigger] arguments@[i],
                a@[i],
                bound,
                s,
            ) by {
                assert(decreases_to!(arguments => arguments@[i]));
                lemma_substituted_allows_more(arguments@[i], a@[i], bound, r, s);
            }
        },
        Expression::If { condition, then, else_, .. } => {
            lemma_substituted_allows_more(*condition, *new->If_condition, bound, r, s);
            lemma_substituted_allows_more(*then, *new->If_then, bound, r, s);
            lemma_substituted_allows_more(*else_, *new->If_else_, bound, r, s);
        },
        Expression::IfList { list, first_name, rest_name, then, else_, .. } => {
            lemma_substituted_allows_more(*list, *new->IfList_list, bound, r, s);
            lemma_substituted_allows_more(*then, *new->IfList_then, bound.push(first_name).push(rest_name), r, s);
            lemma_substituted_allows_more(*else_, *new->IfList_else_, bound, r, s);
        },
        Expression::IfMap { name, map, key, then, else_, .. } => {
            lemma_substituted_allows_more(*map, *new->IfMap_map, bound, r, s);
            lemma_substituted_allows_more(*key, *new->IfMap_key, bound, r, s);
            lemma_substituted_allows_more(*then, *new->IfMap_then, bound.push(name), r, s);
            lemma_substituted_allows_more(*else_, *new->IfMap_else_, bound, r, s);
        },
        Expression::IfType { name, argument, branches, else_, .. } => {
            lemma_substituted_allows_more(*argument, *new->IfType_argument, bound, r, s);
            let b = new->IfType_branches;
            assert forall|i: int| 0 <= i < branches@.len() implies substituted(
                (#[trigger] branches@[i]).expression,
                b@[i].expression,
                bound.push(name),
                s,
            ) by {
                assert(decreases_to!(branches => branches@[i]));
                assert(branches@[i].type_@ == b@[i].type_@);
                lemma_substituted_allows_more(branches@[i].expression, b@[i].expression, bound.push(name), r, s);
            }
            if let (Some(x), Some(y)) = (else_, new->IfType_else_) {
                lemma_substituted_allows_more(x.expression, y.expression, bound.push(name), r, s);
            }
        },
        Expression::Lambda(lambda) => {
            let l = new->Lambda_0;
            assert(substituted_lambda(lambda, l, bound, r));
            lemma_substituted_allows_more(*lambda.body, *l.body, bound + argument_names(lambda), r, s);
            assert(substituted_lambda(lambda, l, bound, s));
        },
        Expression::Let { name, bound_expression, expression, .. } => {
            lemma_substituted_allows_more(*bound_expression, *new->Let_bound_expression, bound, r, s);
            let inner = match name {
                Some(x) => bound.push(x),
                None => bound,
            };
            lemma_substituted_allows_more(*expression, *new->Let_expression, inner, r, s);
        },
        Expression::List { elements, .. } => {
            let l = new->List_elements;
            assert forall|i: int| 0 <= i < elements@.len() implies match (#[trigger] elements@[i], l@[i]) {
                (ListElement::Multiple(x), ListElement::Multiple(y)) => substituted(x, y, bound, s),
                (ListElement::Single(x), ListElement::Single(y)) => substituted(x, y, bound, s),
                _ => false,
            } by {
                assert(decreases_to!(elements => elements@[i]));
                match (elements@[i], l@[i]) {
                    (ListElement::Multiple(x), ListElement::Multiple(y)) => {
                        lemma_substituted_allows_more(x, y, bound, r, s);
                    },
                    (ListElement::Single(x), ListElement::Single(y)) => {
                        lemma_substituted_allows_more(x, y, bound, r, s);
                    },
                    _ => {},
                }
            }
        },
        Expression::ListComprehension { element, branches, .. } => {
            lemma_substituted_allows_more(
                *element,
                *new->ListComprehension_element,
                bound + branch_names(branches@, branches@.len() as int),
                r,
                s,
            );
            let b = new->ListComprehension_branches;
            assert forall|i: int| 0 <= i < branches@.len() implies substituted_branch(
                #[trigger] branches@[i],
                b@[i],
                bound + branch_names(branches@, i),
                s,
            ) by {
                assert(decreases_to!(branches => branches@[i]));
                let x = branches@[i];
                let y = b@[i];
                let outer = bound + branch_names(branches@, i);
                assert(substituted_branch(x, y, outer, r));
                assert forall|j: int| 0 <= j < x.iteratees@.len() implies substituted(
                    (#[trigger] x.iteratees@[j]).expression,
                    y.iteratees@[j].expression,
                    outer,
                    s,
                ) by {
                    assert(decreases_to!(x => x.iteratees));
                    assert(decreases_to!(x.iteratees => x.iteratees@[j]));
                    assert(same_option_type(x.iteratees@[j].type_, y.iteratees@[j].type_));
                    lemma_substituted_allows_more(x.iteratees@[j].expression, y.iteratees@[j].expression, outer, r, s);
                }
                if let (Some(c), Some(d)) = (x.condition, y.condition) {
                    assert(decreases_to!(x => x.condition));
                    lemma_substituted_allows_more(c, d, outer + x.names@, r, s);
                }
                assert(substituted_branch(x, y, outer, s));
            }
        },
        Expression::Mapping { elements, .. } => {
            let l = new->Mapping_elements;
            assert forall|i: int| 0 <= i < elements@.len() implies match (#[trigger] elements@[i], l@[i]) {
                (MapElement::Single(x), MapElement::Single(y)) => substituted(x.key, y.key, bound, s)
                    && substituted(x.value, y.value, bound, s) && x.position@ == y.position@,
                (MapElement::Multiple(x), MapElement::Multiple(y)) => substituted(x, y, bound, s),
                _ => false,
            } by {
                assert(decreases_to!(elements => elements@[i]));
                match (elements@[i], l@[i]) {
                    (MapElement::Single(x), MapElement::Single(y)) => {
                        lemma_substituted_allows_more(x.key, y.key, bound, r, s);
                        lemma_substituted_allows_more(x.value, y.value, bound, r, s);
                    },
                    (MapElement::Multiple(x), MapElement::Multiple(y)) => {
                        lemma_substituted_allows_more(x, y, bound, r, s);
                    },
                    _ => {},
                }
            }
        },
        Expression::Operation(operation) => {
            let o = new->Operation_0;
            assert(substituted_operation(operation, o, bound, r));
            match (operation, o) {
                (Operation::Addition { lhs: l, rhs: x, .. }, Operation::Addition { lhs: m, rhs: y, .. }) => {
                    lemma_substituted_allows_more(*l, *m, bound, r, s);
                    lemma_substituted_allows_more(*x, *y, bound, r, s);
                },
                (Operation::Arithmetic { lhs: l, rhs: x, .. }, Operation::Arithmetic { lhs: m, rhs: y, .. }) => {
                    lemma_substituted_allows_more(*l, *m, bound, r, s);
                    lemma_substituted_allows_more(*x, *y, bound, r, s);
                },
                (Operation::Boolean { lhs: l, rhs: x, .. }, Operation::Boolean { lhs: m, rhs: y, .. }) => {
                    lemma_substituted_allows_more(*l, *m, bound, r, s);
                    lemma_substituted_allows_more(*x, *y, bound, r, s);
                },
                (Operation::Equality { lhs: l, rhs: x, .. }, Operation::Equality { lhs: m, rhs: y, .. }) => {
                    lemma_substituted_allows_more(*l, *m, bound, r, s);
                    lemma_substituted_allows_more(*x, *y, bound, r, s);
                },
                (Operation::Not { expression: e, .. }, Operation::Not { expression: h, .. }) => {
                    lemma_substituted_allows_more(*e, *h, bound, r, s);
                },
                (Operation::Order { lhs: l, rhs: x, .. }, Operation::Order { lhs: m, rhs: y, .. }) => {
                    lemma_substituted_allows_more(*l, *m, bound, r, s);
                    lemma_substituted_allows_more(*x, *y, bound, r, s);
                },
                (Operation::Try { expression: e, .. }, Operation::Try { expression: h, .. }) => {
                    lemma_substituted_allows_more(*e, *h, bound, r, s);
                },
                _ => {},
            }
            assert(substituted_operation(operation, o, bound, s));
        },
        Expression::RecordConstruction { fields, .. } => {
            let h = new->RecordConstruction_fields;
            assert(substituted_fields(fields@, h@, bound, r));
            assert forall|i: int| 0 <= i < fields@.len() implies substituted(
                (#[trigger] fields@[i]).expression,
                h@[i].expression,
                bound,
                s,
            ) by {
                assert(decreases_to!(fields => fields@[i]));
                lemma_substituted_allows_more(fields@[i].expression, h@[i].expression, bound, r, s);
            }
            assert(substituted_fields(fields@, h@, bound, s));
        },
        Expression::RecordDeconstruction { record, .. } => {
            lemma_substituted_allows_more(*record, *new->RecordDeconstruction_record, bound, r, s);
        },
        Expression::RecordUpdate { record, fields, .. } => {
            lemma_substituted_allows_more(*record, *new->RecordUpdate_record, bound, r, s);
            let h = new->RecordUpdate_fields;
            assert(substituted_fields(fields@, h@, bound, r));
            assert forall|i: int| 0 <= i < fields@.len() implies substituted(
                (#[trigger] fields@[i]).expression,
                h@[i].expression,
                bound,
                s,
            ) by {
                assert(decreases_to!(fields => fields@[i]));
                lemma_substituted_allows_more(fields@[i].expression, h@[i].expression, bound, r, s);
            }
            assert(substituted_fields(fields@, h@, bound, s));
        },
        Expression::Thunk { expression, .. } => {
            lemma_substituted_allows_more(*expression, *new->Thunk_expression, bound, r, s);
        },
        Expression::TypeCoercion { argument, .. } => {
            lemma_substituted_allows_more(*argument, *new->TypeCoercion_argument, bound, r, s);
        },
        Expression::Variable { name, position } => {
            if !is_bound(bound, name) {
                assert(r(name, position, new));
            }
        },
        _ => {},
    }
}

/// Relates a variable only to the same variable: replacing with it
/// changes nothing.
pub open spec fn keeps_variables() -> spec_fn(String, Position, Expression) -> bool {
    |name: String, position: Position, expression: Expression|
        expression matches Expression::Variable { name: n, position: p } && n@ == name@ && p@
            == position@
}

/// Replacing each free variable by the same variable, as the identity
/// replacement does, gives the module back: every variable stays with its
/// name and position, and nothing else changes.
pub proof fn law_identity_replacement_keeps_module(
    old: Module,
    new: Module,
    replaced: spec_fn(String, Position, Expression) -> bool,
)
    requires
        variables_replaced(old, new, replaced),
        allows_less(replaced, keeps_variables()),
    ensures
        variables_replaced(old, new, keeps_variables()),
{
    assert forall|i: int| 0 <= i < old.function_definitions@.len() implies substituted_definition(
        #[trigger] old.function_definitions@[i],
        new.function_definitions@[i],
        keeps_variables(),
    ) by {
        let x = old.function_definitions@[i];
        let y = new.function_definitions@[i];
        assert(substituted_definition(x, y, replaced));
        lemma_substituted_allows_more(
            Expression::Lambda(x.lambda),
            Expression::Lambda(y.lambda),
            Seq::empty(),
            replaced,
            keeps_variables(),
        );
    }
}

/// A function definition with its lambda substituted from no bound names.
pub open spec fn substituted_definition(
    old: FunctionDefinition,
    new: FunctionDefinition,
    replaced: spec_fn(String, Position, Expression) -> bool,
) -> bool {
    &&& new.name@ == old.name@
    &&& new.original_name@ == old.original_name@
    &&& substituted_lambda(old.lambda, new.lambda, Seq::empty(), replaced)
    &&& new.foreign_definition_configuration == old.foreign_definition_configuration
    &&& new.is_public == old.is_public
    &&& new.position@ == old.position@
}

/// `new` is `old` with the free variables of its function definitions
/// substituted; all else is the same.
pub open spec fn variables_replaced(
    old: Module,
    new: Module,
    replaced: spec_fn(String, Position, Expression) -> bool,
) -> bool {
    &&& same_type_definitions(old.type_definitions@, new.type_definitions@)
    &&& same_type_aliases(old.type_aliases@, new.type_aliases@)
    &&& same_foreign_declarations(old.foreign_declarations@, new.foreign_declarations@)
    &&& same_function_declarations(old.function_declarations@, new.function_declarations@)
    &&& new.function_definitions@.len() == old.function_definitions@.len()
    &&& forall|i: int|
        0 <= i < old.function_definitions@.len() ==> substituted_definition(
            #[trigger] old.function_definitions@[i],
            new.function_definitions@[i],
            replaced,
        )
    &&& new.position@ == old.position@
}

/// Replaces each free variable of the function definitions of a module by
/// what `transform` makes of it.
pub fn transform<F: Fn(&String, &Position) -> Expression>(module: &Module, replacement: &F) -> (transformed: Module)
    requires
        forall|name: &String, position: &Position| replacement.requires((name, position)),
    ensures
        variables_replaced(*module, transformed, replaced_by(*replacement)),
{
    let mut definitions: Vec<FunctionDefinition> = Vec::new();
    let mut i: usize = 0;
    while i < module.function_definitions.len()
        invariant
            i <= module.function_definitions.len(),
            forall|name: &String, position: &Position| replacement.requires((name, position)),
            definitions@.len() == i,
            forall|k: int|
                0 <= k < i ==> substituted_definition(
                    #[trigger] module.function_definitions@[k],
                    definitions@[k],
                    replaced_by(*replacement),
                ),
        decreases module.function_definitions.len() - i,
    {
        let definition = &module.function_definitions[i];
        let mut bound: Vec<String> = Vec::new();
        let lambda = transform_lambda(&definition.lambda, replacement, &mut bound);
        definitions.push(
            FunctionDefinition {
                name: definition.name.clone(),
                original_name: definition.original_name.clone(),
                lambda,
                foreign_definition_configuration: definition.foreign_definition_configuration,
                is_public: definition.is_public,
                position: definition.position.copy(),
            },
        );
        i = i + 1;
    }
    Module {
        type_definitions: copy_type_definitions(&module.type_definitions),
        type_aliases: copy_type_aliases(&module.type_aliases),
        foreign_declarations: copy_foreign_declarations(&module.foreign_declarations),
        function_declarations: copy_function_declarations(&module.function_declarations),
        function_definitions: definitions,
        position: module.position.copy(),
    }
}

fn is_bound_name(bound: &Vec<String>, name: &String) -> (found: bool)
    ensures
        found == is_bound(bound@, *name),
{
    let mut i: usize = 0;
    while i < bound.len()
        invariant
            i <= bound.len(),
            forall|k: int| 0 <= k < i ==> (#[trigger] bound@[k])@ != name@,
        decreases bound.len() - i,
    {
        if bound[i].eq(name) {
            return true;
        }
        i = i + 1;
    }
    false
}

fn push_names(bound: &mut Vec<String>, names: &Vec<String>)
    ensures
        final(bound)@ == old(bound)@ + names@,
{
    let mut i: usize = 0;
    while i < names.len()
        invariant
            i <= names.len(),
            bound@ == old(bound)@ + names@.take(i as int),
        decreases names.len() - i,
    {
        bound.push(names[i].clone());
        proof {
            assert(names@.take(i + 1) =~= names@.take(i as int).push(names@[i as int]));
        }
        i = i + 1;
    }
    proof {
        assert(names@.take(i as int) =~= names@);
    }
}

fn transform_lambda<F: Fn(&String, &Position) -> Expression>(
    lambda: &Lambda<Expression>,
    transform: &F,
    bound: &mut Vec<String>,
) -> (transformed: Lambda<Expression>)
    requires
        forall|name: &String, position: &Position| transform.requires((name, position)),
    ensures
        substituted_lambda(*lambda, transformed, old(bound)@, replaced_by(*transform)),
        final(bound)@ == old(bound)@,
    decreases lambda,
{
    let length = bound.len();
    let mut i: usize = 0;
    while i < lambda.arguments.len()
        invariant
            i <= lambda.arguments.len(),
            length == old(bound)@.len(),
            bound@ == old(bound)@ + argument_names(*lambda).take(i as int),
        decreases lambda.arguments.len() - i,
    {
        bound.push(lambda.arguments[i].name.clone());
        proof {
            assert(argument_names(*lambda).take(i + 1) =~= argument_names(*lambda).take(
                i as int,
            ).push(lambda.arguments@[i as int].name));
        }
        i = i + 1;
    }
    proof {
        assert(argument_names(*lambda).take(i as int) =~= argument_names(*lambda));
    }
    let body = transform_expression(&lambda.body, transform, bound);
    bound.truncate(length);
    proof {
        assert(bound@ =~= old(bound)@);
    }
    Lambda {
        arguments: copy_arguments(&lambda.arguments),
        result_type: clone_type(&lambda.result_type),
        body: Box::new(body),
        position: lambda.position.copy(),
    }
}

fn transform_expressions<F: Fn(&String, &Position) -> Expression>(
    expressions: &Vec<Expression>,
    transform: &F,
    bound: &mut Vec<String>,
) -> (transformed: Vec<Expression>)
    requires
        forall|name: &String, position: &Position| transform.requires((name, position)),
    ensures
        transformed@.len() == expressions@.len(),
        forall|i: int|
            0 <= i < expressions@.len() ==> substituted(
                #[trigger] expressions@[i],
                transformed@[i],
                old(bound)@,
                replaced_by(*transform),
            ),
        final(bound)@ == old(bound)@,
    decreases expressions,
{
    let mut transformed: Vec<Expression> = Vec::new();
    let mut i: usize = 0;
    while i < expressions.len()
        invariant
            i <= expressions.len(),
            bound@ == old(bound)@,
            forall|name: &String, position: &Position| transform.requires((name, position)),
            transformed@.len() == i,
            forall|k: int|
                0 <= k < i ==> substituted(
                    #[trigger] expressions@[k],
                    transformed@[k],
                    old(bound)@,
                    replaced_by(*transform),
                ),
        decreases expressions.len() - i,
    {
        proof {
            assert(decreases_to!(expressions => expressions@[i as int]));
        }
        transformed.push(transform_expression(&expressions[i], transform, bound));
        i = i + 1;
    }
    transformed
}

fn transform_fields<F: Fn(&String, &Position) -> Expression>(
    fields: &Vec<RecordFieldValue<Expression>>,
    transform: &F,
    bound: &mut Vec<String>,
) -> (transformed: Vec<RecordFieldValue<Expression>>)
    requires
        forall|name: &String, position: &Position| transform.requires((name, position)),
    ensures
        substituted_fields(fields@, transformed@, old(bound)@, replaced_by(*transform)),
        final(bound)@ == old(bound)@,
    decreases fields,
{
    let mut transformed: Vec<RecordFieldValue<Expression>> = Vec::new();
    let mut i: usize = 0;
    while i < fields.len()
        invariant
            i <= fields.len(),
            bound@ == old(bound)@,
            forall|name: &String, position: &Position| transform.requires((name, position)),
            transformed@.len() == i,
            forall|k: int|
                0 <= k < i ==> (#[trigger] fields@[k]).name@ == transformed@[k].name@ && substituted(
                    fields@[k].expression,
                    transformed@[k].expression,
                    old(bound)@,
                    replaced_by(*transform),
                ) && fields@[k].position@ == transformed@[k].position@,
        decreases fields.len() - i,
    {
        let field = &fields[i];
        proof {
            assert(decreases_to!(fields => fields@[i as int]));
            assert(decreases_to!(fields@[i as int] => fields@[i as int].expression));
        }
        transformed.push(
            RecordFieldValue {
                name: field.name.clone(),
                expression: transform_expression(&field.expression, transform, bound),
                position: field.position.copy(),
            },
        );
        i = i + 1;
    }
    transformed
}

fn transform_operation<F: Fn(&String, &Position) -> Expression>(
    operation: &Operation<Expression>,
    transform: &F,
    bound: &mut Vec<String>,
) -> (transformed: Operation<Expression>)
    requires
        forall|name: &String, position: &Position| transform.requires((name, position)),
    ensures
        substituted_operation(*operation, transformed, old(bound)@, replaced_by(*transform)),
        final(bound)@ == old(bound)@,
    decreases operation,
{
    match operation {
        Operation::Addition { type_, lhs, rhs, position } => Operation::Addition {
            type_: copy_option_type(type_),
            lhs: Box::new(transform_expression(lhs, transform, bound)),
            rhs: Box::new(transform_expression(rhs, transform, bound)),
            position: position.copy(),
        },
        Operation::Arithmetic { operator, lhs, rhs, position } => Operation::Arithmetic {
            operator: *operator,
            lhs: Box::new(transform_expression(lhs, transform, bound)),
            rhs: Box::new(transform_expression(rhs, transform, bound)),
            position: position.copy(),
        },
        Operation::Boolean { operator, lhs, rhs, position } => Operation::Boolean {
            operator: *operator,
            lhs: Box::new(transform_expression(lhs, transform, bound)),
            rhs: Box::new(transform_expression(rhs, transform, bound)),
            position: position.copy(),
        },
        Operation::Equality { type_, operator, lhs, rhs, position } => Operation::Equality {
            type_: copy_option_type(type_),
            operator: *operator,
            lhs: Box::new(transform_expression(lhs, transform, bound)),
            rhs: Box::new(transform_expression(rhs, transform, bound)),
            position: position.copy(),
        },
        Operation::Not { expression, position } => Operation::Not {
            expression: Box::new(transform_expression(expression, transform, bound)),
            position: position.copy(),
        },
        Operation::Order { operator, lhs, rhs, position } => Operation::Order {
            operator: *operator,
            lhs: Box::new(transform_expression(lhs, transform, bound)),
            rhs: Box::new(transform_expression(rhs, transform, bound)),
            position: position.copy(),
        },
        Operation::Try { type_, expression, position } => Operation::Try {
            type_: copy_option_type(type_),
            expression: Box::new(transform_expression(expression, transform, bound)),
            position: position.copy(),
        },
    }
}

fn transform_branches<F: Fn(&String, &Position) -> Expression>(
    branches: &Vec<ListComprehensionBranch<Expression>>,
    transform: &F,
    bound: &mut Vec<String>,
) -> (transformed: Vec<ListComprehensionBranch<Expression>>)
    requires
        forall|name: &String, position: &Position| transform.requires((name, position)),
    ensures
        transformed@.len() == branches@.len(),
        forall|i: int|
            0 <= i < branches@.len() ==> substituted_branch(
                #[trigger] branches@[i],
                transformed@[i],
                old(bound)@ + branch_names(branches@, i),
                replaced_by(*transform),
            ),
        final(bound)@ == old(bound)@ + branch_names(branches@, branches@.len() as int),
    decreases branches,
{
    let mut transformed: Vec<ListComprehensionBranch<Expression>> = Vec::new();
    let mut i: usize = 0;
    proof {
        assert(old(bound)@ + branch_names(branches@, 0) =~= old(bound)@);
    }
    while i < branches.len()
        invariant
            i <= branches.len(),
            bound@ == old(bound)@ + branch_names(branches@, i as int),
            forall|name: &String, position: &Position| transform.requires((name, position)),
            transformed@.len() == i,
            forall|k: int|
                0 <= k < i ==> substituted_branch(
                    #[trigger] branches@[k],
                    transformed@[k],
                    old(bound)@ + branch_names(branches@, k),
                    replaced_by(*transform),
                ),
        decreases branches.len() - i,
    {
        let branch = &branches[i];
        proof {
            assert(decreases_to!(branches => branches@[i as int]));
        }
        let ghost scope = bound@;
        proof {
            assert(decreases_to!(branches@[i as int] => branches@[i as int].iteratees));
        }
        let iteratees = transform_iteratees(&branch.iteratees, transform, bound);
        push_names(bound, &branch.names);
        proof {
            assert(branch_names(branches@, i + 1) == branch_names(branches@, i as int)
                + branches@[i as int].names@);
            assert(bound@ =~= scope + branch.names@);
            assert(old(bound)@ + branch_names(branches@, i + 1) =~= scope + branch.names@);
        }
        let condition = match &branch.condition {
            Some(condition) => {
                proof {
                    assert(decreases_to!(branches@[i as int] => branches@[i as int].condition));
                    assert(decreases_to!(branches@[i as int].condition => branches@[i as int].condition->0));
                }
                Some(transform_expression(condition, transform, bound))
            },
            None => None,
        };
        transformed.push(
            ListComprehensionBranch {
                names: copy_strings(&branch.names),
                iteratees,
                condition,
                position: branch.position.copy(),
            },
        );
        i = i + 1;
    }
    transformed
}

/// Replaces the variables of an expression that `bound` does not shadow.
pub fn transform_expression<F: Fn(&String, &Position) -> Expression>(
    expression: &Expression,
    transform: &F,
    bound: &mut Vec<String>,
) -> (transformed: Expression)
    requires
        forall|name: &String, position: &Position| transform.requires((name, position)),
    ensures
        substituted(*expression, transformed, old(bound)@, replaced_by(*transform)),
        final(bound)@ == old(bound)@,
    decreases expression,
{
    let length = bound.len();
    match expression {
        Expression::Boolean { value, position } => Expression::Boolean {
            value: *value,
            position: position.copy(),
        },
        Expression::BuiltInFunction { name, position } => Expression::BuiltInFunction {
            name: *name,
            position: position.copy(),
        },
        Expression::Call { function_type, function, arguments, position } => Expression::Call {
            function_type: copy_option_type(function_type),
            function: Box::new(transform_expression(function, transform, bound)),
            arguments: transform_expressions(arguments, transform, bound),
            position: position.copy(),
        },
        Expression::If { condition, then, else_, position } => Expression::If {
            condition: Box::new(transform_expression(condition, transform, bound)),
            then: Box::new(transform_expression(then, transform, bound)),
            else_: Box::new(transform_expression(else_, transform, bound)),
            position: position.copy(),
        },
        Expression::IfList { type_, list, first_name, rest_name, then, else_, position } => {
            let list = transform_expression(list, transform, bound);
            bound.push(first_name.clone());
            bound.push(rest_name.clone());
            let then = transform_expression(then, transform, bound);
            bound.truncate(length);
            proof {
                assert(bound@ =~= old(bound)@);
            }
            Expression::IfList {
                type_: copy_option_type(type_),
                list: Box::new(list),
                first_name: first_name.clone(),
                rest_name: rest_name.clone(),
                then: Box::new(then),
                else_: Box::new(transform_expression(else_, transform, bound)),
                position: position.copy(),
            }
        },
        Expression::IfMap { key_type, value_type, name, map, key, then, else_, position } => {
            let map = transform_expression(map, transform, bound);
            let key = transform_expression(key, transform, bound);
            bound.push(name.clone());
            let then = transform_expression(then, transform, bound);
            bound.truncate(length);
            proof {
                assert(bound@ =~= old(bound)@);
            }
            Expression::IfMap {
                key_type: copy_option_type(key_type),
                value_type: copy_option_type(value_type),
                name: name.clone(),
                map: Box::new(map),
                key: Box::new(key),
                then: Box::new(then),
                else_: Box::new(transform_expression(else_, transform, bound)),
                position: position.copy(),
            }
        },
        Expression::IfType { name, argument, branches, else_, position } => {
            let argument = transform_expression(argument, transform, bound);
            bound.push(name.clone());
            let transformed = transform_if_branches(branches, transform, bound);
            let else_ = match else_ {
                Some(branch) => Some(
                    Box::new(
                        ElseBranch {
                            type_: copy_option_type(&branch.type_),
                            expression: transform_expression(&branch.expression, transform, bound),
                            position: branch.position.copy(),
                        },
                    ),
                ),
                None => None,
            };
            bound.truncate(length);
            proof {
                assert(bound@ =~= old(bound)@);
            }
            Expression::IfType {
                name: name.clone(),
                argument: Box::new(argument),
                branches: transformed,
                else_,
                position: position.copy(),
            }
        },
        Expression::Lambda(lambda) => Expression::Lambda(transform_lambda(lambda, transform, bound)),
        Expression::Let { name, type_, bound_expression, expression: body, position } => {
            let bound_expression = transform_expression(bound_expression, transform, bound);
            match name {
                Some(name) => bound.push(name.clone()),
                None => {},
            }
            let body = transform_expression(body, transform, bound);
            bound.truncate(length);
            proof {
                assert(bound@ =~= old(bound)@);
            }
            Expression::Let {
                name: match name {
                    Some(name) => Some(name.clone()),
                    None => None,
                },
                type_: copy_option_type(type_),
                bound_expression: Box::new(bound_expression),
                expression: Box::new(body),
                position: position.copy(),
            }
        },
        Expression::List { type_, elements, position } => {
            let transformed = transform_list_elements(elements, transform, bound);
            Expression::List {
                type_: clone_type(type_),
                elements: transformed,
                position: position.copy(),
            }
        },
        Expression::ListComprehension { type_, element, branches, position } => {
            let branches = transform_branches(branches, transform, bound);
            let element = transform_expression(element, transform, bound);
            bound.truncate(length);
            proof {
                assert(bound@ =~= old(bound)@);
            }
            Expression::ListComprehension {
                type_: clone_type(type_),
                element: Box::new(element),
                branches,
                position: position.copy(),
            }
        },
        Expression::Mapping { key_type, value_type, elements, position } => {
            let transformed = transform_map_elements(elements, transform, bound);
            Expression::Mapping {
                key_type: clone_type(key_type),
                value_type: clone_type(value_type),
                elements: transformed,
                position: position.copy(),
            }
        },
        Expression::Unit { position } => Expression::Unit { position: position.copy() },
        Expression::Number { value, position } => Expression::Number {
            value: *value,
            position: position.copy(),
        },
        Expression::Operation(operation) => Expression::Operation(
            transform_operation(operation, transform, bound),
        ),
        Expression::RecordConstruction { type_, fields, position } => Expression::RecordConstruction {
            type_: clone_type(type_),
            fields: transform_fields(fields, transform, bound),
            position: position.copy(),
        },
        Expression::RecordDeconstruction { type_, record, field_name, position } => Expression::RecordDeconstruction {
            type_: copy_option_type(type_),
            record: Box::new(transform_expression(record, transform, bound)),
            field_name: field_name.clone(),
            position: position.copy(),
        },
        Expression::RecordUpdate { type_, record, fields, position } => Expression::RecordUpdate {
            type_: clone_type(type_),
            record: Box::new(transform_expression(record, transform, bound)),
            fields: transform_fields(fields, transform, bound),
            position: position.copy(),
        },
        Expression::String { value, position } => Expression::String {
            value: copy_bytes(value),
            position: position.copy(),
        },
        Expression::Thunk { type_, expression: body, position } => Expression::Thunk {
            type_: copy_option_type(type_),
            expression: Box::new(transform_expression(body, transform, bound)),
            position: position.copy(),
        },
        Expression::TypeCoercion { from, to, argument, position } => Expression::TypeCoercion {
            from: clone_type(from),
            to: clone_type(to),
            argument: Box::new(transform_expression(argument, transform, bound)),
            position: position.copy(),
        },
        Expression::Variable { name, position } => {
            if is_bound_name(bound, name) {
                Expression::Variable { name: name.clone(), position: position.copy() }
            } else {
                transform(name, position)
            }
        },
    }
}

fn transform_iteratees<F: Fn(&String, &Position) -> Expression>(
    iteratees: &Vec<ListComprehensionIteratee<Expression>>,
    transform: &F,
    bound: &mut Vec<String>,
) -> (transformed: Vec<ListComprehensionIteratee<Expression>>)
    requires
        forall|name: &String, position: &Position| transform.requires((name, position)),
    ensures
        transformed@.len() == iteratees@.len(),
        forall|k: int|
            0 <= k < iteratees@.len() ==> same_option_type(
                #[trigger] iteratees@[k].type_,
                transformed@[k].type_,
            ) && substituted(
                iteratees@[k].expression,
                transformed@[k].expression,
                old(bound)@,
                replaced_by(*transform),
            ) && iteratees@[k].position@ == transformed@[k].position@,
        final(bound)@ == old(bound)@,
    decreases iteratees,
{
    let mut transformed: Vec<ListComprehensionIteratee<Expression>> = Vec::new();
    let mut j: usize = 0;
    while j < iteratees.len()
        invariant
            j <= iteratees.len(),
            bound@ == old(bound)@,
            forall|name: &String, position: &Position| transform.requires((name, position)),
            transformed@.len() == j,
            forall|k: int|
                0 <= k < j ==> same_option_type(
                    #[trigger] iteratees@[k].type_,
                    transformed@[k].type_,
                ) && substituted(
                    iteratees@[k].expression,
                    transformed@[k].expression,
                    old(bound)@,
                    replaced_by(*transform),
                ) && iteratees@[k].position@ == transformed@[k].position@,
        decreases iteratees.len() - j,
    {
        let iteratee = &iteratees[j];
        proof {
            assert(decreases_to!(iteratees => iteratees@[j as int]));
            assert(decreases_to!(iteratees@[j as int] => iteratees@[j as int].expression));
        }
        transformed.push(
            ListComprehensionIteratee {
                type_: copy_option_type(&iteratee.type_),
                expression: transform_expression(&iteratee.expression, transform, bound),
                position: iteratee.position.copy(),
            },
        );
        j = j + 1;
    }
    transformed
}

fn transform_if_branches<F: Fn(&String, &Position) -> Expression>(
    branches: &Vec<IfTypeBranch<Expression>>,
    transform: &F,
    bound: &mut Vec<String>,
) -> (transformed: Vec<IfTypeBranch<Expression>>)
    requires
        forall|name: &String, position: &Position| transform.requires((name, position)),
    ensures
        transformed@.len() == branches@.len(),
        forall|k: int|
            0 <= k < branches@.len() ==> (#[trigger] branches@[k]).type_@ == transformed@[k].type_@
                && substituted(
                branches@[k].expression,
                transformed@[k].expression,
                old(bound)@,
                replaced_by(*transform),
            ),
        final(bound)@ == old(bound)@,
    decreases branches,
{
    let mut transformed: Vec<IfTypeBranch<Expression>> = Vec::new();
    let mut i: usize = 0;
    while i < branches.len()
        invariant
            i <= branches.len(),
            bound@ == old(bound)@,
            forall|name: &String, position: &Position| transform.requires((name, position)),
            transformed@.len() == i,
            forall|k: int|
                0 <= k < i ==> (#[trigger] branches@[k]).type_@ == transformed@[k].type_@
                    && substituted(
                    branches@[k].expression,
                    transformed@[k].expression,
                    old(bound)@,
                    replaced_by(*transform),
                ),
        decreases branches.len() - i,
    {
        proof {
            assert(decreases_to!(branches => branches@[i as int]));
            assert(decreases_to!(branches@[i as int] => branches@[i as int].expression));
        }
        transformed.push(
            IfTypeBranch {
                type_: clone_type(&branches[i].type_),
                expression: transform_expression(&branches[i].expression, transform, bound),
            },
        );
        i = i + 1;
    }
    transformed
}

fn transform_list_elements<F: Fn(&String, &Position) -> Expression>(
    elements: &Vec<ListElement<Expression>>,
    transform: &F,
    bound: &mut Vec<String>,
) -> (transformed: Vec<ListElement<Expression>>)
    requires
        forall|name: &String, position: &Position| transform.requires((name, position)),
    ensures
        transformed@.len() == elements@.len(),
        forall|k: int|
            0 <= k < elements@.len() ==> match (#[trigger] elements@[k], transformed@[k]) {
                (ListElement::Multiple(x), ListElement::Multiple(y)) => substituted(
                    x,
                    y,
                    old(bound)@,
                    replaced_by(*transform),
                ),
                (ListElement::Single(x), ListElement::Single(y)) => substituted(
                    x,
                    y,
                    old(bound)@,
                    replaced_by(*transform),
                ),
                _ => false,
            },
        final(bound)@ == old(bound)@,
    decreases elements,
{
    let mut transformed: Vec<ListElement<Expression>> = Vec::new();
    let mut i: usize = 0;
    while i < elements.len()
        invariant
            i <= elements.len(),
            bound@ == old(bound)@,
            forall|name: &String, position: &Position| transform.requires((name, position)),
            transformed@.len() == i,
            forall|k: int|
                0 <= k < i ==> match (#[trigger] elements@[k], transformed@[k]) {
                    (ListElement::Multiple(x), ListElement::Multiple(y)) => substituted(
                        x,
                        y,
                        old(bound)@,
                        replaced_by(*transform),
                    ),
                    (ListElement::Single(x), ListElement::Single(y)) => substituted(
                        x,
                        y,
                        old(bound)@,
                        replaced_by(*transform),
                    ),
                    _ => false,
                },
        decreases elements.len() - i,
    {
        proof {
            assert(decreases_to!(elements => elements@[i as int]));
        }
        let element = match &elements[i] {
            ListElement::Multiple(x) => {
                proof {
                    assert(decreases_to!(elements@[i as int] => elements@[i as int]->Multiple_0));
                }
                ListElement::Multiple(transform_expression(x, transform, bound))
            },
            ListElement::Single(x) => {
                proof {
                    assert(decreases_to!(elements@[i as int] => elements@[i as int]->Single_0));
                }
                ListElement::Single(transform_expression(x, transform, bound))
            },
        };
        transformed.push(element);
        i = i + 1;
    }
    transformed
}

fn transform_map_elements<F: Fn(&String, &Position) -> Expression>(
    elements: &Vec<MapElement<Expression>>,
    transform: &F,
    bound: &mut Vec<String>,
) -> (transformed: Vec<MapElement<Expression>>)
    requires
        forall|name: &String, position: &Position| transform.requires((name, position)),
    ensures
        transformed@.len() == elements@.len(),
        forall|k: int|
            0 <= k < elements@.len() ==> match (#[trigger] elements@[k], transformed@[k]) {
                (MapElement::Single(x), MapElement::Single(y)) => substituted(
                    x.key,
                    y.key,
                    old(bound)@,
                    replaced_by(*transform),
                ) && substituted(x.value, y.value, old(bound)@, replaced_by(*transform))
                    && x.position@ == y.position@,
                (MapElement::Multiple(x), MapElement::Multiple(y)) => substituted(
                    x,
                    y,
                    old(bound)@,
                    replaced_by(*transform),
                ),
                _ => false,
            },
        final(bound)@ == old(bound)@,
    decreases elements,
{
    let mut transformed: Vec<MapElement<Expression>> = Vec::new();
    let mut i: usize = 0;
    while i < elements.len()
        invariant
            i <= elements.len(),
            bound@ == old(bound)@,
            forall|name: &String, position: &Position| transform.requires((name, position)),
            transformed@.len() == i,
            forall|k: int|
                0 <= k < i ==> match (#[trigger] elements@[k], transformed@[k]) {
                    (MapElement::Single(x), MapElement::Single(y)) => substituted(
                        x.key,
                        y.key,
                        old(bound)@,
                        replaced_by(*transform),
                    ) && substituted(x.value, y.value, old(bound)@, replaced_by(*transform))
                        && x.position@ == y.position@,
                    (MapElement::Multiple(x), MapElement::Multiple(y)) => substituted(
                        x,
                        y,
                        old(bound)@,
                        replaced_by(*transform),
                    ),
                    _ => false,
                },
        decreases elements.len() - i,
    {
        proof {
            assert(decreases_to!(elements => elements@[i as int]));
        }
        let element = match &elements[i] {
            MapElement::Single(entry) => {
                proof {
                    assert(decreases_to!(elements@[i as int] => elements@[i as int]->Single_0));
                    assert(decreases_to!(elements@[i as int]->Single_0 => elements@[i as int]->Single_0.key));
                    assert(decreases_to!(elements@[i as int]->Single_0 => elements@[i as int]->Single_0.value));
                }
                MapElement::Single(
                    MapEntry {
                        key: transform_expression(&entry.key, transform, bound),
                        value: transform_expression(&entry.value, transform, bound),
                        position: entry.position.copy(),
                    },
                )
            },
            MapElement::Multiple(x) => {
                proof {
                    assert(decreases_to!(elements@[i as int] => elements@[i as int]->Multiple_0));
                }
                MapElement::Multiple(transform_expression(x, transform, bound))
            },
        };
        transformed.push(element);
        i = i + 1;
    }
    transformed
}

} // verus!
