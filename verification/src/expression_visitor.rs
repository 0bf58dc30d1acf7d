//! The expressions of a module's function definitions, each before the
//! expressions inside it.
use crate::ir::{
    Expression,
    FunctionDefinition,
    IfTypeBranch,
    Lambda,
    ListComprehensionBranch,
    ListComprehensionIteratee,
    ListElement,
    MapElement,
    Module,
    Operation,
    RecordFieldValue,
};
use vstd::prelude::*;

verus! {

/// An expression, then the expressions inside it, in the order in which
/// they are written.
pub open spec fn expressions_in(expression: Expression) -> Seq<Expression>
    decreases expression, 0int,
{
    seq![expression] + match expression {
        Expression::Call { function, arguments, .. } => expressions_in(*function) + expressions_in_all(
            arguments,
            arguments@.len() as int,
        ),
        Expression::If { condition, then, else_, .. } => expressions_in(*condition)
            + expressions_in(*then) + expressions_in(*else_),
        Expression::IfList { list, then, else_, .. } => expressions_in(*list) + expressions_in(*then)
            + expressions_in(*else_),
        Expression::IfMap { map, key, then, else_, .. } => expressions_in(*map) + expressions_in(
            *key,
        ) + expressions_in(*then) + expressions_in(*else_),
        Expression::IfType { argument, branches, else_, .. } => expressions_in(*argument)
            + expressions_in_if_branches(branches, branches@.len() as int) + match else_ {
            Some(branch) => expressions_in(branch.expression),
            None => Seq::empty(),
        },
        Expression::Lambda(lambda) => expressions_in(*lambda.body),
        Expression::Let { bound_expression, expression, .. } => expressions_in(*bound_expression)
            + expressions_in(*expression),
        Expression::List { elements, .. } => expressions_in_list_elements(
            elements,
            elements@.len() as int,
        ),
        Expression::ListComprehension { element, branches, .. } => expressions_in(*element)
            + expressions_in_branches(branches, branches@.len() as int),
        Expression::Mapping { elements, .. } => expressions_in_map_elements(
            elements,
            elements@.len() as int,
        ),
        Expression::Operation(operation) => match operation {
            Operation::Addition { lhs, rhs, .. } => expressions_in(*lhs) + expressions_in(*rhs),
            Operation::Arithmetic { lhs, rhs, .. } => expressions_in(*lhs) + expressions_in(*rhs),
            Operation::Boolean { lhs, rhs, .. } => expressions_in(*lhs) + expressions_in(*rhs),
            Operation::Equality { lhs, rhs, .. } => expressions_in(*lhs) + expressions_in(*rhs),
            Operation::Not { expression, .. } => expressions_in(*expression),
            Operation::Order { lhs, rhs, .. } => expressions_in(*lhs) + expressions_in(*rhs),
            Operation::Try { expression, .. } => expressions_in(*expression),
        },
        Expression::RecordConstruction { fields, .. } => expressions_in_fields(
            fields,
            fields@.len() as int,
        ),
        Expression::RecordDeconstruction { record, .. } => expressions_in(*record),
        Expression::RecordUpdate { record, fields, .. } => expressions_in(*record)
            + expressions_in_fields(fields, fields@.len() as int),
        Expression::Thunk { expression, .. } => expressions_in(*expression),
        Expression::TypeCoercion { argument, .. } => expressions_in(*argument),
        Expression::Boolean { .. }
        | Expression::BuiltInFunction { .. }
        | Expression::Unit { .. }
        | Expression::Number { .. }
        | Expression::String { .. }
        | Expression::Variable { .. } => Seq::empty(),
    }
}

/// The expressions in the first `n` of some expressions.
pub open spec fn expressions_in_all(expressions: Vec<Expression>, n: int) -> Seq<Expression>
    decreases expressions, n,
{
    if n <= 0 || n > expressions@.len() {
        Seq::empty()
    } else {
        expressions_in_all(expressions, n - 1) + expressions_in(expressions@[n - 1])
    }
}

/// The expressions in the first `n` branches of an if-type expression.
pub open spec fn expressions_in_if_branches(branches: Vec<IfTypeBranch<Expression>>, n: int) -> Seq<
    Expression,
>
    decreases branches, n,
{
    if n <= 0 || n > branches@.len() {
        Seq::empty()
    } else {
        expressions_in_if_branches(branches, n - 1) + expressions_in(branches@[n - 1].expression)
    }
}

/// The expressions in the first `n` elements of a list literal.
pub open spec fn expressions_in_list_elements(elements: Vec<ListElement<Expression>>, n: int) -> Seq<
    Expression,
>
    decreases elements, n,
{
    if n <= 0 || n > elements@.len() {
        Seq::empty()
    } else {
        expressions_in_list_elements(elements, n - 1) + match elements@[n - 1] {
            ListElement::Multiple(expression) => expressions_in(expression),
            ListElement::Single(expression) => expressions_in(expression),
        }
    }
}

/// The expressions in the first `n` elements of a map literal.
pub open spec fn expressions_in_map_elements(elements: Vec<MapElement<Expression>>, n: int) -> Seq<
    Expression,
>
    decreases elements, n,
{
    if n <= 0 || n > elements@.len() {
        Seq::empty()
    } else {
        expressions_in_map_elements(elements, n - 1) + match elements@[n - 1] {
            MapElement::Single(entry) => expressions_in(entry.key) + expressions_in(entry.value),
            MapElement::Multiple(expression) => expressions_in(expression),
        }
    }
}

/// The expressions in the first `n` fields of a record construction or
/// update.
pub open spec fn expressions_in_fields(fields: Vec<RecordFieldValue<Expression>>, n: int) -> Seq<
    Expression,
>
    decreases fields, n,
{
    if n <= 0 || n > fields@.len() {
        Seq::empty()
    } else {
        expressions_in_fields(fields, n - 1) + expressions_in(fields@[n - 1].expression)
    }
}

/// The expressions in the first `n` iteratees of a list comprehension
/// branch.
pub open spec fn expressions_in_iteratees(
    iteratees: Vec<ListComprehensionIteratee<Expression>>,
    n: int,
) -> Seq<Expression>
    decreases iteratees, n,
{
    if n <= 0 || n > iteratees@.len() {
        Seq::empty()
    } else {
        expressions_in_iteratees(iteratees, n - 1) + expressions_in(iteratees@[n - 1].expression)
    }
}

/// The expressions in the first `n` branches of a list comprehension: the
/// iteratees of each, then its condition.
pub open spec fn expressions_in_branches(branches: Vec<ListComprehensionBranch<Expression>>, n: int) -> Seq<
    Expression,
>
    decreases branches, n,
{
    if n <= 0 || n > branches@.len() {
        Seq::empty()
    } else {
        expressions_in_branches(branches, n - 1) + expressions_in_iteratees(
            branches@[n - 1].iteratees,
            branches@[n - 1].iteratees@.len() as int,
        ) + match branches@[n - 1].condition {
            Some(condition) => expressions_in(condition),
            None => Seq::empty(),
        }
    }
}

/// The expressions in the bodies of some function definitions, one
/// definition after another.
pub open spec fn expressions_in_definitions(definitions: Seq<FunctionDefinition>) -> Seq<Expression>
    decreases definitions.len(),
{
    if definitions.len() == 0 {
        Seq::empty()
    } else {
        expressions_in_definitions(definitions.drop_last()) + expressions_in(
            *definitions.last().lambda.body,
        )
    }
}

/// The expressions that references refer to.
pub open spec fn derefs(expressions: Seq<&Expression>) -> Seq<Expression> {
    expressions.map_values(|expression: &Expression| *expression)
}

/// The expressions of the function definitions of a module, each before
/// the expressions inside it.
pub fn visit<'a>(module: &'a Module) -> (visited: Vec<&'a Expression>)
    ensures
        derefs(visited@) == expressions_in_definitions(module.function_definitions@),
{
    let mut visited: Vec<&'a Expression> = Vec::new();
    let mut i: usize = 0;
    while i < module.function_definitions.len()
        invariant
            i <= module.function_definitions.len(),
            derefs(visited@) == expressions_in_definitions(
                module.function_definitions@.take(i as int),
            ),
        decreases module.function_definitions.len() - i,
    {
        visit_lambda(&module.function_definitions[i].lambda, &mut visited);
        proof {
            assert(module.function_definitions@.take(i + 1).drop_last()
                =~= module.function_definitions@.take(i as int));
        }
        i = i + 1;
    }
    proof {
        assert(module.function_definitions@.take(i as int) =~= module.function_definitions@);
    }
    visited
}

fn visit_lambda<'a>(lambda: &'a Lambda<Expression>, visited: &mut Vec<&'a Expression>)
    ensures
        derefs(final(visited)@) == derefs(old(visited)@) + expressions_in(*lambda.body),
    decreases lambda,
{
    visit_expression(&lambda.body, visited);
}

fn push_expression<'a>(expression: &'a Expression, visited: &mut Vec<&'a Expression>)
    ensures
        derefs(final(visited)@) == derefs(old(visited)@) + seq![*expression],
{
    visited.push(expression);
    proof {
        assert(derefs(visited@) =~= derefs(old(visited)@) + seq![*expression]);
    }
}

fn visit_expression<'a>(expression: &'a Expression, visited: &mut Vec<&'a Expression>)
    ensures
        derefs(final(visited)@) == derefs(old(visited)@) + expressions_in(*expression),
    decreases expression,
{
    push_expression(expression, visited);
    let ghost start = derefs(visited@);
    match expression {
        Expression::Call { function, arguments, .. } => {
            visit_expression(function, visited);
            visit_all(arguments, visited);
        },
        Expression::If { condition, then, else_, .. } => {
            visit_expression(condition, visited);
            visit_expression(then, visited);
            visit_expression(else_, visited);
        },
        Expression::IfList { list, then, else_, .. } => {
            visit_expression(list, visited);
            visit_expression(then, visited);
            visit_expression(else_, visited);
        },
        Expression::IfMap { map, key, then, else_, .. } => {
            visit_expression(map, visited);
            visit_expression(key, visited);
            visit_expression(then, visited);
            visit_expression(else_, visited);
        },
        Expression::IfType { argument, branches, else_, .. } => {
            visit_expression(argument, visited);
            visit_if_branches(branches, visited);
            match else_ {
                Some(branch) => visit_expression(&branch.expression, visited),
                None => {},
            }
        },
        Expression::Lambda(lambda) => visit_lambda(lambda, visited),
        Expression::Let { bound_expression, expression: body, .. } => {
            visit_expression(bound_expression, visited);
            visit_expression(body, visited);
        },
        Expression::List { elements, .. } => visit_list_elements(elements, visited),
        Expression::ListComprehension { element, branches, .. } => {
            visit_expression(element, visited);
            visit_branches(branches, visited);
        },
        Expression::Mapping { elements, .. } => visit_map_elements(elements, visited),
        Expression::Operation(operation) => visit_operation(operation, visited),
        Expression::RecordConstruction { fields, .. } => visit_fields(fields, visited),
        Expression::RecordDeconstruction { record, .. } => visit_expression(record, visited),
        Expression::RecordUpdate { record, fields, .. } => {
            visit_expression(record, visited);
            visit_fields(fields, visited);
        },
        Expression::Thunk { expression: body, .. } => visit_expression(body, visited),
        Expression::TypeCoercion { argument, .. } => visit_expression(argument, visited),
        _ => {},
    }
    proof {
        assert(derefs(visited@) =~= derefs(old(visited)@) + expressions_in(*expression));
    }
}

fn visit_operation<'a>(operation: &'a Operation<Expression>, visited: &mut Vec<&'a Expression>)
    ensures
        derefs(final(visited)@) == derefs(old(visited)@) + match *operation {
            Operation::Addition { lhs, rhs, .. } => expressions_in(*lhs) + expressions_in(*rhs),
            Operation::Arithmetic { lhs, rhs, .. } => expressions_in(*lhs) + expressions_in(*rhs),
            Operation::Boolean { lhs, rhs, .. } => expressions_in(*lhs) + expressions_in(*rhs),
            Operation::Equality { lhs, rhs, .. } => expressions_in(*lhs) + expressions_in(*rhs),
            Operation::Not { expression, .. } => expressions_in(*expression),
            Operation::Order { lhs, rhs, .. } => expressions_in(*lhs) + expressions_in(*rhs),
            Operation::Try { expression, .. } => expressions_in(*expression),
        },
    decreases operation,
{
    match operation {
        Operation::Addition { lhs, rhs, .. } => {
            visit_expression(lhs, visited);
            visit_expression(rhs, visited);
        },
        Operation::Arithmetic { lhs, rhs, .. } => {
            visit_expression(lhs, visited);
            visit_expression(rhs, visited);
        },
        Operation::Boolean { lhs, rhs, .. } => {
            visit_expression(lhs, visited);
            visit_expression(rhs, visited);
        },
        Operation::Equality { lhs, rhs, .. } => {
            visit_expression(lhs, visited);
            visit_expression(rhs, visited);
        },
        Operation::Not { expression, .. } => visit_expression(expression, visited),
        Operation::Order { lhs, rhs, .. } => {
            visit_expression(lhs, visited);
            visit_expression(rhs, visited);
        },
        Operation::Try { expression, .. } => visit_expression(expression, visited),
    }
    proof {
        assert(derefs(visited@) =~= derefs(old(visited)@) + match *operation {
            Operation::Addition { lhs, rhs, .. } => expressions_in(*lhs) + expressions_in(*rhs),
            Operation::Arithmetic { lhs, rhs, .. } => expressions_in(*lhs) + expressions_in(*rhs),
            Operation::Boolean { lhs, rhs, .. } => expressions_in(*lhs) + expressions_in(*rhs),
            Operation::Equality { lhs, rhs, .. } => expressions_in(*lhs) + expressions_in(*rhs),
            Operation::Not { expression, .. } => expressions_in(*expression),
            Operation::Order { lhs, rhs, .. } => expressions_in(*lhs) + expressions_in(*rhs),
            Operation::Try { expression, .. } => expressions_in(*expression),
        });
    }
}

fn visit_all<'a>(expressions: &'a Vec<Expression>, visited: &mut Vec<&'a Expression>)
    ensures
        derefs(final(visited)@) == derefs(old(visited)@) + expressions_in_all(
            *expressions,
            expressions@.len() as int,
        ),
    decreases expressions,
{
    let mut i: usize = 0;
    while i < expressions.len()
        invariant
            i <= expressions.len(),
            derefs(visited@) == derefs(old(visited)@) + expressions_in_all(*expressions, i as int),
        decreases expressions.len() - i,
    {
        proof {
            assert(decreases_to!(expressions => expressions@[i as int]));
        }
        visit_expression(&expressions[i], visited);
        proof {
            assert(derefs(visited@) =~= derefs(old(visited)@) + expressions_in_all(
                *expressions,
                i + 1,
            ));
        }
        i = i + 1;
    }
}

fn visit_if_branches<'a>(branches: &'a Vec<IfTypeBranch<Expression>>, visited: &mut Vec<&'a Expression>)
    ensures
        derefs(final(visited)@) == derefs(old(visited)@) + expressions_in_if_branches(
            *branches,
            branches@.len() as int,
        ),
    decreases branches,
{
    let mut i: usize = 0;
    while i < branches.len()
        invariant
            i <= branches.len(),
            derefs(visited@) == derefs(old(visited)@) + expressions_in_if_branches(
                *branches,
                i as int,
            ),
        decreases branches.len() - i,
    {
        proof {
            assert(decreases_to!(branches => branches@[i as int]));
            assert(decreases_to!(branches@[i as int] => branches@[i as int].expression));
        }
        visit_expression(&branches[i].expression, visited);
        proof {
            assert(derefs(visited@) =~= derefs(old(visited)@) + expressions_in_if_branches(
                *branches,
                i + 1,
            ));
        }
        i = i + 1;
    }
}

fn visit_list_elements<'a>(
    elements: &'a Vec<ListElement<Expression>>,
    visited: &mut Vec<&'a Expression>,
)
    ensures
        derefs(final(visited)@) == derefs(old(visited)@) + expressions_in_list_elements(
            *elements,
            elements@.len() as int,
        ),
    decreases elements,
{
    let mut i: usize = 0;
    while i < elements.len()
        invariant
            i <= elements.len(),
            derefs(visited@) == derefs(old(visited)@) + expressions_in_list_elements(
                *elements,
                i as int,
            ),
        decreases elements.len() - i,
    {
        proof {
            assert(decreases_to!(elements => elements@[i as int]));
        }
        match &elements[i] {
            ListElement::Multiple(expression) => {
                proof {
                    assert(decreases_to!(elements@[i as int] => elements@[i as int]->Multiple_0));
                }
                visit_expression(expression, visited);
            },
            ListElement::Single(expression) => {
                proof {
                    assert(decreases_to!(elements@[i as int] => elements@[i as int]->Single_0));
                }
                visit_expression(expression, visited);
            },
        }
        proof {
            assert(derefs(visited@) =~= derefs(old(visited)@) + expressions_in_list_elements(
                *elements,
                i + 1,
            ));
        }
        i = i + 1;
    }
}

fn visit_map_elements<'a>(elements: &'a Vec<MapElement<Expression>>, visited: &mut Vec<&'a Expression>)
    ensures
        derefs(final(visited)@) == derefs(old(visited)@) + expressions_in_map_elements(
            *elements,
            elements@.len() as int,
        ),
    decreases elements,
{
    let mut i: usize = 0;
    while i < elements.len()
        invariant
            i <= elements.len(),
            derefs(visited@) == derefs(old(visited)@) + expressions_in_map_elements(
                *elements,
                i as int,
            ),
        decreases elements.len() - i,
    {
        proof {
            assert(decreases_to!(elements => elements@[i as int]));
        }
        match &elements[i] {
            MapElement::Single(entry) => {
                proof {
                    assert(decreases_to!(elements@[i as int] => elements@[i as int]->Single_0));
                    assert(decreases_to!(elements@[i as int]->Single_0 => elements@[i as int]->Single_0.key));
                    assert(decreases_to!(elements@[i as int]->Single_0 => elements@[i as int]->Single_0.value));
                }
                visit_expression(&entry.key, visited);
                visit_expression(&entry.value, visited);
            },
            MapElement::Multiple(expression) => {
                proof {
                    assert(decreases_to!(elements@[i as int] => elements@[i as int]->Multiple_0));
                }
                visit_expression(expression, visited);
            },
        }
        proof {
            assert(derefs(visited@) =~= derefs(old(visited)@) + expressions_in_map_elements(
                *elements,
                i + 1,
            ));
        }
        i = i + 1;
    }
}

fn visit_fields<'a>(fields: &'a Vec<RecordFieldValue<Expression>>, visited: &mut Vec<&'a Expression>)
    ensures
        derefs(final(visited)@) == derefs(old(visited)@) + expressions_in_fields(
            *fields,
            fields@.len() as int,
        ),
    decreases fields,
{
    let mut i: usize = 0;
    while i < fields.len()
        invariant
            i <= fields.len(),
            derefs(visited@) == derefs(old(visited)@) + expressions_in_fields(*fields, i as int),
        decreases fields.len() - i,
    {
        proof {
            assert(decreases_to!(fields => fields@[i as int]));
            assert(decreases_to!(fields@[i as int] => fields@[i as int].expression));
        }
        visit_expression(&fields[i].expression, visited);
        proof {
            assert(derefs(visited@) =~= derefs(old(visited)@) + expressions_in_fields(
                *fields,
                i + 1,
            ));
        }
        i = i + 1;
    }
}

fn visit_iteratees<'a>(
    iteratees: &'a Vec<ListComprehensionIteratee<Expression>>,
    visited: &mut Vec<&'a Expression>,
)
    ensures
        derefs(final(visited)@) == derefs(old(visited)@) + expressions_in_iteratees(
            *iteratees,
            iteratees@.len() as int,
        ),
    decreases iteratees,
{
    let mut i: usize = 0;
    while i < iteratees.len()
        invariant
            i <= iteratees.len(),
            derefs(visited@) == derefs(old(visited)@) + expressions_in_iteratees(
                *iteratees,
                i as int,
            ),
        decreases iteratees.len() - i,
    {
        proof {
            assert(decreases_to!(iteratees => iteratees@[i as int]));
            assert(decreases_to!(iteratees@[i as int] => iteratees@[i as int].expression));
        }
        visit_expression(&iteratees[i].expression, visited);
        proof {
            assert(derefs(visited@) =~= derefs(old(visited)@) + expressions_in_iteratees(
                *iteratees,
                i + 1,
            ));
        }
        i = i + 1;
    }
}

fn visit_branches<'a>(
    branches: &'a Vec<ListComprehensionBranch<Expression>>,
    visited: &mut Vec<&'a Expression>,
)
    ensures
        derefs(final(visited)@) == derefs(old(visited)@) + expressions_in_branches(
            *branches,
            branches@.len() as int,
        ),
    decreases branches,
{
    let mut i: usize = 0;
    while i < branches.len()
        invariant
            i <= branches.len(),
            derefs(visited@) == derefs(old(visited)@) + expressions_in_branches(
                *branches,
                i as int,
            ),
        decreases branches.len() - i,
    {
        let branch = &branches[i];
        proof {
            assert(decreases_to!(branches => branches@[i as int]));
            assert(decreases_to!(branches@[i as int] => branches@[i as int].iteratees));
        }
        visit_iteratees(&branch.iteratees, visited);
        match &branch.condition {
            Some(condition) => {
                proof {
                    assert(decreases_to!(branches@[i as int] => branches@[i as int].condition));
                    assert(decreases_to!(branches@[i as int].condition => branches@[i as int].condition->0));
                }
                visit_expression(condition, visited);
            },
            None => {},
        }
        proof {
            assert(derefs(visited@) =~= derefs(old(visited)@) + expressions_in_branches(
                *branches,
                i + 1,
            ));
        }
        i = i + 1;
    }
}

} // verus!
