//! The types written in a module, each before the types inside it.
use crate::ir::{
    Argument,
    Expression,
    ForeignDeclaration,
    FunctionDeclaration,
    FunctionDefinition,
    IfTypeBranch,
    Lambda,
    ListComprehensionBranch,
    ListComprehensionIteratee,
    ListElement,
    MapElement,
    Module,
    Operation,
    RecordFieldValue,
    TypeAlias,
    TypeDefinition,
};
use crate::types::{RecordField, Type};
use vstd::prelude::*;

verus! {

/// A type, then the types inside it: the result of a function type before
/// its arguments.
pub open spec fn types_in(type_: Type) -> Seq<Type>
    decreases type_, 0int,
{
    seq![type_] + match type_ {
        Type::Function { arguments, result, .. } => types_in(*result) + types_in_all(
            arguments,
            arguments@.len() as int,
        ),
        Type::List { element, .. } => types_in(*element),
        Type::Mapping { key, value, .. } => types_in(*key) + types_in(*value),
        Type::Union { lhs, rhs, .. } => types_in(*lhs) + types_in(*rhs),
        _ => Seq::empty(),
    }
}

/// The types in the first `n` of some types.
pub open spec fn types_in_all(types: Vec<Type>, n: int) -> Seq<Type>
    decreases types, n,
{
    if n <= 0 || n > types@.len() {
        Seq::empty()
    } else {
        types_in_all(types, n - 1) + types_in(types@[n - 1])
    }
}

/// The types inside a function type, without the function type itself.
pub open spec fn types_in_function_type(type_: Type) -> Seq<Type> {
    match type_ {
        Type::Function { arguments, result, .. } => types_in(*result) + types_in_all(
            arguments,
            arguments@.len() as int,
        ),
        _ => types_in(type_),
    }
}

/// The types in an optional type.
pub open spec fn types_in_option(type_: Option<Type>) -> Seq<Type> {
    match type_ {
        Some(type_) => types_in(type_),
        None => Seq::empty(),
    }
}

/// The types of some lambda arguments.
pub open spec fn types_in_arguments(arguments: Seq<Argument>) -> Seq<Type>
    decreases arguments.len(),
{
    if arguments.len() == 0 {
        Seq::empty()
    } else {
        types_in_arguments(arguments.drop_last()) + types_in(arguments.last().type_)
    }
}

/// The types in an expression, in the order in which they are written.
pub open spec fn types_in_expression(expression: Expression) -> Seq<Type>
    decreases expression, 0int,
{
    match expression {
        Expression::Call { function_type, function, arguments, .. } => types_in_option(
            function_type,
        ) + types_in_expression(*function) + types_in_expressions(
            arguments,
            arguments@.len() as int,
        ),
        Expression::If { condition, then, else_, .. } => types_in_expression(*condition)
            + types_in_expression(*then) + types_in_expression(*else_),
        Expression::IfList { type_, list, then, else_, .. } => types_in_option(type_)
            + types_in_expression(*list) + types_in_expression(*then) + types_in_expression(*else_),
        Expression::IfMap { key_type, value_type, map, key, then, else_, .. } => types_in_option(
            key_type,
        ) + types_in_option(value_type) + types_in_expression(*map) + types_in_expression(*key)
            + types_in_expression(*then) + types_in_expression(*else_),
        Expression::IfType { argument, branches, else_, .. } => types_in_expression(*argument)
            + types_in_if_branches(branches, branches@.len() as int) + match else_ {
            Some(branch) => types_in_option(branch.type_) + types_in_expression(branch.expression),
            None => Seq::empty(),
        },
        Expression::TypeCoercion { from, to, argument, .. } => types_in(from) + types_in(to)
            + types_in_expression(*argument),
        Expression::Lambda(lambda) => types_in_arguments(lambda.arguments@) + types_in(
            lambda.result_type,
        ) + types_in_expression(*lambda.body),
        Expression::Let { type_, bound_expression, expression, .. } => types_in_option(type_)
            + types_in_expression(*bound_expression) + types_in_expression(*expression),
        Expression::List { type_, elements, .. } => types_in(type_) + types_in_list_elements(
            elements,
            elements@.len() as int,
        ),
        Expression::ListComprehension { type_, element, branches, .. } => types_in(type_)
            + types_in_branches(branches, branches@.len() as int) + types_in_expression(*element),
        Expression::Mapping { key_type, value_type, elements, .. } => types_in(key_type) + types_in(
            value_type,
        ) + types_in_map_elements(elements, elements@.len() as int),
        Expression::Operation(operation) => match operation {
            Operation::Addition { type_, lhs, rhs, .. } => types_in_option(type_)
                + types_in_expression(*lhs) + types_in_expression(*rhs),
            Operation::Arithmetic { lhs, rhs, .. } => types_in_expression(*lhs)
                + types_in_expression(*rhs),
            Operation::Boolean { lhs, rhs, .. } => types_in_expression(*lhs) + types_in_expression(
                *rhs,
            ),
            Operation::Equality { type_, lhs, rhs, .. } => types_in_option(type_)
                + types_in_expression(*lhs) + types_in_expression(*rhs),
            Operation::Not { expression, .. } => types_in_expression(*expression),
            Operation::Order { lhs, rhs, .. } => types_in_expression(*lhs) + types_in_expression(
                *rhs,
            ),
            Operation::Try { expression, .. } => types_in_expression(*expression),
        },
        Expression::RecordConstruction { type_, fields, .. } => types_in(type_) + types_in_fields(
            fields,
            fields@.len() as int,
        ),
        Expression::RecordDeconstruction { type_, record, .. } => types_in_option(type_)
            + types_in_expression(*record),
        Expression::RecordUpdate { type_, record, fields, .. } => types_in(type_)
            + types_in_expression(*record) + types_in_fields(fields, fields@.len() as int),
        Expression::Thunk { type_, expression, .. } => types_in_option(type_) + types_in_expression(
            *expression,
        ),
        Expression::Boolean { .. }
        | Expression::BuiltInFunction { .. }
        | Expression::Unit { .. }
        | Expression::Number { .. }
        | Expression::String { .. }
        | Expression::Variable { .. } => Seq::empty(),
    }
}

/// The types in the first `n` of some expressions.
pub open spec fn types_in_expressions(expressions: Vec<Expression>, n: int) -> Seq<Type>
    decreases expressions, n,
{
    if n <= 0 || n > expressions@.len() {
        Seq::empty()
    } else {
        types_in_expressions(expressions, n - 1) + types_in_expression(expressions@[n - 1])
    }
}

/// The types in the first `n` branches of an if-type expression: the type
/// of each, then its expression.
pub open spec fn types_in_if_branches(branches: Vec<IfTypeBranch<Expression>>, n: int) -> Seq<Type>
    decreases branches, n,
{
    if n <= 0 || n > branches@.len() {
        Seq::empty()
    } else {
        types_in_if_branches(branches, n - 1) + types_in(branches@[n - 1].type_)
            + types_in_expression(branches@[n - 1].expression)
    }
}

/// The types in the first `n` elements of a list literal.
pub open spec fn types_in_list_elements(elements: Vec<ListElement<Expression>>, n: int) -> Seq<Type>
    decreases elements, n,
{
    if n <= 0 || n > elements@.len() {
        Seq::empty()
    } else {
        types_in_list_elements(elements, n - 1) + match elements@[n - 1] {
            ListElement::Multiple(expression) => types_in_expression(expression),
            ListElement::Single(expression) => types_in_expression(expression),
        }
    }
}

/// The types in the first `n` elements of a map literal.
pub open spec fn types_in_map_elements(elements: Vec<MapElement<Expression>>, n: int) -> Seq<Type>
    decreases elements, n,
{
    if n <= 0 || n > elements@.len() {
        Seq::empty()
    } else {
        types_in_map_elements(elements, n - 1) + match elements@[n - 1] {
            MapElement::Single(entry) => types_in_expression(entry.key) + types_in_expression(
                entry.value,
            ),
            MapElement::Multiple(expression) => types_in_expression(expression),
        }
    }
}

/// The types in the first `n` fields of a record construction or update.
pub open spec fn types_in_fields(fields: Vec<RecordFieldValue<Expression>>, n: int) -> Seq<Type>
    decreases fields, n,
{
    if n <= 0 || n > fields@.len() {
        Seq::empty()
    } else {
        types_in_fields(fields, n - 1) + types_in_expression(fields@[n - 1].expression)
    }
}

/// The types in the first `n` iteratees of a list comprehension branch:
/// the type of each, then its expression.
pub open spec fn types_in_iteratees(iteratees: Vec<ListComprehensionIteratee<Expression>>, n: int) -> Seq<
    Type,
>
    decreases iteratees, n,
{
    if n <= 0 || n > iteratees@.len() {
        Seq::empty()
    } else {
        types_in_iteratees(iteratees, n - 1) + types_in_option(iteratees@[n - 1].type_)
            + types_in_expression(iteratees@[n - 1].expression)
    }
}

/// The types in the first `n` branches of a list comprehension: its
/// iteratees, then its condition.
pub open spec fn types_in_branches(branches: Vec<ListComprehensionBranch<Expression>>, n: int) -> Seq<
    Type,
>
    decreases branches, n,
{
    if n <= 0 || n > branches@.len() {
        Seq::empty()
    } else {
        types_in_branches(branches, n - 1) + types_in_iteratees(
            branches@[n - 1].iteratees,
            branches@[n - 1].iteratees@.len() as int,
        ) + match branches@[n - 1].condition {
            Some(condition) => types_in_expression(condition),
            None => Seq::empty(),
        }
    }
}

/// The types of the fields of a record type.
pub open spec fn types_in_record_fields(fields: Seq<RecordField>) -> Seq<Type>
    decreases fields.len(),
{
    if fields.len() == 0 {
        Seq::empty()
    } else {
        types_in_record_fields(fields.drop_last()) + types_in(fields.last().type_)
    }
}

/// The types in a lambda: those of its arguments, its result type, and
/// those in its body.
pub open spec fn types_in_lambda(lambda: Lambda<Expression>) -> Seq<Type> {
    types_in_arguments(lambda.arguments@) + types_in(lambda.result_type) + types_in_expression(
        *lambda.body,
    )
}

/// The types in some type definitions.
pub open spec fn types_in_type_definitions(definitions: Seq<TypeDefinition>) -> Seq<Type>
    decreases definitions.len(),
{
    if definitions.len() == 0 {
        Seq::empty()
    } else {
        types_in_type_definitions(definitions.drop_last()) + types_in_record_fields(
            definitions.last().fields@,
        )
    }
}

/// The types in some type aliases.
pub open spec fn types_in_type_aliases(aliases: Seq<TypeAlias>) -> Seq<Type>
    decreases aliases.len(),
{
    if aliases.len() == 0 {
        Seq::empty()
    } else {
        types_in_type_aliases(aliases.drop_last()) + types_in(aliases.last().type_)
    }
}

/// The types in some foreign declarations.
pub open spec fn types_in_foreign_declarations(declarations: Seq<ForeignDeclaration>) -> Seq<Type>
    decreases declarations.len(),
{
    if declarations.len() == 0 {
        Seq::empty()
    } else {
        types_in_foreign_declarations(declarations.drop_last()) + types_in(
            declarations.last().type_,
        )
    }
}

/// The types in some function declarations.
pub open spec fn types_in_function_declarations(declarations: Seq<FunctionDeclaration>) -> Seq<Type>
    decreases declarations.len(),
{
    if declarations.len() == 0 {
        Seq::empty()
    } else {
        types_in_function_declarations(declarations.drop_last()) + types_in_function_type(
            declarations.last().type_,
        )
    }
}

/// The types in some function definitions.
pub open spec fn types_in_function_definitions(definitions: Seq<FunctionDefinition>) -> Seq<Type>
    decreases definitions.len(),
{
    if definitions.len() == 0 {
        Seq::empty()
    } else {
        types_in_function_definitions(definitions.drop_last()) + types_in_lambda(
            definitions.last().lambda,
        )
    }
}

/// The types in a module: those of its type definitions, type aliases,
/// foreign declarations, function declarations and function definitions.
pub open spec fn types_in_module(module: Module) -> Seq<Type> {
    types_in_type_definitions(module.type_definitions@) + types_in_type_aliases(
        module.type_aliases@,
    ) + types_in_foreign_declarations(module.foreign_declarations@)
        + types_in_function_declarations(module.function_declarations@)
        + types_in_function_definitions(module.function_definitions@)
}

/// The types that references refer to.
pub open spec fn derefs(types: Seq<&Type>) -> Seq<Type> {
    types.map_values(|type_: &Type| *type_)
}

/// The types written in a module, each before the types inside it.
pub fn visit<'a>(module: &'a Module) -> (visited: Vec<&'a Type>)
    ensures
        derefs(visited@) == types_in_module(*module),
{
    let mut visited: Vec<&'a Type> = Vec::new();
    let mut i: usize = 0;
    while i < module.type_definitions.len()
        invariant
            i <= module.type_definitions.len(),
            derefs(visited@) == types_in_type_definitions(module.type_definitions@.take(i as int)),
        decreases module.type_definitions.len() - i,
    {
        let fields = &module.type_definitions[i].fields;
        let ghost before = derefs(visited@);
        let mut j: usize = 0;
        while j < fields.len()
            invariant
                j <= fields.len(),
                derefs(visited@) == before + types_in_record_fields(fields@.take(j as int)),
            decreases fields.len() - j,
        {
            visit_type(&fields[j].type_, &mut visited);
            proof {
                assert(fields@.take(j + 1).drop_last() =~= fields@.take(j as int));
            }
            j = j + 1;
        }
        proof {
            assert(fields@.take(j as int) =~= fields@);
            assert(module.type_definitions@.take(i + 1).drop_last() =~= module.type_definitions@.take(
                i as int,
            ));
        }
        i = i + 1;
    }
    proof {
        assert(module.type_definitions@.take(i as int) =~= module.type_definitions@);
    }
    let ghost after_definitions = derefs(visited@);
    let mut i: usize = 0;
    while i < module.type_aliases.len()
        invariant
            i <= module.type_aliases.len(),
            derefs(visited@) == after_definitions + types_in_type_aliases(
                module.type_aliases@.take(i as int),
            ),
        decreases module.type_aliases.len() - i,
    {
        visit_type(&module.type_aliases[i].type_, &mut visited);
        proof {
            assert(module.type_aliases@.take(i + 1).drop_last() =~= module.type_aliases@.take(
                i as int,
            ));
        }
        i = i + 1;
    }
    proof {
        assert(module.type_aliases@.take(i as int) =~= module.type_aliases@);
    }
    let ghost after_aliases = derefs(visited@);
    let mut i: usize = 0;
    while i < module.foreign_declarations.len()
        invariant
            i <= module.foreign_declarations.len(),
            derefs(visited@) == after_aliases + types_in_foreign_declarations(
                module.foreign_declarations@.take(i as int),
            ),
        decreases module.foreign_declarations.len() - i,
    {
        visit_type(&module.foreign_declarations[i].type_, &mut visited);
        proof {
            assert(module.foreign_declarations@.take(i + 1).drop_last()
                =~= module.foreign_declarations@.take(i as int));
        }
        i = i + 1;
    }
    proof {
        assert(module.foreign_declarations@.take(i as int) =~= module.foreign_declarations@);
    }
    let ghost after_foreign = derefs(visited@);
    let mut i: usize = 0;
    while i < module.function_declarations.len()
        invariant
            i <= module.function_declarations.len(),
            derefs(visited@) == after_foreign + types_in_function_declarations(
                module.function_declarations@.take(i as int),
            ),
        decreases module.function_declarations.len() - i,
    {
        visit_function_type(&module.function_declarations[i].type_, &mut visited);
        proof {
            assert(module.function_declarations@.take(i + 1).drop_last()
                =~= module.function_declarations@.take(i as int));
        }
        i = i + 1;
    }
    proof {
        assert(module.function_declarations@.take(i as int) =~= module.function_declarations@);
    }
    let ghost after_declarations = derefs(visited@);
    let mut i: usize = 0;
    while i < module.function_definitions.len()
        invariant
            i <= module.function_definitions.len(),
            derefs(visited@) == after_declarations + types_in_function_definitions(
                module.function_definitions@.take(i as int),
            ),
        decreases module.function_definitions.len() - i,
    {
        visit_lambda(&module.function_definitions[i].lambda, &mut visited);
        proof {
            assert(module.function_definitions@.take(i + 1).drop_last()
                =~= module.function_definitions@.take(i as int));
        }
        i = i + 1;
    }
    proof {
        assert(module.function_definitions@.take(i as int) =~= module.function_definitions@);
        assert(derefs(visited@) =~= types_in_module(*module));
    }
    visited
}

fn push_type<'a>(type_: &'a Type, visited: &mut Vec<&'a Type>)
    ensures
        derefs(final(visited)@) == derefs(old(visited)@) + seq![*type_],
{
    visited.push(type_);
    proof {
        assert(derefs(visited@) =~= derefs(old(visited)@) + seq![*type_]);
    }
}

fn visit_type<'a>(type_: &'a Type, visited: &mut Vec<&'a Type>)
    ensures
        derefs(final(visited)@) == derefs(old(visited)@) + types_in(*type_),
    decreases type_,
{
    push_type(type_, visited);
    match type_ {
        Type::Function { arguments, result, .. } => {
            visit_type(result, visited);
            visit_types(arguments, visited);
        },
        Type::List { element, .. } => visit_type(element, visited),
        Type::Mapping { key, value, .. } => {
            visit_type(key, visited);
            visit_type(value, visited);
        },
        Type::Union { lhs, rhs, .. } => {
            visit_type(lhs, visited);
            visit_type(rhs, visited);
        },
        _ => {},
    }
    proof {
        assert(derefs(visited@) =~= derefs(old(visited)@) + types_in(*type_));
    }
}

fn visit_types<'a>(types: &'a Vec<Type>, visited: &mut Vec<&'a Type>)
    ensures
        derefs(final(visited)@) == derefs(old(visited)@) + types_in_all(
            *types,
            types@.len() as int,
        ),
    decreases types,
{
    let mut i: usize = 0;
    while i < types.len()
        invariant
            i <= types.len(),
            derefs(visited@) == derefs(old(visited)@) + types_in_all(*types, i as int),
        decreases types.len() - i,
    {
        proof {
            assert(decreases_to!(types => types@[i as int]));
        }
        visit_type(&types[i], visited);
        proof {
            assert(derefs(visited@) =~= derefs(old(visited)@) + types_in_all(*types, i + 1));
        }
        i = i + 1;
    }
}

fn visit_function_type<'a>(type_: &'a Type, visited: &mut Vec<&'a Type>)
    ensures
        derefs(final(visited)@) == derefs(old(visited)@) + types_in_function_type(*type_),
{
    match type_ {
        Type::Function { arguments, result, .. } => {
            visit_type(result, visited);
            visit_types(arguments, visited);
        },
        _ => visit_type(type_, visited),
    }
    proof {
        assert(derefs(visited@) =~= derefs(old(visited)@) + types_in_function_type(*type_));
    }
}

fn visit_option_type<'a>(type_: &'a Option<Type>, visited: &mut Vec<&'a Type>)
    ensures
        derefs(final(visited)@) == derefs(old(visited)@) + types_in_option(*type_),
{
    match type_ {
        Some(type_) => visit_type(type_, visited),
        None => {
            proof {
                assert(derefs(visited@) =~= derefs(old(visited)@) + types_in_option(None));
            }
        },
    }
}

fn visit_lambda<'a>(lambda: &'a Lambda<Expression>, visited: &mut Vec<&'a Type>)
    ensures
        derefs(final(visited)@) == derefs(old(visited)@) + types_in_lambda(*lambda),
    decreases lambda,
{
    let mut i: usize = 0;
    while i < lambda.arguments.len()
        invariant
            i <= lambda.arguments.len(),
            derefs(visited@) == derefs(old(visited)@) + types_in_arguments(
                lambda.arguments@.take(i as int),
            ),
        decreases lambda.arguments.len() - i,
    {
        visit_type(&lambda.arguments[i].type_, visited);
        proof {
            assert(lambda.arguments@.take(i + 1).drop_last() =~= lambda.arguments@.take(i as int));
        }
        i = i + 1;
    }
    proof {
        assert(lambda.arguments@.take(i as int) =~= lambda.arguments@);
    }
    visit_type(&lambda.result_type, visited);
    visit_expression(&lambda.body, visited);
    proof {
        assert(derefs(visited@) =~= derefs(old(visited)@) + types_in_lambda(*lambda));
    }
}

fn visit_expression<'a>(expression: &'a Expression, visited: &mut Vec<&'a Type>)
    ensures
        derefs(final(visited)@) == derefs(old(visited)@) + types_in_expression(*expression),
    decreases expression,
{
    match expression {
        Expression::Call { function_type, function, arguments, .. } => {
            visit_option_type(function_type, visited);
            visit_expression(function, visited);
            visit_expressions(arguments, visited);
        },
        Expression::If { condition, then, else_, .. } => {
            visit_expression(condition, visited);
            visit_expression(then, visited);
            visit_expression(else_, visited);
        },
        Expression::IfList { type_, list, then, else_, .. } => {
            visit_option_type(type_, visited);
            visit_expression(list, visited);
            visit_expression(then, visited);
            visit_expression(else_, visited);
        },
        Expression::IfMap { key_type, value_type, map, key, then, else_, .. } => {
            visit_option_type(key_type, visited);
            visit_option_type(value_type, visited);
            visit_expression(map, visited);
            visit_expression(key, visited);
            visit_expression(then, visited);
            visit_expression(else_, visited);
        },
        Expression::IfType { argument, branches, else_, .. } => {
            visit_expression(argument, visited);
            visit_if_branches(branches, visited);
            match else_ {
                Some(branch) => {
                    visit_option_type(&branch.type_, visited);
                    visit_expression(&branch.expression, visited);
                },
                None => {},
            }
        },
        Expression::TypeCoercion { from, to, argument, .. } => {
            visit_type(from, visited);
            visit_type(to, visited);
            visit_expression(argument, visited);
        },
        Expression::Lambda(lambda) => visit_lambda(lambda, visited),
        Expression::Let { type_, bound_expression, expression: body, .. } => {
            visit_option_type(type_, visited);
            visit_expression(bound_expression, visited);
            visit_expression(body, visited);
        },
        Expression::List { type_, elements, .. } => {
            visit_type(type_, visited);
            visit_list_elements(elements, visited);
        },
        Expression::ListComprehension { type_, element, branches, .. } => {
            visit_type(type_, visited);
            visit_branches(branches, visited);
            visit_expression(element, visited);
        },
        Expression::Mapping { key_type, value_type, elements, .. } => {
            visit_type(key_type, visited);
            visit_type(value_type, visited);
            visit_map_elements(elements, visited);
        },
        Expression::Operation(operation) => match operation {
            Operation::Addition { type_, lhs, rhs, .. } => {
                visit_option_type(type_, visited);
                visit_expression(lhs, visited);
                visit_expression(rhs, visited);
            },
            Operation::Arithmetic { lhs, rhs, .. } => {
                visit_expression(lhs, visited);
                visit_expression(rhs, visited);
            },
            Operation::Boolean { lhs, rhs, .. } => {
                visit_expression(lhs, visited);
                visit_expression(rhs, visited);
            },
            Operation::Equality { type_, lhs, rhs, .. } => {
                visit_option_type(type_, visited);
                visit_expression(lhs, visited);
                visit_expression(rhs, visited);
            },
            Operation::Not { expression: operand, .. } => visit_expression(operand, visited),
            Operation::Order { lhs, rhs, .. } => {
                visit_expression(lhs, visited);
                visit_expression(rhs, visited);
            },
            Operation::Try { expression: operand, .. } => visit_expression(operand, visited),
        },
        Expression::RecordConstruction { type_, fields, .. } => {
            visit_type(type_, visited);
            visit_fields(fields, visited);
        },
        Expression::RecordDeconstruction { type_, record, .. } => {
            visit_option_type(type_, visited);
            visit_expression(record, visited);
        },
        Expression::RecordUpdate { type_, record, fields, .. } => {
            visit_type(type_, visited);
            visit_expression(record, visited);
            visit_fields(fields, visited);
        },
        Expression::Thunk { type_, expression: body, .. } => {
            visit_option_type(type_, visited);
            visit_expression(body, visited);
        },
        _ => {},
    }
    proof {
        assert(derefs(visited@) =~= derefs(old(visited)@) + types_in_expression(*expression));
    }
}

fn visit_expressions<'a>(expressions: &'a Vec<Expression>, visited: &mut Vec<&'a Type>)
    ensures
        derefs(final(visited)@) == derefs(old(visited)@) + types_in_expressions(
            *expressions,
            expressions@.len() as int,
        ),
    decreases expressions,
{
    let mut i: usize = 0;
    while i < expressions.len()
        invariant
            i <= expressions.len(),
            derefs(visited@) == derefs(old(visited)@) + types_in_expressions(
                *expressions,
                i as int,
            ),
        decreases expressions.len() - i,
    {
        proof {
            assert(decreases_to!(expressions => expressions@[i as int]));
        }
        visit_expression(&expressions[i], visited);
        proof {
            assert(derefs(visited@) =~= derefs(old(visited)@) + types_in_expressions(
                *expressions,
                i + 1,
            ));
        }
        i = i + 1;
    }
}

fn visit_if_branches<'a>(branches: &'a Vec<IfTypeBranch<Expression>>, visited: &mut Vec<&'a Type>)
    ensures
        derefs(final(visited)@) == derefs(old(visited)@) + types_in_if_branches(
            *branches,
            branches@.len() as int,
        ),
    decreases branches,
{
    let mut i: usize = 0;
    while i < branches.len()
        invariant
            i <= branches.len(),
            derefs(visited@) == derefs(old(visited)@) + types_in_if_branches(*branches, i as int),
        decreases branches.len() - i,
    {
        proof {
            assert(decreases_to!(branches => branches@[i as int]));
            assert(decreases_to!(branches@[i as int] => branches@[i as int].expression));
        }
        visit_type(&branches[i].type_, visited);
        visit_expression(&branches[i].expression, visited);
        proof {
            assert(derefs(visited@) =~= derefs(old(visited)@) + types_in_if_branches(
                *branches,
                i + 1,
            ));
        }
        i = i + 1;
    }
}

fn visit_list_elements<'a>(elements: &'a Vec<ListElement<Expression>>, visited: &mut Vec<&'a Type>)
    ensures
        derefs(final(visited)@) == derefs(old(visited)@) + types_in_list_elements(
            *elements,
            elements@.len() as int,
        ),
    decreases elements,
{
    let mut i: usize = 0;
    while i < elements.len()
        invariant
            i <= elements.len(),
            derefs(visited@) == derefs(old(visited)@) + types_in_list_elements(
                *elements,
                i as int,
            ),
        decreases elements.len() - i,
    {
        proof {
            assert(decreases_to!(elements => elements@[i as int]));
        }
        match &elements[i] {
            ListElement::Multiple(expression) => {
                proof {
                    assert(decreases_to!(elements@[i as int] => elements@[i as int]->Multiple_0));
                }
                visit_expression(expression, visited);
            },
            ListElement::Single(expression) => {
                proof {
                    assert(decreases_to!(elements@[i as int] => elements@[i as int]->Single_0));
                }
                visit_expression(expression, visited);
            },
        }
        proof {
            assert(derefs(visited@) =~= derefs(old(visited)@) + types_in_list_elements(
                *elements,
                i + 1,
            ));
        }
        i = i + 1;
    }
}

fn visit_map_elements<'a>(elements: &'a Vec<MapElement<Expression>>, visited: &mut Vec<&'a Type>)
    ensures
        derefs(final(visited)@) == derefs(old(visited)@) + types_in_map_elements(
            *elements,
            elements@.len() as int,
        ),
    decreases elements,
{
    let mut i: usize = 0;
    while i < elements.len()
        invariant
            i <= elements.len(),
            derefs(visited@) == derefs(old(visited)@) + types_in_map_elements(*elements, i as int),
        decreases elements.len() - i,
    {
        proof {
            assert(decreases_to!(elements => elements@[i as int]));
        }
        match &elements[i] {
            MapElement::Single(entry) => {
                proof {
                    assert(decreases_to!(elements@[i as int] => elements@[i as int]->Single_0));
                    assert(decreases_to!(elements@[i as int]->Single_0 => elements@[i as int]->Single_0.key));
                    assert(decreases_to!(elements@[i as int]->Single_0 => elements@[i as int]->Single_0.value));
                }
                visit_expression(&entry.key, visited);
                visit_expression(&entry.value, visited);
            },
            MapElement::Multiple(expression) => {
                proof {
                    assert(decreases_to!(elements@[i as int] => elements@[i as int]->Multiple_0));
                }
                visit_expression(expression, visited);
            },
        }
        proof {
            assert(derefs(visited@) =~= derefs(old(visited)@) + types_in_map_elements(
                *elements,
                i + 1,
            ));
        }
        i = i + 1;
    }
}

fn visit_fields<'a>(fields: &'a Vec<RecordFieldValue<Expression>>, visited: &mut Vec<&'a Type>)
    ensures
        derefs(final(visited)@) == derefs(old(visited)@) + types_in_fields(
            *fields,
            fields@.len() as int,
        ),
    decreases fields,
{
    let mut i: usize = 0;
    while i < fields.len()
        invariant
            i <= fields.len(),
            derefs(visited@) == derefs(old(visited)@) + types_in_fields(*fields, i as int),
        decreases fields.len() - i,
    {
        proof {
            assert(decreases_to!(fields => fields@[i as int]));
            assert(decreases_to!(fields@[i as int] => fields@[i as int].expression));
        }
        visit_expression(&fields[i].expression, visited);
        proof {
            assert(derefs(visited@) =~= derefs(old(visited)@) + types_in_fields(*fields, i + 1));
        }
        i = i + 1;
    }
}

fn visit_iteratees<'a>(
    iteratees: &'a Vec<ListComprehensionIteratee<Expression>>,
    visited: &mut Vec<&'a Type>,
)
    ensures
        derefs(final(visited)@) == derefs(old(visited)@) + types_in_iteratees(
            *iteratees,
            iteratees@.len() as int,
        ),
    decreases iteratees,
{
    let mut i: usize = 0;
    while i < iteratees.len()
        invariant
            i <= iteratees.len(),
            derefs(visited@) == derefs(old(visited)@) + types_in_iteratees(*iteratees, i as int),
        decreases iteratees.len() - i,
    {
        proof {
            assert(decreases_to!(iteratees => iteratees@[i as int]));
            assert(decreases_to!(iteratees@[i as int] => iteratees@[i as int].expression));
        }
        visit_option_type(&iteratees[i].type_, visited);
        visit_expression(&iteratees[i].expression, visited);
        proof {
            assert(derefs(visited@) =~= derefs(old(visited)@) + types_in_iteratees(
                *iteratees,
                i + 1,
            ));
        }
        i = i + 1;
    }
}

fn visit_branches<'a>(
    branches: &'a Vec<ListComprehensionBranch<Expression>>,
    visited: &mut Vec<&'a Type>,
)
    ensures
        derefs(final(visited)@) == derefs(old(visited)@) + types_in_branches(
            *branches,
            branches@.len() as int,
        ),
    decreases branches,
{
    let mut i: usize = 0;
    while i < branches.len()
        invariant
            i <= branches.len(),
            derefs(visited@) == derefs(old(visited)@) + types_in_branches(*branches, i as int),
        decreases branches.len() - i,
    {
        let branch = &branches[i];
        proof {
            assert(decreases_to!(branches => branches@[i as int]));
            assert(decreases_to!(branches@[i as int] => branches@[i as int].iteratees));
        }
        visit_iteratees(&branch.iteratees, visited);
        match &branch.condition {
            Some(condition) => {
                proof {
                    assert(decreases_to!(branches@[i as int] => branches@[i as int].condition));
                    assert(decreases_to!(branches@[i as int].condition => branches@[i as int].condition->0));
                }
                visit_expression(condition, visited);
            },
            None => {},
        }
        proof {
            assert(derefs(visited@) =~= derefs(old(visited)@) + types_in_branches(
                *branches,
                i + 1,
            ));
        }
        i = i + 1;
    }
}

} // verus!
