//! Validation of try operations: one may stand only where the result type
//! of the enclosing function or thunk admits errors, and never in a list
//! or map literal or comprehension.
use crate::context::AnalysisContext;
use crate::error::{AnalysisError, SpecAnalysisError};
use crate::ir::{
    if_types_complete,
    Expression,
    IfTypeBranch,
    Lambda,
    ListComprehensionBranch,
    ListComprehensionIteratee,
    ListElement,
    MapElement,
    Module,
    Operation,
    RecordFieldValue,
};
use crate::tables::{type_map_contents, TypeMap};
use crate::type_canonicalizer::{aliases_acyclic, canonicalizable};
use crate::type_subsumption_checker::{check as check_subsumed, subsumes};
use crate::types::{SpecType, Type};
use crate::unused_error_validator::view_unit;
use vstd::prelude::*;

verus! {

/// Sequencing of validations: the first error.
pub open spec fn sequenced(first: Result<(), SpecAnalysisError>, second: Result<(), SpecAnalysisError>) -> Result<
    (),
    SpecAnalysisError,
> {
    match first {
        Err(error) => Err(error),
        Ok(()) => second,
    }
}

/// What validating the try operations of an expression finds, with the
/// result type of the enclosing function or thunk, or none inside a
/// collection literal, and the error type of the context, if it has one: a
/// try operation needs a result type that subsumes the error type.
pub open spec fn try_validated(
    expression: Expression,
    result_type: Option<SpecType>,
    types: Map<Seq<char>, SpecType>,
    error_type: Option<SpecType>,
) -> Result<(), SpecAnalysisError>
    decreases expression, 0int,
{
    match expression {
        Expression::Call { function, arguments, .. } => sequenced(
            try_validated(*function, result_type, types, error_type),
            try_validated_all(arguments, 0, result_type, types, error_type),
        ),
        Expression::If { condition, then: t, else_, .. } => sequenced(
            try_validated(*condition, result_type, types, error_type),
            sequenced(try_validated(*t, result_type, types, error_type), try_validated(*else_, result_type, types, error_type)),
        ),
        Expression::IfList { list, then: t, else_, .. } => sequenced(
            try_validated(*list, result_type, types, error_type),
            sequenced(try_validated(*t, result_type, types, error_type), try_validated(*else_, result_type, types, error_type)),
        ),
        Expression::IfMap { map, key, then: t, else_, .. } => sequenced(
            try_validated(*map, result_type, types, error_type),
            sequenced(
                try_validated(*key, result_type, types, error_type),
                sequenced(try_validated(*t, result_type, types, error_type), try_validated(*else_, result_type, types, error_type)),
            ),
        ),
        Expression::IfType { argument, branches, else_, .. } => sequenced(
            try_validated(*argument, result_type, types, error_type),
            sequenced(
                try_validated_branches(branches, 0, result_type, types, error_type),
                match else_ {
                    Some(branch) => try_validated(branch.expression, result_type, types, error_type),
                    None => Ok(()),
                },
            ),
        ),
        Expression::TypeCoercion { argument, .. } => try_validated(*argument, result_type, types, error_type),
        Expression::Lambda(lambda) => try_validated(*lambda.body, Some(lambda.result_type@), types, error_type),
        Expression::Let { bound_expression, expression, .. } => sequenced(
            try_validated(*bound_expression, result_type, types, error_type),
            try_validated(*expression, result_type, types, error_type),
        ),
        Expression::List { elements, .. } => try_validated_list_elements(elements, 0, types, error_type),
        Expression::ListComprehension { element, branches, .. } => sequenced(
            try_validated(*element, None, types, error_type),
            try_validated_comprehension(branches, 0, types, error_type),
        ),
        Expression::Mapping { elements, .. } => try_validated_map_elements(elements, 0, result_type, types, error_type),
        Expression::Operation(operation) => match operation {
            Operation::Addition { lhs, rhs, .. } => sequenced(
                try_validated(*lhs, result_type, types, error_type),
                try_validated(*rhs, result_type, types, error_type),
            ),
            Operation::Arithmetic { lhs, rhs, .. } => sequenced(
                try_validated(*lhs, result_type, types, error_type),
                try_validated(*rhs, result_type, types, error_type),
            ),
            Operation::Boolean { lhs, rhs, .. } => sequenced(
                try_validated(*lhs, result_type, types, error_type),
                try_validated(*rhs, result_type, types, error_type),
            ),
            Operation::Equality { lhs, rhs, .. } => sequenced(
                try_validated(*lhs, result_type, types, error_type),
                try_validated(*rhs, result_type, types, error_type),
            ),
            Operation::Not { expression, .. } => try_validated(*expression, result_type, types, error_type),
            Operation::Order { lhs, rhs, .. } => sequenced(
                try_validated(*lhs, result_type, types, error_type),
                try_validated(*rhs, result_type, types, error_type),
            ),
            Operation::Try { expression, position, .. } => match result_type {
                Some(result_type) => match error_type {
                    None => Err(SpecAnalysisError::ErrorTypeUndefined),
                    Some(error) => match subsumes(error, result_type, types) {
                        Err(error) => Err(error),
                        Ok(false) => Err(SpecAnalysisError::InvalidTryOperation(position@)),
                        Ok(true) => try_validated(*expression, Some(result_type), types, error_type),
                    },
                },
                None => Err(SpecAnalysisError::TryOperationInList(position@)),
            },
        },
        Expression::RecordConstruction { fields, .. } => try_validated_fields(fields, 0, result_type, types, error_type),
        Expression::RecordDeconstruction { record, .. } => try_validated(*record, result_type, types, error_type),
        Expression::RecordUpdate { record, fields, .. } => sequenced(
            try_validated(*record, result_type, types, error_type),
            try_validated_fields(fields, 0, result_type, types, error_type),
        ),
        Expression::Thunk { type_, expression, position } => match type_ {
            None => Err(SpecAnalysisError::TypeNotInferred(position@)),
            Some(type_) => try_validated(*expression, Some(type_@), types, error_type),
        },
        _ => Ok(()),
    }
}

/// Validation of expressions from the `i`th on.
pub open spec fn try_validated_all(
    expressions: Vec<Expression>,
    i: int,
    result_type: Option<SpecType>,
    types: Map<Seq<char>, SpecType>,
    error_type: Option<SpecType>,
) -> Result<(), SpecAnalysisError>
    decreases expressions, expressions@.len() - i,
{
    if i < 0 || i >= expressions@.len() {
        Ok(())
    } else {
        sequenced(
            try_validated(expressions@[i], result_type, types, error_type),
            try_validated_all(expressions, i + 1, result_type, types, error_type),
        )
    }
}

/// Validation of the branches of an if-type expression from the `i`th on.
pub open spec fn try_validated_branches(
    branches: Vec<IfTypeBranch<Expression>>,
    i: int,
    result_type: Option<SpecType>,
    types: Map<Seq<char>, SpecType>,
    error_type: Option<SpecType>,
) -> Result<(), SpecAnalysisError>
    decreases branches, branches@.len() - i,
{
    if i < 0 || i >= branches@.len() {
        Ok(())
    } else {
        sequenced(
            try_validated(branches@[i].expression, result_type, types, error_type),
            try_validated_branches(branches, i + 1, result_type, types, error_type),
        )
    }
}

/// Validation of the elements of a list literal from the `i`th on, where
/// no try operation may stand.
pub open spec fn try_validated_list_elements(
    elements: Vec<ListElement<Expression>>,
    i: int,
    types: Map<Seq<char>, SpecType>,
    error_type: Option<SpecType>,
) -> Result<(), SpecAnalysisError>
    decreases elements, elements@.len() - i,
{
    if i < 0 || i >= elements@.len() {
        Ok(())
    } else {
        sequenced(
            match elements@[i] {
                ListElement::Multiple(x) => try_validated(x, None, types, error_type),
                ListElement::Single(x) => try_validated(x, None, types, error_type),
            },
            try_validated_list_elements(elements, i + 1, types, error_type),
        )
    }
}

/// Validation of the elements of a map literal from the `i`th on.
pub open spec fn try_validated_map_elements(
    elements: Vec<MapElement<Expression>>,
    i: int,
    result_type: Option<SpecType>,
    types: Map<Seq<char>, SpecType>,
    error_type: Option<SpecType>,
) -> Result<(), SpecAnalysisError>
    decreases elements, elements@.len() - i,
{
    if i < 0 || i >= elements@.len() {
        Ok(())
    } else {
        sequenced(
            match elements@[i] {
                MapElement::Single(entry) => sequenced(
                    try_validated(entry.key, result_type, types, error_type),
                    try_validated(entry.value, result_type, types, error_type),
                ),
                MapElement::Multiple(x) => try_validated(x, result_type, types, error_type),
            },
            try_validated_map_elements(elements, i + 1, result_type, types, error_type),
        )
    }
}

/// Validation of record fields from the `i`th on.
pub open spec fn try_validated_fields(
    fields: Vec<RecordFieldValue<Expression>>,
    i: int,
    result_type: Option<SpecType>,
    types: Map<Seq<char>, SpecType>,
    error_type: Option<SpecType>,
) -> Result<(), SpecAnalysisError>
    decreases fields, fields@.len() - i,
{
    if i < 0 || i >= fields@.len() {
        Ok(())
    } else {
        sequenced(
            try_validated(fields@[i].expression, result_type, types, error_type),
            try_validated_fields(fields, i + 1, result_type, types, error_type),
        )
    }
}

/// Validation of the iteratees of a list comprehension branch from the
/// `j`th on, where no try operation may stand.
pub open spec fn try_validated_iteratees(
    iteratees: Vec<ListComprehensionIteratee<Expression>>,
    j: int,
    types: Map<Seq<char>, SpecType>,
    error_type: Option<SpecType>,
) -> Result<(), SpecAnalysisError>
    decreases iteratees, iteratees@.len() - j,
{
    if j < 0 || j >= iteratees@.len() {
        Ok(())
    } else {
        sequenced(
            try_validated(iteratees@[j].expression, None, types, error_type),
            try_validated_iteratees(iteratees, j + 1, types, error_type),
        )
    }
}

/// Validation of the branches of a list comprehension from the `i`th on:
/// their iteratees, then their conditions, where no try operation may
/// stand.
pub open spec fn try_validated_comprehension(
    branches: Vec<ListComprehensionBranch<Expression>>,
    i: int,
    types: Map<Seq<char>, SpecType>,
    error_type: Option<SpecType>,
) -> Result<(), SpecAnalysisError>
    decreases branches, branches@.len() - i,
{
    if i < 0 || i >= branches@.len() {
        Ok(())
    } else {
        sequenced(
            try_validated_iteratees(branches@[i].iteratees, 0, types, error_type),
            sequenced(
                match branches@[i].condition {
                    Some(condition) => try_validated(condition, None, types, error_type),
                    None => Ok(()),
                },
                try_validated_comprehension(branches, i + 1, types, error_type),
            ),
        )
    }
}

/// What validating the function definitions of a module from the `i`th
/// on finds.
pub open spec fn try_validated_definitions(
    module: Module,
    i: int,
    types: Map<Seq<char>, SpecType>,
    error_type: Option<SpecType>,
) -> Result<
    (),
    SpecAnalysisError,
>
    decreases module.function_definitions@.len() - i,
{
    if i < 0 || i >= module.function_definitions@.len() {
        Ok(())
    } else {
        let lambda = module.function_definitions@[i].lambda;
        sequenced(
            try_validated(*lambda.body, Some(lambda.result_type@), types, error_type),
            try_validated_definitions(module, i + 1, types, error_type),
        )
    }
}

/// The model of the error type of a context, if it has one.
pub open spec fn view_error_type(error_type: Option<Type>) -> Option<SpecType> {
    match error_type {
        Some(type_) => Some(type_@),
        None => None,
    }
}

/// The model of an optional result type.
pub open spec fn view_result_type(result_type: Option<&Type>) -> Option<SpecType> {
    match result_type {
        Some(type_) => Some(type_@),
        None => None,
    }
}

/// Validates the try operations of the function definitions of a module.
pub fn validate(context: &AnalysisContext, module: &Module) -> (result: Result<(), AnalysisError>)
    requires
        aliases_acyclic(type_map_contents(*context.types())),
    ensures
        view_unit(result) == try_validated_definitions(
            *module,
            0,
            type_map_contents(*context.types()),
            view_error_type(*context.error_type_option()),
        ),
{
    let types = context.types();
    let error_type = context.error_type_option();
    let mut i: usize = 0;
    while i < module.function_definitions.len()
        invariant
            i <= module.function_definitions.len(),
            types == context.types(),
            aliases_acyclic(type_map_contents(*types)),
            error_type == context.error_type_option(),
            try_validated_definitions(*module, 0, type_map_contents(*types), view_error_type(*error_type))
                == try_validated_definitions(
                *module,
                i as int,
                type_map_contents(*types),
                view_error_type(*error_type),
            ),
        decreases module.function_definitions.len() - i,
    {
        let lambda = &module.function_definitions[i].lambda;
        validate_expression(types, error_type, &lambda.body, Some(&lambda.result_type))?;
        i = i + 1;
    }
    Ok(())
}

fn validate_expression(types: &TypeMap, error_type: &Option<Type>, expression: &Expression, result_type: Option<&Type>) -> (result:
    Result<(), AnalysisError>)
    requires
        aliases_acyclic(type_map_contents(*types)),
    ensures
        view_unit(result) == try_validated(
            *expression,
            view_result_type(result_type),
            type_map_contents(*types), view_error_type(*error_type),
        ),
    decreases expression, 1int,
{
    match expression {
        Expression::Call { function, arguments, .. } => {
            validate_expression(types, error_type, function, result_type)?;
            validate_all(types, error_type, arguments, result_type)
        },
        Expression::If { condition, then, else_, .. } => {
            validate_expression(types, error_type, condition, result_type)?;
            validate_expression(types, error_type, then, result_type)?;
            validate_expression(types, error_type, else_, result_type)
        },
        Expression::IfList { list, then, else_, .. } => {
            validate_expression(types, error_type, list, result_type)?;
            validate_expression(types, error_type, then, result_type)?;
            validate_expression(types, error_type, else_, result_type)
        },
        Expression::IfMap { map, key, then, else_, .. } => {
            validate_expression(types, error_type, map, result_type)?;
            validate_expression(types, error_type, key, result_type)?;
            validate_expression(types, error_type, then, result_type)?;
            validate_expression(types, error_type, else_, result_type)
        },
        Expression::IfType { argument, branches, else_, .. } => {
            validate_expression(types, error_type, argument, result_type)?;
            validate_branches(types, error_type, branches, result_type)?;
            match else_ {
                Some(branch) => validate_expression(types, error_type, &branch.expression, result_type),
                None => Ok(()),
            }
        },
        Expression::TypeCoercion { argument, .. } => validate_expression(types, error_type, argument, result_type),
        Expression::Lambda(lambda) => validate_expression(types, error_type, &lambda.body, Some(&lambda.result_type)),
        Expression::Let { bound_expression, expression: body, .. } => {
            validate_expression(types, error_type, bound_expression, result_type)?;
            validate_expression(types, error_type, body, result_type)
        },
        Expression::List { elements, .. } => validate_list_elements(types, error_type, elements),
        Expression::ListComprehension { element, branches, .. } => {
            validate_expression(types, error_type, element, None)?;
            validate_comprehension(types, error_type, branches)
        },
        Expression::Mapping { elements, .. } => validate_map_elements(types, error_type, elements, result_type),
        Expression::Operation(operation) => match operation {
            Operation::Addition { lhs, rhs, .. } => {
                validate_expression(types, error_type, lhs, result_type)?;
                validate_expression(types, error_type, rhs, result_type)
            },
            Operation::Arithmetic { lhs, rhs, .. } => {
                validate_expression(types, error_type, lhs, result_type)?;
                validate_expression(types, error_type, rhs, result_type)
            },
            Operation::Boolean { lhs, rhs, .. } => {
                validate_expression(types, error_type, lhs, result_type)?;
                validate_expression(types, error_type, rhs, result_type)
            },
            Operation::Equality { lhs, rhs, .. } => {
                validate_expression(types, error_type, lhs, result_type)?;
                validate_expression(types, error_type, rhs, result_type)
            },
            Operation::Not { expression: operand, .. } => validate_expression(types, error_type, operand, result_type),
            Operation::Order { lhs, rhs, .. } => {
                validate_expression(types, error_type, lhs, result_type)?;
                validate_expression(types, error_type, rhs, result_type)
            },
            Operation::Try { expression: operand, position, .. } => match result_type {
                Some(result_type) => {
                    let error = match error_type {
                        Some(error) => error,
                        None => return Err(AnalysisError::ErrorTypeUndefined),
                    };
                    proof {
                        assert(canonicalizable(error@, type_map_contents(*types)));
                        assert(canonicalizable(result_type@, type_map_contents(*types)));
                    }
                    if !check_subsumed(error, result_type, types)? {
                        return Err(AnalysisError::InvalidTryOperation(position.copy()));
                    }
                    validate_expression(types, error_type, operand, Some(result_type))
                },
                None => Err(AnalysisError::TryOperationInList(position.copy())),
            },
        },
        Expression::RecordConstruction { fields, .. } => validate_fields(types, error_type, fields, result_type),
        Expression::RecordDeconstruction { record, .. } => validate_expression(types, error_type, record, result_type),
        Expression::RecordUpdate { record, fields, .. } => {
            validate_expression(types, error_type, record, result_type)?;
            validate_fields(types, error_type, fields, result_type)
        },
        Expression::Thunk { type_, expression: body, position } => match type_ {
            Some(type_) => validate_expression(types, error_type, body, Some(type_)),
            None => Err(AnalysisError::TypeNotInferred(position.copy())),
        },
        _ => Ok(()),
    }
}

fn validate_all(types: &TypeMap, error_type: &Option<Type>, expressions: &Vec<Expression>, result_type: Option<&Type>) -> (result:
    Result<(), AnalysisError>)
    requires
        aliases_acyclic(type_map_contents(*types)),
    ensures
        view_unit(result) == try_validated_all(
            *expressions,
            0,
            view_result_type(result_type),
            type_map_contents(*types), view_error_type(*error_type),
        ),
    decreases expressions, 0int,
{
    let mut i: usize = 0;
    while i < expressions.len()
        invariant
            i <= expressions.len(),
            aliases_acyclic(type_map_contents(*types)),
            try_validated_all(*expressions, 0, view_result_type(result_type), type_map_contents(*types), view_error_type(*error_type))
                == try_validated_all(
                *expressions,
                i as int,
                view_result_type(result_type),
                type_map_contents(*types), view_error_type(*error_type),
            ),
        decreases expressions.len() - i,
    {
        proof {
            assert(decreases_to!(expressions => expressions@[i as int]));
        }
        validate_expression(types, error_type, &expressions[i], result_type)?;
        i = i + 1;
    }
    Ok(())
}

fn validate_branches(
    types: &TypeMap,
    error_type: &Option<Type>,
    branches: &Vec<IfTypeBranch<Expression>>,
    result_type: Option<&Type>,
) -> (result: Result<(), AnalysisError>)
    requires
        aliases_acyclic(type_map_contents(*types)),
    ensures
        view_unit(result) == try_validated_branches(
            *branches,
            0,
            view_result_type(result_type),
            type_map_contents(*types), view_error_type(*error_type),
        ),
    decreases branches, 0int,
{
    let mut i: usize = 0;
    while i < branches.len()
        invariant
            i <= branches.len(),
            aliases_acyclic(type_map_contents(*types)),
            try_validated_branches(*branches, 0, view_result_type(result_type), type_map_contents(*types), view_error_type(*error_type))
                == try_validated_branches(
                *branches,
                i as int,
                view_result_type(result_type),
                type_map_contents(*types), view_error_type(*error_type),
            ),
        decreases branches.len() - i,
    {
        proof {
            assert(decreases_to!(branches => branches@[i as int]));
            assert(decreases_to!(branches@[i as int] => branches@[i as int].expression));
        }
        validate_expression(types, error_type, &branches[i].expression, result_type)?;
        i = i + 1;
    }
    Ok(())
}

fn validate_list_elements(types: &TypeMap, error_type: &Option<Type>, elements: &Vec<ListElement<Expression>>) -> (result: Result<
    (),
    AnalysisError,
>)
    requires
        aliases_acyclic(type_map_contents(*types)),
    ensures
        view_unit(result) == try_validated_list_elements(*elements, 0, type_map_contents(*types), view_error_type(*error_type)),
    decreases elements, 0int,
{
    let mut i: usize = 0;
    while i < elements.len()
        invariant
            i <= elements.len(),
            aliases_acyclic(type_map_contents(*types)),
            try_validated_list_elements(*elements, 0, type_map_contents(*types), view_error_type(*error_type))
                == try_validated_list_elements(*elements, i as int, type_map_contents(*types), view_error_type(*error_type)),
        decreases elements.len() - i,
    {
        proof {
            assert(decreases_to!(elements => elements@[i as int]));
        }
        match &elements[i] {
            ListElement::Multiple(x) => {
                proof {
                    assert(decreases_to!(elements@[i as int] => elements@[i as int]->Multiple_0));
                }
                validate_expression(types, error_type, x, None)?;
            },
            ListElement::Single(x) => {
                proof {
                    assert(decreases_to!(elements@[i as int] => elements@[i as int]->Single_0));
                }
                validate_expression(types, error_type, x, None)?;
            },
        }
        i = i + 1;
    }
    Ok(())
}

fn validate_map_elements(
    types: &TypeMap,
    error_type: &Option<Type>,
    elements: &Vec<MapElement<Expression>>,
    result_type: Option<&Type>,
) -> (result: Result<(), AnalysisError>)
    requires
        aliases_acyclic(type_map_contents(*types)),
    ensures
        view_unit(result) == try_validated_map_elements(
            *elements,
            0,
            view_result_type(result_type),
            type_map_contents(*types), view_error_type(*error_type),
        ),
    decreases elements, 0int,
{
    let mut i: usize = 0;
    while i < elements.len()
        invariant
            i <= elements.len(),
            aliases_acyclic(type_map_contents(*types)),
            try_validated_map_elements(*elements, 0, view_result_type(result_type), type_map_contents(*types), view_error_type(*error_type))
                == try_validated_map_elements(
                *elements,
                i as int,
                view_result_type(result_type),
                type_map_contents(*types), view_error_type(*error_type),
            ),
        decreases elements.len() - i,
    {
        proof {
            assert(decreases_to!(elements => elements@[i as int]));
        }
        match &elements[i] {
            MapElement::Single(entry) => {
                proof {
                    assert(decreases_to!(elements@[i as int] => elements@[i as int]->Single_0));
                    assert(decreases_to!(elements@[i as int]->Single_0 => elements@[i as int]->Single_0.key));
                    assert(decreases_to!(elements@[i as int]->Single_0 => elements@[i as int]->Single_0.value));
                }
                validate_expression(types, error_type, &entry.key, result_type)?;
                validate_expression(types, error_type, &entry.value, result_type)?;
            },
            MapElement::Multiple(x) => {
                proof {
                    assert(decreases_to!(elements@[i as int] => elements@[i as int]->Multiple_0));
                }
                validate_expression(types, error_type, x, result_type)?;
            },
        }
        i = i + 1;
    }
    Ok(())
}

fn validate_fields(
    types: &TypeMap,
    error_type: &Option<Type>,
    fields: &Vec<RecordFieldValue<Expression>>,
    result_type: Option<&Type>,
) -> (result: Result<(), AnalysisError>)
    requires
        aliases_acyclic(type_map_contents(*types)),
    ensures
        view_unit(result) == try_validated_fields(
            *fields,
            0,
            view_result_type(result_type),
            type_map_contents(*types), view_error_type(*error_type),
        ),
    decreases fields, 0int,
{
    let mut i: usize = 0;
    while i < fields.len()
        invariant
            i <= fields.len(),
            aliases_acyclic(type_map_contents(*types)),
            try_validated_fields(*fields, 0, view_result_type(result_type), type_map_contents(*types), view_error_type(*error_type))
                == try_validated_fields(
                *fields,
                i as int,
                view_result_type(result_type),
                type_map_contents(*types), view_error_type(*error_type),
            ),
        decreases fields.len() - i,
    {
        proof {
            assert(decreases_to!(fields => fields@[i as int]));
            assert(decreases_to!(fields@[i as int] => fields@[i as int].expression));
        }
        validate_expression(types, error_type, &fields[i].expression, result_type)?;
        i = i + 1;
    }
    Ok(())
}

fn validate_iteratees(types: &TypeMap, error_type: &Option<Type>, iteratees: &Vec<ListComprehensionIteratee<Expression>>) -> (result:
    Result<(), AnalysisError>)
    requires
        aliases_acyclic(type_map_contents(*types)),
    ensures
        view_unit(result) == try_validated_iteratees(*iteratees, 0, type_map_contents(*types), view_error_type(*error_type)),
    decreases iteratees, 0int,
{
    let mut j: usize = 0;
    while j < iteratees.len()
        invariant
            j <= iteratees.len(),
            aliases_acyclic(type_map_contents(*types)),
            try_validated_iteratees(*iteratees, 0, type_map_contents(*types), view_error_type(*error_type))
                == try_validated_iteratees(*iteratees, j as int, type_map_contents(*types), view_error_type(*error_type)),
        decreases iteratees.len() - j,
    {
        proof {
            assert(decreases_to!(iteratees => iteratees@[j as int]));
            assert(decreases_to!(iteratees@[j as int] => iteratees@[j as int].expression));
        }
        validate_expression(types, error_type, &iteratees[j].expression, None)?;
        j = j + 1;
    }
    Ok(())
}

fn validate_comprehension(types: &TypeMap, error_type: &Option<Type>, branches: &Vec<ListComprehensionBranch<Expression>>) -> (result:
    Result<(), AnalysisError>)
    requires
        aliases_acyclic(type_map_contents(*types)),
    ensures
        view_unit(result) == try_validated_comprehension(*branches, 0, type_map_contents(*types), view_error_type(*error_type)),
    decreases branches, 0int,
{
    let mut i: usize = 0;
    while i < branches.len()
        invariant
            i <= branches.len(),
            aliases_acyclic(type_map_contents(*types)),
            try_validated_comprehension(*branches, 0, type_map_contents(*types), view_error_type(*error_type))
                == try_validated_comprehension(*branches, i as int, type_map_contents(*types), view_error_type(*error_type)),
        decreases branches.len() - i,
    {
        let branch = &branches[i];
        proof {
            assert(decreases_to!(branches => branches@[i as int]));
            assert(decreases_to!(branches@[i as int] => branches@[i as int].iteratees));
        }
        validate_iteratees(types, error_type, &branch.iteratees)?;
        match &branch.condition {
            Some(condition) => {
                proof {
                    assert(decreases_to!(branches@[i as int] => branches@[i as int].condition));
                    assert(decreases_to!(branches@[i as int].condition => branches@[i as int].condition->0));
                }
                validate_expression(types, error_type, condition, None)?;
            },
            None => {},
        }
        i = i + 1;
    }
    Ok(())
}

/// The try operations of an element of a map literal validate: the key and
/// the value of an entry, or the map spread into the literal.
pub open spec fn map_element_validated(
    element: MapElement<Expression>,
    result_type: Option<SpecType>,
    types: Map<Seq<char>, SpecType>,
    error_type: Option<SpecType>,
) -> bool {
    match element {
        MapElement::Single(entry) => try_validated(entry.key, result_type, types, error_type) is Ok
            && try_validated(entry.value, result_type, types, error_type) is Ok,
        MapElement::Multiple(x) => try_validated(x, result_type, types, error_type) is Ok,
    }
}

proof fn lemma_map_elements_validated(
    elements: Vec<MapElement<Expression>>,
    i: int,
    result_type: Option<SpecType>,
    types: Map<Seq<char>, SpecType>,
    error_type: Option<SpecType>,
)
    requires
        0 <= i <= elements@.len(),
    ensures
        try_validated_map_elements(elements, i, result_type, types, error_type) is Ok <==> forall|j: int|
            i <= j < elements@.len() ==> map_element_validated(
                #[trigger] elements@[j],
                result_type,
                types,
                error_type,
            ),
    decreases elements@.len() - i,
{
    if i < elements@.len() {
        lemma_map_elements_validated(elements, i + 1, result_type, types, error_type);
        if try_validated_map_elements(elements, i, result_type, types, error_type) is Ok {
            assert forall|j: int| i <= j < elements@.len() implies map_element_validated(
                #[trigger] elements@[j],
                result_type,
                types,
                error_type,
            ) by {
                if j > i {
                    assert(i + 1 <= j < elements@.len());
                }
            }
        } else {
            if forall|j: int|
                i <= j < elements@.len() ==> map_element_validated(
                    #[trigger] elements@[j],
                    result_type,
                    types,
                    error_type,
                ) {
                assert(map_element_validated(elements@[i], result_type, types, error_type));
                assert forall|j: int| i + 1 <= j < elements@.len() implies map_element_validated(
                    #[trigger] elements@[j],
                    result_type,
                    types,
                    error_type,
                ) by {}
            }
        }
    }
}

/// The try operations of a map literal validate exactly where those of all
/// its entries do, keys and values alike, in the scope of the literal.
pub proof fn law_map_validated_as_entries(
    expression: Expression,
    result_type: Option<SpecType>,
    types: Map<Seq<char>, SpecType>,
    error_type: Option<SpecType>,
)
    requires
        expression is Mapping,
    ensures
        try_validated(expression, result_type, types, error_type) is Ok <==> forall|j: int|
            0 <= j < expression->Mapping_elements@.len() ==> map_element_validated(
                #[trigger] expression->Mapping_elements@[j],
                result_type,
                types,
                error_type,
            ),
{
    lemma_map_elements_validated(expression->Mapping_elements, 0, result_type, types, error_type);
}

/// A try operation fails where its result type does not subsume the error
/// type, stands in a collection literal, or the context has no error type.
pub proof fn law_misplaced_try_fails(
    operation: Operation<Expression>,
    result_type: Option<SpecType>,
    types: Map<Seq<char>, SpecType>,
    error_type: Option<SpecType>,
)
    requires
        operation is Try,
    ensures
        result_type is None ==> try_validated(Expression::Operation(operation), result_type, types, error_type)
            == Err::<(), SpecAnalysisError>(
            SpecAnalysisError::TryOperationInList(operation->Try_position@),
        ),
        result_type is Some && error_type is None ==> try_validated(
            Expression::Operation(operation),
            result_type,
            types,
            error_type,
        ) == Err::<(), SpecAnalysisError>(SpecAnalysisError::ErrorTypeUndefined),
        result_type is Some && error_type is Some && subsumes(error_type->0, result_type->0, types) == Ok::<
            bool,
            SpecAnalysisError,
        >(false) ==> try_validated(Expression::Operation(operation), result_type, types, error_type)
            == Err::<(), SpecAnalysisError>(SpecAnalysisError::InvalidTryOperation(operation->Try_position@)),
{
}

proof fn lemma_all_validated(
    expressions: Vec<Expression>,
    i: int,
    result_type: Option<SpecType>,
    types: Map<Seq<char>, SpecType>,
    error_type: Option<SpecType>,
)
    requires
        0 <= i <= expressions@.len(),
    ensures
        try_validated_all(expressions, i, result_type, types, error_type) is Ok <==> forall|j: int|
            i <= j < expressions@.len() ==> try_validated(#[trigger] expressions@[j], result_type, types, error_type)
                is Ok,
    decreases expressions@.len() - i,
{
    if i < expressions@.len() {
        lemma_all_validated(expressions, i + 1, result_type, types, error_type);
        if forall|j: int|
            i <= j < expressions@.len() ==> try_validated(#[trigger] expressions@[j], result_type, types, error_type)
                is Ok {
            assert(try_validated(expressions@[i], result_type, types, error_type) is Ok);
        }
    }
}

/// The try operations of a call validate exactly where those of its
/// function and of all its arguments do.
pub proof fn law_call_validated_as_parts(
    expression: Expression,
    result_type: Option<SpecType>,
    types: Map<Seq<char>, SpecType>,
    error_type: Option<SpecType>,
)
    requires
        expression is Call,
    ensures
        try_validated(expression, result_type, types, error_type) is Ok <==> try_validated(
            *expression->Call_function,
            result_type,
            types,
            error_type,
        ) is Ok && forall|j: int|
            0 <= j < expression->Call_arguments@.len() ==> try_validated(
                #[trigger] expression->Call_arguments@[j],
                result_type,
                types,
                error_type,
            ) is Ok,
{
    lemma_all_validated(expression->Call_arguments, 0, result_type, types, error_type);
}

proof fn lemma_fields_validated(
    fields: Vec<RecordFieldValue<Expression>>,
    i: int,
    result_type: Option<SpecType>,
    types: Map<Seq<char>, SpecType>,
    error_type: Option<SpecType>,
)
    requires
        0 <= i <= fields@.len(),
    ensures
        try_validated_fields(fields, i, result_type, types, error_type) is Ok <==> forall|j: int|
            i <= j < fields@.len() ==> try_validated((#[trigger] fields@[j]).expression, result_type, types, error_type)
                is Ok,
    decreases fields@.len() - i,
{
    if i < fields@.len() {
        lemma_fields_validated(fields, i + 1, result_type, types, error_type);
        if forall|j: int|
            i <= j < fields@.len() ==> try_validated((#[trigger] fields@[j]).expression, result_type, types, error_type)
                is Ok {
            assert(try_validated(fields@[i].expression, result_type, types, error_type) is Ok);
        }
    }
}

/// The try operations of a record construction validate exactly where
/// those of all its field values do.
pub proof fn law_record_construction_validated_as_fields(
    expression: Expression,
    result_type: Option<SpecType>,
    types: Map<Seq<char>, SpecType>,
    error_type: Option<SpecType>,
)
    requires
        expression is RecordConstruction,
    ensures
        try_validated(expression, result_type, types, error_type) is Ok <==> forall|j: int|
            0 <= j < expression->RecordConstruction_fields@.len() ==> try_validated(
                (#[trigger] expression->RecordConstruction_fields@[j]).expression,
                result_type,
                types,
                error_type,
            ) is Ok,
{
    lemma_fields_validated(expression->RecordConstruction_fields, 0, result_type, types, error_type);
}

proof fn lemma_list_elements_validated(
    elements: Vec<ListElement<Expression>>,
    i: int,
    types: Map<Seq<char>, SpecType>,
    error_type: Option<SpecType>,
)
    requires
        0 <= i <= elements@.len(),
    ensures
        try_validated_list_elements(elements, i, types, error_type) is Ok <==> forall|j: int|
            i <= j < elements@.len() ==> try_validated(
                match #[trigger] elements@[j] {
                    ListElement::Multiple(x) => x,
                    ListElement::Single(x) => x,
                },
                None,
                types,
                error_type,
            ) is Ok,
    decreases elements@.len() - i,
{
    if i < elements@.len() {
        lemma_list_elements_validated(elements, i + 1, types, error_type);
        if forall|j: int|
            i <= j < elements@.len() ==> try_validated(
                match #[trigger] elements@[j] {
                    ListElement::Multiple(x) => x,
                    ListElement::Single(x) => x,
                },
                None,
                types,
                error_type,
            ) is Ok {
            assert(try_validated(
                match elements@[i] {
                    ListElement::Multiple(x) => x,
                    ListElement::Single(x) => x,
                },
                None,
                types,
                error_type,
            ) is Ok);
        }
    }
}

/// The elements of a list literal are validated with no result type, so
/// that a try operation among them fails, whatever the enclosing function
/// returns; the literal validates exactly where all its elements do.
pub proof fn law_list_validated_as_elements(
    expression: Expression,
    result_type: Option<SpecType>,
    types: Map<Seq<char>, SpecType>,
    error_type: Option<SpecType>,
)
    requires
        expression is List,
    ensures
        try_validated(expression, result_type, types, error_type) is Ok <==> forall|j: int|
            0 <= j < expression->List_elements@.len() ==> try_validated(
                match #[trigger] expression->List_elements@[j] {
                    ListElement::Multiple(x) => x,
                    ListElement::Single(x) => x,
                },
                None,
                types,
                error_type,
            ) is Ok,
{
    lemma_list_elements_validated(expression->List_elements, 0, types, error_type);
}

} // verus!
