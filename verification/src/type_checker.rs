//! Type checking of a module whose types have been inferred: every
//! expression's type must be subsumed by the type that its context expects.
use crate::context::AnalysisContext;
use crate::error::{AnalysisError, SpecAnalysisError};
use crate::ir::{
    expression_position,
    if_types_complete,
    module_if_types_complete,
    Module,
    operation_position,
    BuiltInFunctionName,
    Expression,
    IfTypeBranch,
    Lambda,
    ListComprehensionBranch,
    ListComprehensionIteratee,
    ListElement,
    MapElement,
    Operation,
    RecordFieldValue,
};
use crate::module_environment::{create as create_environment, environment};
use crate::position::{Position, SpecPosition};
use crate::record_field_resolver::{record_fields, resolve as resolve_fields};
use crate::tables::{name_set_contents, record_map_contents, type_map_contents, NameSet, TypeMap};
use crate::type_canonicalizer::{
    aliases_acyclic,
    canonical,
    canonicalizable,
    canonicalize,
    canonicalize_function,
    canonicalize_list,
    canonicalize_map,
};
use crate::type_equality_checker::{check as check_equal, types_equal};
use crate::type_extractor::{
    extract_from_expression,
    extract_from_lambda,
    extracted,
    field_type,
    find_field,
    lambda_type,
    view_type_result,
};
use crate::type_subsumption_checker::{check as check_subsumed, subsumes};
use crate::types::{lemma_view_types, view_fields, view_types, RecordField, SpecRecordField, SpecType, Type};
use crate::union_type_creator::{create, union_of};
use vstd::prelude::*;

verus! {

broadcast use crate::type_extractor::lemma_extraction_ready;

/// `Ok` if `upper` subsumes `lower`, else the error that the types at the
/// positions do not match, or the first error of canonicalizing them.
pub open spec fn subsumption(
    lower: SpecType,
    upper: SpecType,
    lower_position: SpecPosition,
    upper_position: SpecPosition,
    types: Map<Seq<char>, SpecType>,
) -> Result<(), SpecAnalysisError> {
    match subsumes(lower, upper, types) {
        Ok(true) => Ok(()),
        Ok(false) => Err(
            SpecAnalysisError::TypesNotMatched(lower_position, lower, upper_position, upper),
        ),
        Err(error) => Err(error),
    }
}

/// Variables bound to the types of lambda arguments, one after another.
pub open spec fn bind_arguments(
    variables: Map<Seq<char>, SpecType>,
    arguments: Seq<crate::ir::Argument>,
) -> Map<Seq<char>, SpecType>
    decreases arguments.len(),
{
    if arguments.len() == 0 {
        variables
    } else {
        bind_arguments(variables, arguments.drop_last()).insert(
            arguments.last().name@,
            arguments.last().type_@,
        )
    }
}

/// The type of a lambda once its body checks against its result type, its
/// arguments bound; the first error otherwise.
pub open spec fn checked_lambda(
    lambda: Lambda<Expression>,
    variables: Map<Seq<char>, SpecType>,
    types: Map<Seq<char>, SpecType>,
    records: Map<Seq<char>, Seq<SpecRecordField>>,
) -> Result<SpecType, SpecAnalysisError>
    decreases lambda, 0int,
{
    match checked(*lambda.body, bind_arguments(variables, lambda.arguments@), types, records) {
        Ok(body_type) => match subsumption(
            body_type,
            lambda.result_type@,
            expression_position(*lambda.body),
            lambda.result_type@.position_of(),
            types,
        ) {
            Ok(()) => Ok(lambda_type(lambda)),
            Err(error) => Err(error),
        },
        Err(error) => Err(error),
    }
}

/// The type of an expression once it checks, with the types of variables
/// in `variables`; the first error met otherwise.
pub open spec fn checked(
    expression: Expression,
    variables: Map<Seq<char>, SpecType>,
    types: Map<Seq<char>, SpecType>,
    records: Map<Seq<char>, Seq<SpecRecordField>>,
) -> Result<SpecType, SpecAnalysisError>
    decreases expression, 0int,
{
    match expression {
        Expression::Boolean { position, .. } => Ok(SpecType::Boolean { position: position@ }),
        Expression::BuiltInFunction { position, .. } => Err(
            SpecAnalysisError::BuiltInFunctionNotCalled(position@),
        ),
        Expression::Call { function_type, function, arguments, position } => match function_type {
            None => Err(SpecAnalysisError::TypeNotInferred(position@)),
            Some(type_) => match canonical(type_@, types) {
                Err(error) => Err(error),
                Ok(function_type) => if !(function_type is Function) {
                    Err(SpecAnalysisError::FunctionExpected(expression_position(*function), type_@))
                } else if arguments@.len() != function_type->Function_arguments.len() {
                    Err(SpecAnalysisError::ArgumentCount(position@))
                } else {
                    match checked_arguments(
                        arguments,
                        function_type->Function_arguments,
                        0,
                        variables,
                        types,
                        records,
                    ) {
                        Err(error) => Err(error),
                        Ok(()) => match (match *function {
                            Expression::BuiltInFunction { name, .. } => checked_built_in_call(
                                name,
                                arguments,
                                function_type,
                                position@,
                                types,
                            ),
                            _ => match checked(*function, variables, types, records) {
                                Ok(actual) => subsumption(
                                    actual,
                                    type_@,
                                    expression_position(*function),
                                    type_@.position_of(),
                                    types,
                                ),
                                Err(error) => Err(error),
                            },
                        }) {
                            Ok(()) => Ok(*function_type->Function_result),
                            Err(error) => Err(error),
                        },
                    }
                },
            },
        },
        Expression::If { condition, then, else_, position } => match checked(
            *condition,
            variables,
            types,
            records,
        ) {
            Err(error) => Err(error),
            Ok(condition_type) => match subsumption(
                condition_type,
                SpecType::Boolean { position: position@ },
                expression_position(*condition),
                position@,
                types,
            ) {
                Err(error) => Err(error),
                Ok(()) => match checked(*then, variables, types, records) {
                    Err(error) => Err(error),
                    Ok(_) => match checked(*else_, variables, types, records) {
                        Err(error) => Err(error),
                        Ok(_) => extracted(expression, variables, types, records),
                    },
                },
            },
        },
        Expression::IfList { type_, list, first_name, rest_name, then, else_, position } => match type_ {
            None => Err(SpecAnalysisError::TypeNotInferred(expression_position(*list))),
            Some(element) => {
                let list_type = SpecType::List { element: Box::new(element@), position: position@ };
                match checked(*list, variables, types, records) {
                    Err(error) => Err(error),
                    Ok(actual) => match subsumption(
                        actual,
                        list_type,
                        expression_position(*list),
                        position@,
                        types,
                    ) {
                        Err(error) => Err(error),
                        Ok(()) => match checked(
                            *then,
                            variables.insert(
                                first_name@,
                                SpecType::Function {
                                    arguments: Seq::empty(),
                                    result: Box::new(element@),
                                    position: position@,
                                },
                            ).insert(rest_name@, list_type),
                            types,
                            records,
                        ) {
                            Err(error) => Err(error),
                            Ok(_) => match checked(*else_, variables, types, records) {
                                Err(error) => Err(error),
                                Ok(_) => extracted(expression, variables, types, records),
                            },
                        },
                    },
                }
            },
        },
        Expression::IfMap { key_type, value_type, name, map, key, then, else_, position } => {
            if key_type is None || value_type is None {
                Err(SpecAnalysisError::TypeNotInferred(expression_position(*map)))
            } else {
                let key_type = key_type->0@;
                let value_type = value_type->0@;
                let map_type = SpecType::Mapping {
                    key: Box::new(key_type),
                    value: Box::new(value_type),
                    position: position@,
                };
                match checked(*key, variables, types, records) {
                    Err(error) => Err(error),
                    Ok(actual) => match subsumption(
                        actual,
                        key_type,
                        expression_position(*key),
                        key_type.position_of(),
                        types,
                    ) {
                        Err(error) => Err(error),
                        Ok(()) => match checked(*map, variables, types, records) {
                            Err(error) => Err(error),
                            Ok(actual) => match subsumption(
                                actual,
                                map_type,
                                expression_position(*map),
                                position@,
                                types,
                            ) {
                                Err(error) => Err(error),
                                Ok(()) => match checked(
                                    *then,
                                    variables.insert(name@, value_type),
                                    types,
                                    records,
                                ) {
                                    Err(error) => Err(error),
                                    Ok(_) => match checked(*else_, variables, types, records) {
                                        Err(error) => Err(error),
                                        Ok(_) => extracted(expression, variables, types, records),
                                    },
                                },
                            },
                        },
                    },
                }
            }
        },
        Expression::IfType { name, argument, branches, else_, position } => match checked(
            *argument,
            variables,
            types,
            records,
        ) {
            Err(error) => Err(error),
            Ok(actual) => match canonical(actual, types) {
                Err(error) => Err(error),
                Ok(argument_type) => if !(argument_type is Any || argument_type is Union) {
                    Err(
                        SpecAnalysisError::VariantExpected(
                            expression_position(*argument),
                            argument_type,
                        ),
                    )
                } else {
                    match checked_if_branches(
                        branches,
                        0,
                        name@,
                        argument_type,
                        expression_position(*argument),
                        variables,
                        types,
                        records,
                    ) {
                        Err(error) => Err(error),
                        Ok(()) => match (match else_ {
                            Some(branch) => match branch.type_ {
                                None => Err(SpecAnalysisError::TypeNotInferred(branch.position@)),
                                Some(type_) => match checked(
                                    branch.expression,
                                    variables.insert(name@, type_@),
                                    types,
                                    records,
                                ) {
                                    Ok(_) => Ok(()),
                                    Err(error) => Err(error),
                                },
                            },
                            None => match types_equal(
                                argument_type,
                                union_of(
                                    branches@.map_values(
                                        |branch: IfTypeBranch<Expression>| branch.type_@,
                                    ),
                                    position@,
                                ),
                                types,
                            ) {
                                Ok(true) => Ok(()),
                                Ok(false) => Err(SpecAnalysisError::MissingElseBlock(position@)),
                                Err(error) => Err(error),
                            },
                        }) {
                            Err(error) => Err(error),
                            Ok(()) => extracted(expression, variables, types, records),
                        },
                    }
                },
            },
        },
        Expression::Lambda(lambda) => checked_lambda(lambda, variables, types, records),
        Expression::Let { name, type_, bound_expression, expression: body, .. } => match type_ {
            None => Err(SpecAnalysisError::TypeNotInferred(expression_position(*bound_expression))),
            Some(bound_type) => match checked(*bound_expression, variables, types, records) {
                Err(error) => Err(error),
                Ok(actual) => match subsumption(
                    actual,
                    bound_type@,
                    expression_position(*bound_expression),
                    bound_type@.position_of(),
                    types,
                ) {
                    Err(error) => Err(error),
                    Ok(()) => checked(
                        *body,
                        match name {
                            Some(name) => variables.insert(name@, bound_type@),
                            None => variables,
                        },
                        types,
                        records,
                    ),
                },
            },
        },
        Expression::List { type_, elements, position } => match checked_list_elements(
            elements,
            0,
            type_@,
            variables,
            types,
            records,
        ) {
            Err(error) => Err(error),
            Ok(()) => Ok(SpecType::List { element: Box::new(type_@), position: position@ }),
        },
        Expression::ListComprehension { type_, element, branches, position } => match checked_comprehension_branches(
            branches,
            0,
            variables,
            types,
            records,
        ) {
            Err(error) => Err(error),
            Ok(scope) => match checked(*element, scope, types, records) {
                Err(error) => Err(error),
                Ok(actual) => match subsumption(
                    actual,
                    type_@,
                    expression_position(*element),
                    type_@.position_of(),
                    types,
                ) {
                    Err(error) => Err(error),
                    Ok(()) => Ok(SpecType::List { element: Box::new(type_@), position: position@ }),
                },
            },
        },
        Expression::Mapping { key_type, value_type, elements, position } => match checked_map_elements(
            elements,
            0,
            key_type@,
            value_type@,
            variables,
            types,
            records,
        ) {
            Err(error) => Err(error),
            Ok(()) => Ok(
                SpecType::Mapping {
                    key: Box::new(key_type@),
                    value: Box::new(value_type@),
                    position: position@,
                },
            ),
        },
        Expression::Unit { position } => Ok(SpecType::Unit { position: position@ }),
        Expression::Number { position, .. } => Ok(SpecType::Number { position: position@ }),
        Expression::Operation(operation) => checked_operation(operation, variables, types, records),
        Expression::RecordConstruction { type_, fields, position } => match record_fields(
            type_@,
            type_@.position_of(),
            types,
            records,
        ) {
            Err(error) => Err(error),
            Ok(field_types) => match checked_fields(fields, 0, field_types, variables, types, records) {
                Err(error) => Err(error),
                Ok(()) => match missing_field(fields@, field_types, 0) {
                    Some(name) => Err(SpecAnalysisError::RecordFieldNotFound(name, position@)),
                    None => Ok(type_@),
                },
            },
        },
        Expression::RecordDeconstruction { type_, record, field_name, position } => match type_ {
            None => Err(SpecAnalysisError::TypeNotInferred(position@)),
            Some(record_type) => match checked(*record, variables, types, records) {
                Err(error) => Err(error),
                Ok(actual) => match subsumption(
                    actual,
                    record_type@,
                    expression_position(*record),
                    record_type@.position_of(),
                    types,
                ) {
                    Err(error) => Err(error),
                    Ok(()) => match record_fields(
                        record_type@,
                        expression_position(*record),
                        types,
                        records,
                    ) {
                        Err(error) => Err(error),
                        Ok(field_types) => match field_type(field_types, field_name@) {
                            Some(type_) => Ok(type_),
                            None => Err(SpecAnalysisError::UnknownRecordField(position@)),
                        },
                    },
                },
            },
        },
        Expression::RecordUpdate { type_, record, fields, .. } => match checked(
            *record,
            variables,
            types,
            records,
        ) {
            Err(error) => Err(error),
            Ok(actual) => match subsumption(
                actual,
                type_@,
                expression_position(*record),
                type_@.position_of(),
                types,
            ) {
                Err(error) => Err(error),
                Ok(()) => match record_fields(type_@, type_@.position_of(), types, records) {
                    Err(error) => Err(error),
                    Ok(field_types) => match checked_fields(
                        fields,
                        0,
                        field_types,
                        variables,
                        types,
                        records,
                    ) {
                        Err(error) => Err(error),
                        Ok(()) => Ok(type_@),
                    },
                },
            },
        },
        Expression::String { position, .. } => Ok(SpecType::String { position: position@ }),
        Expression::Thunk { type_, expression: body, position } => match type_ {
            None => Err(SpecAnalysisError::TypeNotInferred(position@)),
            Some(type_) => match checked(*body, variables, types, records) {
                Err(error) => Err(error),
                Ok(actual) => match subsumption(
                    actual,
                    type_@,
                    expression_position(*body),
                    type_@.position_of(),
                    types,
                ) {
                    Err(error) => Err(error),
                    Ok(()) => extracted(expression, variables, types, records),
                },
            },
        },
        Expression::TypeCoercion { from, to, argument, .. } => match checked(
            *argument,
            variables,
            types,
            records,
        ) {
            Err(error) => Err(error),
            Ok(actual) => match subsumption(
                actual,
                from@,
                expression_position(*argument),
                from@.position_of(),
                types,
            ) {
                Err(error) => Err(error),
                Ok(()) => match canonical(to@, types) {
                    Err(error) => Err(error),
                    Ok(to_type) => if to_type is List || to_type is Mapping {
                        Ok(to@)
                    } else {
                        match subsumption(
                            from@,
                            to@,
                            from@.position_of(),
                            to@.position_of(),
                            types,
                        ) {
                            Err(error) => Err(error),
                            Ok(()) => Ok(to@),
                        }
                    },
                },
            },
        },
        Expression::Variable { name, position } => if variables.contains_key(name@) {
            Ok(variables[name@])
        } else {
            Err(SpecAnalysisError::VariableNotFound(name@, position@))
        },
    }
}

/// The arguments of a call from the `i`th on check against the argument
/// types of its function; the first error otherwise.
pub open spec fn checked_arguments(
    arguments: Vec<Expression>,
    argument_types: Seq<SpecType>,
    i: int,
    variables: Map<Seq<char>, SpecType>,
    types: Map<Seq<char>, SpecType>,
    records: Map<Seq<char>, Seq<SpecRecordField>>,
) -> Result<(), SpecAnalysisError>
    decreases arguments, arguments@.len() - i,
{
    if i < 0 || i >= arguments@.len() {
        Ok(())
    } else {
        match checked(arguments@[i], variables, types, records) {
            Err(error) => Err(error),
            Ok(actual) => match subsumption(
                actual,
                argument_types[i],
                expression_position(arguments@[i]),
                argument_types[i].position_of(),
                types,
            ) {
                Err(error) => Err(error),
                Ok(()) => checked_arguments(arguments, argument_types, i + 1, variables, types, records),
            },
        }
    }
}

/// The branches of an if-type expression from the `i`th on: each type is
/// subsumed by the argument's, each expression checks with the name bound
/// to the branch's type, and no type is `any`; the first error otherwise.
pub open spec fn checked_if_branches(
    branches: Vec<IfTypeBranch<Expression>>,
    i: int,
    name: Seq<char>,
    argument_type: SpecType,
    argument_position: SpecPosition,
    variables: Map<Seq<char>, SpecType>,
    types: Map<Seq<char>, SpecType>,
    records: Map<Seq<char>, Seq<SpecRecordField>>,
) -> Result<(), SpecAnalysisError>
    decreases branches, branches@.len() - i,
{
    if i < 0 || i >= branches@.len() {
        Ok(())
    } else {
        let branch = branches@[i];
        match subsumption(
            branch.type_@,
            argument_type,
            branch.type_@.position_of(),
            argument_position,
            types,
        ) {
            Err(error) => Err(error),
            Ok(()) => match checked(
                branch.expression,
                variables.insert(name, branch.type_@),
                types,
                records,
            ) {
                Err(error) => Err(error),
                Ok(_) => match canonical(branch.type_@, types) {
                    Err(error) => Err(error),
                    Ok(canonical_type) => if canonical_type is Any {
                        Err(SpecAnalysisError::AnyTypeBranch(branch.type_@.position_of()))
                    } else {
                        checked_if_branches(
                            branches,
                            i + 1,
                            name,
                            argument_type,
                            argument_position,
                            variables,
                            types,
                            records,
                        )
                    },
                },
            },
        }
    }
}

/// The elements of a list literal from the `i`th on check against its
/// element type; the first error otherwise.
pub open spec fn checked_list_elements(
    elements: Vec<ListElement<Expression>>,
    i: int,
    element_type: SpecType,
    variables: Map<Seq<char>, SpecType>,
    types: Map<Seq<char>, SpecType>,
    records: Map<Seq<char>, Seq<SpecRecordField>>,
) -> Result<(), SpecAnalysisError>
    decreases elements, elements@.len() - i,
{
    if i < 0 || i >= elements@.len() {
        Ok(())
    } else {
        match (match elements@[i] {
            ListElement::Multiple(expression) => match checked(expression, variables, types, records) {
                Err(error) => Err(error),
                Ok(actual) => match canonical(actual, types) {
                    Err(error) => Err(error),
                    Ok(list_type) => if list_type is List {
                        subsumption(
                            *list_type->List_element,
                            element_type,
                            expression_position(expression),
                            element_type.position_of(),
                            types,
                        )
                    } else {
                        Err(SpecAnalysisError::ListExpected(expression_position(expression), actual))
                    },
                },
            },
            ListElement::Single(expression) => match checked(expression, variables, types, records) {
                Err(error) => Err(error),
                Ok(actual) => subsumption(
                    actual,
                    element_type,
                    expression_position(expression),
                    element_type.position_of(),
                    types,
                ),
            },
        }) {
            Err(error) => Err(error),
            Ok(()) => checked_list_elements(elements, i + 1, element_type, variables, types, records),
        }
    }
}

/// The elements of a map literal from the `i`th on check against its key
/// and value types; the first error otherwise.
pub open spec fn checked_map_elements(
    elements: Vec<MapElement<Expression>>,
    i: int,
    key_type: SpecType,
    value_type: SpecType,
    variables: Map<Seq<char>, SpecType>,
    types: Map<Seq<char>, SpecType>,
    records: Map<Seq<char>, Seq<SpecRecordField>>,
) -> Result<(), SpecAnalysisError>
    decreases elements, elements@.len() - i,
{
    if i < 0 || i >= elements@.len() {
        Ok(())
    } else {
        match (match elements@[i] {
            MapElement::Single(entry) => match checked(entry.key, variables, types, records) {
                Err(error) => Err(error),
                Ok(actual) => match subsumption(
                    actual,
                    key_type,
                    expression_position(entry.key),
                    key_type.position_of(),
                    types,
                ) {
                    Err(error) => Err(error),
                    Ok(()) => match checked(entry.value, variables, types, records) {
                        Err(error) => Err(error),
                        Ok(actual) => subsumption(
                            actual,
                            value_type,
                            expression_position(entry.value),
                            value_type.position_of(),
                            types,
                        ),
                    },
                },
            },
            MapElement::Multiple(expression) => match checked(expression, variables, types, records) {
                Err(error) => Err(error),
                Ok(actual) => match canonical(actual, types) {
                    Err(error) => Err(error),
                    Ok(map_type) => if map_type is Mapping {
                        match subsumption(
                            *map_type->Mapping_key,
                            key_type,
                            map_type->Mapping_key.position_of(),
                            key_type.position_of(),
                            types,
                        ) {
                            Err(error) => Err(error),
                            Ok(()) => subsumption(
                                *map_type->Mapping_value,
                                value_type,
                                map_type->Mapping_value.position_of(),
                                value_type.position_of(),
                                types,
                            ),
                        }
                    } else {
                        Err(SpecAnalysisError::MapExpected(expression_position(expression), actual))
                    },
                },
            },
        }) {
            Err(error) => Err(error),
            Ok(()) => checked_map_elements(
                elements,
                i + 1,
                key_type,
                value_type,
                variables,
                types,
                records,
            ),
        }
    }
}

/// The variables in scope after the iteratees of a list comprehension
/// branch from the `j`th on: each checks against its inferred list type,
/// and its name is then bound to a thunk of the element type; the first
/// error otherwise.
pub open spec fn checked_iteratees(
    names: Seq<String>,
    iteratees: Vec<ListComprehensionIteratee<Expression>>,
    j: int,
    variables: Map<Seq<char>, SpecType>,
    types: Map<Seq<char>, SpecType>,
    records: Map<Seq<char>, Seq<SpecRecordField>>,
) -> Result<Map<Seq<char>, SpecType>, SpecAnalysisError>
    decreases iteratees, iteratees@.len() - j,
{
    if j < 0 || j >= iteratees@.len() {
        Ok(variables)
    } else {
        let iteratee = iteratees@[j];
        match iteratee.type_ {
            None => Err(SpecAnalysisError::TypeNotInferred(iteratee.position@)),
            Some(type_) => match checked(iteratee.expression, variables, types, records) {
                Err(error) => Err(error),
                Ok(actual) => match subsumption(
                    actual,
                    type_@,
                    expression_position(iteratee.expression),
                    expression_position(iteratee.expression),
                    types,
                ) {
                    Err(error) => Err(error),
                    Ok(()) => match canonical(type_@, types) {
                        Err(error) => Err(error),
                        Ok(list_type) => if list_type is List {
                            checked_iteratees(
                                names,
                                iteratees,
                                j + 1,
                                variables.insert(
                                    names[j]@,
                                    SpecType::Function {
                                        arguments: Seq::empty(),
                                        result: list_type->List_element,
                                        position: iteratee.position@,
                                    },
                                ),
                                types,
                                records,
                            )
                        } else {
                            Err(
                                SpecAnalysisError::ListExpected(
                                    expression_position(iteratee.expression),
                                    type_@,
                                ),
                            )
                        },
                    },
                },
            },
        }
    }
}

/// The variables in scope after the branches of a list comprehension from
/// the `i`th on: each has as many names as iteratees, its iteratees check,
/// and its condition checks against booleans; the first error otherwise.
pub open spec fn checked_comprehension_branches(
    branches: Vec<ListComprehensionBranch<Expression>>,
    i: int,
    variables: Map<Seq<char>, SpecType>,
    types: Map<Seq<char>, SpecType>,
    records: Map<Seq<char>, Seq<SpecRecordField>>,
) -> Result<Map<Seq<char>, SpecType>, SpecAnalysisError>
    decreases branches, branches@.len() - i,
{
    if i < 0 || i >= branches@.len() {
        Ok(variables)
    } else {
        let branch = branches@[i];
        if branch.names@.len() != branch.iteratees@.len() {
            Err(SpecAnalysisError::ListComprehensionIterateeCount(branch.position@))
        } else {
            match checked_iteratees(branch.names@, branch.iteratees, 0, variables, types, records) {
                Err(error) => Err(error),
                Ok(scope) => match (match branch.condition {
                    Some(condition) => match checked(condition, scope, types, records) {
                        Err(error) => Err(error),
                        Ok(actual) => subsumption(
                            actual,
                            SpecType::Boolean { position: branch.position@ },
                            expression_position(condition),
                            expression_position(condition),
                            types,
                        ),
                    },
                    None => Ok(()),
                }) {
                    Err(error) => Err(error),
                    Ok(()) => checked_comprehension_branches(branches, i + 1, scope, types, records),
                },
            }
        }
    }
}

/// The fields of a record construction or update from the `i`th on are
/// fields of the record and check against their types; the first error
/// otherwise.
pub open spec fn checked_fields(
    fields: Vec<RecordFieldValue<Expression>>,
    i: int,
    field_types: Seq<SpecRecordField>,
    variables: Map<Seq<char>, SpecType>,
    types: Map<Seq<char>, SpecType>,
    records: Map<Seq<char>, Seq<SpecRecordField>>,
) -> Result<(), SpecAnalysisError>
    decreases fields, fields@.len() - i,
{
    if i < 0 || i >= fields@.len() {
        Ok(())
    } else {
        let field = fields@[i];
        match field_type(field_types, field.name@) {
            None => Err(SpecAnalysisError::UnknownRecordField(field.position@)),
            Some(type_) => match checked(field.expression, variables, types, records) {
                Err(error) => Err(error),
                Ok(actual) => match subsumption(
                    actual,
                    type_,
                    expression_position(field.expression),
                    type_.position_of(),
                    types,
                ) {
                    Err(error) => Err(error),
                    Ok(()) => checked_fields(fields, i + 1, field_types, variables, types, records),
                },
            },
        }
    }
}

/// The name of the first record field from the `k`th on that no field of
/// a construction sets.
pub open spec fn missing_field(
    fields: Seq<RecordFieldValue<Expression>>,
    field_types: Seq<SpecRecordField>,
    k: int,
) -> Option<Seq<char>>
    decreases field_types.len() - k,
{
    if k < 0 || k >= field_types.len() {
        None
    } else if exists|i: int| 0 <= i < fields.len() && #[trigger] fields[i].name@ == field_types[k].name {
        missing_field(fields, field_types, k + 1)
    } else {
        Some(field_types[k].name)
    }
}

/// What the checks of a call of a built-in function find, given the
/// canonical type of the function.
pub open spec fn checked_built_in_call(
    name: BuiltInFunctionName,
    arguments: Vec<Expression>,
    function_type: SpecType,
    position: SpecPosition,
    types: Map<Seq<char>, SpecType>,
) -> Result<(), SpecAnalysisError> {
    let argument_types = function_type->Function_arguments;
    match name {
        BuiltInFunctionName::Delete => if argument_types.len() != 2 || arguments@.len() != 2 {
            Err(SpecAnalysisError::ArgumentCount(position))
        } else {
            match subsumption(
                argument_types[0],
                *function_type->Function_result,
                expression_position(arguments@[0]),
                position,
                types,
            ) {
                Err(error) => Err(error),
                Ok(()) => match canonical(argument_types[0], types) {
                    Err(error) => Err(error),
                    Ok(map_type) => if map_type is Mapping {
                        subsumption(
                            argument_types[1],
                            *map_type->Mapping_key,
                            expression_position(arguments@[1]),
                            position,
                            types,
                        )
                    } else {
                        Err(
                            SpecAnalysisError::MapExpected(
                                expression_position(arguments@[0]),
                                argument_types[0],
                            ),
                        )
                    },
                },
            }
        },
        BuiltInFunctionName::Race => if argument_types.len() != 1 || arguments@.len() != 1 {
            Err(SpecAnalysisError::ArgumentCount(position))
        } else {
            match canonical(argument_types[0], types) {
                Err(error) => Err(error),
                Ok(list_type) => if list_type is List {
                    match canonical(*list_type->List_element, types) {
                        Err(error) => Err(error),
                        Ok(element_type) => if element_type is List {
                            Ok(())
                        } else {
                            Err(
                                SpecAnalysisError::ListExpected(
                                    expression_position(arguments@[0]),
                                    *list_type->List_element,
                                ),
                            )
                        },
                    }
                } else {
                    Err(
                        SpecAnalysisError::ListExpected(
                            expression_position(arguments@[0]),
                            argument_types[0],
                        ),
                    )
                },
            }
        },
        BuiltInFunctionName::Size => if argument_types.len() != 1 || arguments@.len() != 1 {
            Err(SpecAnalysisError::ArgumentCount(position))
        } else if argument_types[0] is List || argument_types[0] is Mapping {
            Ok(())
        } else {
            Err(
                SpecAnalysisError::CollectionExpected(
                    expression_position(arguments@[0]),
                    argument_types[0],
                ),
            )
        },
        BuiltInFunctionName::Spawn => if argument_types.len() != 1 || arguments@.len() != 1 {
            Err(SpecAnalysisError::ArgumentCount(position))
        } else {
            match canonical(argument_types[0], types) {
                Err(error) => Err(error),
                Ok(spawned) => if !(spawned is Function) {
                    Err(
                        SpecAnalysisError::FunctionExpected(
                            expression_position(arguments@[0]),
                            argument_types[0],
                        ),
                    )
                } else if spawned->Function_arguments.len() != 0 {
                    Err(SpecAnalysisError::SpawnedFunctionArguments(position))
                } else {
                    Ok(())
                },
            }
        },
        _ => Ok(()),
    }
}

/// The type of an operation once its operands check; the first error
/// otherwise.
pub open spec fn checked_operation(
    operation: Operation<Expression>,
    variables: Map<Seq<char>, SpecType>,
    types: Map<Seq<char>, SpecType>,
    records: Map<Seq<char>, Seq<SpecRecordField>>,
) -> Result<SpecType, SpecAnalysisError>
    decreases operation, 0int,
{
    let position = operation_position(operation);
    let number = SpecType::Number { position };
    let boolean = SpecType::Boolean { position };
    match operation {
        Operation::Addition { type_, lhs, rhs, .. } => match type_ {
            None => Err(SpecAnalysisError::TypeNotInferred(position)),
            Some(type_) => match checked(*lhs, variables, types, records) {
                Err(error) => Err(error),
                Ok(lhs_type) => match checked(*rhs, variables, types, records) {
                    Err(error) => Err(error),
                    Ok(rhs_type) => match types_equal(type_@, number, types) {
                        Err(error) => Err(error),
                        Ok(true) => operands_subsumed(
                            lhs_type,
                            rhs_type,
                            number,
                            *lhs,
                            *rhs,
                            position,
                            type_@,
                            types,
                        ),
                        Ok(false) => match types_equal(type_@, SpecType::String { position }, types) {
                            Err(error) => Err(error),
                            Ok(true) => operands_subsumed(
                                lhs_type,
                                rhs_type,
                                SpecType::String { position },
                                *lhs,
                                *rhs,
                                position,
                                type_@,
                                types,
                            ),
                            Ok(false) => Err(
                                SpecAnalysisError::InvalidAdditionOperand(type_@.position_of()),
                            ),
                        },
                    },
                },
            },
        },
        Operation::Arithmetic { lhs, rhs, .. } => operands_checked(
            checked(*lhs, variables, types, records),
            checked(*rhs, variables, types, records),
            *lhs,
            *rhs,
            number,
            position,
            number,
            types,
        ),
        Operation::Boolean { lhs, rhs, .. } => operands_checked(
            checked(*lhs, variables, types, records),
            checked(*rhs, variables, types, records),
            *lhs,
            *rhs,
            boolean,
            position,
            boolean,
            types,
        ),
        Operation::Equality { type_, lhs, rhs, .. } => match type_ {
            None => Err(SpecAnalysisError::TypeNotInferred(position)),
            Some(operand_type) => match operands_checked(
                checked(*lhs, variables, types, records),
                checked(*rhs, variables, types, records),
                *lhs,
                *rhs,
                operand_type@,
                position,
                boolean,
                types,
            ) {
                Err(error) => Err(error),
                Ok(_) => match extracted(*lhs, variables, types, records) {
                    Err(error) => Err(error),
                    Ok(lhs_type) => match extracted(*rhs, variables, types, records) {
                        Err(error) => Err(error),
                        Ok(rhs_type) => match subsumes(lhs_type, rhs_type, types) {
                            Err(error) => Err(error),
                            Ok(true) => Ok(boolean),
                            Ok(false) => match subsumes(rhs_type, lhs_type, types) {
                                Err(error) => Err(error),
                                Ok(true) => Ok(boolean),
                                Ok(false) => Err(
                                    SpecAnalysisError::TypesNotMatched(
                                        expression_position(*lhs),
                                        lhs_type,
                                        expression_position(*rhs),
                                        rhs_type,
                                    ),
                                ),
                            },
                        },
                    },
                },
            },
        },
        Operation::Not { expression, .. } => match checked(*expression, variables, types, records) {
            Err(error) => Err(error),
            Ok(actual) => match subsumption(
                actual,
                boolean,
                expression_position(*expression),
                position,
                types,
            ) {
                Err(error) => Err(error),
                Ok(()) => Ok(boolean),
            },
        },
        Operation::Order { lhs, rhs, .. } => operands_checked(
            checked(*lhs, variables, types, records),
            checked(*rhs, variables, types, records),
            *lhs,
            *rhs,
            number,
            position,
            boolean,
            types,
        ),
        Operation::Try { type_, expression, .. } => match type_ {
            None => Err(SpecAnalysisError::TypeNotInferred(position)),
            Some(success_type) => match checked(*expression, variables, types, records) {
                Err(error) => Err(error),
                Ok(union_type) => {
                    let error_type = SpecType::Error { position };
                    match subsumption(
                        error_type,
                        union_type,
                        position,
                        expression_position(*expression),
                        types,
                    ) {
                        Err(error) => Err(error),
                        Ok(()) => match subsumption(
                            success_type@,
                            union_type,
                            position,
                            expression_position(*expression),
                            types,
                        ) {
                            Err(error) => Err(error),
                            Ok(()) => match subsumption(
                                union_type,
                                SpecType::Union {
                                    lhs: Box::new(success_type@),
                                    rhs: Box::new(error_type),
                                    position,
                                },
                                expression_position(*expression),
                                position,
                                types,
                            ) {
                                Err(error) => Err(error),
                                Ok(()) => Ok(success_type@),
                            },
                        },
                    }
                },
            },
        },
    }
}

/// Both operands' types are subsumed by `operand_type`: then `result`; the
/// first error otherwise.
pub open spec fn operands_subsumed(
    lhs_type: SpecType,
    rhs_type: SpecType,
    operand_type: SpecType,
    lhs: Expression,
    rhs: Expression,
    position: SpecPosition,
    result: SpecType,
    types: Map<Seq<char>, SpecType>,
) -> Result<SpecType, SpecAnalysisError> {
    match subsumption(lhs_type, operand_type, expression_position(lhs), position, types) {
        Err(error) => Err(error),
        Ok(()) => match subsumption(rhs_type, operand_type, expression_position(rhs), position, types) {
            Err(error) => Err(error),
            Ok(()) => Ok(result),
        },
    }
}

/// Given what checking the operands gives, both check and their types are
/// subsumed by `operand_type` at `position`: then `result`; the first error
/// otherwise.
pub open spec fn operands_checked(
    lhs_checked: Result<SpecType, SpecAnalysisError>,
    rhs_checked: Result<SpecType, SpecAnalysisError>,
    lhs: Expression,
    rhs: Expression,
    operand_type: SpecType,
    position: SpecPosition,
    result: SpecType,
    types: Map<Seq<char>, SpecType>,
) -> Result<SpecType, SpecAnalysisError> {
    match lhs_checked {
        Err(error) => Err(error),
        Ok(lhs_type) => match subsumption(
            lhs_type,
            operand_type,
            expression_position(lhs),
            position,
            types,
        ) {
            Err(error) => Err(error),
            Ok(()) => match rhs_checked {
                Err(error) => Err(error),
                Ok(rhs_type) => match subsumption(
                    rhs_type,
                    operand_type,
                    expression_position(rhs),
                    position,
                    types,
                ) {
                    Err(error) => Err(error),
                    Ok(()) => Ok(result),
                },
            },
        },
    }
}

/// The models of a result that holds nothing.
pub open spec fn view_unit_result(result: Result<(), AnalysisError>) -> Result<(), SpecAnalysisError> {
    match result {
        Ok(()) => Ok(()),
        Err(error) => Err(error@),
    }
}

/// Checks that `upper` subsumes `lower`.
pub fn check_subsumption(
    lower: &Type,
    upper: &Type,
    lower_position: &Position,
    upper_position: &Position,
    types: &TypeMap,
) -> (result: Result<(), AnalysisError>)
    requires
        aliases_acyclic(type_map_contents(*types)),
    ensures
        view_unit_result(result) == subsumption(
            lower@,
            upper@,
            lower_position@,
            upper_position@,
            type_map_contents(*types),
        ),
{
    proof {
        assert(canonicalizable(lower@, type_map_contents(*types)));
        assert(canonicalizable(upper@, type_map_contents(*types)));
    }
    if check_subsumed(lower, upper, types)? {
        Ok(())
    } else {
        Err(
            AnalysisError::TypesNotMatched(
                lower_position.copy(),
                lower.clone(),
                upper_position.copy(),
                upper.clone(),
            ),
        )
    }
}

/// Checks the types of the function definitions of a module, with the
/// types of the names that the module defines or declares.
pub fn check_types(context: &AnalysisContext, module: &Module) -> (result: Result<(), AnalysisError>)
    requires
        aliases_acyclic(type_map_contents(*context.types())),
        module_if_types_complete(*module),
    ensures
        match result {
            Ok(()) => forall|i: int|
                0 <= i < module.function_definitions@.len() ==> checked_lambda(
                    #[trigger] module.function_definitions@[i].lambda,
                    environment(*module),
                    type_map_contents(*context.types()),
                    record_map_contents(*context.records()),
                ) is Ok,
            Err(error) => exists|i: int|
                0 <= i < module.function_definitions@.len() && checked_lambda(
                    #[trigger] module.function_definitions@[i].lambda,
                    environment(*module),
                    type_map_contents(*context.types()),
                    record_map_contents(*context.records()),
                ) == Err::<SpecType, SpecAnalysisError>(error@) && forall|k: int|
                    0 <= k < i ==> checked_lambda(
                        #[trigger] module.function_definitions@[k].lambda,
                        environment(*module),
                        type_map_contents(*context.types()),
                        record_map_contents(*context.records()),
                    ) is Ok,
        },
{
    let variables = create_environment(module);
    let mut i: usize = 0;
    while i < module.function_definitions.len()
        invariant
            i <= module.function_definitions.len(),
            aliases_acyclic(type_map_contents(*context.types())),
            module_if_types_complete(*module),
            type_map_contents(variables) == environment(*module),
            forall|k: int|
                0 <= k < i ==> checked_lambda(
                    #[trigger] module.function_definitions@[k].lambda,
                    environment(*module),
                    type_map_contents(*context.types()),
                    record_map_contents(*context.records()),
                ) is Ok,
        decreases module.function_definitions.len() - i,
    {
        let result = check_lambda(context, &module.function_definitions[i].lambda, &variables);
        match result {
            Ok(_) => {},
            Err(error) => {
                return Err(error);
            },
        }
        i = i + 1;
    }
    Ok(())
}

pub(crate) fn bind_lambda_arguments(variables: &TypeMap, lambda: &Lambda<Expression>) -> (scope: TypeMap)
    ensures
        type_map_contents(scope) == bind_arguments(type_map_contents(*variables), lambda.arguments@),
{
    let mut scope = variables.duplicate();
    let mut i: usize = 0;
    while i < lambda.arguments.len()
        invariant
            i <= lambda.arguments.len(),
            type_map_contents(scope) == bind_arguments(
                type_map_contents(*variables),
                lambda.arguments@.take(i as int),
            ),
        decreases lambda.arguments.len() - i,
    {
        scope.insert(lambda.arguments[i].name.clone(), lambda.arguments[i].type_.clone());
        proof {
            assert(lambda.arguments@.take(i + 1).drop_last() =~= lambda.arguments@.take(i as int));
        }
        i = i + 1;
    }
    proof {
        assert(lambda.arguments@.take(i as int) =~= lambda.arguments@);
    }
    scope
}

/// Checks a lambda: its body against its result type, with its arguments
/// bound; its type if it checks.
pub fn check_lambda(context: &AnalysisContext, lambda: &Lambda<Expression>, variables: &TypeMap) -> (type_:
    Result<Type, AnalysisError>)
    requires
        aliases_acyclic(type_map_contents(*context.types())),
        if_types_complete(*lambda.body),
    ensures
        view_type_result(type_) == checked_lambda(
            *lambda,
            type_map_contents(*variables),
            type_map_contents(*context.types()),
            record_map_contents(*context.records()),
        ),
    decreases lambda, 0int,
{
    let scope = bind_lambda_arguments(variables, lambda);
    let body_type = check_expression(context, &lambda.body, &scope)?;
    check_subsumption(
        &body_type,
        &lambda.result_type,
        lambda.body.position(),
        lambda.result_type.position(),
        context.types(),
    )?;
    Ok(extract_from_lambda(lambda))
}

/// Checks an expression; its type if it checks.
pub fn check_expression(context: &AnalysisContext, expression: &Expression, variables: &TypeMap) -> (type_:
    Result<Type, AnalysisError>)
    requires
        aliases_acyclic(type_map_contents(*context.types())),
        if_types_complete(*expression),
    ensures
        view_type_result(type_) == checked(
            *expression,
            type_map_contents(*variables),
            type_map_contents(*context.types()),
            record_map_contents(*context.records()),
        ),
    decreases expression, 2int,
{
    match expression {
        Expression::Boolean { position, .. } => Ok(Type::Boolean { position: position.copy() }),
        Expression::BuiltInFunction { position, .. } => Err(
            AnalysisError::BuiltInFunctionNotCalled(position.copy()),
        ),
        Expression::Call { .. } => check_call(context, expression, variables),
        Expression::If { .. } => check_if(context, expression, variables),
        Expression::IfList { .. } => check_if_list(context, expression, variables),
        Expression::IfMap { .. } => check_if_map(context, expression, variables),
        Expression::IfType { .. } => check_if_type(context, expression, variables),
        Expression::Lambda(lambda) => check_lambda(context, lambda, variables),
        Expression::Let { .. } => check_let(context, expression, variables),
        Expression::List { type_, elements, position } => {
            check_list_elements(context, elements, type_, variables)?;
            Ok(Type::List { element: Box::new(type_.clone()), position: position.copy() })
        },
        Expression::ListComprehension { .. } => check_list_comprehension(context, expression, variables),
        Expression::Mapping { key_type, value_type, elements, position } => {
            check_map_elements(context, elements, key_type, value_type, variables)?;
            Ok(
                Type::Mapping {
                    key: Box::new(key_type.clone()),
                    value: Box::new(value_type.clone()),
                    position: position.copy(),
                },
            )
        },
        Expression::Unit { position } => Ok(Type::Unit { position: position.copy() }),
        Expression::Number { position, .. } => Ok(Type::Number { position: position.copy() }),
        Expression::Operation(operation) => check_operation(context, operation, variables),
        Expression::RecordConstruction { .. } => check_record_construction(context, expression, variables),
        Expression::RecordDeconstruction { .. } => check_record_deconstruction(
            context,
            expression,
            variables,
        ),
        Expression::RecordUpdate { .. } => check_record_update(context, expression, variables),
        Expression::String { position, .. } => Ok(Type::String { position: position.copy() }),
        Expression::Thunk { .. } => check_thunk(context, expression, variables),
        Expression::TypeCoercion { .. } => check_type_coercion(context, expression, variables),
        Expression::Variable { name, position } => match variables.get(name.as_str()) {
            Some(type_) => Ok(type_.clone()),
            None => Err(AnalysisError::VariableNotFound(name.clone(), position.copy())),
        },
    }
}

fn check_call(context: &AnalysisContext, expression: &Expression, variables: &TypeMap) -> (type_:
    Result<Type, AnalysisError>)
    requires
        aliases_acyclic(type_map_contents(*context.types())),
        if_types_complete(*expression),
        expression is Call,
    ensures
        view_type_result(type_) == checked(
            *expression,
            type_map_contents(*variables),
            type_map_contents(*context.types()),
            record_map_contents(*context.records()),
        ),
    decreases expression, 1int,
{
    let types = context.types();
    match expression {
        Expression::Call { function_type, function, arguments, position } => {
            let type_ = match function_type {
                Some(type_) => type_,
                None => {
                    return Err(AnalysisError::TypeNotInferred(position.copy()));
                },
            };
            proof {
                assert(canonicalizable(type_@, type_map_contents(*types)));
            }
            let canonical_function = match canonicalize_function(type_, types)? {
                Some(canonical_function) => canonical_function,
                None => {
                    return Err(AnalysisError::FunctionExpected(function.position().copy(), type_.clone()));
                },
            };
            match &canonical_function {
                Type::Function { arguments: argument_types, result, .. } => {
                    proof {
                        lemma_view_types(argument_types@);
                    }
                    if arguments.len() != argument_types.len() {
                        return Err(AnalysisError::ArgumentCount(position.copy()));
                    }
                    check_arguments(context, arguments, argument_types, variables)?;
                    match &**function {
                        Expression::BuiltInFunction { name, .. } => {
                            check_built_in_call(context, *name, arguments, &canonical_function, position)?;
                        },
                        _ => {
                            let actual = check_expression(context, function, variables)?;
                            check_subsumption(&actual, type_, function.position(), type_.position(), types)?;
                        },
                    }
                    Ok((**result).clone())
                },
                _ => Err(AnalysisError::FunctionExpected(function.position().copy(), type_.clone())),
            }
        },
        _ => Err(AnalysisError::TypeNotInferred(expression.position().copy())),
    }
}

#[verifier::rlimit(50)]
fn check_arguments(
    context: &AnalysisContext,
    arguments: &Vec<Expression>,
    argument_types: &Vec<Type>,
    variables: &TypeMap,
) -> (result: Result<(), AnalysisError>)
    requires
        aliases_acyclic(type_map_contents(*context.types())),
        arguments@.len() == argument_types@.len(),
        forall|i: int| 0 <= i < arguments@.len() ==> if_types_complete(#[trigger] arguments@[i]),
    ensures
        view_unit_result(result) == checked_arguments(
            *arguments,
            view_types(argument_types@),
            0,
            type_map_contents(*variables),
            type_map_contents(*context.types()),
            record_map_contents(*context.records()),
        ),
    decreases arguments, 0int,
{
    let ghost whole = checked_arguments(
        *arguments,
        view_types(argument_types@),
        0,
        type_map_contents(*variables),
        type_map_contents(*context.types()),
        record_map_contents(*context.records()),
    );
    proof {
        lemma_view_types(argument_types@);
    }
    let mut i: usize = 0;
    while i < arguments.len()
        invariant
            whole == checked_arguments(
                *arguments,
                view_types(argument_types@),
                0,
                type_map_contents(*variables),
                type_map_contents(*context.types()),
                record_map_contents(*context.records()),
            ),
            i <= arguments.len(),
            arguments@.len() == argument_types@.len(),
            view_types(argument_types@).len() == argument_types@.len(),
            forall|k: int|
                0 <= k < argument_types@.len() ==> #[trigger] view_types(argument_types@)[k]
                    == argument_types@[k]@,
            aliases_acyclic(type_map_contents(*context.types())),
            forall|k: int| 0 <= k < arguments@.len() ==> if_types_complete(#[trigger] arguments@[k]),
            whole == checked_arguments(
                *arguments,
                view_types(argument_types@),
                i as int,
                type_map_contents(*variables),
                type_map_contents(*context.types()),
                record_map_contents(*context.records()),
            ),
        decreases arguments.len() - i,
    {
        proof {
            assert(decreases_to!(arguments => arguments@[i as int]));
        }
        let actual = check_expression(context, &arguments[i], variables)?;
        check_subsumption(
            &actual,
            &argument_types[i],
            arguments[i].position(),
            argument_types[i].position(),
            context.types(),
        )?;
        i = i + 1;
    }
    Ok(())
}

fn check_built_in_call(
    context: &AnalysisContext,
    name: BuiltInFunctionName,
    arguments: &Vec<Expression>,
    function_type: &Type,
    position: &Position,
) -> (result: Result<(), AnalysisError>)
    requires
        aliases_acyclic(type_map_contents(*context.types())),
        function_type@ is Function,
    ensures
        view_unit_result(result) == checked_built_in_call(
            name,
            *arguments,
            function_type@,
            position@,
            type_map_contents(*context.types()),
        ),
{
    let types = context.types();
    match function_type {
        Type::Function { arguments: argument_types, result, .. } => {
            proof {
                lemma_view_types(argument_types@);
            }
            match name {
                BuiltInFunctionName::Delete => {
                    if argument_types.len() != 2 || arguments.len() != 2 {
                        return Err(AnalysisError::ArgumentCount(position.copy()));
                    }
                    check_subsumption(&argument_types[0], result, arguments[0].position(), position, types)?;
                    proof {
                        assert(canonicalizable(argument_types@[0]@, type_map_contents(*types)));
                    }
                    match canonicalize_map(&argument_types[0], types)? {
                        Some(Type::Mapping { key, .. }) => check_subsumption(
                            &argument_types[1],
                            &key,
                            arguments[1].position(),
                            position,
                            types,
                        ),
                        _ => Err(
                            AnalysisError::MapExpected(
                                arguments[0].position().copy(),
                                argument_types[0].clone(),
                            ),
                        ),
                    }
                },
                BuiltInFunctionName::Race => {
                    if argument_types.len() != 1 || arguments.len() != 1 {
                        return Err(AnalysisError::ArgumentCount(position.copy()));
                    }
                    proof {
                        assert(canonicalizable(argument_types@[0]@, type_map_contents(*types)));
                    }
                    match canonicalize_list(&argument_types[0], types)? {
                        Some(Type::List { element, .. }) => {
                            proof {
                                assert(canonicalizable(element@, type_map_contents(*types)));
                            }
                            match canonicalize_list(&element, types)? {
                                Some(_) => Ok(()),
                                None => Err(
                                    AnalysisError::ListExpected(arguments[0].position().copy(), *element),
                                ),
                            }
                        },
                        _ => Err(
                            AnalysisError::ListExpected(
                                arguments[0].position().copy(),
                                argument_types[0].clone(),
                            ),
                        ),
                    }
                },
                BuiltInFunctionName::Size => {
                    if argument_types.len() != 1 || arguments.len() != 1 {
                        return Err(AnalysisError::ArgumentCount(position.copy()));
                    }
                    if argument_types[0].is_list() || argument_types[0].is_map() {
                        Ok(())
                    } else {
                        Err(
                            AnalysisError::CollectionExpected(
                                arguments[0].position().copy(),
                                argument_types[0].clone(),
                            ),
                        )
                    }
                },
                BuiltInFunctionName::Spawn => {
                    if argument_types.len() != 1 || arguments.len() != 1 {
                        return Err(AnalysisError::ArgumentCount(position.copy()));
                    }
                    proof {
                        assert(canonicalizable(argument_types@[0]@, type_map_contents(*types)));
                    }
                    match canonicalize_function(&argument_types[0], types)? {
                        Some(Type::Function { arguments: spawned_arguments, .. }) => {
                            if spawned_arguments.len() != 0 {
                                proof {
                                    lemma_view_types(spawned_arguments@);
                                }
                                Err(AnalysisError::SpawnedFunctionArguments(position.copy()))
                            } else {
                                proof {
                                    lemma_view_types(spawned_arguments@);
                                }
                                Ok(())
                            }
                        },
                        _ => Err(
                            AnalysisError::FunctionExpected(
                                arguments[0].position().copy(),
                                argument_types[0].clone(),
                            ),
                        ),
                    }
                },
                _ => Ok(()),
            }
        },
        _ => Ok(()),
    }
}

fn check_if(context: &AnalysisContext, expression: &Expression, variables: &TypeMap) -> (type_:
    Result<Type, AnalysisError>)
    requires
        aliases_acyclic(type_map_contents(*context.types())),
        if_types_complete(*expression),
        expression is If,
    ensures
        view_type_result(type_) == checked(
            *expression,
            type_map_contents(*variables),
            type_map_contents(*context.types()),
            record_map_contents(*context.records()),
        ),
    decreases expression, 1int,
{
    match expression {
        Expression::If { condition, then, else_, position } => {
            let actual = check_expression(context, condition, variables)?;
            check_subsumption(
                &actual,
                &Type::Boolean { position: position.copy() },
                condition.position(),
                position,
                context.types(),
            )?;
            check_expression(context, then, variables)?;
            check_expression(context, else_, variables)?;
            extract_from_expression(context, expression, variables)
        },
        _ => Err(AnalysisError::TypeNotInferred(expression.position().copy())),
    }
}

fn check_if_list(context: &AnalysisContext, expression: &Expression, variables: &TypeMap) -> (type_:
    Result<Type, AnalysisError>)
    requires
        aliases_acyclic(type_map_contents(*context.types())),
        if_types_complete(*expression),
        expression is IfList,
    ensures
        view_type_result(type_) == checked(
            *expression,
            type_map_contents(*variables),
            type_map_contents(*context.types()),
            record_map_contents(*context.records()),
        ),
    decreases expression, 1int,
{
    match expression {
        Expression::IfList { type_, list, first_name, rest_name, then, else_, position } => {
            let element = match type_ {
                Some(element) => element,
                None => {
                    return Err(AnalysisError::TypeNotInferred(list.position().copy()));
                },
            };
            let list_type = Type::List { element: Box::new(element.clone()), position: position.copy() };
            let actual = check_expression(context, list, variables)?;
            check_subsumption(&actual, &list_type, list.position(), position, context.types())?;
            let mut scope = variables.duplicate();
            proof {
                assert(view_types(Seq::<Type>::empty()) =~= Seq::<SpecType>::empty());
            }
            scope.insert(
                first_name.clone(),
                Type::Function {
                    arguments: Vec::new(),
                    result: Box::new(element.clone()),
                    position: position.copy(),
                },
            );
            scope.insert(rest_name.clone(), list_type);
            check_expression(context, then, &scope)?;
            check_expression(context, else_, variables)?;
            extract_from_expression(context, expression, variables)
        },
        _ => Err(AnalysisError::TypeNotInferred(expression.position().copy())),
    }
}

fn check_if_map(context: &AnalysisContext, expression: &Expression, variables: &TypeMap) -> (type_:
    Result<Type, AnalysisError>)
    requires
        aliases_acyclic(type_map_contents(*context.types())),
        if_types_complete(*expression),
        expression is IfMap,
    ensures
        view_type_result(type_) == checked(
            *expression,
            type_map_contents(*variables),
            type_map_contents(*context.types()),
            record_map_contents(*context.records()),
        ),
    decreases expression, 1int,
{
    match expression {
        Expression::IfMap { key_type, value_type, name, map, key, then, else_, position } => {
            let (key_type, value_type) = match (key_type, value_type) {
                (Some(key_type), Some(value_type)) => (key_type, value_type),
                _ => {
                    return Err(AnalysisError::TypeNotInferred(map.position().copy()));
                },
            };
            let map_type = Type::Mapping {
                key: Box::new(key_type.clone()),
                value: Box::new(value_type.clone()),
                position: position.copy(),
            };
            let actual = check_expression(context, key, variables)?;
            check_subsumption(&actual, key_type, key.position(), key_type.position(), context.types())?;
            let actual = check_expression(context, map, variables)?;
            check_subsumption(&actual, &map_type, map.position(), position, context.types())?;
            let mut scope = variables.duplicate();
            scope.insert(name.clone(), value_type.clone());
            check_expression(context, then, &scope)?;
            check_expression(context, else_, variables)?;
            extract_from_expression(context, expression, variables)
        },
        _ => Err(AnalysisError::TypeNotInferred(expression.position().copy())),
    }
}

pub(crate) fn branch_types(branches: &Vec<IfTypeBranch<Expression>>) -> (types: Vec<Type>)
    ensures
        view_types(types@) == branches@.map_values(
            |branch: IfTypeBranch<Expression>| branch.type_@,
        ),
{
    let mut types: Vec<Type> = Vec::new();
    let mut i: usize = 0;
    while i < branches.len()
        invariant
            i <= branches.len(),
            types@.len() == i,
            forall|k: int| 0 <= k < i ==> (#[trigger] types@[k])@ == branches@[k].type_@,
        decreases branches.len() - i,
    {
        types.push(branches[i].type_.clone());
        i = i + 1;
    }
    proof {
        lemma_view_types(types@);
        assert(view_types(types@) =~= branches@.map_values(
            |branch: IfTypeBranch<Expression>| branch.type_@,
        ));
    }
    types
}

fn check_if_type(context: &AnalysisContext, expression: &Expression, variables: &TypeMap) -> (type_:
    Result<Type, AnalysisError>)
    requires
        aliases_acyclic(type_map_contents(*context.types())),
        if_types_complete(*expression),
        expression is IfType,
    ensures
        view_type_result(type_) == checked(
            *expression,
            type_map_contents(*variables),
            type_map_contents(*context.types()),
            record_map_contents(*context.records()),
        ),
    decreases expression, 1int,
{
    let types = context.types();
    match expression {
        Expression::IfType { name, argument, branches, else_, position } => {
            let actual = check_expression(context, argument, variables)?;
            proof {
                assert(canonicalizable(actual@, type_map_contents(*types)));
            }
            let argument_type = canonicalize(&actual, types)?;
            if !argument_type.is_variant() {
                return Err(AnalysisError::VariantExpected(argument.position().copy(), argument_type));
            }
            check_if_branches(context, branches, name, &argument_type, argument.position(), variables)?;
            match else_ {
                Some(branch) => match &branch.type_ {
                    Some(type_) => {
                        let mut scope = variables.duplicate();
                        scope.insert(name.clone(), type_.clone());
                        check_expression(context, &branch.expression, &scope)?;
                    },
                    None => {
                        return Err(AnalysisError::TypeNotInferred(branch.position.copy()));
                    },
                },
                None => {
                    let members = branch_types(branches);
                    let union = create(&members, position).unwrap();
                    proof {
                        assert(canonicalizable(argument_type@, type_map_contents(*types)));
                        assert(canonicalizable(union@, type_map_contents(*types)));
                    }
                    if !check_equal(&argument_type, &union, types)? {
                        return Err(AnalysisError::MissingElseBlock(position.copy()));
                    }
                },
            }
            extract_from_expression(context, expression, variables)
        },
        _ => Err(AnalysisError::TypeNotInferred(expression.position().copy())),
    }
}

#[verifier::rlimit(50)]
fn check_if_branches(
    context: &AnalysisContext,
    branches: &Vec<IfTypeBranch<Expression>>,
    name: &String,
    argument_type: &Type,
    argument_position: &Position,
    variables: &TypeMap,
) -> (result: Result<(), AnalysisError>)
    requires
        aliases_acyclic(type_map_contents(*context.types())),
        forall|i: int| 0 <= i < branches@.len() ==> if_types_complete(#[trigger] branches@[i].expression),
    ensures
        view_unit_result(result) == checked_if_branches(
            *branches,
            0,
            name@,
            argument_type@,
            argument_position@,
            type_map_contents(*variables),
            type_map_contents(*context.types()),
            record_map_contents(*context.records()),
        ),
    decreases branches, 0int,
{
    let types = context.types();
    let ghost whole = checked_if_branches(
        *branches,
        0,
        name@,
        argument_type@,
        argument_position@,
        type_map_contents(*variables),
        type_map_contents(*context.types()),
        record_map_contents(*context.records()),
    );
    let mut i: usize = 0;
    while i < branches.len()
        invariant
            whole == checked_if_branches(
                *branches,
                0,
                name@,
                argument_type@,
                argument_position@,
                type_map_contents(*variables),
                type_map_contents(*context.types()),
                record_map_contents(*context.records()),
            ),
            i <= branches.len(),
            types == context.types(),
            aliases_acyclic(type_map_contents(*context.types())),
            forall|k: int| 0 <= k < branches@.len() ==> if_types_complete(#[trigger] branches@[k].expression),
            whole == checked_if_branches(
                *branches,
                i as int,
                name@,
                argument_type@,
                argument_position@,
                type_map_contents(*variables),
                type_map_contents(*context.types()),
                record_map_contents(*context.records()),
            ),
        decreases branches.len() - i,
    {
        proof {
            assert(decreases_to!(branches => branches@[i as int]));
            assert(decreases_to!(branches@[i as int] => branches@[i as int].expression));
        }
        let branch = &branches[i];
        check_subsumption(&branch.type_, argument_type, branch.type_.position(), argument_position, types)?;
        let mut scope = variables.duplicate();
        scope.insert(name.clone(), branch.type_.clone());
        check_expression(context, &branch.expression, &scope)?;
        proof {
            assert(canonicalizable(branch.type_@, type_map_contents(*types)));
        }
        if canonicalize(&branch.type_, types)?.is_any() {
            return Err(AnalysisError::AnyTypeBranch(branch.type_.position().copy()));
        }
        i = i + 1;
    }
    Ok(())
}

fn check_let(context: &AnalysisContext, expression: &Expression, variables: &TypeMap) -> (type_:
    Result<Type, AnalysisError>)
    requires
        aliases_acyclic(type_map_contents(*context.types())),
        if_types_complete(*expression),
        expression is Let,
    ensures
        view_type_result(type_) == checked(
            *expression,
            type_map_contents(*variables),
            type_map_contents(*context.types()),
            record_map_contents(*context.records()),
        ),
    decreases expression, 1int,
{
    match expression {
        Expression::Let { name, type_, bound_expression, expression: body, .. } => {
            let bound_type = match type_ {
                Some(bound_type) => bound_type,
                None => {
                    return Err(AnalysisError::TypeNotInferred(bound_expression.position().copy()));
                },
            };
            let actual = check_expression(context, bound_expression, variables)?;
            check_subsumption(
                &actual,
                bound_type,
                bound_expression.position(),
                bound_type.position(),
                context.types(),
            )?;
            let mut scope = variables.duplicate();
            match name {
                Some(name) => scope.insert(name.clone(), bound_type.clone()),
                None => {},
            }
            check_expression(context, body, &scope)
        },
        _ => Err(AnalysisError::TypeNotInferred(expression.position().copy())),
    }
}

#[verifier::rlimit(50)]
fn check_list_elements(
    context: &AnalysisContext,
    elements: &Vec<ListElement<Expression>>,
    element_type: &Type,
    variables: &TypeMap,
) -> (result: Result<(), AnalysisError>)
    requires
        aliases_acyclic(type_map_contents(*context.types())),
        forall|i: int|
            0 <= i < elements@.len() ==> match #[trigger] elements@[i] {
                ListElement::Multiple(x) => if_types_complete(x),
                ListElement::Single(x) => if_types_complete(x),
            },
    ensures
        view_unit_result(result) == checked_list_elements(
            *elements,
            0,
            element_type@,
            type_map_contents(*variables),
            type_map_contents(*context.types()),
            record_map_contents(*context.records()),
        ),
    decreases elements, 0int,
{
    let types = context.types();
    let ghost whole = checked_list_elements(
        *elements,
        0,
        element_type@,
        type_map_contents(*variables),
        type_map_contents(*context.types()),
        record_map_contents(*context.records()),
    );
    let mut i: usize = 0;
    while i < elements.len()
        invariant
            whole == checked_list_elements(
                *elements,
                0,
                element_type@,
                type_map_contents(*variables),
                type_map_contents(*context.types()),
                record_map_contents(*context.records()),
            ),
            i <= elements.len(),
            types == context.types(),
            aliases_acyclic(type_map_contents(*context.types())),
            forall|k: int|
                0 <= k < elements@.len() ==> match #[trigger] elements@[k] {
                    ListElement::Multiple(x) => if_types_complete(x),
                    ListElement::Single(x) => if_types_complete(x),
                },
            whole == checked_list_elements(
                *elements,
                i as int,
                element_type@,
                type_map_contents(*variables),
                type_map_contents(*context.types()),
                record_map_contents(*context.records()),
            ),
        decreases elements.len() - i,
    {
        proof {
            assert(decreases_to!(elements => elements@[i as int]));
        }
        match &elements[i] {
            ListElement::Multiple(x) => {
                proof {
                    assert(decreases_to!(elements@[i as int] => elements@[i as int]->Multiple_0));
                }
                let actual = check_expression(context, x, variables)?;
                proof {
                    assert(canonicalizable(actual@, type_map_contents(*types)));
                }
                match canonicalize_list(&actual, types)? {
                    Some(Type::List { element, .. }) => {
                        check_subsumption(&element, element_type, x.position(), element_type.position(), types)?;
                    },
                    _ => {
                        return Err(AnalysisError::ListExpected(x.position().copy(), actual));
                    },
                }
            },
            ListElement::Single(x) => {
                proof {
                    assert(decreases_to!(elements@[i as int] => elements@[i as int]->Single_0));
                }
                let actual = check_expression(context, x, variables)?;
                check_subsumption(&actual, element_type, x.position(), element_type.position(), types)?;
            },
        }
        i = i + 1;
    }
    Ok(())
}

#[verifier::rlimit(50)]
fn check_map_elements(
    context: &AnalysisContext,
    elements: &Vec<MapElement<Expression>>,
    key_type: &Type,
    value_type: &Type,
    variables: &TypeMap,
) -> (result: Result<(), AnalysisError>)
    requires
        aliases_acyclic(type_map_contents(*context.types())),
        forall|i: int|
            0 <= i < elements@.len() ==> match #[trigger] elements@[i] {
                MapElement::Single(entry) => if_types_complete(entry.key) && if_types_complete(
                    entry.value,
                ),
                MapElement::Multiple(x) => if_types_complete(x),
            },
    ensures
        view_unit_result(result) == checked_map_elements(
            *elements,
            0,
            key_type@,
            value_type@,
            type_map_contents(*variables),
            type_map_contents(*context.types()),
            record_map_contents(*context.records()),
        ),
    decreases elements, 0int,
{
    let types = context.types();
    let ghost whole = checked_map_elements(
        *elements,
        0,
        key_type@,
        value_type@,
        type_map_contents(*variables),
        type_map_contents(*context.types()),
        record_map_contents(*context.records()),
    );
    let mut i: usize = 0;
    while i < elements.len()
        invariant
            whole == checked_map_elements(
                *elements,
                0,
                key_type@,
                value_type@,
                type_map_contents(*variables),
                type_map_contents(*context.types()),
                record_map_contents(*context.records()),
            ),
            i <= elements.len(),
            types == context.types(),
            aliases_acyclic(type_map_contents(*context.types())),
            forall|k: int|
                0 <= k < elements@.len() ==> match #[trigger] elements@[k] {
                    MapElement::Single(entry) => if_types_complete(entry.key) && if_types_complete(
                        entry.value,
                    ),
                    MapElement::Multiple(x) => if_types_complete(x),
                },
            whole == checked_map_elements(
                *elements,
                i as int,
                key_type@,
                value_type@,
                type_map_contents(*variables),
                type_map_contents(*context.types()),
                record_map_contents(*context.records()),
            ),
        decreases elements.len() - i,
    {
        proof {
            assert(decreases_to!(elements => elements@[i as int]));
        }
        match &elements[i] {
            MapElement::Single(entry) => {
                proof {
                    assert(decreases_to!(elements@[i as int] => elements@[i as int]->Single_0));
                    assert(decreases_to!(elements@[i as int]->Single_0 => elements@[i as int]->Single_0.key));
                    assert(decreases_to!(elements@[i as int]->Single_0 => elements@[i as int]->Single_0.value));
                }
                let actual = check_expression(context, &entry.key, variables)?;
                check_subsumption(&actual, key_type, entry.key.position(), key_type.position(), types)?;
                let actual = check_expression(context, &entry.value, variables)?;
                check_subsumption(&actual, value_type, entry.value.position(), value_type.position(), types)?;
            },
            MapElement::Multiple(x) => {
                proof {
                    assert(decreases_to!(elements@[i as int] => elements@[i as int]->Multiple_0));
                }
                let actual = check_expression(context, x, variables)?;
                proof {
                    assert(canonicalizable(actual@, type_map_contents(*types)));
                }
                match canonicalize_map(&actual, types)? {
                    Some(Type::Mapping { key, value, .. }) => {
                        check_subsumption(&key, key_type, key.position(), key_type.position(), types)?;
                        check_subsumption(&value, value_type, value.position(), value_type.position(), types)?;
                    },
                    _ => {
                        return Err(AnalysisError::MapExpected(x.position().copy(), actual));
                    },
                }
            },
        }
        i = i + 1;
    }
    Ok(())
}

fn check_list_comprehension(
    context: &AnalysisContext,
    expression: &Expression,
    variables: &TypeMap,
) -> (type_: Result<Type, AnalysisError>)
    requires
        aliases_acyclic(type_map_contents(*context.types())),
        if_types_complete(*expression),
        expression is ListComprehension,
    ensures
        view_type_result(type_) == checked(
            *expression,
            type_map_contents(*variables),
            type_map_contents(*context.types()),
            record_map_contents(*context.records()),
        ),
    decreases expression, 1int,
{
    match expression {
        Expression::ListComprehension { type_, element, branches, position } => {
            let scope = check_comprehension_branches(context, branches, variables)?;
            let actual = check_expression(context, element, &scope)?;
            check_subsumption(&actual, type_, element.position(), type_.position(), context.types())?;
            Ok(Type::List { element: Box::new(type_.clone()), position: position.copy() })
        },
        _ => Err(AnalysisError::TypeNotInferred(expression.position().copy())),
    }
}

#[verifier::rlimit(50)]
fn check_comprehension_branches(
    context: &AnalysisContext,
    branches: &Vec<ListComprehensionBranch<Expression>>,
    variables: &TypeMap,
) -> (scope: Result<TypeMap, AnalysisError>)
    requires
        aliases_acyclic(type_map_contents(*context.types())),
        forall|i: int|
            0 <= i < branches@.len() ==> (forall|j: int|
                0 <= j < branches@[i].iteratees@.len() ==> if_types_complete(
                    #[trigger] branches@[i].iteratees@[j].expression,
                )) && match #[trigger] branches@[i].condition {
                Some(condition) => if_types_complete(condition),
                None => true,
            },
    ensures
        match scope {
            Ok(scope) => checked_comprehension_branches(
                *branches,
                0,
                type_map_contents(*variables),
                type_map_contents(*context.types()),
                record_map_contents(*context.records()),
            ) == Ok::<Map<Seq<char>, SpecType>, SpecAnalysisError>(type_map_contents(scope)),
            Err(error) => checked_comprehension_branches(
                *branches,
                0,
                type_map_contents(*variables),
                type_map_contents(*context.types()),
                record_map_contents(*context.records()),
            ) == Err::<Map<Seq<char>, SpecType>, SpecAnalysisError>(error@),
        },
    decreases branches, 0int,
{
    let ghost whole = checked_comprehension_branches(
        *branches,
        0,
        type_map_contents(*variables),
        type_map_contents(*context.types()),
        record_map_contents(*context.records()),
    );
    let mut scope = variables.duplicate();
    let mut i: usize = 0;
    while i < branches.len()
        invariant
            whole == checked_comprehension_branches(
                *branches,
                0,
                type_map_contents(*variables),
                type_map_contents(*context.types()),
                record_map_contents(*context.records()),
            ),
            i <= branches.len(),
            aliases_acyclic(type_map_contents(*context.types())),
            forall|k: int|
                0 <= k < branches@.len() ==> (forall|j: int|
                    0 <= j < branches@[k].iteratees@.len() ==> if_types_complete(
                        #[trigger] branches@[k].iteratees@[j].expression,
                    )) && match #[trigger] branches@[k].condition {
                    Some(condition) => if_types_complete(condition),
                    None => true,
                },
            whole == checked_comprehension_branches(
                *branches,
                i as int,
                type_map_contents(scope),
                type_map_contents(*context.types()),
                record_map_contents(*context.records()),
            ),
        decreases branches.len() - i,
    {
        let branch = &branches[i];
        proof {
            assert(decreases_to!(branches => branches@[i as int]));
            assert(decreases_to!(branches@[i as int] => branches@[i as int].iteratees));
        }
        if branch.names.len() != branch.iteratees.len() {
            return Err(AnalysisError::ListComprehensionIterateeCount(branch.position.copy()));
        }
        let inner = check_iteratees(context, &branch.names, &branch.iteratees, &scope)?;
        match &branch.condition {
            Some(condition) => {
                proof {
                    assert(decreases_to!(branches@[i as int] => branches@[i as int].condition));
                    assert(decreases_to!(branches@[i as int].condition => branches@[i as int].condition->0));
                }
                let actual = check_expression(context, condition, &inner)?;
                check_subsumption(
                    &actual,
                    &Type::Boolean { position: branch.position.copy() },
                    condition.position(),
                    condition.position(),
                    context.types(),
                )?;
            },
            None => {},
        }
        scope = inner;
        i = i + 1;
    }
    Ok(scope)
}

#[verifier::rlimit(50)]
fn check_iteratees(
    context: &AnalysisContext,
    names: &Vec<String>,
    iteratees: &Vec<ListComprehensionIteratee<Expression>>,
    variables: &TypeMap,
) -> (scope: Result<TypeMap, AnalysisError>)
    requires
        aliases_acyclic(type_map_contents(*context.types())),
        names@.len() == iteratees@.len(),
        forall|j: int| 0 <= j < iteratees@.len() ==> if_types_complete(#[trigger] iteratees@[j].expression),
    ensures
        match scope {
            Ok(scope) => checked_iteratees(
                names@,
                *iteratees,
                0,
                type_map_contents(*variables),
                type_map_contents(*context.types()),
                record_map_contents(*context.records()),
            ) == Ok::<Map<Seq<char>, SpecType>, SpecAnalysisError>(type_map_contents(scope)),
            Err(error) => checked_iteratees(
                names@,
                *iteratees,
                0,
                type_map_contents(*variables),
                type_map_contents(*context.types()),
                record_map_contents(*context.records()),
            ) == Err::<Map<Seq<char>, SpecType>, SpecAnalysisError>(error@),
        },
    decreases iteratees, 0int,
{
    let types = context.types();
    let ghost whole = checked_iteratees(
        names@,
        *iteratees,
        0,
        type_map_contents(*variables),
        type_map_contents(*context.types()),
        record_map_contents(*context.records()),
    );
    let mut scope = variables.duplicate();
    let mut j: usize = 0;
    while j < iteratees.len()
        invariant
            whole == checked_iteratees(
                names@,
                *iteratees,
                0,
                type_map_contents(*variables),
                type_map_contents(*context.types()),
                record_map_contents(*context.records()),
            ),
            j <= iteratees.len(),
            names@.len() == iteratees@.len(),
            types == context.types(),
            aliases_acyclic(type_map_contents(*context.types())),
            forall|k: int| 0 <= k < iteratees@.len() ==> if_types_complete(#[trigger] iteratees@[k].expression),
            whole == checked_iteratees(
                names@,
                *iteratees,
                j as int,
                type_map_contents(scope),
                type_map_contents(*context.types()),
                record_map_contents(*context.records()),
            ),
        decreases iteratees.len() - j,
    {
        proof {
            assert(decreases_to!(iteratees => iteratees@[j as int]));
            assert(decreases_to!(iteratees@[j as int] => iteratees@[j as int].expression));
        }
        let iteratee = &iteratees[j];
        let type_ = match &iteratee.type_ {
            Some(type_) => type_,
            None => {
                return Err(AnalysisError::TypeNotInferred(iteratee.position.copy()));
            },
        };
        let actual = check_expression(context, &iteratee.expression, &scope)?;
        check_subsumption(
            &actual,
            type_,
            iteratee.expression.position(),
            iteratee.expression.position(),
            types,
        )?;
        proof {
            assert(canonicalizable(type_@, type_map_contents(*types)));
            assert(view_types(Seq::<Type>::empty()) =~= Seq::<SpecType>::empty());
        }
        match canonicalize_list(type_, types)? {
            Some(Type::List { element, .. }) => {
                scope.insert(
                    names[j].clone(),
                    Type::Function {
                        arguments: Vec::new(),
                        result: element,
                        position: iteratee.position.copy(),
                    },
                );
            },
            _ => {
                return Err(AnalysisError::ListExpected(iteratee.expression.position().copy(), type_.clone()));
            },
        }
        j = j + 1;
    }
    Ok(scope)
}

#[verifier::rlimit(50)]
fn check_fields(
    context: &AnalysisContext,
    fields: &Vec<RecordFieldValue<Expression>>,
    field_types: &Vec<RecordField>,
    variables: &TypeMap,
) -> (result: Result<(), AnalysisError>)
    requires
        aliases_acyclic(type_map_contents(*context.types())),
        forall|i: int| 0 <= i < fields@.len() ==> if_types_complete(#[trigger] fields@[i].expression),
    ensures
        view_unit_result(result) == checked_fields(
            *fields,
            0,
            view_fields(field_types@),
            type_map_contents(*variables),
            type_map_contents(*context.types()),
            record_map_contents(*context.records()),
        ),
    decreases fields, 0int,
{
    let ghost whole = checked_fields(
        *fields,
        0,
        view_fields(field_types@),
        type_map_contents(*variables),
        type_map_contents(*context.types()),
        record_map_contents(*context.records()),
    );
    let mut i: usize = 0;
    while i < fields.len()
        invariant
            whole == checked_fields(
                *fields,
                0,
                view_fields(field_types@),
                type_map_contents(*variables),
                type_map_contents(*context.types()),
                record_map_contents(*context.records()),
            ),
            i <= fields.len(),
            aliases_acyclic(type_map_contents(*context.types())),
            forall|k: int| 0 <= k < fields@.len() ==> if_types_complete(#[trigger] fields@[k].expression),
            whole == checked_fields(
                *fields,
                i as int,
                view_fields(field_types@),
                type_map_contents(*variables),
                type_map_contents(*context.types()),
                record_map_contents(*context.records()),
            ),
        decreases fields.len() - i,
    {
        proof {
            assert(decreases_to!(fields => fields@[i as int]));
            assert(decreases_to!(fields@[i as int] => fields@[i as int].expression));
        }
        let field = &fields[i];
        let field_type = match find_field(field_types, &field.name) {
            Some(field_type) => &field_type.type_,
            None => {
                return Err(AnalysisError::UnknownRecordField(field.position.copy()));
            },
        };
        let actual = check_expression(context, &field.expression, variables)?;
        check_subsumption(
            &actual,
            field_type,
            field.expression.position(),
            field_type.position(),
            context.types(),
        )?;
        i = i + 1;
    }
    Ok(())
}

#[verifier::rlimit(50)]
fn check_record_construction(
    context: &AnalysisContext,
    expression: &Expression,
    variables: &TypeMap,
) -> (type_: Result<Type, AnalysisError>)
    requires
        aliases_acyclic(type_map_contents(*context.types())),
        if_types_complete(*expression),
        expression is RecordConstruction,
    ensures
        view_type_result(type_) == checked(
            *expression,
            type_map_contents(*variables),
            type_map_contents(*context.types()),
            record_map_contents(*context.records()),
        ),
    decreases expression, 1int,
{
    match expression {
        Expression::RecordConstruction { type_, fields, position } => {
            proof {
                assert(canonicalizable(type_@, type_map_contents(*context.types())));
            }
            let field_types = resolve_fields(type_, type_.position(), context.types(), context.records())?;
            check_fields(context, fields, field_types, variables)?;
            let mut names = NameSet::new();
            let mut i: usize = 0;
            while i < fields.len()
                invariant
                    i <= fields.len(),
                    forall|name: Seq<char>|
                        name_set_contents(names).contains(name) <==> exists|k: int|
                            0 <= k < i && (#[trigger] fields@[k]).name@ == name,
                decreases fields.len() - i,
            {
                names.insert(fields[i].name.clone());
                i = i + 1;
            }
            let ghost all_fields = view_fields(field_types@);
            let ghost outcome = checked(
                *expression,
                type_map_contents(*variables),
                type_map_contents(*context.types()),
                record_map_contents(*context.records()),
            );
            proof {
                assert(outcome == match missing_field(fields@, all_fields, 0) {
                    Some(name) => Err(SpecAnalysisError::RecordFieldNotFound(name, position@)),
                    None => Ok(type_@),
                });
            }
            let mut k: usize = 0;
            while k < field_types.len()
                invariant
                    k <= field_types.len(),
                    all_fields == view_fields(field_types@),
                    forall|name: Seq<char>|
                        name_set_contents(names).contains(name) <==> exists|j: int|
                            0 <= j < fields@.len() && (#[trigger] fields@[j]).name@ == name,
                    outcome == checked(
                        *expression,
                        type_map_contents(*variables),
                        type_map_contents(*context.types()),
                        record_map_contents(*context.records()),
                    ),
                    outcome == match missing_field(fields@, all_fields, k as int) {
                        Some(name) => Err(SpecAnalysisError::RecordFieldNotFound(name, position@)),
                        None => Ok(type_@),
                    },
                decreases field_types.len() - k,
            {
                proof {
                    assert(all_fields[k as int] == field_types@[k as int]@);
                }
                if !names.contains(field_types[k].name.as_str()) {
                    return Err(AnalysisError::RecordFieldNotFound(field_types[k].name.clone(), position.copy()));
                }
                k = k + 1;
            }
            Ok(type_.clone())
        },
        _ => Err(AnalysisError::TypeNotInferred(expression.position().copy())),
    }
}

fn check_record_deconstruction(
    context: &AnalysisContext,
    expression: &Expression,
    variables: &TypeMap,
) -> (type_: Result<Type, AnalysisError>)
    requires
        aliases_acyclic(type_map_contents(*context.types())),
        if_types_complete(*expression),
        expression is RecordDeconstruction,
    ensures
        view_type_result(type_) == checked(
            *expression,
            type_map_contents(*variables),
            type_map_contents(*context.types()),
            record_map_contents(*context.records()),
        ),
    decreases expression, 1int,
{
    match expression {
        Expression::RecordDeconstruction { type_, record, field_name, position } => {
            let record_type = match type_ {
                Some(record_type) => record_type,
                None => {
                    return Err(AnalysisError::TypeNotInferred(position.copy()));
                },
            };
            let actual = check_expression(context, record, variables)?;
            check_subsumption(&actual, record_type, record.position(), record_type.position(), context.types())?;
            proof {
                assert(canonicalizable(record_type@, type_map_contents(*context.types())));
            }
            let field_types = resolve_fields(record_type, record.position(), context.types(), context.records())?;
            match find_field(field_types, field_name) {
                Some(field) => Ok(field.type_.clone()),
                None => Err(AnalysisError::UnknownRecordField(position.copy())),
            }
        },
        _ => Err(AnalysisError::TypeNotInferred(expression.position().copy())),
    }
}

fn check_record_update(context: &AnalysisContext, expression: &Expression, variables: &TypeMap) -> (type_:
    Result<Type, AnalysisError>)
    requires
        aliases_acyclic(type_map_contents(*context.types())),
        if_types_complete(*expression),
        expression is RecordUpdate,
    ensures
        view_type_result(type_) == checked(
            *expression,
            type_map_contents(*variables),
            type_map_contents(*context.types()),
            record_map_contents(*context.records()),
        ),
    decreases expression, 1int,
{
    match expression {
        Expression::RecordUpdate { type_, record, fields, .. } => {
            let actual = check_expression(context, record, variables)?;
            check_subsumption(&actual, type_, record.position(), type_.position(), context.types())?;
            proof {
                assert(canonicalizable(type_@, type_map_contents(*context.types())));
            }
            let field_types = resolve_fields(type_, type_.position(), context.types(), context.records())?;
            check_fields(context, fields, field_types, variables)?;
            Ok(type_.clone())
        },
        _ => Err(AnalysisError::TypeNotInferred(expression.position().copy())),
    }
}

fn check_thunk(context: &AnalysisContext, expression: &Expression, variables: &TypeMap) -> (type_:
    Result<Type, AnalysisError>)
    requires
        aliases_acyclic(type_map_contents(*context.types())),
        if_types_complete(*expression),
        expression is Thunk,
    ensures
        view_type_result(type_) == checked(
            *expression,
            type_map_contents(*variables),
            type_map_contents(*context.types()),
            record_map_contents(*context.records()),
        ),
    decreases expression, 1int,
{
    match expression {
        Expression::Thunk { type_, expression: body, position } => {
            let type_ = match type_ {
                Some(type_) => type_,
                None => {
                    return Err(AnalysisError::TypeNotInferred(position.copy()));
                },
            };
            let actual = check_expression(context, body, variables)?;
            check_subsumption(&actual, type_, body.position(), type_.position(), context.types())?;
            extract_from_expression(context, expression, variables)
        },
        _ => Err(AnalysisError::TypeNotInferred(expression.position().copy())),
    }
}

fn check_type_coercion(context: &AnalysisContext, expression: &Expression, variables: &TypeMap) -> (type_:
    Result<Type, AnalysisError>)
    requires
        aliases_acyclic(type_map_contents(*context.types())),
        if_types_complete(*expression),
        expression is TypeCoercion,
    ensures
        view_type_result(type_) == checked(
            *expression,
            type_map_contents(*variables),
            type_map_contents(*context.types()),
            record_map_contents(*context.records()),
        ),
    decreases expression, 1int,
{
    match expression {
        Expression::TypeCoercion { from, to, argument, .. } => {
            let actual = check_expression(context, argument, variables)?;
            check_subsumption(&actual, from, argument.position(), from.position(), context.types())?;
            proof {
                assert(canonicalizable(to@, type_map_contents(*context.types())));
            }
            let to_type = canonicalize(to, context.types())?;
            if !to_type.is_list() && !to_type.is_map() {
                check_subsumption(from, to, from.position(), to.position(), context.types())?;
            }
            Ok(to.clone())
        },
        _ => Err(AnalysisError::TypeNotInferred(expression.position().copy())),
    }
}

#[verifier::rlimit(60)]
fn check_operation(
    context: &AnalysisContext,
    operation: &Operation<Expression>,
    variables: &TypeMap,
) -> (type_: Result<Type, AnalysisError>)
    requires
        aliases_acyclic(type_map_contents(*context.types())),
        if_types_complete(Expression::Operation(*operation)),
    ensures
        view_type_result(type_) == checked_operation(
            *operation,
            type_map_contents(*variables),
            type_map_contents(*context.types()),
            record_map_contents(*context.records()),
        ),
    decreases operation, 1int,
{
    let types = context.types();
    let position = operation.position();
    match operation {
        Operation::Addition { .. } => check_addition(context, operation, variables),
        Operation::Arithmetic { lhs, rhs, .. } => {
            let number = Type::Number { position: position.copy() };
            let actual = check_expression(context, lhs, variables)?;
            check_subsumption(&actual, &number, lhs.position(), position, types)?;
            let actual = check_expression(context, rhs, variables)?;
            check_subsumption(&actual, &number, rhs.position(), position, types)?;
            Ok(number)
        },
        Operation::Boolean { lhs, rhs, .. } => {
            let boolean = Type::Boolean { position: position.copy() };
            let actual = check_expression(context, lhs, variables)?;
            check_subsumption(&actual, &boolean, lhs.position(), position, types)?;
            let actual = check_expression(context, rhs, variables)?;
            check_subsumption(&actual, &boolean, rhs.position(), position, types)?;
            Ok(boolean)
        },
        Operation::Equality { .. } => check_equality(context, operation, variables),
        Operation::Not { expression, .. } => {
            let boolean = Type::Boolean { position: position.copy() };
            let actual = check_expression(context, expression, variables)?;
            check_subsumption(&actual, &boolean, expression.position(), position, types)?;
            Ok(boolean)
        },
        Operation::Order { lhs, rhs, .. } => {
            let number = Type::Number { position: position.copy() };
            let actual = check_expression(context, lhs, variables)?;
            check_subsumption(&actual, &number, lhs.position(), position, types)?;
            let actual = check_expression(context, rhs, variables)?;
            check_subsumption(&actual, &number, rhs.position(), position, types)?;
            Ok(Type::Boolean { position: position.copy() })
        },
        Operation::Try { .. } => check_try(context, operation, variables),
    }
}

fn check_addition(
    context: &AnalysisContext,
    operation: &Operation<Expression>,
    variables: &TypeMap,
) -> (type_: Result<Type, AnalysisError>)
    requires
        aliases_acyclic(type_map_contents(*context.types())),
        if_types_complete(Expression::Operation(*operation)),
        operation is Addition,
    ensures
        view_type_result(type_) == checked_operation(
            *operation,
            type_map_contents(*variables),
            type_map_contents(*context.types()),
            record_map_contents(*context.records()),
        ),
    decreases operation, 0int,
{
    let types = context.types();
    let position = operation.position();
    match operation {
        Operation::Addition { type_, lhs, rhs, .. } => {
            let type_ = match type_ {
                Some(type_) => type_,
                None => {
                    return Err(AnalysisError::TypeNotInferred(position.copy()));
                },
            };
            let number = Type::Number { position: position.copy() };
            let string = Type::String { position: position.copy() };
            let lhs_type = check_expression(context, lhs, variables)?;
            let rhs_type = check_expression(context, rhs, variables)?;
            proof {
                assert(canonicalizable(type_@, type_map_contents(*types)));
                assert(canonicalizable(number@, type_map_contents(*types)));
                assert(canonicalizable(string@, type_map_contents(*types)));
            }
            if check_equal(type_, &number, types)? {
                check_subsumption(&lhs_type, &number, lhs.position(), position, types)?;
                check_subsumption(&rhs_type, &number, rhs.position(), position, types)?;
            } else if check_equal(type_, &string, types)? {
                check_subsumption(&lhs_type, &string, lhs.position(), position, types)?;
                check_subsumption(&rhs_type, &string, rhs.position(), position, types)?;
            } else {
                return Err(AnalysisError::InvalidAdditionOperand(type_.position().copy()));
            }
            Ok(type_.clone())
        },
        _ => Err(AnalysisError::TypeNotInferred(position.copy())),
    }
}

fn check_equality(
    context: &AnalysisContext,
    operation: &Operation<Expression>,
    variables: &TypeMap,
) -> (type_: Result<Type, AnalysisError>)
    requires
        aliases_acyclic(type_map_contents(*context.types())),
        if_types_complete(Expression::Operation(*operation)),
        operation is Equality,
    ensures
        view_type_result(type_) == checked_operation(
            *operation,
            type_map_contents(*variables),
            type_map_contents(*context.types()),
            record_map_contents(*context.records()),
        ),
    decreases operation, 0int,
{
    let types = context.types();
    let position = operation.position();
    match operation {
        Operation::Equality { type_, lhs, rhs, .. } => {
            let operand_type = match type_ {
                Some(operand_type) => operand_type,
                None => {
                    return Err(AnalysisError::TypeNotInferred(position.copy()));
                },
            };
            let actual = check_expression(context, lhs, variables)?;
            check_subsumption(&actual, operand_type, lhs.position(), position, types)?;
            let actual = check_expression(context, rhs, variables)?;
            check_subsumption(&actual, operand_type, rhs.position(), position, types)?;
            let lhs_type = extract_from_expression(context, lhs, variables)?;
            let rhs_type = extract_from_expression(context, rhs, variables)?;
            proof {
                assert(canonicalizable(lhs_type@, type_map_contents(*types)));
                assert(canonicalizable(rhs_type@, type_map_contents(*types)));
            }
            if !check_subsumed(&lhs_type, &rhs_type, types)? && !check_subsumed(&rhs_type, &lhs_type, types)? {
                return Err(
                    AnalysisError::TypesNotMatched(
                        lhs.position().copy(),
                        lhs_type,
                        rhs.position().copy(),
                        rhs_type,
                    ),
                );
            }
            Ok(Type::Boolean { position: position.copy() })
        },
        _ => Err(AnalysisError::TypeNotInferred(position.copy())),
    }
}

fn check_try(
    context: &AnalysisContext,
    operation: &Operation<Expression>,
    variables: &TypeMap,
) -> (type_: Result<Type, AnalysisError>)
    requires
        aliases_acyclic(type_map_contents(*context.types())),
        if_types_complete(Expression::Operation(*operation)),
        operation is Try,
    ensures
        view_type_result(type_) == checked_operation(
            *operation,
            type_map_contents(*variables),
            type_map_contents(*context.types()),
            record_map_contents(*context.records()),
        ),
    decreases operation, 0int,
{
    let types = context.types();
    let position = operation.position();
    match operation {
        Operation::Try { type_, expression, .. } => {
            let success_type = match type_ {
                Some(success_type) => success_type,
                None => {
                    return Err(AnalysisError::TypeNotInferred(position.copy()));
                },
            };
            let error_type = Type::Error { position: position.copy() };
            let union_type = check_expression(context, expression, variables)?;
            check_subsumption(&error_type, &union_type, position, expression.position(), types)?;
            check_subsumption(success_type, &union_type, position, expression.position(), types)?;
            check_subsumption(
                &union_type,
                &Type::Union {
                    lhs: Box::new(success_type.clone()),
                    rhs: Box::new(error_type),
                    position: position.copy(),
                },
                expression.position(),
                position,
                types,
            )?;
            Ok(success_type.clone())
        },
        _ => Err(AnalysisError::TypeNotInferred(position.copy())),
    }
}

/// An operand type-checks to a type that `expected` subsumes.
pub open spec fn operand_fits(
    operand: Expression,
    expected: SpecType,
    variables: Map<Seq<char>, SpecType>,
    types: Map<Seq<char>, SpecType>,
    records: Map<Seq<char>, Seq<SpecRecordField>>,
) -> bool {
    &&& checked(operand, variables, types, records) is Ok
    &&& subsumes(checked(operand, variables, types, records)->Ok_0, expected, types) == Ok::<
        bool,
        SpecAnalysisError,
    >(true)
}

/// What a binary operation whose operands must both be of one type gives:
/// `result` where each operand fits `expected`; where the left one fits and
/// the right one checks to a type that `expected` does not subsume, that
/// the types do not match at the right operand.
pub open spec fn binary_operation_typed(
    outcome: Result<SpecType, SpecAnalysisError>,
    lhs: Expression,
    rhs: Expression,
    expected: SpecType,
    result: SpecType,
    position: SpecPosition,
    variables: Map<Seq<char>, SpecType>,
    types: Map<Seq<char>, SpecType>,
    records: Map<Seq<char>, Seq<SpecRecordField>>,
) -> bool {
    let rhs_checked = checked(rhs, variables, types, records);
    &&& outcome is Ok <==> operand_fits(lhs, expected, variables, types, records) && operand_fits(
        rhs,
        expected,
        variables,
        types,
        records,
    )
    &&& outcome is Ok ==> outcome == Ok::<SpecType, SpecAnalysisError>(result)
    &&& (operand_fits(lhs, expected, variables, types, records) && rhs_checked is Ok && subsumes(
        rhs_checked->Ok_0,
        expected,
        types,
    ) == Ok::<bool, SpecAnalysisError>(false)) ==> outcome == Err::<SpecType, SpecAnalysisError>(
        SpecAnalysisError::TypesNotMatched(expression_position(rhs), rhs_checked->Ok_0, position, expected),
    )
}

/// Both operands of an order operation must be numbers, the right one as
/// well as the left one; the operation is then a boolean.
pub proof fn law_order_operands_are_numbers(
    operation: Operation<Expression>,
    variables: Map<Seq<char>, SpecType>,
    types: Map<Seq<char>, SpecType>,
    records: Map<Seq<char>, Seq<SpecRecordField>>,
)
    requires
        operation is Order,
    ensures
        binary_operation_typed(
            checked(Expression::Operation(operation), variables, types, records),
            *operation->Order_lhs,
            *operation->Order_rhs,
            SpecType::Number { position: operation_position(operation) },
            SpecType::Boolean { position: operation_position(operation) },
            operation_position(operation),
            variables,
            types,
            records,
        ),
{
    assert(checked(Expression::Operation(operation), variables, types, records) == checked_operation(
        operation,
        variables,
        types,
        records,
    ));
}

/// Both operands of an arithmetic operation must be numbers; the operation
/// is then a number.
pub proof fn law_arithmetic_operands_are_numbers(
    operation: Operation<Expression>,
    variables: Map<Seq<char>, SpecType>,
    types: Map<Seq<char>, SpecType>,
    records: Map<Seq<char>, Seq<SpecRecordField>>,
)
    requires
        operation is Arithmetic,
    ensures
        binary_operation_typed(
            checked(Expression::Operation(operation), variables, types, records),
            *operation->Arithmetic_lhs,
            *operation->Arithmetic_rhs,
            SpecType::Number { position: operation_position(operation) },
            SpecType::Number { position: operation_position(operation) },
            operation_position(operation),
            variables,
            types,
            records,
        ),
{
    assert(checked(Expression::Operation(operation), variables, types, records) == checked_operation(
        operation,
        variables,
        types,
        records,
    ));
}

/// Both operands of a boolean operation must be booleans; the operation is
/// then a boolean.
pub proof fn law_boolean_operands_are_booleans(
    operation: Operation<Expression>,
    variables: Map<Seq<char>, SpecType>,
    types: Map<Seq<char>, SpecType>,
    records: Map<Seq<char>, Seq<SpecRecordField>>,
)
    requires
        operation is Boolean,
    ensures
        binary_operation_typed(
            checked(Expression::Operation(operation), variables, types, records),
            *operation->Boolean_lhs,
            *operation->Boolean_rhs,
            SpecType::Boolean { position: operation_position(operation) },
            SpecType::Boolean { position: operation_position(operation) },
            operation_position(operation),
            variables,
            types,
            records,
        ),
{
    assert(checked(Expression::Operation(operation), variables, types, records) == checked_operation(
        operation,
        variables,
        types,
        records,
    ));
}

} // verus!
