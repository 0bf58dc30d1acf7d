//! Coercion of types: wherever an expression stands where a type is
//! expected that differs from its own, it is wrapped in a type coercion to
//! the expected type.
//!
//! The results are stated as relations built from what each step gives:
//! an expression is coerced into a result when the parts of it are coerced
//! into results in the order in which they are visited, the first error
//! ending the walk.
use crate::context::AnalysisContext;
use crate::error::{AnalysisError, SpecAnalysisError};
use crate::ir::{
    expression_position,
    if_types_complete,
    module_if_types_complete,
    ElseBranch,
    Expression,
    FunctionDefinition,
    IfTypeBranch,
    Lambda,
    ListComprehensionBranch,
    ListComprehensionIteratee,
    ListElement,
    MapElement,
    MapEntry,
    Module,
    Operation,
    RecordFieldValue,
};
use crate::ir_copy::{
    copy_arguments,
    copy_foreign_declarations,
    copy_function_declarations,
    copy_option_type,
    copy_strings,
    copy_type_aliases,
    copy_type_definitions,
    same_arguments,
    same_foreign_declarations,
    same_function_declarations,
    same_option_type,
    same_strings,
    same_type_aliases,
    same_type_definitions,
};
use crate::module_environment::{create as create_environment, environment};
use crate::position::{Position, SpecPosition};
use crate::record_field_resolver::{record_fields, resolve as resolve_fields};
use crate::tables::{record_map_contents, type_map_contents, TypeMap};
use crate::type_canonicalizer::{aliases_acyclic, canonical, canonicalize};
use crate::type_checker::bind_arguments;
use crate::type_equality_checker::{check as check_equal, types_equal};
use crate::type_extractor::{extract_from_expression, extracted, field_type, find_field};
use crate::types::{clone_type, lemma_view_types, view_fields, view_types, RecordField, SpecRecordField, SpecType, Type};
use vstd::prelude::*;

verus! {

broadcast use crate::type_extractor::lemma_extraction_ready;

/// The mathematical value of an outcome that holds an expression.
pub open spec fn view_result(result: Result<Expression, AnalysisError>) -> Result<
    Expression,
    SpecAnalysisError,
> {
    match result {
        Ok(expression) => Ok(expression),
        Err(error) => Err(error@),
    }
}

/// The mathematical value of an outcome, its error taken by its view.
pub open spec fn view_outcome<T>(result: Result<T, AnalysisError>) -> Result<T, SpecAnalysisError> {
    match result {
        Ok(value) => Ok(value),
        Err(error) => Err(error@),
    }
}

/// The mathematical value of an outcome that holds a list.
pub open spec fn view_seq_result<T>(result: Result<Vec<T>, AnalysisError>) -> Result<
    Seq<T>,
    SpecAnalysisError,
> {
    match result {
        Ok(items) => Ok(items@),
        Err(error) => Err(error@),
    }
}

/// The mathematical value of an outcome that holds a lambda.
pub open spec fn view_lambda_result(result: Result<Lambda<Expression>, AnalysisError>) -> Result<
    Lambda<Expression>,
    SpecAnalysisError,
> {
    match result {
        Ok(lambda) => Ok(lambda),
        Err(error) => Err(error@),
    }
}

/// The mathematical value of an outcome that holds list comprehension
/// branches and the variables in scope after them.
pub open spec fn view_branches_result(
    result: Result<(Vec<ListComprehensionBranch<Expression>>, TypeMap), AnalysisError>,
) -> Result<(Seq<ListComprehensionBranch<Expression>>, Map<Seq<char>, SpecType>), SpecAnalysisError> {
    match result {
        Ok((branches, variables)) => Ok((branches@, type_map_contents(variables))),
        Err(error) => Err(error@),
    }
}

/// The mathematical value of an outcome that holds a module.
pub open spec fn view_module_result(result: Result<Module, AnalysisError>) -> Result<
    Module,
    SpecAnalysisError,
> {
    match result {
        Ok(module) => Ok(module),
        Err(error) => Err(error@),
    }
}

/// Holds of every value; it marks the outcomes that the steps of a
/// transformation produced, so that the statements over the outcome of a
/// step are instantiated at the outcomes at hand.
pub open spec fn produced<T>(outcome: T) -> bool {
    true
}

/// `result` is what becomes of an already transformed expression where
/// `upper` is expected: the expression itself where its type equals
/// `upper`, else a coercion of it from its type to `upper`, at its
/// position; or the first error of extracting or comparing its type.
#[verifier::opaque]
pub open spec fn wrapped(
    transformed: Result<Expression, SpecAnalysisError>,
    result: Result<Expression, SpecAnalysisError>,
    upper: SpecType,
    variables: Map<Seq<char>, SpecType>,
    types: Map<Seq<char>, SpecType>,
    records: Map<Seq<char>, Seq<SpecRecordField>>,
) -> bool {
    match transformed {
        Err(error) => result == Err::<Expression, SpecAnalysisError>(error),
        Ok(expression) => match extracted(expression, variables, types, records) {
            Err(error) => result == Err::<Expression, SpecAnalysisError>(error),
            Ok(lower) => match types_equal(lower, upper, types) {
                Err(error) => result == Err::<Expression, SpecAnalysisError>(error),
                Ok(true) => result == Ok::<Expression, SpecAnalysisError>(expression),
                Ok(false) => result matches Ok(Expression::TypeCoercion { from, to, argument, position })
                    && from@ == lower && to@ == upper && *argument == expression && position@
                    == expression_position(expression),
            },
        },
    }
}

/// `result` is what becomes of an expression transformed and then coerced
/// into `upper`.
pub open spec fn coerced_into(
    expression: Expression,
    result: Result<Expression, SpecAnalysisError>,
    upper: SpecType,
    variables: Map<Seq<char>, SpecType>,
    types: Map<Seq<char>, SpecType>,
    records: Map<Seq<char>, Seq<SpecRecordField>>,
) -> bool
    decreases expression, 2int,
{
    exists|transformed: Result<Expression, SpecAnalysisError>|
        #[trigger] produced(transformed) && coerced(expression, transformed, variables, types, records) && wrapped(
            transformed,
            result,
            upper,
            variables,
            types,
            records,
        )
}

/// `result` is what becomes of a lambda: its body coerced into its result
/// type with its arguments bound, the rest as it was.
#[verifier::opaque]
pub open spec fn coerced_lambda(
    lambda: Lambda<Expression>,
    result: Result<Lambda<Expression>, SpecAnalysisError>,
    variables: Map<Seq<char>, SpecType>,
    types: Map<Seq<char>, SpecType>,
    records: Map<Seq<char>, Seq<SpecRecordField>>,
) -> bool
    decreases lambda, 2int,
{
    exists|body: Result<Expression, SpecAnalysisError>|
        #[trigger] produced(body) && coerced_into(
            *lambda.body,
            body,
            lambda.result_type@,
            bind_arguments(variables, lambda.arguments@),
            types,
            records,
        ) && match body {
            Err(error) => result == Err::<Lambda<Expression>, SpecAnalysisError>(error),
            Ok(body) => result matches Ok(new) && same_arguments(lambda.arguments@, new.arguments@)
                && new.result_type@ == lambda.result_type@ && *new.body == body && new.position@
                == lambda.position@,
        }
}

/// `result` is what becomes of an expression: each part of it transformed,
/// and those that stand where a type is known coerced into it; the first
/// error otherwise.
pub open spec fn coerced(
    expression: Expression,
    result: Result<Expression, SpecAnalysisError>,
    variables: Map<Seq<char>, SpecType>,
    types: Map<Seq<char>, SpecType>,
    records: Map<Seq<char>, Seq<SpecRecordField>>,
) -> bool
    decreases expression, 1int,
{
    match expression {
        Expression::Boolean { value, position } => result matches Ok(
            Expression::Boolean { value: v, position: p },
        ) && v == value && p@ == position@,
        Expression::BuiltInFunction { name, position } => result matches Ok(
            Expression::BuiltInFunction { name: n, position: p },
        ) && n == name && p@ == position@,
        Expression::Call { .. } => coerced_call(expression, result, variables, types, records),
        Expression::If { .. } => coerced_if(expression, result, variables, types, records),
        Expression::IfList { .. } => coerced_if_list(expression, result, variables, types, records),
        Expression::IfMap { .. } => coerced_if_map(expression, result, variables, types, records),
        Expression::IfType { .. } => coerced_if_type(expression, result, variables, types, records),
        Expression::Lambda(lambda) => exists|l: Result<Lambda<Expression>, SpecAnalysisError>|
            #[trigger] produced(l) && coerced_lambda(lambda, l, variables, types, records) && match l {
                Err(error) => result == Err::<Expression, SpecAnalysisError>(error),
                Ok(l) => result == Ok::<Expression, SpecAnalysisError>(Expression::Lambda(l)),
            },
        Expression::Let { .. } => coerced_let(expression, result, variables, types, records),
        Expression::List { type_, elements, position } => exists|
            l: Result<Seq<ListElement<Expression>>, SpecAnalysisError>,
        |
            #[trigger] produced(l) && coerced_list_elements(
                elements,
                elements@.len() as int,
                l,
                type_@,
                variables,
                types,
                records,
            ) && match l {
                Err(error) => result == Err::<Expression, SpecAnalysisError>(error),
                Ok(l) => result matches Ok(
                    Expression::List { type_: t, elements: e, position: p },
                ) && t@ == type_@ && e@ == l && p@ == position@,
            },
        Expression::ListComprehension { .. } => coerced_list_comprehension(expression, result, variables, types, records),
        Expression::Mapping { key_type, value_type, elements, position } => exists|
            m: Result<Seq<MapElement<Expression>>, SpecAnalysisError>,
        |
            #[trigger] produced(m) && coerced_map_elements(
                elements,
                elements@.len() as int,
                m,
                key_type@,
                value_type@,
                position@,
                variables,
                types,
                records,
            ) && match m {
                Err(error) => result == Err::<Expression, SpecAnalysisError>(error),
                Ok(m) => result matches Ok(
                    Expression::Mapping { key_type: k, value_type: v, elements: e, position: p },
                ) && k@ == key_type@ && v@ == value_type@ && e@ == m && p@ == position@,
            },
        Expression::Unit { position } => result matches Ok(Expression::Unit { position: p }) && p@
            == position@,
        Expression::Number { value, position } => result matches Ok(
            Expression::Number { value: v, position: p },
        ) && v == value && p@ == position@,
        Expression::Operation(..) => coerced_operation(expression, result, variables, types, records),
        Expression::RecordConstruction { .. } => coerced_record_construction(expression, result, variables, types, records),
        Expression::RecordDeconstruction { type_, record, field_name, position } => exists|
            r: Result<Expression, SpecAnalysisError>,
        |
            #[trigger] produced(r) && coerced(*record, r, variables, types, records) && match r {
                Err(error) => result == Err::<Expression, SpecAnalysisError>(error),
                Ok(r) => result matches Ok(
                    Expression::RecordDeconstruction {
                        type_: t,
                        record: x,
                        field_name: n,
                        position: p,
                    },
                ) && same_option_type(t, type_) && *x == r && n@ == field_name@ && p@ == position@,
            },
        Expression::RecordUpdate { .. } => coerced_record_update(expression, result, variables, types, records),
        Expression::String { value, position } => result matches Ok(
            Expression::String { value: v, position: p },
        ) && v@ == value@ && p@ == position@,
        Expression::Thunk { type_, expression: body, position } => match type_ {
            None => result == Err::<Expression, SpecAnalysisError>(
                SpecAnalysisError::TypeNotInferred(position@),
            ),
            Some(type_) => exists|e: Result<Expression, SpecAnalysisError>|
                #[trigger] produced(e) && coerced_into(*body, e, type_@, variables, types, records) && match e {
                    Err(error) => result == Err::<Expression, SpecAnalysisError>(error),
                    Ok(e) => result matches Ok(
                        Expression::Thunk { type_: Some(t), expression: x, position: p },
                    ) && t@ == type_@ && *x == e && p@ == position@,
                },
        },
        Expression::TypeCoercion { from, to, argument, position } => exists|
            a: Result<Expression, SpecAnalysisError>,
        |
            #[trigger] produced(a) && coerced(*argument, a, variables, types, records) && match a {
                Err(error) => result == Err::<Expression, SpecAnalysisError>(error),
                Ok(a) => result matches Ok(
                    Expression::TypeCoercion { from: f, to: t, argument: x, position: p },
                ) && f@ == from@ && t@ == to@ && *x == a && p@ == position@,
            },
        Expression::Variable { name, position } => result matches Ok(
            Expression::Variable { name: n, position: p },
        ) && n@ == name@ && p@ == position@,
    }
}

/// `result` is what becomes of a call: its function transformed, then its arguments coerced into the argument types of its canonical function type, as many as both have.
#[verifier::opaque]
pub open spec fn coerced_call(
    expression: Expression,
    result: Result<Expression, SpecAnalysisError>,
    variables: Map<Seq<char>, SpecType>,
    types: Map<Seq<char>, SpecType>,
    records: Map<Seq<char>, Seq<SpecRecordField>>,
) -> bool
    decreases expression, 0int,
{
    match expression {
        Expression::Call { function_type, function, arguments, position } => match function_type {
            None => result == Err::<Expression, SpecAnalysisError>(
                SpecAnalysisError::TypeNotInferred(position@),
            ),
            Some(type_) => match canonical(type_@, types) {
                Err(error) => result == Err::<Expression, SpecAnalysisError>(error),
                Ok(function_type_) => if !(function_type_ is Function) {
                    result == Err::<Expression, SpecAnalysisError>(
                        SpecAnalysisError::FunctionExpected(
                            expression_position(*function),
                            type_@,
                        ),
                    )
                } else {
                    exists|f: Result<Expression, SpecAnalysisError>|
                        #[trigger] produced(f) && coerced(*function, f, variables, types, records) && match f {
                            Err(error) => result == Err::<Expression, SpecAnalysisError>(error),
                            Ok(f) => exists|a: Result<Seq<Expression>, SpecAnalysisError>|
                                #[trigger] produced(a) && coerced_arguments(
                                    arguments,
                                    function_type_->Function_arguments,
                                    zipped_length(
                                        arguments@.len() as int,
                                        function_type_->Function_arguments.len() as int,
                                    ),
                                    a,
                                    variables,
                                    types,
                                    records,
                                ) && match a {
                                    Err(error) => result == Err::<Expression, SpecAnalysisError>(
                                        error,
                                    ),
                                    Ok(a) => result matches Ok(
                                        Expression::Call {
                                            function_type: t,
                                            function: g,
                                            arguments: b,
                                            position: p,
                                        },
                                    ) && same_option_type(t, function_type) && *g == f && b@ == a
                                        && p@ == position@,
                                },
                        }
                },
            },
        },
        _ => false,
    }
}

/// `result` is what becomes of an if expression: its condition transformed, its branches coerced into its type.
#[verifier::opaque]
pub open spec fn coerced_if(
    expression: Expression,
    result: Result<Expression, SpecAnalysisError>,
    variables: Map<Seq<char>, SpecType>,
    types: Map<Seq<char>, SpecType>,
    records: Map<Seq<char>, Seq<SpecRecordField>>,
) -> bool
    decreases expression, 0int,
{
    match expression {
        Expression::If { condition, then, else_, position } => match extracted(
            expression,
            variables,
            types,
            records,
        ) {
            Err(error) => result == Err::<Expression, SpecAnalysisError>(error),
            Ok(type_) => exists|c: Result<Expression, SpecAnalysisError>|
                #[trigger] produced(c) && coerced(*condition, c, variables, types, records) && match c {
                    Err(error) => result == Err::<Expression, SpecAnalysisError>(error),
                    Ok(c) => exists|t: Result<Expression, SpecAnalysisError>|
                        #[trigger] produced(t) && coerced_into(*then, t, type_, variables, types, records)
                            && match t {
                            Err(error) => result == Err::<Expression, SpecAnalysisError>(error),
                            Ok(t) => exists|e: Result<Expression, SpecAnalysisError>|
                                #[trigger] produced(e) && coerced_into(*else_, e, type_, variables, types, records)
                                    && match e {
                                    Err(error) => result == Err::<Expression, SpecAnalysisError>(
                                        error,
                                    ),
                                    Ok(e) => result matches Ok(
                                        Expression::If {
                                            condition: x,
                                            then: y,
                                            else_: z,
                                            position: p,
                                        },
                                    ) && *x == c && *y == t && *z == e && p@ == position@,
                                },
                        },
                },
        },
        _ => false,
    }
}

/// `result` is what becomes of an if-list expression: its list transformed, its branches coerced into its type, the first element (as a thunk) and the rest of the list bound in the first branch.
#[verifier::opaque]
pub open spec fn coerced_if_list(
    expression: Expression,
    result: Result<Expression, SpecAnalysisError>,
    variables: Map<Seq<char>, SpecType>,
    types: Map<Seq<char>, SpecType>,
    records: Map<Seq<char>, Seq<SpecRecordField>>,
) -> bool
    decreases expression, 0int,
{
    match expression {
        Expression::IfList { type_, list, first_name, rest_name, then, else_, position } => match type_ {
            None => result == Err::<Expression, SpecAnalysisError>(
                SpecAnalysisError::TypeNotInferred(expression_position(*list)),
            ),
            Some(element) => match extracted(expression, variables, types, records) {
                Err(error) => result == Err::<Expression, SpecAnalysisError>(error),
                Ok(result_type) => exists|l: Result<Expression, SpecAnalysisError>|
                    #[trigger] produced(l) && coerced(*list, l, variables, types, records) && match l {
                        Err(error) => result == Err::<Expression, SpecAnalysisError>(error),
                        Ok(l) => exists|t: Result<Expression, SpecAnalysisError>|
                            #[trigger] produced(t) && coerced_into(
                                *then,
                                t,
                                result_type,
                                variables.insert(
                                    first_name@,
                                    SpecType::Function {
                                        arguments: Seq::empty(),
                                        result: Box::new(element@),
                                        position: position@,
                                    },
                                ).insert(
                                    rest_name@,
                                    SpecType::List {
                                        element: Box::new(element@),
                                        position: expression_position(*list),
                                    },
                                ),
                                types,
                                records,
                            ) && match t {
                                Err(error) => result == Err::<Expression, SpecAnalysisError>(error),
                                Ok(t) => exists|e: Result<Expression, SpecAnalysisError>|
                                    #[trigger] produced(e) && coerced_into(
                                        *else_,
                                        e,
                                        result_type,
                                        variables,
                                        types,
                                        records,
                                    ) && match e {
                                        Err(error) => result == Err::<
                                            Expression,
                                            SpecAnalysisError,
                                        >(error),
                                        Ok(e) => result matches Ok(
                                            Expression::IfList {
                                                type_: a,
                                                list: b,
                                                first_name: c,
                                                rest_name: d,
                                                then: f,
                                                else_: g,
                                                position: p,
                                            },
                                        ) && same_option_type(a, type_) && *b == l && c@
                                            == first_name@ && d@ == rest_name@ && *f == t && *g
                                            == e && p@ == position@,
                                    },
                            },
                    },
            },
        },
        _ => false,
    }
}

/// `result` is what becomes of an if-map expression: its map transformed, its key coerced into the key type, its branches into its type, the value bound in the first branch.
#[verifier::opaque]
pub open spec fn coerced_if_map(
    expression: Expression,
    result: Result<Expression, SpecAnalysisError>,
    variables: Map<Seq<char>, SpecType>,
    types: Map<Seq<char>, SpecType>,
    records: Map<Seq<char>, Seq<SpecRecordField>>,
) -> bool
    decreases expression, 0int,
{
    match expression {
        Expression::IfMap { key_type, value_type, name, map, key, then, else_, position } => {
            if key_type is None || value_type is None {
                result == Err::<Expression, SpecAnalysisError>(
                    SpecAnalysisError::TypeNotInferred(expression_position(*map)),
                )
            } else {
                match extracted(expression, variables, types, records) {
                    Err(error) => result == Err::<Expression, SpecAnalysisError>(error),
                    Ok(result_type) => exists|m: Result<Expression, SpecAnalysisError>|
                        #[trigger] produced(m) && coerced(*map, m, variables, types, records) && match m {
                            Err(error) => result == Err::<Expression, SpecAnalysisError>(error),
                            Ok(m) => exists|k: Result<Expression, SpecAnalysisError>|
                                #[trigger] produced(k) && coerced_into(
                                    *key,
                                    k,
                                    key_type->0@,
                                    variables,
                                    types,
                                    records,
                                ) && match k {
                                    Err(error) => result == Err::<Expression, SpecAnalysisError>(
                                        error,
                                    ),
                                    Ok(k) => exists|t: Result<Expression, SpecAnalysisError>|
                                        #[trigger] produced(t) && coerced_into(
                                            *then,
                                            t,
                                            result_type,
                                            variables.insert(name@, value_type->0@),
                                            types,
                                            records,
                                        ) && match t {
                                            Err(error) => result == Err::<
                                                Expression,
                                                SpecAnalysisError,
                                            >(error),
                                            Ok(t) => exists|e: Result<Expression, SpecAnalysisError>|
                                                #[trigger] produced(e) && coerced_into(
                                                    *else_,
                                                    e,
                                                    result_type,
                                                    variables,
                                                    types,
                                                    records,
                                                ) && match e {
                                                    Err(error) => result == Err::<
                                                        Expression,
                                                        SpecAnalysisError,
                                                    >(error),
                                                    Ok(e) => result matches Ok(
                                                        Expression::IfMap {
                                                            key_type: a,
                                                            value_type: b,
                                                            name: c,
                                                            map: d,
                                                            key: f,
                                                            then: g,
                                                            else_: h,
                                                            position: p,
                                                        },
                                                    ) && same_option_type(a, key_type)
                                                        && same_option_type(b, value_type) && c@
                                                        == name@ && *d == m && *f == k && *g == t
                                                        && *h == e && p@ == position@,
                                                },
                                        },
                                },
                        },
                }
            }
        },
        _ => false,
    }
}

/// `result` is what becomes of an if-type expression: its argument transformed, each branch coerced into its type with the name bound to the branch type.
#[verifier::opaque]
pub open spec fn coerced_if_type(
    expression: Expression,
    result: Result<Expression, SpecAnalysisError>,
    variables: Map<Seq<char>, SpecType>,
    types: Map<Seq<char>, SpecType>,
    records: Map<Seq<char>, Seq<SpecRecordField>>,
) -> bool
    decreases expression, 0int,
{
    match expression {
        Expression::IfType { name, argument, branches, else_, position } => match extracted(
            expression,
            variables,
            types,
            records,
        ) {
            Err(error) => result == Err::<Expression, SpecAnalysisError>(error),
            Ok(result_type) => exists|a: Result<Expression, SpecAnalysisError>|
                #[trigger] produced(a) && coerced(*argument, a, variables, types, records) && match a {
                    Err(error) => result == Err::<Expression, SpecAnalysisError>(error),
                    Ok(a) => exists|b: Result<Seq<IfTypeBranch<Expression>>, SpecAnalysisError>|
                        #[trigger] produced(b) && coerced_if_branches(
                            branches,
                            branches@.len() as int,
                            b,
                            name@,
                            result_type,
                            variables,
                            types,
                            records,
                        ) && match b {
                            Err(error) => result == Err::<Expression, SpecAnalysisError>(error),
                            Ok(b) => exists|
                                e: Result<Option<Box<ElseBranch<Expression>>>, SpecAnalysisError>,
                            |
                                #[trigger] produced(e) && coerced_else(
                                    else_,
                                    e,
                                    name@,
                                    result_type,
                                    variables,
                                    types,
                                    records,
                                ) && match e {
                                    Err(error) => result == Err::<Expression, SpecAnalysisError>(
                                        error,
                                    ),
                                    Ok(e) => result matches Ok(
                                        Expression::IfType {
                                            name: n,
                                            argument: x,
                                            branches: y,
                                            else_: z,
                                            position: p,
                                        },
                                    ) && n@ == name@ && *x == a && y@ == b && z == e && p@
                                        == position@,
                                },
                        },
                },
        },
        _ => false,
    }
}

/// `result` is what becomes of a let expression: its bound expression transformed, then its body with the name bound to the inferred type.
#[verifier::opaque]
pub open spec fn coerced_let(
    expression: Expression,
    result: Result<Expression, SpecAnalysisError>,
    variables: Map<Seq<char>, SpecType>,
    types: Map<Seq<char>, SpecType>,
    records: Map<Seq<char>, Seq<SpecRecordField>>,
) -> bool
    decreases expression, 0int,
{
    match expression {
        Expression::Let { name, type_, bound_expression, expression: body, position } => exists|
            b: Result<Expression, SpecAnalysisError>,
        |
            #[trigger] produced(b) && coerced(*bound_expression, b, variables, types, records) && match b {
                Err(error) => result == Err::<Expression, SpecAnalysisError>(error),
                Ok(b) => if name is Some && type_ is None {
                    result == Err::<Expression, SpecAnalysisError>(
                        SpecAnalysisError::TypeNotInferred(expression_position(*bound_expression)),
                    )
                } else {
                    exists|e: Result<Expression, SpecAnalysisError>|
                        #[trigger] produced(e) && coerced(
                            *body,
                            e,
                            let_scope(variables, name, type_),
                            types,
                            records,
                        ) && match e {
                            Err(error) => result == Err::<Expression, SpecAnalysisError>(error),
                            Ok(e) => result matches Ok(
                                Expression::Let {
                                    name: n,
                                    type_: t,
                                    bound_expression: x,
                                    expression: y,
                                    position: p,
                                },
                            ) && (match (n, name) {
                                (Some(n), Some(name)) => n@ == name@,
                                (None, None) => true,
                                _ => false,
                            }) && same_option_type(t, type_) && *x == b && *y == e && p@
                                == position@,
                        }
                },
            },
        _ => false,
    }
}

/// `result` is what becomes of a list comprehension: its branches in turn, then its element coerced into the element type with the names of all branches bound.
#[verifier::opaque]
pub open spec fn coerced_list_comprehension(
    expression: Expression,
    result: Result<Expression, SpecAnalysisError>,
    variables: Map<Seq<char>, SpecType>,
    types: Map<Seq<char>, SpecType>,
    records: Map<Seq<char>, Seq<SpecRecordField>>,
) -> bool
    decreases expression, 0int,
{
    match expression {
        Expression::ListComprehension { type_, element, branches, position } => exists|
            b: Result<
                (Seq<ListComprehensionBranch<Expression>>, Map<Seq<char>, SpecType>),
                SpecAnalysisError,
            >,
        |
            #[trigger] produced(b) && coerced_comprehension_branches(
                branches,
                branches@.len() as int,
                b,
                variables,
                position@,
                types,
                records,
            ) && match b {
                Err(error) => result == Err::<Expression, SpecAnalysisError>(error),
                Ok((b, scope)) => exists|e: Result<Expression, SpecAnalysisError>|
                    #[trigger] produced(e) && coerced_into(*element, e, type_@, scope, types, records) && match e {
                        Err(error) => result == Err::<Expression, SpecAnalysisError>(error),
                        Ok(e) => result matches Ok(
                            Expression::ListComprehension {
                                type_: t,
                                element: x,
                                branches: y,
                                position: p,
                            },
                        ) && t@ == type_@ && *x == e && y@ == b && p@ == position@,
                    },
            },
        _ => false,
    }
}

/// `result` is what becomes of an operation: the operands of an equality coerced into the operand type, the other operands transformed.
#[verifier::opaque]
pub open spec fn coerced_operation(
    expression: Expression,
    result: Result<Expression, SpecAnalysisError>,
    variables: Map<Seq<char>, SpecType>,
    types: Map<Seq<char>, SpecType>,
    records: Map<Seq<char>, Seq<SpecRecordField>>,
) -> bool
    decreases expression, 0int,
{
    match expression {
        Expression::Operation(operation) => match operation {
            Operation::Addition { type_, lhs, rhs, position } => exists|
                l: Result<Expression, SpecAnalysisError>,
            |
                #[trigger] produced(l) && coerced(*lhs, l, variables, types, records) && match l {
                    Err(error) => result == Err::<Expression, SpecAnalysisError>(error),
                    Ok(l) => exists|r: Result<Expression, SpecAnalysisError>|
                        #[trigger] produced(r) && coerced(*rhs, r, variables, types, records) && match r {
                            Err(error) => result == Err::<Expression, SpecAnalysisError>(error),
                            Ok(r) => result matches Ok(
                                Expression::Operation(
                                    Operation::Addition { type_: t, lhs: x, rhs: y, position: p },
                                ),
                            ) && same_option_type(t, type_) && *x == l && *y == r && p@
                                == position@,
                        },
                },
            Operation::Arithmetic { operator, lhs, rhs, position } => exists|
                l: Result<Expression, SpecAnalysisError>,
            |
                #[trigger] produced(l) && coerced(*lhs, l, variables, types, records) && match l {
                    Err(error) => result == Err::<Expression, SpecAnalysisError>(error),
                    Ok(l) => exists|r: Result<Expression, SpecAnalysisError>|
                        #[trigger] produced(r) && coerced(*rhs, r, variables, types, records) && match r {
                            Err(error) => result == Err::<Expression, SpecAnalysisError>(error),
                            Ok(r) => result matches Ok(
                                Expression::Operation(
                                    Operation::Arithmetic {
                                        operator: o,
                                        lhs: x,
                                        rhs: y,
                                        position: p,
                                    },
                                ),
                            ) && o == operator && *x == l && *y == r && p@ == position@,
                        },
                },
            Operation::Boolean { operator, lhs, rhs, position } => exists|
                l: Result<Expression, SpecAnalysisError>,
            |
                #[trigger] produced(l) && coerced(*lhs, l, variables, types, records) && match l {
                    Err(error) => result == Err::<Expression, SpecAnalysisError>(error),
                    Ok(l) => exists|r: Result<Expression, SpecAnalysisError>|
                        #[trigger] produced(r) && coerced(*rhs, r, variables, types, records) && match r {
                            Err(error) => result == Err::<Expression, SpecAnalysisError>(error),
                            Ok(r) => result matches Ok(
                                Expression::Operation(
                                    Operation::Boolean { operator: o, lhs: x, rhs: y, position: p },
                                ),
                            ) && o == operator && *x == l && *y == r && p@ == position@,
                        },
                },
            Operation::Equality { type_, operator, lhs, rhs, position } => match type_ {
                None => result == Err::<Expression, SpecAnalysisError>(
                    SpecAnalysisError::TypeNotInferred(position@),
                ),
                Some(type_) => exists|l: Result<Expression, SpecAnalysisError>|
                    #[trigger] produced(l) && coerced_into(*lhs, l, type_@, variables, types, records) && match l {
                        Err(error) => result == Err::<Expression, SpecAnalysisError>(error),
                        Ok(l) => exists|r: Result<Expression, SpecAnalysisError>|
                            #[trigger] produced(r) && coerced_into(*rhs, r, type_@, variables, types, records)
                                && match r {
                                Err(error) => result == Err::<Expression, SpecAnalysisError>(error),
                                Ok(r) => result matches Ok(
                                    Expression::Operation(
                                        Operation::Equality {
                                            type_: Some(t),
                                            operator: o,
                                            lhs: x,
                                            rhs: y,
                                            position: p,
                                        },
                                    ),
                                ) && t@ == type_@ && o == operator && *x == l && *y == r && p@
                                    == position@,
                            },
                    },
            },
            Operation::Not { expression: operand, position } => exists|
                e: Result<Expression, SpecAnalysisError>,
            |
                #[trigger] produced(e) && coerced(*operand, e, variables, types, records) && match e {
                    Err(error) => result == Err::<Expression, SpecAnalysisError>(error),
                    Ok(e) => result matches Ok(
                        Expression::Operation(Operation::Not { expression: x, position: p }),
                    ) && *x == e && p@ == position@,
                },
            Operation::Order { operator, lhs, rhs, position } => exists|
                l: Result<Expression, SpecAnalysisError>,
            |
                #[trigger] produced(l) && coerced(*lhs, l, variables, types, records) && match l {
                    Err(error) => result == Err::<Expression, SpecAnalysisError>(error),
                    Ok(l) => exists|r: Result<Expression, SpecAnalysisError>|
                        #[trigger] produced(r) && coerced(*rhs, r, variables, types, records) && match r {
                            Err(error) => result == Err::<Expression, SpecAnalysisError>(error),
                            Ok(r) => result matches Ok(
                                Expression::Operation(
                                    Operation::Order { operator: o, lhs: x, rhs: y, position: p },
                                ),
                            ) && o == operator && *x == l && *y == r && p@ == position@,
                        },
                },
            Operation::Try { type_, expression: operand, position } => exists|
                e: Result<Expression, SpecAnalysisError>,
            |
                #[trigger] produced(e) && coerced(*operand, e, variables, types, records) && match e {
                    Err(error) => result == Err::<Expression, SpecAnalysisError>(error),
                    Ok(e) => result matches Ok(
                        Expression::Operation(
                            Operation::Try { type_: t, expression: x, position: p },
                        ),
                    ) && same_option_type(t, type_) && *x == e && p@ == position@,
                },
        },
        _ => false,
    }
}

/// `result` is what becomes of a record construction: each field coerced into the type of the record field of its name.
#[verifier::opaque]
pub open spec fn coerced_record_construction(
    expression: Expression,
    result: Result<Expression, SpecAnalysisError>,
    variables: Map<Seq<char>, SpecType>,
    types: Map<Seq<char>, SpecType>,
    records: Map<Seq<char>, Seq<SpecRecordField>>,
) -> bool
    decreases expression, 0int,
{
    match expression {
        Expression::RecordConstruction { type_, fields, position } => match resolved_fields(
            type_@,
            position@,
            types,
            records,
        ) {
            Err(error) => result == Err::<Expression, SpecAnalysisError>(error),
            Ok(field_types) => exists|f: Result<Seq<RecordFieldValue<Expression>>, SpecAnalysisError>|
                #[trigger] produced(f) && coerced_fields(
                    fields,
                    fields@.len() as int,
                    f,
                    field_types,
                    variables,
                    types,
                    records,
                ) && match f {
                    Err(error) => result == Err::<Expression, SpecAnalysisError>(error),
                    Ok(f) => result matches Ok(
                        Expression::RecordConstruction { type_: t, fields: x, position: p },
                    ) && t@ == type_@ && x@ == f && p@ == position@,
                },
        },
        _ => false,
    }
}

/// `result` is what becomes of a record update: its record transformed, then each field coerced into the type of the record field of its name.
#[verifier::opaque]
pub open spec fn coerced_record_update(
    expression: Expression,
    result: Result<Expression, SpecAnalysisError>,
    variables: Map<Seq<char>, SpecType>,
    types: Map<Seq<char>, SpecType>,
    records: Map<Seq<char>, Seq<SpecRecordField>>,
) -> bool
    decreases expression, 0int,
{
    match expression {
        Expression::RecordUpdate { type_, record, fields, position } => exists|
            r: Result<Expression, SpecAnalysisError>,
        |
            #[trigger] produced(r) && coerced(*record, r, variables, types, records) && match r {
                Err(error) => result == Err::<Expression, SpecAnalysisError>(error),
                Ok(r) => match resolved_fields(type_@, position@, types, records) {
                    Err(error) => result == Err::<Expression, SpecAnalysisError>(error),
                    Ok(field_types) => exists|
                        f: Result<Seq<RecordFieldValue<Expression>>, SpecAnalysisError>,
                    |
                        #[trigger] produced(f) && coerced_fields(
                            fields,
                            fields@.len() as int,
                            f,
                            field_types,
                            variables,
                            types,
                            records,
                        ) && match f {
                            Err(error) => result == Err::<Expression, SpecAnalysisError>(error),
                            Ok(f) => result matches Ok(
                                Expression::RecordUpdate {
                                    type_: t,
                                    record: x,
                                    fields: y,
                                    position: p,
                                },
                            ) && t@ == type_@ && *x == r && y@ == f && p@ == position@,
                        },
                },
            },
        _ => false,
    }
}

/// The fields of the record type that `type_` stands for, as the record
/// field resolver finds them.
#[verifier::opaque]
pub open spec fn resolved_fields(
    type_: SpecType,
    position: SpecPosition,
    types: Map<Seq<char>, SpecType>,
    records: Map<Seq<char>, Seq<SpecRecordField>>,
) -> Result<Seq<SpecRecordField>, SpecAnalysisError> {
    record_fields(type_, position, types, records)
}

/// The variables in scope in the body of a let expression: its name, if
/// it has one, bound to its type.
pub open spec fn let_scope(
    variables: Map<Seq<char>, SpecType>,
    name: Option<String>,
    type_: Option<Type>,
) -> Map<Seq<char>, SpecType> {
    match name {
        Some(name) => variables.insert(name@, type_->0@),
        None => variables,
    }
}

/// How many arguments and argument types are paired: the shorter list's
/// length.
pub open spec fn zipped_length(arguments: int, types: int) -> int {
    if arguments < types {
        arguments
    } else {
        types
    }
}

/// `result` is what becomes of the first `n` arguments of a call, each
/// coerced into the argument type at its index.
#[verifier::opaque]
pub open spec fn coerced_arguments(
    arguments: Vec<Expression>,
    uppers: Seq<SpecType>,
    n: int,
    result: Result<Seq<Expression>, SpecAnalysisError>,
    variables: Map<Seq<char>, SpecType>,
    types: Map<Seq<char>, SpecType>,
    records: Map<Seq<char>, Seq<SpecRecordField>>,
) -> bool
    decreases arguments, n,
{
    if n <= 0 || n > arguments@.len() {
        result == Ok::<Seq<Expression>, SpecAnalysisError>(Seq::empty())
    } else {
        exists|prefix: Result<Seq<Expression>, SpecAnalysisError>|
            #[trigger] produced(prefix) && coerced_arguments(arguments, uppers, n - 1, prefix, variables, types, records)
                && match prefix {
                Err(error) => result == Err::<Seq<Expression>, SpecAnalysisError>(error),
                Ok(prefix) => exists|x: Result<Expression, SpecAnalysisError>|
                    #[trigger] produced(x) && coerced_into(
                        arguments@[n - 1],
                        x,
                        uppers[n - 1],
                        variables,
                        types,
                        records,
                    ) && match x {
                        Err(error) => result == Err::<Seq<Expression>, SpecAnalysisError>(error),
                        Ok(x) => result == Ok::<Seq<Expression>, SpecAnalysisError>(prefix.push(x)),
                    },
            }
    }
}

/// `result` is what becomes of the first `n` branches of an if-type
/// expression, each coerced into the result type with the name bound to
/// the branch's type.
#[verifier::opaque]
pub open spec fn coerced_if_branches(
    branches: Vec<IfTypeBranch<Expression>>,
    n: int,
    result: Result<Seq<IfTypeBranch<Expression>>, SpecAnalysisError>,
    name: Seq<char>,
    result_type: SpecType,
    variables: Map<Seq<char>, SpecType>,
    types: Map<Seq<char>, SpecType>,
    records: Map<Seq<char>, Seq<SpecRecordField>>,
) -> bool
    decreases branches, n,
{
    if n <= 0 || n > branches@.len() {
        result == Ok::<Seq<IfTypeBranch<Expression>>, SpecAnalysisError>(Seq::empty())
    } else {
        exists|prefix: Result<Seq<IfTypeBranch<Expression>>, SpecAnalysisError>|
            #[trigger] produced(prefix) && coerced_if_branches(
                branches,
                n - 1,
                prefix,
                name,
                result_type,
                variables,
                types,
                records,
            ) && match prefix {
                Err(error) => result == Err::<Seq<IfTypeBranch<Expression>>, SpecAnalysisError>(
                    error,
                ),
                Ok(prefix) => exists|x: Result<Expression, SpecAnalysisError>|
                    #[trigger] produced(x) && coerced_into(
                        branches@[n - 1].expression,
                        x,
                        result_type,
                        variables.insert(name, branches@[n - 1].type_@),
                        types,
                        records,
                    ) && match x {
                        Err(error) => result == Err::<
                            Seq<IfTypeBranch<Expression>>,
                            SpecAnalysisError,
                        >(error),
                        Ok(x) => result matches Ok(s) && s.len() == prefix.len() + 1
                            && s.drop_last() == prefix && s.last().type_@ == branches@[n
                            - 1].type_@ && s.last().expression == x,
                    },
            }
    }
}

/// `result` is what becomes of the else branch of an if-type expression:
/// coerced into the result type with the name bound to the branch's type.
#[verifier::opaque]
pub open spec fn coerced_else(
    else_: Option<Box<ElseBranch<Expression>>>,
    result: Result<Option<Box<ElseBranch<Expression>>>, SpecAnalysisError>,
    name: Seq<char>,
    result_type: SpecType,
    variables: Map<Seq<char>, SpecType>,
    types: Map<Seq<char>, SpecType>,
    records: Map<Seq<char>, Seq<SpecRecordField>>,
) -> bool
    decreases else_, 2int,
{
    match else_ {
        None => result == Ok::<Option<Box<ElseBranch<Expression>>>, SpecAnalysisError>(None),
        Some(branch) => match branch.type_ {
            None => result == Err::<Option<Box<ElseBranch<Expression>>>, SpecAnalysisError>(
                SpecAnalysisError::TypeNotInferred(branch.position@),
            ),
            Some(type_) => exists|x: Result<Expression, SpecAnalysisError>|
                #[trigger] produced(x) && coerced_into(
                    branch.expression,
                    x,
                    result_type,
                    variables.insert(name, type_@),
                    types,
                    records,
                ) && match x {
                    Err(error) => result == Err::<
                        Option<Box<ElseBranch<Expression>>>,
                        SpecAnalysisError,
                    >(error),
                    Ok(x) => result matches Ok(Some(b)) && same_option_type(b.type_, branch.type_)
                        && b.expression == x && b.position@ == branch.position@,
                },
        },
    }
}

/// `result` is what becomes of the first `n` elements of a list literal,
/// each coerced into the element type, or the list type for the elements
/// of a spread list.
#[verifier::opaque]
pub open spec fn coerced_list_elements(
    elements: Vec<ListElement<Expression>>,
    n: int,
    result: Result<Seq<ListElement<Expression>>, SpecAnalysisError>,
    element_type: SpecType,
    variables: Map<Seq<char>, SpecType>,
    types: Map<Seq<char>, SpecType>,
    records: Map<Seq<char>, Seq<SpecRecordField>>,
) -> bool
    decreases elements, n,
{
    if n <= 0 || n > elements@.len() {
        result == Ok::<Seq<ListElement<Expression>>, SpecAnalysisError>(Seq::empty())
    } else {
        exists|prefix: Result<Seq<ListElement<Expression>>, SpecAnalysisError>|
            #[trigger] produced(prefix) && coerced_list_elements(
                elements,
                n - 1,
                prefix,
                element_type,
                variables,
                types,
                records,
            ) && match prefix {
                Err(error) => result == Err::<Seq<ListElement<Expression>>, SpecAnalysisError>(
                    error,
                ),
                Ok(prefix) => match elements@[n - 1] {
                    ListElement::Multiple(e) => exists|x: Result<Expression, SpecAnalysisError>|
                        #[trigger] produced(x) && coerced_into(
                            e,
                            x,
                            SpecType::List {
                                element: Box::new(element_type),
                                position: expression_position(e),
                            },
                            variables,
                            types,
                            records,
                        ) && match x {
                            Err(error) => result == Err::<
                                Seq<ListElement<Expression>>,
                                SpecAnalysisError,
                            >(error),
                            Ok(x) => result == Ok::<
                                Seq<ListElement<Expression>>,
                                SpecAnalysisError,
                            >(prefix.push(ListElement::Multiple(x))),
                        },
                    ListElement::Single(e) => exists|x: Result<Expression, SpecAnalysisError>|
                        #[trigger] produced(x) && coerced_into(e, x, element_type, variables, types, records)
                            && match x {
                            Err(error) => result == Err::<
                                Seq<ListElement<Expression>>,
                                SpecAnalysisError,
                            >(error),
                            Ok(x) => result == Ok::<
                                Seq<ListElement<Expression>>,
                                SpecAnalysisError,
                            >(prefix.push(ListElement::Single(x))),
                        },
                },
            }
    }
}

/// `result` is what becomes of the first `n` elements of a map literal:
/// keys and values coerced into the key and value types, and the entries
/// of a spread map into the map type.
#[verifier::opaque]
pub open spec fn coerced_map_elements(
    elements: Vec<MapElement<Expression>>,
    n: int,
    result: Result<Seq<MapElement<Expression>>, SpecAnalysisError>,
    key_type: SpecType,
    value_type: SpecType,
    position: SpecPosition,
    variables: Map<Seq<char>, SpecType>,
    types: Map<Seq<char>, SpecType>,
    records: Map<Seq<char>, Seq<SpecRecordField>>,
) -> bool
    decreases elements, n,
{
    if n <= 0 || n > elements@.len() {
        result == Ok::<Seq<MapElement<Expression>>, SpecAnalysisError>(Seq::empty())
    } else {
        exists|prefix: Result<Seq<MapElement<Expression>>, SpecAnalysisError>|
            #[trigger] produced(prefix) && coerced_map_elements(
                elements,
                n - 1,
                prefix,
                key_type,
                value_type,
                position,
                variables,
                types,
                records,
            ) && match prefix {
                Err(error) => result == Err::<Seq<MapElement<Expression>>, SpecAnalysisError>(
                    error,
                ),
                Ok(prefix) => match elements@[n - 1] {
                    MapElement::Single(entry) => exists|k: Result<Expression, SpecAnalysisError>|
                        #[trigger] produced(k) && coerced_into(entry.key, k, key_type, variables, types, records)
                            && match k {
                            Err(error) => result == Err::<
                                Seq<MapElement<Expression>>,
                                SpecAnalysisError,
                            >(error),
                            Ok(k) => exists|v: Result<Expression, SpecAnalysisError>|
                                #[trigger] produced(v) && coerced_into(
                                    entry.value,
                                    v,
                                    value_type,
                                    variables,
                                    types,
                                    records,
                                ) && match v {
                                    Err(error) => result == Err::<
                                        Seq<MapElement<Expression>>,
                                        SpecAnalysisError,
                                    >(error),
                                    Ok(v) => result matches Ok(s) && s.len() == prefix.len() + 1
                                        && s.drop_last() == prefix && (s.last() matches MapElement::Single(e)
                                        && e.key == k && e.value == v && e.position@
                                        == entry.position@),
                                },
                        },
                    MapElement::Multiple(e) => exists|x: Result<Expression, SpecAnalysisError>|
                        #[trigger] produced(x) && coerced_into(
                            e,
                            x,
                            SpecType::Mapping {
                                key: Box::new(key_type),
                                value: Box::new(value_type),
                                position,
                            },
                            variables,
                            types,
                            records,
                        ) && match x {
                            Err(error) => result == Err::<
                                Seq<MapElement<Expression>>,
                                SpecAnalysisError,
                            >(error),
                            Ok(x) => result == Ok::<
                                Seq<MapElement<Expression>>,
                                SpecAnalysisError,
                            >(prefix.push(MapElement::Multiple(x))),
                        },
                },
            }
    }
}

/// `result` is what becomes of the first `n` fields of a record
/// construction or update: each transformed, then coerced into the type of
/// the record's field of its name, which must exist.
#[verifier::opaque]
pub open spec fn coerced_fields(
    fields: Vec<RecordFieldValue<Expression>>,
    n: int,
    result: Result<Seq<RecordFieldValue<Expression>>, SpecAnalysisError>,
    field_types: Seq<SpecRecordField>,
    variables: Map<Seq<char>, SpecType>,
    types: Map<Seq<char>, SpecType>,
    records: Map<Seq<char>, Seq<SpecRecordField>>,
) -> bool
    decreases fields, n,
{
    if n <= 0 || n > fields@.len() {
        result == Ok::<Seq<RecordFieldValue<Expression>>, SpecAnalysisError>(Seq::empty())
    } else {
        exists|prefix: Result<Seq<RecordFieldValue<Expression>>, SpecAnalysisError>|
            #[trigger] produced(prefix) && coerced_fields(
                fields,
                n - 1,
                prefix,
                field_types,
                variables,
                types,
                records,
            ) && match prefix {
                Err(error) => result == Err::<
                    Seq<RecordFieldValue<Expression>>,
                    SpecAnalysisError,
                >(error),
                Ok(prefix) => exists|x: Result<Expression, SpecAnalysisError>|
                    #[trigger] produced(x) && coerced(fields@[n - 1].expression, x, variables, types, records)
                        && match x {
                        Err(error) => result == Err::<
                            Seq<RecordFieldValue<Expression>>,
                            SpecAnalysisError,
                        >(error),
                        Ok(x) => match field_type(field_types, fields@[n - 1].name@) {
                            None => result == Err::<
                                Seq<RecordFieldValue<Expression>>,
                                SpecAnalysisError,
                            >(SpecAnalysisError::UnknownRecordField(fields@[n - 1].position@)),
                            Some(upper) => exists|w: Result<Expression, SpecAnalysisError>|
                                #[trigger] produced(w) && wrapped(
                                    Ok(x),
                                    w,
                                    upper,
                                    variables,
                                    types,
                                    records,
                                ) && match w {
                                    Err(error) => result == Err::<
                                        Seq<RecordFieldValue<Expression>>,
                                        SpecAnalysisError,
                                    >(error),
                                    Ok(w) => result matches Ok(s) && s.len() == prefix.len() + 1
                                        && s.drop_last() == prefix && s.last().name@ == fields@[n
                                        - 1].name@ && s.last().expression == w
                                        && s.last().position@ == fields@[n - 1].position@,
                                },
                        },
                    },
            }
    }
}

/// The variables in scope once the names of a list comprehension branch
/// are bound, name by name, to thunks of the element types of the first
/// `k` iteratees' list types; the first error otherwise.
pub open spec fn bound_iteratees(
    names: Seq<String>,
    iteratees: Seq<ListComprehensionIteratee<Expression>>,
    k: int,
    variables: Map<Seq<char>, SpecType>,
    position: SpecPosition,
    types: Map<Seq<char>, SpecType>,
) -> Result<Map<Seq<char>, SpecType>, SpecAnalysisError>
    decreases k,
{
    if k <= 0 {
        Ok(variables)
    } else {
        match bound_iteratees(names, iteratees, k - 1, variables, position, types) {
            Err(error) => Err(error),
            Ok(scope) => match iteratees[k - 1].type_ {
                None => Err(SpecAnalysisError::TypeNotInferred(position)),
                Some(type_) => match canonical(type_@, types) {
                    Err(error) => Err(error),
                    Ok(list) => if list is List {
                        Ok(
                            scope.insert(
                                names[k - 1]@,
                                SpecType::Function {
                                    arguments: Seq::empty(),
                                    result: list->List_element,
                                    position,
                                },
                            ),
                        )
                    } else {
                        Err(SpecAnalysisError::ListExpected(position, type_@))
                    },
                },
            },
        }
    }
}

/// `result` is what becomes of the first `n` iteratees of a list
/// comprehension branch, each transformed.
#[verifier::opaque]
pub open spec fn transformed_iteratees(
    iteratees: Vec<ListComprehensionIteratee<Expression>>,
    n: int,
    result: Result<Seq<ListComprehensionIteratee<Expression>>, SpecAnalysisError>,
    variables: Map<Seq<char>, SpecType>,
    types: Map<Seq<char>, SpecType>,
    records: Map<Seq<char>, Seq<SpecRecordField>>,
) -> bool
    decreases iteratees, n,
{
    if n <= 0 || n > iteratees@.len() {
        result == Ok::<Seq<ListComprehensionIteratee<Expression>>, SpecAnalysisError>(
            Seq::empty(),
        )
    } else {
        exists|prefix: Result<Seq<ListComprehensionIteratee<Expression>>, SpecAnalysisError>|
            #[trigger] produced(prefix) && transformed_iteratees(iteratees, n - 1, prefix, variables, types, records)
                && match prefix {
                Err(error) => result == Err::<
                    Seq<ListComprehensionIteratee<Expression>>,
                    SpecAnalysisError,
                >(error),
                Ok(prefix) => exists|x: Result<Expression, SpecAnalysisError>|
                    #[trigger] produced(x) && coerced(iteratees@[n - 1].expression, x, variables, types, records)
                        && match x {
                        Err(error) => result == Err::<
                            Seq<ListComprehensionIteratee<Expression>>,
                            SpecAnalysisError,
                        >(error),
                        Ok(x) => result matches Ok(s) && s.len() == prefix.len() + 1
                            && s.drop_last() == prefix && same_option_type(
                            s.last().type_,
                            iteratees@[n - 1].type_,
                        ) && s.last().expression == x && s.last().position@ == iteratees@[n
                            - 1].position@,
                    },
            }
    }
}

/// `result` is what becomes of the first `n` branches of a list
/// comprehension, with the variables in scope after them: each branch's
/// iteratees transformed, its names bound, and its condition transformed
/// with them in scope; each branch then takes the comprehension's
/// position.
#[verifier::opaque]
pub open spec fn coerced_comprehension_branches(
    branches: Vec<ListComprehensionBranch<Expression>>,
    n: int,
    result: Result<
        (Seq<ListComprehensionBranch<Expression>>, Map<Seq<char>, SpecType>),
        SpecAnalysisError,
    >,
    variables: Map<Seq<char>, SpecType>,
    position: SpecPosition,
    types: Map<Seq<char>, SpecType>,
    records: Map<Seq<char>, Seq<SpecRecordField>>,
) -> bool
    decreases branches, n,
{
    if n <= 0 || n > branches@.len() {
        result == Ok::<
            (Seq<ListComprehensionBranch<Expression>>, Map<Seq<char>, SpecType>),
            SpecAnalysisError,
        >((Seq::empty(), variables))
    } else {
        exists|
            prefix: Result<
                (Seq<ListComprehensionBranch<Expression>>, Map<Seq<char>, SpecType>),
                SpecAnalysisError,
            >,
        |
            #[trigger] produced(prefix) && coerced_comprehension_branches(
                branches,
                n - 1,
                prefix,
                variables,
                position,
                types,
                records,
            ) && match prefix {
                Err(error) => result == Err::<
                    (Seq<ListComprehensionBranch<Expression>>, Map<Seq<char>, SpecType>),
                    SpecAnalysisError,
                >(error),
                Ok((prefix, scope)) => exists|
                    i: Result<Seq<ListComprehensionIteratee<Expression>>, SpecAnalysisError>,
                |
                    #[trigger] produced(i) && transformed_iteratees(
                        branches@[n - 1].iteratees,
                        branches@[n - 1].iteratees@.len() as int,
                        i,
                        scope,
                        types,
                        records,
                    ) && match i {
                        Err(error) => result == Err::<
                            (Seq<ListComprehensionBranch<Expression>>, Map<Seq<char>, SpecType>),
                            SpecAnalysisError,
                        >(error),
                        Ok(i) => match bound_iteratees(
                            branches@[n - 1].names@,
                            branches@[n - 1].iteratees@,
                            zipped_length(
                                branches@[n - 1].names@.len() as int,
                                branches@[n - 1].iteratees@.len() as int,
                            ),
                            scope,
                            position,
                            types,
                        ) {
                            Err(error) => result == Err::<
                                (
                                    Seq<ListComprehensionBranch<Expression>>,
                                    Map<Seq<char>, SpecType>,
                                ),
                                SpecAnalysisError,
                            >(error),
                            Ok(bound) => exists|
                                c: Result<Option<Expression>, SpecAnalysisError>,
                            |
                                #[trigger] produced(c) && coerced_condition(
                                    branches@[n - 1].condition,
                                    c,
                                    bound,
                                    types,
                                    records,
                                ) && match c {
                                    Err(error) => result == Err::<
                                        (
                                            Seq<ListComprehensionBranch<Expression>>,
                                            Map<Seq<char>, SpecType>,
                                        ),
                                        SpecAnalysisError,
                                    >(error),
                                    Ok(c) => result matches Ok((s, m)) && m == bound && s.len()
                                        == prefix.len() + 1 && s.drop_last() == prefix
                                        && same_strings(s.last().names@, branches@[n - 1].names@)
                                        && s.last().iteratees@ == i && s.last().condition == c
                                        && s.last().position@ == position,
                                },
                        },
                    },
            }
    }
}

/// `result` is what becomes of the optional condition of a list
/// comprehension branch: transformed where there is one.
#[verifier::opaque]
pub open spec fn coerced_condition(
    condition: Option<Expression>,
    result: Result<Option<Expression>, SpecAnalysisError>,
    variables: Map<Seq<char>, SpecType>,
    types: Map<Seq<char>, SpecType>,
    records: Map<Seq<char>, Seq<SpecRecordField>>,
) -> bool
    decreases condition, 2int,
{
    match condition {
        None => result == Ok::<Option<Expression>, SpecAnalysisError>(None),
        Some(condition) => exists|x: Result<Expression, SpecAnalysisError>|
            #[trigger] produced(x) && coerced(condition, x, variables, types, records) && match x {
                Err(error) => result == Err::<Option<Expression>, SpecAnalysisError>(error),
                Ok(x) => result == Ok::<Option<Expression>, SpecAnalysisError>(Some(x)),
            },
    }
}

/// `result` is what becomes of the first `n` function definitions of a
/// module: each lambda coerced with the module's environment.
#[verifier::opaque]
pub open spec fn coerced_definitions(
    definitions: Seq<FunctionDefinition>,
    n: int,
    result: Result<Seq<FunctionDefinition>, SpecAnalysisError>,
    variables: Map<Seq<char>, SpecType>,
    types: Map<Seq<char>, SpecType>,
    records: Map<Seq<char>, Seq<SpecRecordField>>,
) -> bool
    decreases n,
{
    if n <= 0 || n > definitions.len() {
        result == Ok::<Seq<FunctionDefinition>, SpecAnalysisError>(Seq::empty())
    } else {
        exists|prefix: Result<Seq<FunctionDefinition>, SpecAnalysisError>|
            #[trigger] produced(prefix) && coerced_definitions(definitions, n - 1, prefix, variables, types, records)
                && match prefix {
                Err(error) => result == Err::<Seq<FunctionDefinition>, SpecAnalysisError>(error),
                Ok(prefix) => exists|l: Result<Lambda<Expression>, SpecAnalysisError>|
                    #[trigger] produced(l) && coerced_lambda(
                        definitions[n - 1].lambda,
                        l,
                        variables,
                        types,
                        records,
                    ) && match l {
                        Err(error) => result == Err::<Seq<FunctionDefinition>, SpecAnalysisError>(
                            error,
                        ),
                        Ok(l) => result matches Ok(s) && s.len() == prefix.len() + 1
                            && s.drop_last() == prefix && s.last().name@ == definitions[n
                            - 1].name@ && s.last().original_name@ == definitions[n
                            - 1].original_name@ && s.last().lambda == l
                            && s.last().foreign_definition_configuration == definitions[n
                            - 1].foreign_definition_configuration && s.last().is_public
                            == definitions[n - 1].is_public && s.last().position@ == definitions[n
                            - 1].position@,
                    },
            }
    }
}

/// `result` is what becomes of a module: its function definitions
/// coerced with the module's environment, everything else as it was.
pub open spec fn coerced_module(
    module: Module,
    result: Result<Module, SpecAnalysisError>,
    types: Map<Seq<char>, SpecType>,
    records: Map<Seq<char>, Seq<SpecRecordField>>,
) -> bool {
    exists|d: Result<Seq<FunctionDefinition>, SpecAnalysisError>|
        #[trigger] produced(d) && coerced_definitions(
            module.function_definitions@,
            module.function_definitions@.len() as int,
            d,
            environment(module),
            types,
            records,
        ) && match d {
            Err(error) => result == Err::<Module, SpecAnalysisError>(error),
            Ok(d) => result matches Ok(new) && same_type_definitions(
                module.type_definitions@,
                new.type_definitions@,
            ) && same_type_aliases(module.type_aliases@, new.type_aliases@)
                && same_foreign_declarations(
                module.foreign_declarations@,
                new.foreign_declarations@,
            ) && same_function_declarations(
                module.function_declarations@,
                new.function_declarations@,
            ) && new.function_definitions@ == d && new.position@ == module.position@,
        }
}


/// Coerces an already transformed expression into `upper`: wraps it in a
/// coercion where its type differs.
#[verifier::spinoff_prover]
fn coerce_expression(
    context: &AnalysisContext,
    expression: Expression,
    upper: &Type,
    variables: &TypeMap,
) -> (result: Result<Expression, AnalysisError>)
    requires
        aliases_acyclic(type_map_contents(*context.types())),
        if_types_complete(expression),
    ensures
        produced(view_result(result)),
        wrapped(
            Ok(expression),
            view_result(result),
            upper@,
            type_map_contents(*variables),
            type_map_contents(*context.types()),
            record_map_contents(*context.records()),
        ),
        result matches Ok(e) ==> if_types_complete(e),
{
    proof {
        reveal(wrapped);
    }
    let lower = extract_from_expression(context, &expression, variables)?;
    if check_equal(&lower, upper, context.types())? {
        Ok(expression)
    } else {
        let position = expression.position().copy();
        Ok(
            Expression::TypeCoercion {
                from: lower,
                to: clone_type(upper),
                argument: Box::new(expression),
                position,
            },
        )
    }
}

/// Transforms an expression and coerces it into `upper`.
#[verifier::spinoff_prover]
fn transform_and_coerce(
    context: &AnalysisContext,
    expression: &Expression,
    upper: &Type,
    variables: &TypeMap,
) -> (result: Result<Expression, AnalysisError>)
    requires
        aliases_acyclic(type_map_contents(*context.types())),
        if_types_complete(*expression),
    ensures
        produced(view_result(result)),
        coerced_into(
            *expression,
            view_result(result),
            upper@,
            type_map_contents(*variables),
            type_map_contents(*context.types()),
            record_map_contents(*context.records()),
        ),
        result matches Ok(e) ==> if_types_complete(e),
    decreases expression, 4int,
{
    proof {
        reveal(wrapped);
    }
    let transformed = transform_expression(context, expression, variables);
    match transformed {
        Err(error) => Err(error),
        Ok(transformed) => coerce_expression(context, transformed, upper, variables),
    }
}

/// Coerces the body of a lambda into its result type, its arguments bound.
#[verifier::spinoff_prover]
fn transform_lambda(context: &AnalysisContext, lambda: &Lambda<Expression>, variables: &TypeMap) -> (result:
    Result<Lambda<Expression>, AnalysisError>)
    requires
        aliases_acyclic(type_map_contents(*context.types())),
        if_types_complete(*lambda.body),
    ensures
        produced(view_lambda_result(result)),
        coerced_lambda(
            *lambda,
            view_lambda_result(result),
            type_map_contents(*variables),
            type_map_contents(*context.types()),
            record_map_contents(*context.records()),
        ),
        result matches Ok(l) ==> if_types_complete(*l.body),
    decreases lambda, 0int,
{
    proof {
        reveal(coerced_lambda);
    }
    let scope = crate::type_checker::bind_lambda_arguments(variables, lambda);
    let body = transform_and_coerce(context, &lambda.body, &lambda.result_type, &scope);
    match body {
        Err(error) => Err(error),
        Ok(body) => Ok(
            Lambda {
                arguments: copy_arguments(&lambda.arguments),
                result_type: clone_type(&lambda.result_type),
                body: Box::new(body),
                position: lambda.position.copy(),
            },
        ),
    }
}

/// Transforms an expression: coerces each part of it that stands where a
/// type is known into that type.
#[verifier::spinoff_prover]
pub fn transform_expression(
    context: &AnalysisContext,
    expression: &Expression,
    variables: &TypeMap,
) -> (result: Result<Expression, AnalysisError>)
    requires
        aliases_acyclic(type_map_contents(*context.types())),
        if_types_complete(*expression),
    ensures
        produced(view_result(result)),
        coerced(
            *expression,
            view_result(result),
            type_map_contents(*variables),
            type_map_contents(*context.types()),
            record_map_contents(*context.records()),
        ),
        result matches Ok(e) ==> if_types_complete(e),
    decreases expression, 3int,
{
    match expression {
        Expression::Boolean { value, position } => Ok(
            Expression::Boolean { value: *value, position: position.copy() },
        ),
        Expression::BuiltInFunction { name, position } => Ok(
            Expression::BuiltInFunction { name: *name, position: position.copy() },
        ),
        Expression::Call { .. } => transform_call(context, expression, variables),
        Expression::If { .. } => transform_if(context, expression, variables),
        Expression::IfList { .. } => transform_if_list(context, expression, variables),
        Expression::IfMap { .. } => transform_if_map(context, expression, variables),
        Expression::IfType { .. } => transform_if_type(context, expression, variables),
        Expression::Lambda(lambda) => {
            let lambda = transform_lambda(context, lambda, variables)?;
            Ok(Expression::Lambda(lambda))
        },
        Expression::Let { .. } => transform_let(context, expression, variables),
        Expression::List { type_, elements, position } => {
            let elements = coerce_list_elements(
                context,
                elements,
                elements.len(),
                type_,
                variables,
            )?;
            Ok(Expression::List { type_: clone_type(type_), elements, position: position.copy() })
        },
        Expression::ListComprehension { .. } => transform_list_comprehension(
            context,
            expression,
            variables,
        ),
        Expression::Mapping { key_type, value_type, elements, position } => {
            let elements = coerce_map_elements(
                context,
                elements,
                elements.len(),
                key_type,
                value_type,
                position,
                variables,
            )?;
            Ok(
                Expression::Mapping {
                    key_type: clone_type(key_type),
                    value_type: clone_type(value_type),
                    elements,
                    position: position.copy(),
                },
            )
        },
        Expression::Unit { position } => Ok(Expression::Unit { position: position.copy() }),
        Expression::Number { value, position } => Ok(
            Expression::Number { value: *value, position: position.copy() },
        ),
        Expression::Operation(_) => transform_operation(context, expression, variables),
        Expression::RecordConstruction { .. } => transform_record_construction(
            context,
            expression,
            variables,
        ),
        Expression::RecordDeconstruction { type_, record, field_name, position } => {
            let record = transform_expression(context, record, variables)?;
            Ok(
                Expression::RecordDeconstruction {
                    type_: copy_option_type(type_),
                    record: Box::new(record),
                    field_name: field_name.clone(),
                    position: position.copy(),
                },
            )
        },
        Expression::RecordUpdate { .. } => transform_record_update(context, expression, variables),
        Expression::String { value, position } => Ok(
            Expression::String {
                value: crate::ir_copy::copy_bytes(value),
                position: position.copy(),
            },
        ),
        Expression::Thunk { type_, expression: body, position } => match type_ {
            None => Err(AnalysisError::TypeNotInferred(position.copy())),
            Some(type_) => {
                let body = transform_and_coerce(context, body, type_, variables)?;
                Ok(
                    Expression::Thunk {
                        type_: Some(clone_type(type_)),
                        expression: Box::new(body),
                        position: position.copy(),
                    },
                )
            },
        },
        Expression::TypeCoercion { from, to, argument, position } => {
            let argument = transform_expression(context, argument, variables)?;
            Ok(
                Expression::TypeCoercion {
                    from: clone_type(from),
                    to: clone_type(to),
                    argument: Box::new(argument),
                    position: position.copy(),
                },
            )
        },
        Expression::Variable { name, position } => Ok(
            Expression::Variable { name: name.clone(), position: position.copy() },
        ),
    }
}


/// Transforms a call: its function, then its arguments coerced into the
/// argument types of its function type, as many as both have.
#[verifier::spinoff_prover]
fn transform_call(context: &AnalysisContext, expression: &Expression, variables: &TypeMap) -> (result:
    Result<Expression, AnalysisError>)
    requires
        aliases_acyclic(type_map_contents(*context.types())),
        if_types_complete(*expression),
        expression is Call,
    ensures
        produced(view_result(result)),
        coerced_call(
            *expression,
            view_result(result),
            type_map_contents(*variables),
            type_map_contents(*context.types()),
            record_map_contents(*context.records()),
        ),
        result matches Ok(e) ==> if_types_complete(e),
    decreases expression, 2int,
{
    proof {
        reveal(coerced_call);
    }
    match expression {
        Expression::Call { function_type, function, arguments, position } => {
            let type_ = match function_type {
                Some(type_) => type_,
                None => {
                    return Err(AnalysisError::TypeNotInferred(position.copy()));
                },
            };
            let canonical_type = canonicalize(type_, context.types())?;
            let argument_types = match &canonical_type {
                Type::Function { arguments, .. } => arguments,
                _ => {
                    return Err(AnalysisError::FunctionExpected(function.position().copy(), clone_type(type_)));
                },
            };
            let function = transform_expression(context, function, variables)?;
            let n = if arguments.len() < argument_types.len() {
                arguments.len()
            } else {
                argument_types.len()
            };
            proof {
                lemma_view_types(argument_types@);
            }
            let arguments = coerce_arguments(context, arguments, argument_types, n, variables)?;
            Ok(
                Expression::Call {
                    function_type: copy_option_type(function_type),
                    function: Box::new(function),
                    arguments,
                    position: position.copy(),
                },
            )
        },
        _ => Err(AnalysisError::TypeNotInferred(expression.position().copy())),
    }
}

/// Coerces the first `n` arguments of a call into the types in `uppers`.
#[verifier::spinoff_prover]
fn coerce_arguments(
    context: &AnalysisContext,
    arguments: &Vec<Expression>,
    uppers: &Vec<Type>,
    n: usize,
    variables: &TypeMap,
) -> (result: Result<Vec<Expression>, AnalysisError>)
    requires
        aliases_acyclic(type_map_contents(*context.types())),
        n <= arguments.len(),
        n <= uppers.len(),
        forall|i: int| 0 <= i < arguments@.len() ==> if_types_complete(#[trigger] arguments@[i]),
    ensures
        produced(view_seq_result(result)),
        coerced_arguments(
            *arguments,
            view_types(uppers@),
            n as int,
            view_seq_result(result),
            type_map_contents(*variables),
            type_map_contents(*context.types()),
            record_map_contents(*context.records()),
        ),
        result matches Ok(v) ==> v@.len() == n && forall|i: int|
            0 <= i < v@.len() ==> if_types_complete(#[trigger] v@[i]),
    decreases arguments, n,
{
    proof {
        reveal(coerced_arguments);
    }
    if n == 0 {
        let empty: Vec<Expression> = Vec::new();
        proof {
            assert(empty@ =~= Seq::<Expression>::empty());
        }
        return Ok(empty);
    }
    let prefix_result = coerce_arguments(context, arguments, uppers, n - 1, variables);
    proof {
        assert(coerced_arguments(*arguments, view_types(uppers@), n as int - 1, view_seq_result(prefix_result), type_map_contents(*variables), type_map_contents(*context.types()), record_map_contents(*context.records())));
    }
    let mut prefix = prefix_result?;
    proof {
        lemma_view_types(uppers@);
    }
    let x_result = transform_and_coerce(context, &arguments[n - 1], &uppers[n - 1], variables);
    proof {
        assert(coerced_into(arguments@[n as int - 1], view_result(x_result), view_types(uppers@)[n as int - 1], type_map_contents(*variables), type_map_contents(*context.types()), record_map_contents(*context.records())));
    }
    let x = x_result?;
    let ghost before = prefix@;
    prefix.push(x);
    proof {
        assert(prefix@ =~= before.push(x));
    }
    Ok(prefix)
}

/// Transforms an if expression: its branches coerced into its type.
#[verifier::spinoff_prover]
fn transform_if(context: &AnalysisContext, expression: &Expression, variables: &TypeMap) -> (result:
    Result<Expression, AnalysisError>)
    requires
        aliases_acyclic(type_map_contents(*context.types())),
        if_types_complete(*expression),
        expression is If,
    ensures
        produced(view_result(result)),
        coerced_if(
            *expression,
            view_result(result),
            type_map_contents(*variables),
            type_map_contents(*context.types()),
            record_map_contents(*context.records()),
        ),
        result matches Ok(e) ==> if_types_complete(e),
    decreases expression, 2int,
{
    proof {
        reveal(coerced_if);
    }
    match expression {
        Expression::If { condition, then, else_, position } => {
            let type_ = extract_from_expression(context, expression, variables)?;
            let condition = transform_expression(context, condition, variables)?;
            let then = transform_and_coerce(context, then, &type_, variables)?;
            let else_ = transform_and_coerce(context, else_, &type_, variables)?;
            Ok(
                Expression::If {
                    condition: Box::new(condition),
                    then: Box::new(then),
                    else_: Box::new(else_),
                    position: position.copy(),
                },
            )
        },
        _ => Err(AnalysisError::TypeNotInferred(expression.position().copy())),
    }
}

/// Transforms an if-list expression: its branches coerced into its type,
/// the first element and the rest of the list bound in the first.
#[verifier::spinoff_prover]
fn transform_if_list(context: &AnalysisContext, expression: &Expression, variables: &TypeMap) -> (result:
    Result<Expression, AnalysisError>)
    requires
        aliases_acyclic(type_map_contents(*context.types())),
        if_types_complete(*expression),
        expression is IfList,
    ensures
        produced(view_result(result)),
        coerced_if_list(
            *expression,
            view_result(result),
            type_map_contents(*variables),
            type_map_contents(*context.types()),
            record_map_contents(*context.records()),
        ),
        result matches Ok(e) ==> if_types_complete(e),
    decreases expression, 2int,
{
    proof {
        reveal(coerced_if_list);
    }
    match expression {
        Expression::IfList { type_, list, first_name, rest_name, then, else_, position } => {
            let element = match type_ {
                Some(element) => element,
                None => {
                    return Err(AnalysisError::TypeNotInferred(list.position().copy()));
                },
            };
            let result_type = extract_from_expression(context, expression, variables)?;
            let new_list = transform_expression(context, list, variables)?;
            let mut scope = variables.duplicate();
            proof {
                assert(view_types(Seq::<Type>::empty()) =~= Seq::<SpecType>::empty());
            }
            scope.insert(
                first_name.clone(),
                Type::Function {
                    arguments: Vec::new(),
                    result: Box::new(clone_type(element)),
                    position: position.copy(),
                },
            );
            scope.insert(
                rest_name.clone(),
                Type::List { element: Box::new(clone_type(element)), position: list.position().copy() },
            );
            let then_result = transform_and_coerce(context, then, &result_type, &scope);
            proof {
                assert(coerced_into(**then, view_result(then_result), result_type@, type_map_contents(*variables).insert(first_name@, SpecType::Function { arguments: Seq::empty(), result: Box::new(element@), position: position@ }).insert(rest_name@, SpecType::List { element: Box::new(element@), position: expression_position(**list) }), type_map_contents(*context.types()), record_map_contents(*context.records())));
            }
            let new_then = then_result?;
            let new_else = transform_and_coerce(context, else_, &result_type, variables)?;
            Ok(
                Expression::IfList {
                    type_: copy_option_type(type_),
                    list: Box::new(new_list),
                    first_name: first_name.clone(),
                    rest_name: rest_name.clone(),
                    then: Box::new(new_then),
                    else_: Box::new(new_else),
                    position: position.copy(),
                },
            )
        },
        _ => Err(AnalysisError::TypeNotInferred(expression.position().copy())),
    }
}

/// Transforms an if-map expression: its key coerced into the key type, its
/// branches into its type, the value bound in the first.
#[verifier::spinoff_prover]
fn transform_if_map(context: &AnalysisContext, expression: &Expression, variables: &TypeMap) -> (result:
    Result<Expression, AnalysisError>)
    requires
        aliases_acyclic(type_map_contents(*context.types())),
        if_types_complete(*expression),
        expression is IfMap,
    ensures
        produced(view_result(result)),
        coerced_if_map(
            *expression,
            view_result(result),
            type_map_contents(*variables),
            type_map_contents(*context.types()),
            record_map_contents(*context.records()),
        ),
        result matches Ok(e) ==> if_types_complete(e),
    decreases expression, 2int,
{
    proof {
        reveal(coerced_if_map);
    }
    match expression {
        Expression::IfMap { key_type, value_type, name, map, key, then, else_, position } => {
            let (known_key, known_value) = match (key_type, value_type) {
                (Some(k), Some(v)) => (k, v),
                _ => {
                    return Err(AnalysisError::TypeNotInferred(map.position().copy()));
                },
            };
            let result_type = extract_from_expression(context, expression, variables)?;
            let new_map = transform_expression(context, map, variables)?;
            let new_key = transform_and_coerce(context, key, known_key, variables)?;
            let mut scope = variables.duplicate();
            scope.insert(name.clone(), clone_type(known_value));
            let then_result = transform_and_coerce(context, then, &result_type, &scope);
            proof {
                assert(coerced_into(**then, view_result(then_result), result_type@, type_map_contents(*variables).insert(name@, known_value@), type_map_contents(*context.types()), record_map_contents(*context.records())));
            }
            let new_then = then_result?;
            let new_else = transform_and_coerce(context, else_, &result_type, variables)?;
            Ok(
                Expression::IfMap {
                    key_type: copy_option_type(key_type),
                    value_type: copy_option_type(value_type),
                    name: name.clone(),
                    map: Box::new(new_map),
                    key: Box::new(new_key),
                    then: Box::new(new_then),
                    else_: Box::new(new_else),
                    position: position.copy(),
                },
            )
        },
        _ => Err(AnalysisError::TypeNotInferred(expression.position().copy())),
    }
}

/// Transforms an if-type expression: each branch coerced into its type,
/// the name bound to the branch's type.
#[verifier::spinoff_prover]
fn transform_if_type(context: &AnalysisContext, expression: &Expression, variables: &TypeMap) -> (result:
    Result<Expression, AnalysisError>)
    requires
        aliases_acyclic(type_map_contents(*context.types())),
        if_types_complete(*expression),
        expression is IfType,
    ensures
        produced(view_result(result)),
        coerced_if_type(
            *expression,
            view_result(result),
            type_map_contents(*variables),
            type_map_contents(*context.types()),
            record_map_contents(*context.records()),
        ),
        result matches Ok(e) ==> if_types_complete(e),
    decreases expression, 2int,
{
    proof {
        reveal(coerced_if_type);
    }
    match expression {
        Expression::IfType { name, argument, branches, else_, position } => {
            let result_type = extract_from_expression(context, expression, variables)?;
            let new_argument = transform_expression(context, argument, variables)?;
            let new_branches = coerce_if_branches(
                context,
                branches,
                branches.len(),
                name,
                &result_type,
                variables,
            )?;
            let new_else = coerce_else(context, else_, name, &result_type, variables)?;
            Ok(
                Expression::IfType {
                    name: name.clone(),
                    argument: Box::new(new_argument),
                    branches: new_branches,
                    else_: new_else,
                    position: position.copy(),
                },
            )
        },
        _ => Err(AnalysisError::TypeNotInferred(expression.position().copy())),
    }
}

/// Coerces the first `n` branches of an if-type expression into the result
/// type.
#[verifier::spinoff_prover]
fn coerce_if_branches(
    context: &AnalysisContext,
    branches: &Vec<IfTypeBranch<Expression>>,
    n: usize,
    name: &String,
    result_type: &Type,
    variables: &TypeMap,
) -> (result: Result<Vec<IfTypeBranch<Expression>>, AnalysisError>)
    requires
        aliases_acyclic(type_map_contents(*context.types())),
        n <= branches.len(),
        forall|i: int|
            0 <= i < branches@.len() ==> if_types_complete(#[trigger] branches@[i].expression),
    ensures
        produced(view_seq_result(result)),
        coerced_if_branches(
            *branches,
            n as int,
            view_seq_result(result),
            name@,
            result_type@,
            type_map_contents(*variables),
            type_map_contents(*context.types()),
            record_map_contents(*context.records()),
        ),
        result matches Ok(v) ==> v@.len() == n && forall|i: int|
            0 <= i < v@.len() ==> if_types_complete(#[trigger] v@[i].expression),
    decreases branches, n,
{
    proof {
        reveal(coerced_if_branches);
    }
    if n == 0 {
        let empty: Vec<IfTypeBranch<Expression>> = Vec::new();
        proof {
            assert(empty@ =~= Seq::<IfTypeBranch<Expression>>::empty());
        }
        return Ok(empty);
    }
    let prefix_result = coerce_if_branches(context, branches, n - 1, name, result_type, variables);
    proof {
        assert(coerced_if_branches(*branches, n as int - 1, view_seq_result(prefix_result), name@, result_type@, type_map_contents(*variables), type_map_contents(*context.types()), record_map_contents(*context.records())));
    }
    let mut prefix = prefix_result?;
    let branch = &branches[n - 1];
    let mut scope = variables.duplicate();
    scope.insert(name.clone(), clone_type(&branch.type_));
    let x_result = transform_and_coerce(context, &branch.expression, result_type, &scope);
    proof {
        assert(coerced_into(branches@[n as int - 1].expression, view_result(x_result), result_type@, type_map_contents(*variables).insert(name@, branches@[n as int - 1].type_@), type_map_contents(*context.types()), record_map_contents(*context.records())));
    }
    let x = x_result?;
    let ghost before = prefix@;
    prefix.push(IfTypeBranch { type_: clone_type(&branch.type_), expression: x });
    proof {
        assert(prefix@.drop_last() =~= before);
    }
    Ok(prefix)
}

/// Coerces the else branch of an if-type expression, if any, into the
/// result type.
#[verifier::spinoff_prover]
fn coerce_else(
    context: &AnalysisContext,
    else_: &Option<Box<ElseBranch<Expression>>>,
    name: &String,
    result_type: &Type,
    variables: &TypeMap,
) -> (result: Result<Option<Box<ElseBranch<Expression>>>, AnalysisError>)
    requires
        aliases_acyclic(type_map_contents(*context.types())),
        match *else_ {
            Some(branch) => if_types_complete(branch.expression),
            None => true,
        },
    ensures
        produced(view_outcome(result)),
        coerced_else(
            *else_,
            view_outcome(result),
            name@,
            result_type@,
            type_map_contents(*variables),
            type_map_contents(*context.types()),
            record_map_contents(*context.records()),
        ),
        result matches Ok(o) ==> (o is Some <==> else_ is Some) && match o {
            Some(branch) => if_types_complete(branch.expression),
            None => true,
        },
    decreases else_, 0int,
{
    proof {
        reveal(coerced_else);
    }
    match else_ {
        None => Ok(None),
        Some(branch) => match &branch.type_ {
            None => Err(AnalysisError::TypeNotInferred(branch.position.copy())),
            Some(type_) => {
                let mut scope = variables.duplicate();
                scope.insert(name.clone(), clone_type(type_));
                let x_result = transform_and_coerce(context, &branch.expression, result_type, &scope);
                proof {
                    assert(coerced_into(branch.expression, view_result(x_result), result_type@, type_map_contents(*variables).insert(name@, type_@), type_map_contents(*context.types()), record_map_contents(*context.records())));
                }
                let x = x_result?;
                Ok(
                    Some(
                        Box::new(
                            ElseBranch {
                                type_: copy_option_type(&branch.type_),
                                expression: x,
                                position: branch.position.copy(),
                            },
                        ),
                    ),
                )
            },
        },
    }
}

/// Transforms a let expression: its bound expression, then its body with
/// its name bound.
#[verifier::spinoff_prover]
fn transform_let(context: &AnalysisContext, expression: &Expression, variables: &TypeMap) -> (result:
    Result<Expression, AnalysisError>)
    requires
        aliases_acyclic(type_map_contents(*context.types())),
        if_types_complete(*expression),
        expression is Let,
    ensures
        produced(view_result(result)),
        coerced_let(
            *expression,
            view_result(result),
            type_map_contents(*variables),
            type_map_contents(*context.types()),
            record_map_contents(*context.records()),
        ),
        result matches Ok(e) ==> if_types_complete(e),
    decreases expression, 2int,
{
    proof {
        reveal(coerced_let);
    }
    match expression {
        Expression::Let { name, type_, bound_expression, expression: body, position } => {
            let bound = transform_expression(context, bound_expression, variables)?;
            let new_body = match name {
                Some(name) => match type_ {
                    None => {
                        return Err(AnalysisError::TypeNotInferred(bound_expression.position().copy()));
                    },
                    Some(type_) => {
                        let mut scope = variables.duplicate();
                        scope.insert(name.clone(), clone_type(type_));
                        let body_result = transform_expression(context, body, &scope);
                        proof {
                            assert(coerced(**body, view_result(body_result), type_map_contents(*variables).insert(name@, type_@), type_map_contents(*context.types()), record_map_contents(*context.records())));
                        }
                        body_result?
                    },
                },
                None => transform_expression(context, body, variables)?,
            };
            Ok(
                Expression::Let {
                    name: match name {
                        Some(name) => Some(name.clone()),
                        None => None,
                    },
                    type_: copy_option_type(type_),
                    bound_expression: Box::new(bound),
                    expression: Box::new(new_body),
                    position: position.copy(),
                },
            )
        },
        _ => Err(AnalysisError::TypeNotInferred(expression.position().copy())),
    }
}

/// Coerces the first `n` elements of a list literal.
#[verifier::spinoff_prover]
fn coerce_list_elements(
    context: &AnalysisContext,
    elements: &Vec<ListElement<Expression>>,
    n: usize,
    element_type: &Type,
    variables: &TypeMap,
) -> (result: Result<Vec<ListElement<Expression>>, AnalysisError>)
    requires
        aliases_acyclic(type_map_contents(*context.types())),
        n <= elements.len(),
        forall|i: int|
            0 <= i < elements@.len() ==> match #[trigger] elements@[i] {
                ListElement::Multiple(x) => if_types_complete(x),
                ListElement::Single(x) => if_types_complete(x),
            },
    ensures
        produced(view_seq_result(result)),
        coerced_list_elements(
            *elements,
            n as int,
            view_seq_result(result),
            element_type@,
            type_map_contents(*variables),
            type_map_contents(*context.types()),
            record_map_contents(*context.records()),
        ),
        result matches Ok(v) ==> v@.len() == n && forall|i: int|
            0 <= i < v@.len() ==> match #[trigger] v@[i] {
                ListElement::Multiple(x) => if_types_complete(x),
                ListElement::Single(x) => if_types_complete(x),
            },
    decreases elements, n,
{
    proof {
        reveal(coerced_list_elements);
    }
    if n == 0 {
        let empty: Vec<ListElement<Expression>> = Vec::new();
        proof {
            assert(empty@ =~= Seq::<ListElement<Expression>>::empty());
        }
        return Ok(empty);
    }
    let prefix_result = coerce_list_elements(context, elements, n - 1, element_type, variables);
    proof {
        assert(coerced_list_elements(*elements, n as int - 1, view_seq_result(prefix_result), element_type@, type_map_contents(*variables), type_map_contents(*context.types()), record_map_contents(*context.records())));
    }
    let mut prefix = prefix_result?;
    let ghost before = prefix@;
    match &elements[n - 1] {
        ListElement::Multiple(e) => {
            let upper = Type::List {
                element: Box::new(clone_type(element_type)),
                position: e.position().copy(),
            };
            let x_result = transform_and_coerce(context, e, &upper, variables);
            proof {
                assert(coerced_into(*e, view_result(x_result), SpecType::List { element: Box::new(element_type@), position: expression_position(*e) }, type_map_contents(*variables), type_map_contents(*context.types()), record_map_contents(*context.records())));
            }
            let x = x_result?;
            prefix.push(ListElement::Multiple(x));
        },
        ListElement::Single(e) => {
            let x = transform_and_coerce(context, e, element_type, variables)?;
            prefix.push(ListElement::Single(x));
        },
    }
    proof {
        assert(prefix@ =~= before.push(prefix@.last()));
    }
    Ok(prefix)
}

/// Coerces the first `n` elements of a map literal.
#[verifier::spinoff_prover]
fn coerce_map_elements(
    context: &AnalysisContext,
    elements: &Vec<MapElement<Expression>>,
    n: usize,
    key_type: &Type,
    value_type: &Type,
    position: &crate::position::Position,
    variables: &TypeMap,
) -> (result: Result<Vec<MapElement<Expression>>, AnalysisError>)
    requires
        aliases_acyclic(type_map_contents(*context.types())),
        n <= elements.len(),
        forall|i: int|
            0 <= i < elements@.len() ==> match #[trigger] elements@[i] {
                MapElement::Single(entry) => if_types_complete(entry.key) && if_types_complete(
                    entry.value,
                ),
                MapElement::Multiple(x) => if_types_complete(x),
            },
    ensures
        produced(view_seq_result(result)),
        coerced_map_elements(
            *elements,
            n as int,
            view_seq_result(result),
            key_type@,
            value_type@,
            position@,
            type_map_contents(*variables),
            type_map_contents(*context.types()),
            record_map_contents(*context.records()),
        ),
        result matches Ok(v) ==> v@.len() == n && forall|i: int|
            0 <= i < v@.len() ==> match #[trigger] v@[i] {
                MapElement::Single(entry) => if_types_complete(entry.key) && if_types_complete(
                    entry.value,
                ),
                MapElement::Multiple(x) => if_types_complete(x),
            },
    decreases elements, n,
{
    proof {
        reveal(coerced_map_elements);
    }
    if n == 0 {
        let empty: Vec<MapElement<Expression>> = Vec::new();
        proof {
            assert(empty@ =~= Seq::<MapElement<Expression>>::empty());
        }
        return Ok(empty);
    }
    let prefix_result = coerce_map_elements(context, elements, n - 1, key_type, value_type, position, variables);
    proof {
        assert(coerced_map_elements(*elements, n as int - 1, view_seq_result(prefix_result), key_type@, value_type@, position@, type_map_contents(*variables), type_map_contents(*context.types()), record_map_contents(*context.records())));
    }
    let mut prefix = prefix_result?;
    let ghost before = prefix@;
    match &elements[n - 1] {
        MapElement::Single(entry) => {
            let key = transform_and_coerce(context, &entry.key, key_type, variables)?;
            let value = transform_and_coerce(context, &entry.value, value_type, variables)?;
            prefix.push(MapElement::Single(MapEntry { key, value, position: entry.position.copy() }));
        },
        MapElement::Multiple(e) => {
            let upper = Type::Mapping {
                key: Box::new(clone_type(key_type)),
                value: Box::new(clone_type(value_type)),
                position: position.copy(),
            };
            let x_result = transform_and_coerce(context, e, &upper, variables);
            proof {
                assert(coerced_into(*e, view_result(x_result), SpecType::Mapping { key: Box::new(key_type@), value: Box::new(value_type@), position: position@ }, type_map_contents(*variables), type_map_contents(*context.types()), record_map_contents(*context.records())));
            }
            let x = x_result?;
            prefix.push(MapElement::Multiple(x));
        },
    }
    proof {
        assert(prefix@.drop_last() =~= before);
        assert(prefix@ =~= before.push(prefix@.last()));
    }
    Ok(prefix)
}


/// Transforms a list comprehension: its branches in turn, then its element
/// coerced into its element type with the names of all branches bound.
#[verifier::spinoff_prover]
fn transform_list_comprehension(
    context: &AnalysisContext,
    expression: &Expression,
    variables: &TypeMap,
) -> (result: Result<Expression, AnalysisError>)
    requires
        aliases_acyclic(type_map_contents(*context.types())),
        if_types_complete(*expression),
        expression is ListComprehension,
    ensures
        produced(view_result(result)),
        coerced_list_comprehension(
            *expression,
            view_result(result),
            type_map_contents(*variables),
            type_map_contents(*context.types()),
            record_map_contents(*context.records()),
        ),
        result matches Ok(e) ==> if_types_complete(e),
    decreases expression, 2int,
{
    proof {
        reveal(coerced_list_comprehension);
    }
    match expression {
        Expression::ListComprehension { type_, element, branches, position } => {
            let (new_branches, scope) = coerce_comprehension_branches(
                context,
                branches,
                branches.len(),
                variables,
                position,
            )?;
            let element_result = transform_and_coerce(context, element, type_, &scope);
            proof {
                assert(coerced_into(**element, view_result(element_result), type_@, type_map_contents(scope), type_map_contents(*context.types()), record_map_contents(*context.records())));
            }
            let new_element = element_result?;
            Ok(
                Expression::ListComprehension {
                    type_: clone_type(type_),
                    element: Box::new(new_element),
                    branches: new_branches,
                    position: position.copy(),
                },
            )
        },
        _ => Err(AnalysisError::TypeNotInferred(expression.position().copy())),
    }
}

/// Transforms the first `n` branches of a list comprehension; the
/// variables in scope after them.
#[verifier::spinoff_prover]
fn coerce_comprehension_branches(
    context: &AnalysisContext,
    branches: &Vec<ListComprehensionBranch<Expression>>,
    n: usize,
    variables: &TypeMap,
    position: &Position,
) -> (result: Result<(Vec<ListComprehensionBranch<Expression>>, TypeMap), AnalysisError>)
    requires
        aliases_acyclic(type_map_contents(*context.types())),
        n <= branches.len(),
        forall|i: int|
            0 <= i < branches@.len() ==> (forall|j: int|
                0 <= j < branches@[i].iteratees@.len() ==> if_types_complete(
                    #[trigger] branches@[i].iteratees@[j].expression,
                )) && match #[trigger] branches@[i].condition {
                Some(condition) => if_types_complete(condition),
                None => true,
            },
    ensures
        produced(view_branches_result(result)),
        coerced_comprehension_branches(
            *branches,
            n as int,
            view_branches_result(result),
            type_map_contents(*variables),
            position@,
            type_map_contents(*context.types()),
            record_map_contents(*context.records()),
        ),
        result matches Ok((v, m)) ==> v@.len() == n && forall|i: int|
            0 <= i < v@.len() ==> (forall|j: int|
                0 <= j < v@[i].iteratees@.len() ==> if_types_complete(
                    #[trigger] v@[i].iteratees@[j].expression,
                )) && match #[trigger] v@[i].condition {
                Some(condition) => if_types_complete(condition),
                None => true,
            },
    decreases branches, n,
{
    proof {
        reveal(coerced_comprehension_branches);
    }
    if n == 0 {
        let empty: Vec<ListComprehensionBranch<Expression>> = Vec::new();
        proof {
            assert(empty@ =~= Seq::<ListComprehensionBranch<Expression>>::empty());
        }
        return Ok((empty, variables.duplicate()));
    }
    let prefix_result = coerce_comprehension_branches(context, branches, n - 1, variables, position);
    proof {
        assert(coerced_comprehension_branches(*branches, n as int - 1, view_branches_result(prefix_result), type_map_contents(*variables), position@, type_map_contents(*context.types()), record_map_contents(*context.records())));
    }
    let (mut prefix, scope) = prefix_result?;
    let branch = &branches[n - 1];
    let iteratees_result = transform_iteratees(context, &branch.iteratees, branch.iteratees.len(), &scope);
    proof {
        assert(transformed_iteratees(branches@[n as int - 1].iteratees, branches@[n as int - 1].iteratees@.len() as int, view_seq_result(iteratees_result), type_map_contents(scope), type_map_contents(*context.types()), record_map_contents(*context.records())));
    }
    let iteratees = iteratees_result?;
    let k = if branch.names.len() < branch.iteratees.len() {
        branch.names.len()
    } else {
        branch.iteratees.len()
    };
    proof {
        assert(k as int == zipped_length(
            branches@[n as int - 1].names@.len() as int,
            branches@[n as int - 1].iteratees@.len() as int,
        ));
    }
    let bound = bind_iteratees(&branch.names, &branch.iteratees, k, &scope, position, context.types())?;
    let condition_result = transform_condition(context, &branch.condition, &bound);
    proof {
        assert(coerced_condition(branches@[n as int - 1].condition, view_outcome(condition_result), type_map_contents(bound), type_map_contents(*context.types()), record_map_contents(*context.records())));
    }
    let condition = condition_result?;
    let ghost before = prefix@;
    prefix.push(
        ListComprehensionBranch {
            names: copy_strings(&branch.names),
            iteratees,
            condition,
            position: position.copy(),
        },
    );
    proof {
        assert(prefix@.drop_last() =~= before);
    }
    Ok((prefix, bound))
}

/// Transforms the first `n` iteratees of a list comprehension branch.
#[verifier::spinoff_prover]
fn transform_iteratees(
    context: &AnalysisContext,
    iteratees: &Vec<ListComprehensionIteratee<Expression>>,
    n: usize,
    variables: &TypeMap,
) -> (result: Result<Vec<ListComprehensionIteratee<Expression>>, AnalysisError>)
    requires
        aliases_acyclic(type_map_contents(*context.types())),
        n <= iteratees.len(),
        forall|j: int|
            0 <= j < iteratees@.len() ==> if_types_complete(#[trigger] iteratees@[j].expression),
    ensures
        produced(view_seq_result(result)),
        transformed_iteratees(
            *iteratees,
            n as int,
            view_seq_result(result),
            type_map_contents(*variables),
            type_map_contents(*context.types()),
            record_map_contents(*context.records()),
        ),
        result matches Ok(v) ==> v@.len() == n && forall|j: int|
            0 <= j < v@.len() ==> if_types_complete(#[trigger] v@[j].expression),
    decreases iteratees, n,
{
    proof {
        reveal(transformed_iteratees);
    }
    if n == 0 {
        let empty: Vec<ListComprehensionIteratee<Expression>> = Vec::new();
        proof {
            assert(empty@ =~= Seq::<ListComprehensionIteratee<Expression>>::empty());
        }
        return Ok(empty);
    }
    let prefix_result = transform_iteratees(context, iteratees, n - 1, variables);
    proof {
        assert(transformed_iteratees(*iteratees, n as int - 1, view_seq_result(prefix_result), type_map_contents(*variables), type_map_contents(*context.types()), record_map_contents(*context.records())));
    }
    let mut prefix = prefix_result?;
    let iteratee = &iteratees[n - 1];
    let x_result = transform_expression(context, &iteratee.expression, variables);
    proof {
        assert(coerced(iteratees@[n as int - 1].expression, view_result(x_result), type_map_contents(*variables), type_map_contents(*context.types()), record_map_contents(*context.records())));
    }
    let x = x_result?;
    let ghost before = prefix@;
    prefix.push(
        ListComprehensionIteratee {
            type_: copy_option_type(&iteratee.type_),
            expression: x,
            position: iteratee.position.copy(),
        },
    );
    proof {
        assert(prefix@.drop_last() =~= before);
    }
    Ok(prefix)
}

/// Binds the names of a list comprehension branch to thunks of the element
/// types of its first `k` iteratees.
#[verifier::spinoff_prover]
fn bind_iteratees(
    names: &Vec<String>,
    iteratees: &Vec<ListComprehensionIteratee<Expression>>,
    k: usize,
    variables: &TypeMap,
    position: &Position,
    types: &TypeMap,
) -> (result: Result<TypeMap, AnalysisError>)
    requires
        aliases_acyclic(type_map_contents(*types)),
        k <= names.len(),
        k <= iteratees.len(),
    ensures
        match result {
            Ok(scope) => bound_iteratees(
                names@,
                iteratees@,
                k as int,
                type_map_contents(*variables),
                position@,
                type_map_contents(*types),
            ) == Ok::<Map<Seq<char>, SpecType>, SpecAnalysisError>(type_map_contents(scope)),
            Err(error) => bound_iteratees(
                names@,
                iteratees@,
                k as int,
                type_map_contents(*variables),
                position@,
                type_map_contents(*types),
            ) == Err::<Map<Seq<char>, SpecType>, SpecAnalysisError>(error@),
        },
    decreases k,
{
    if k == 0 {
        return Ok(variables.duplicate());
    }
    let mut scope = bind_iteratees(names, iteratees, k - 1, variables, position, types)?;
    let type_ = match &iteratees[k - 1].type_ {
        Some(type_) => type_,
        None => {
            return Err(AnalysisError::TypeNotInferred(position.copy()));
        },
    };
    let list = canonicalize(type_, types)?;
    match &list {
        Type::List { element, .. } => {
            proof {
                assert(view_types(Seq::<Type>::empty()) =~= Seq::<SpecType>::empty());
            }
            scope.insert(
                names[k - 1].clone(),
                Type::Function {
                    arguments: Vec::new(),
                    result: Box::new(clone_type(element)),
                    position: position.copy(),
                },
            );
            Ok(scope)
        },
        _ => Err(AnalysisError::ListExpected(position.copy(), clone_type(type_))),
    }
}

/// Transforms the condition of a list comprehension branch, if any.
#[verifier::spinoff_prover]
fn transform_condition(
    context: &AnalysisContext,
    condition: &Option<Expression>,
    variables: &TypeMap,
) -> (result: Result<Option<Expression>, AnalysisError>)
    requires
        aliases_acyclic(type_map_contents(*context.types())),
        match *condition {
            Some(condition) => if_types_complete(condition),
            None => true,
        },
    ensures
        produced(view_outcome(result)),
        coerced_condition(
            *condition,
            view_outcome(result),
            type_map_contents(*variables),
            type_map_contents(*context.types()),
            record_map_contents(*context.records()),
        ),
        result matches Ok(o) ==> match o {
            Some(condition) => if_types_complete(condition),
            None => true,
        },
    decreases condition, 0int,
{
    proof {
        reveal(coerced_condition);
    }
    match condition {
        None => Ok(None),
        Some(condition) => {
            let x = transform_expression(context, condition, variables)?;
            Ok(Some(x))
        },
    }
}

/// Transforms an operation: the operands of an equality coerced into its
/// operand type, the others transformed.
#[verifier::spinoff_prover]
fn transform_operation(context: &AnalysisContext, expression: &Expression, variables: &TypeMap) -> (result:
    Result<Expression, AnalysisError>)
    requires
        aliases_acyclic(type_map_contents(*context.types())),
        if_types_complete(*expression),
        expression is Operation,
    ensures
        produced(view_result(result)),
        coerced_operation(
            *expression,
            view_result(result),
            type_map_contents(*variables),
            type_map_contents(*context.types()),
            record_map_contents(*context.records()),
        ),
        result matches Ok(e) ==> if_types_complete(e),
    decreases expression, 2int,
{
    proof {
        reveal(coerced_operation);
    }
    match expression {
        Expression::Operation(operation) => match operation {
            Operation::Addition { type_, lhs, rhs, position } => {
                let l = transform_expression(context, lhs, variables)?;
                let r = transform_expression(context, rhs, variables)?;
                Ok(
                    Expression::Operation(
                        Operation::Addition {
                            type_: copy_option_type(type_),
                            lhs: Box::new(l),
                            rhs: Box::new(r),
                            position: position.copy(),
                        },
                    ),
                )
            },
            Operation::Arithmetic { operator, lhs, rhs, position } => {
                let l = transform_expression(context, lhs, variables)?;
                let r = transform_expression(context, rhs, variables)?;
                Ok(
                    Expression::Operation(
                        Operation::Arithmetic {
                            operator: *operator,
                            lhs: Box::new(l),
                            rhs: Box::new(r),
                            position: position.copy(),
                        },
                    ),
                )
            },
            Operation::Boolean { operator, lhs, rhs, position } => {
                let l = transform_expression(context, lhs, variables)?;
                let r = transform_expression(context, rhs, variables)?;
                Ok(
                    Expression::Operation(
                        Operation::Boolean {
                            operator: *operator,
                            lhs: Box::new(l),
                            rhs: Box::new(r),
                            position: position.copy(),
                        },
                    ),
                )
            },
            Operation::Equality { type_, operator, lhs, rhs, position } => match type_ {
                None => Err(AnalysisError::TypeNotInferred(position.copy())),
                Some(type_) => {
                    let l = transform_and_coerce(context, lhs, type_, variables)?;
                    let r = transform_and_coerce(context, rhs, type_, variables)?;
                    Ok(
                        Expression::Operation(
                            Operation::Equality {
                                type_: Some(clone_type(type_)),
                                operator: *operator,
                                lhs: Box::new(l),
                                rhs: Box::new(r),
                                position: position.copy(),
                            },
                        ),
                    )
                },
            },
            Operation::Not { expression: operand, position } => {
                let x = transform_expression(context, operand, variables)?;
                Ok(
                    Expression::Operation(
                        Operation::Not { expression: Box::new(x), position: position.copy() },
                    ),
                )
            },
            Operation::Order { operator, lhs, rhs, position } => {
                let l = transform_expression(context, lhs, variables)?;
                let r = transform_expression(context, rhs, variables)?;
                Ok(
                    Expression::Operation(
                        Operation::Order {
                            operator: *operator,
                            lhs: Box::new(l),
                            rhs: Box::new(r),
                            position: position.copy(),
                        },
                    ),
                )
            },
            Operation::Try { type_, expression: operand, position } => {
                let x = transform_expression(context, operand, variables)?;
                Ok(
                    Expression::Operation(
                        Operation::Try {
                            type_: copy_option_type(type_),
                            expression: Box::new(x),
                            position: position.copy(),
                        },
                    ),
                )
            },
        },
        _ => Err(AnalysisError::TypeNotInferred(expression.position().copy())),
    }
}

/// Transforms a record construction: its fields coerced into the types of
/// the record's fields.
#[verifier::spinoff_prover]
#[verifier::rlimit(40)]
fn transform_record_construction(
    context: &AnalysisContext,
    expression: &Expression,
    variables: &TypeMap,
) -> (result: Result<Expression, AnalysisError>)
    requires
        aliases_acyclic(type_map_contents(*context.types())),
        if_types_complete(*expression),
        expression is RecordConstruction,
    ensures
        produced(view_result(result)),
        coerced_record_construction(
            *expression,
            view_result(result),
            type_map_contents(*variables),
            type_map_contents(*context.types()),
            record_map_contents(*context.records()),
        ),
        result matches Ok(e) ==> if_types_complete(e),
    decreases expression, 2int,
{
    proof {
        reveal(coerced_record_construction);
    }
    match expression {
        Expression::RecordConstruction { type_, fields, position } => {
            let resolved = resolve_fields(type_, position, context.types(), context.records());
            proof {
                assert(resolved_fields(
                    type_@,
                    position@,
                    type_map_contents(*context.types()),
                    record_map_contents(*context.records()),
                ) == record_fields(
                    type_@,
                    position@,
                    type_map_contents(*context.types()),
                    record_map_contents(*context.records()),
                )) by {
                    reveal(resolved_fields);
                }
            }
            let field_types = resolved?;
            let new_fields = coerce_fields(context, fields, fields.len(), field_types, variables)?;
            Ok(
                Expression::RecordConstruction {
                    type_: clone_type(type_),
                    fields: new_fields,
                    position: position.copy(),
                },
            )
        },
        _ => Err(AnalysisError::TypeNotInferred(expression.position().copy())),
    }
}

/// Transforms a record update: its record, then its fields coerced into the
/// types of the record's fields.
#[verifier::spinoff_prover]
#[verifier::rlimit(40)]
fn transform_record_update(context: &AnalysisContext, expression: &Expression, variables: &TypeMap) -> (result:
    Result<Expression, AnalysisError>)
    requires
        aliases_acyclic(type_map_contents(*context.types())),
        if_types_complete(*expression),
        expression is RecordUpdate,
    ensures
        produced(view_result(result)),
        coerced_record_update(
            *expression,
            view_result(result),
            type_map_contents(*variables),
            type_map_contents(*context.types()),
            record_map_contents(*context.records()),
        ),
        result matches Ok(e) ==> if_types_complete(e),
    decreases expression, 2int,
{
    proof {
        reveal(coerced_record_update);
    }
    match expression {
        Expression::RecordUpdate { type_, record, fields, position } => {
            let new_record = match transform_expression(context, record, variables) {
                Ok(new_record) => new_record,
                Err(error) => {
                    proof {
                        let ghost r = Err::<Expression, SpecAnalysisError>(error@);
                        assert(coerced(
                            **record,
                            r,
                            type_map_contents(*variables),
                            type_map_contents(*context.types()),
                            record_map_contents(*context.records()),
                        ));
                    }
                    return Err(error);
                },
            };
            let resolved = resolve_fields(type_, position, context.types(), context.records());
            proof {
                assert(resolved_fields(
                    type_@,
                    position@,
                    type_map_contents(*context.types()),
                    record_map_contents(*context.records()),
                ) == record_fields(
                    type_@,
                    position@,
                    type_map_contents(*context.types()),
                    record_map_contents(*context.records()),
                )) by {
                    reveal(resolved_fields);
                }
            }
            let field_types = match resolved {
                Ok(field_types) => field_types,
                Err(error) => {
                    proof {
                        assert(coerced(
                            **record,
                            Ok::<Expression, SpecAnalysisError>(new_record),
                            type_map_contents(*variables),
                            type_map_contents(*context.types()),
                            record_map_contents(*context.records()),
                        ));
                    }
                    return Err(error);
                },
            };
            let new_fields = coerce_fields(context, fields, fields.len(), field_types, variables)?;
            Ok(
                Expression::RecordUpdate {
                    type_: clone_type(type_),
                    record: Box::new(new_record),
                    fields: new_fields,
                    position: position.copy(),
                },
            )
        },
        _ => Err(AnalysisError::TypeNotInferred(expression.position().copy())),
    }
}

/// Transforms the first `n` fields of a record construction or update and
/// coerces each into the type of the record's field of its name.
#[verifier::spinoff_prover]
#[verifier::rlimit(40)]
fn coerce_fields(
    context: &AnalysisContext,
    fields: &Vec<RecordFieldValue<Expression>>,
    n: usize,
    field_types: &Vec<RecordField>,
    variables: &TypeMap,
) -> (result: Result<Vec<RecordFieldValue<Expression>>, AnalysisError>)
    requires
        aliases_acyclic(type_map_contents(*context.types())),
        n <= fields.len(),
        forall|i: int| 0 <= i < fields@.len() ==> if_types_complete(#[trigger] fields@[i].expression),
    ensures
        produced(view_seq_result(result)),
        coerced_fields(
            *fields,
            n as int,
            view_seq_result(result),
            view_fields(field_types@),
            type_map_contents(*variables),
            type_map_contents(*context.types()),
            record_map_contents(*context.records()),
        ),
        result matches Ok(v) ==> v@.len() == n && forall|i: int|
            0 <= i < v@.len() ==> if_types_complete(#[trigger] v@[i].expression),
    decreases fields, n,
{
    proof {
        reveal(coerced_fields);
    }
    if n == 0 {
        let empty: Vec<RecordFieldValue<Expression>> = Vec::new();
        proof {
            assert(empty@ =~= Seq::<RecordFieldValue<Expression>>::empty());
        }
        return Ok(empty);
    }
    let prefix_result = coerce_fields(context, fields, n - 1, field_types, variables);
    proof {
        assert(coerced_fields(*fields, n as int - 1, view_seq_result(prefix_result), view_fields(field_types@), type_map_contents(*variables), type_map_contents(*context.types()), record_map_contents(*context.records())));
    }
    let mut prefix = prefix_result?;
    let field = &fields[n - 1];
    let x_result = transform_expression(context, &field.expression, variables);
    proof {
        assert(coerced(fields@[n as int - 1].expression, view_result(x_result), type_map_contents(*variables), type_map_contents(*context.types()), record_map_contents(*context.records())));
    }
    let x = x_result?;
    let upper = match find_field(field_types, &field.name) {
        Some(found) => &found.type_,
        None => {
            return Err(AnalysisError::UnknownRecordField(field.position.copy()));
        },
    };
    let w = coerce_expression(context, x, upper, variables)?;
    let ghost before = prefix@;
    prefix.push(RecordFieldValue { name: field.name.clone(), expression: w, position: field.position.copy() });
    proof {
        assert(prefix@.drop_last() =~= before);
    }
    Ok(prefix)
}

/// Coerces the lambdas of the first `n` function definitions.
#[verifier::spinoff_prover]
fn transform_definitions(
    context: &AnalysisContext,
    definitions: &Vec<FunctionDefinition>,
    n: usize,
    variables: &TypeMap,
) -> (result: Result<Vec<FunctionDefinition>, AnalysisError>)
    requires
        aliases_acyclic(type_map_contents(*context.types())),
        n <= definitions.len(),
        forall|i: int|
            0 <= i < definitions@.len() ==> if_types_complete(*(#[trigger] definitions@[i]).lambda.body),
    ensures
        produced(view_seq_result(result)),
        coerced_definitions(
            definitions@,
            n as int,
            view_seq_result(result),
            type_map_contents(*variables),
            type_map_contents(*context.types()),
            record_map_contents(*context.records()),
        ),
        result matches Ok(v) ==> forall|i: int|
            0 <= i < v@.len() ==> if_types_complete(*(#[trigger] v@[i]).lambda.body),
    decreases n,
{
    proof {
        reveal(coerced_definitions);
    }
    if n == 0 {
        let empty: Vec<FunctionDefinition> = Vec::new();
        proof {
            assert(empty@ =~= Seq::<FunctionDefinition>::empty());
        }
        return Ok(empty);
    }
    let prefix_result = transform_definitions(context, definitions, n - 1, variables);
    proof {
        assert(coerced_definitions(definitions@, n as int - 1, view_seq_result(prefix_result), type_map_contents(*variables), type_map_contents(*context.types()), record_map_contents(*context.records())));
    }
    let mut prefix = prefix_result?;
    let definition = &definitions[n - 1];
    let lambda_result = transform_lambda(context, &definition.lambda, variables);
    proof {
        assert(coerced_lambda(definitions@[n as int - 1].lambda, view_lambda_result(lambda_result), type_map_contents(*variables), type_map_contents(*context.types()), record_map_contents(*context.records())));
    }
    let lambda = lambda_result?;
    let ghost before = prefix@;
    prefix.push(
        FunctionDefinition {
            name: definition.name.clone(),
            original_name: definition.original_name.clone(),
            lambda,
            foreign_definition_configuration: definition.foreign_definition_configuration,
            is_public: definition.is_public,
            position: definition.position.copy(),
        },
    );
    proof {
        assert(prefix@.drop_last() =~= before);
    }
    Ok(prefix)
}

/// Coerces the types of a module: wherever an expression of a function
/// definition stands where a type is expected that is not its own, it is
/// wrapped in a coercion to that type.
#[verifier::spinoff_prover]
pub fn coerce_types(context: &AnalysisContext, module: &Module) -> (result: Result<Module, AnalysisError>)
    requires
        aliases_acyclic(type_map_contents(*context.types())),
        module_if_types_complete(*module),
    ensures
        produced(view_module_result(result)),
        coerced_module(
            *module,
            view_module_result(result),
            type_map_contents(*context.types()),
            record_map_contents(*context.records()),
        ),
        result matches Ok(m) ==> module_if_types_complete(m),
{
    let variables = create_environment(module);
    let definitions = transform_definitions(
        context,
        &module.function_definitions,
        module.function_definitions.len(),
        &variables,
    )?;
    Ok(
        Module {
            type_definitions: copy_type_definitions(&module.type_definitions),
            type_aliases: copy_type_aliases(&module.type_aliases),
            foreign_declarations: copy_foreign_declarations(&module.foreign_declarations),
            function_declarations: copy_function_declarations(&module.function_declarations),
            function_definitions: definitions,
            position: module.position.copy(),
        },
    )
}

} // verus!
