//! Type inference: the types that a module leaves open are filled in from
//! the types of the expressions around them.
//!
//! As for type coercion, results are stated as relations built from what
//! each step gives, in the order in which the steps run, the first error
//! ending the walk.
use crate::context::AnalysisContext;
use crate::error::{AnalysisError, SpecAnalysisError};
use crate::ir::{
    expression_position,
    if_types_complete,
    module_if_types_complete,
    BuiltInFunctionName,
    ElseBranch,
    Expression,
    FunctionDefinition,
    IfTypeBranch,
    Lambda,
    ListComprehensionBranch,
    ListComprehensionIteratee,
    ListElement,
    MapElement,
    MapEntry,
    Module,
    Operation,
    RecordFieldValue,
};
use crate::ir_copy::{
    copy_arguments,
    copy_foreign_declarations,
    copy_function_declarations,
    copy_option_type,
    copy_strings,
    copy_type_aliases,
    copy_type_definitions,
    same_arguments,
    same_foreign_declarations,
    same_function_declarations,
    same_option_type,
    same_strings,
    same_type_aliases,
    same_type_definitions,
};
use crate::module_environment::{create as create_environment, environment};
use crate::position::{Position, SpecPosition};
use crate::tables::{record_map_contents, type_map_contents, TypeMap};
use crate::type_canonicalizer::{aliases_acyclic, canonical, canonicalize};
use crate::type_checker::bind_arguments;
use crate::type_coercer::{
    produced,
    view_branches_result,
    view_lambda_result,
    view_module_result,
    view_outcome,
    view_result,
    view_seq_result,
};
use crate::type_difference_calculator::{calculate as calculate_difference, difference_spec};
use crate::type_extractor::{extract_from_expression, extracted};
use crate::type_subsumption_checker::subsumes;
use crate::types::{clone_type, lemma_view_types, view_types, SpecRecordField, SpecType, Type};
use crate::union_type_creator::{create as create_union, union_of};
use vstd::prelude::*;

verus! {

broadcast use crate::type_extractor::lemma_extraction_ready;

/// Every if-type expression with an else branch has a branch of a type
/// besides: the type of the else branch is what those leave of the
/// argument's type.
pub open spec fn else_branches_follow(expression: Expression) -> bool
    decreases expression,
{
    match expression {
        Expression::Call { function, arguments, .. } => else_branches_follow(*function) && forall|
            i: int,
        | 0 <= i < arguments@.len() ==> else_branches_follow(#[trigger] arguments@[i]),
        Expression::If { condition, then, else_, .. } => else_branches_follow(*condition)
            && else_branches_follow(*then) && else_branches_follow(*else_),
        Expression::IfList { list, then, else_, .. } => else_branches_follow(*list)
            && else_branches_follow(*then) && else_branches_follow(*else_),
        Expression::IfMap { map, key, then, else_, .. } => else_branches_follow(*map)
            && else_branches_follow(*key) && else_branches_follow(*then) && else_branches_follow(
            *else_,
        ),
        Expression::IfType { argument, branches, else_, .. } => (else_ is Some ==> branches@.len()
            > 0) && else_branches_follow(*argument) && (forall|i: int|
            0 <= i < branches@.len() ==> else_branches_follow(#[trigger] branches@[i].expression))
            && match else_ {
            Some(branch) => else_branches_follow(branch.expression),
            None => true,
        },
        Expression::Lambda(lambda) => else_branches_follow(*lambda.body),
        Expression::Let { bound_expression, expression, .. } => else_branches_follow(
            *bound_expression,
        ) && else_branches_follow(*expression),
        Expression::List { elements, .. } => forall|i: int|
            0 <= i < elements@.len() ==> match #[trigger] elements@[i] {
                ListElement::Multiple(x) => else_branches_follow(x),
                ListElement::Single(x) => else_branches_follow(x),
            },
        Expression::ListComprehension { element, branches, .. } => else_branches_follow(*element)
            && forall|i: int|
            0 <= i < branches@.len() ==> (forall|j: int|
                0 <= j < branches@[i].iteratees@.len() ==> else_branches_follow(
                    #[trigger] branches@[i].iteratees@[j].expression,
                )) && match #[trigger] branches@[i].condition {
                Some(condition) => else_branches_follow(condition),
                None => true,
            },
        Expression::Mapping { elements, .. } => forall|i: int|
            0 <= i < elements@.len() ==> match #[trigger] elements@[i] {
                MapElement::Single(entry) => else_branches_follow(entry.key)
                    && else_branches_follow(entry.value),
                MapElement::Multiple(x) => else_branches_follow(x),
            },
        Expression::Operation(operation) => match operation {
            Operation::Addition { lhs, rhs, .. } => else_branches_follow(*lhs)
                && else_branches_follow(*rhs),
            Operation::Arithmetic { lhs, rhs, .. } => else_branches_follow(*lhs)
                && else_branches_follow(*rhs),
            Operation::Boolean { lhs, rhs, .. } => else_branches_follow(*lhs)
                && else_branches_follow(*rhs),
            Operation::Equality { lhs, rhs, .. } => else_branches_follow(*lhs)
                && else_branches_follow(*rhs),
            Operation::Not { expression, .. } => else_branches_follow(*expression),
            Operation::Order { lhs, rhs, .. } => else_branches_follow(*lhs)
                && else_branches_follow(*rhs),
            Operation::Try { expression, .. } => else_branches_follow(*expression),
        },
        Expression::RecordConstruction { fields, .. } => forall|i: int|
            0 <= i < fields@.len() ==> else_branches_follow(#[trigger] fields@[i].expression),
        Expression::RecordDeconstruction { record, .. } => else_branches_follow(*record),
        Expression::RecordUpdate { record, fields, .. } => else_branches_follow(*record) && forall|
            i: int,
        | 0 <= i < fields@.len() ==> else_branches_follow(#[trigger] fields@[i].expression),
        Expression::Thunk { expression, .. } => else_branches_follow(*expression),
        Expression::TypeCoercion { argument, .. } => else_branches_follow(*argument),
        _ => true,
    }
}

/// What an expression needs for its types to be inferred: each if-type
/// expression in it has a branch or an else branch, and one with an else
/// branch has a branch besides.
pub open spec fn inferable(expression: Expression) -> bool {
    if_types_complete(expression) && else_branches_follow(expression)
}

/// The type of a built-in function called with arguments of the given
/// types, at the call's position; or the error of the call.
pub open spec fn built_in_function_type(
    name: BuiltInFunctionName,
    argument_types: Seq<SpecType>,
    position: SpecPosition,
    types: Map<Seq<char>, SpecType>,
) -> Result<SpecType, SpecAnalysisError> {
    let function = |arguments: Seq<SpecType>, result: SpecType|
        SpecType::Function { arguments, result: Box::new(result), position };
    let any = SpecType::Any { position };
    match name {
        BuiltInFunctionName::Debug => Ok(function(seq![any], SpecType::Unit { position })),
        BuiltInFunctionName::Delete => if argument_types.len() == 0 {
            Err(SpecAnalysisError::ArgumentCount(position))
        } else {
            Ok(function(argument_types, argument_types[0]))
        },
        BuiltInFunctionName::Error => Ok(function(seq![any], SpecType::Error { position })),
        BuiltInFunctionName::Keys => if argument_types.len() == 0 {
            Err(SpecAnalysisError::ArgumentCount(position))
        } else {
            match canonical(argument_types[0], types) {
                Err(error) => Err(error),
                Ok(map) => if map is Mapping {
                    Ok(
                        function(
                            argument_types,
                            SpecType::List { element: map->Mapping_key, position },
                        ),
                    )
                } else {
                    Err(SpecAnalysisError::MapExpected(position, argument_types[0]))
                },
            }
        },
        BuiltInFunctionName::Race => if argument_types.len() == 0 {
            Err(SpecAnalysisError::ArgumentCount(position))
        } else {
            match canonical(argument_types[0], types) {
                Err(error) => Err(error),
                Ok(list) => if list is List {
                    Ok(function(argument_types, *list->List_element))
                } else {
                    Err(SpecAnalysisError::ListExpected(position, argument_types[0]))
                },
            }
        },
        BuiltInFunctionName::ReflectDebug => Ok(function(seq![any], SpecType::String { position })),
        BuiltInFunctionName::ReflectEqual => Ok(
            function(
                seq![any, any],
                SpecType::Union {
                    lhs: Box::new(SpecType::Boolean { position }),
                    rhs: Box::new(SpecType::Unit { position }),
                    position,
                },
            ),
        ),
        BuiltInFunctionName::Size => Ok(function(argument_types, SpecType::Number { position })),
        BuiltInFunctionName::Source => Ok(
            function(seq![SpecType::Error { position }], SpecType::Any { position }),
        ),
        BuiltInFunctionName::Spawn => if argument_types.len() == 0 {
            Err(SpecAnalysisError::ArgumentCount(position))
        } else {
            Ok(function(argument_types, argument_types[0]))
        },
        BuiltInFunctionName::Values => if argument_types.len() == 0 {
            Err(SpecAnalysisError::ArgumentCount(position))
        } else {
            match canonical(argument_types[0], types) {
                Err(error) => Err(error),
                Ok(map) => if map is Mapping {
                    Ok(
                        function(
                            argument_types,
                            SpecType::List { element: map->Mapping_value, position },
                        ),
                    )
                } else {
                    Err(SpecAnalysisError::MapExpected(position, argument_types[0]))
                },
            }
        },
    }
}

/// The types of the first `n` expressions, in order; the first error of
/// extracting them otherwise.
pub open spec fn extracted_types(
    expressions: Seq<Expression>,
    n: int,
    variables: Map<Seq<char>, SpecType>,
    types: Map<Seq<char>, SpecType>,
    records: Map<Seq<char>, Seq<SpecRecordField>>,
) -> Result<Seq<SpecType>, SpecAnalysisError>
    decreases n,
{
    if n <= 0 {
        Ok(Seq::empty())
    } else {
        match extracted_types(expressions, n - 1, variables, types, records) {
            Err(error) => Err(error),
            Ok(prefix) => match extracted(expressions[n - 1], variables, types, records) {
                Err(error) => Err(error),
                Ok(type_) => Ok(prefix.push(type_)),
            },
        }
    }
}

/// The type of an operand of a try operation once its error is taken
/// away; the error that the operand is no union of an error otherwise.
pub open spec fn try_type(
    operand_type: SpecType,
    position: SpecPosition,
    types: Map<Seq<char>, SpecType>,
) -> Result<SpecType, SpecAnalysisError> {
    match difference_spec(operand_type, SpecType::Error { position }, types) {
        Err(error) => Err(error),
        Ok(Some(rest)) => if rest is Any {
            Err(SpecAnalysisError::UnionExpected(position, rest))
        } else {
            Ok(rest)
        },
        Ok(None) => Err(SpecAnalysisError::UnionExpected(position, operand_type)),
    }
}

/// The variable that a name of a list comprehension branch binds for an
/// iteratee of the given type: a thunk of the element of a list, the key
/// of a map; the error that a collection is expected otherwise.
pub open spec fn iteratee_binding(
    type_: SpecType,
    position: SpecPosition,
    types: Map<Seq<char>, SpecType>,
) -> Result<SpecType, SpecAnalysisError> {
    match canonical(type_, types) {
        Err(error) => Err(error),
        Ok(collection) => if collection is List {
            Ok(
                SpecType::Function {
                    arguments: Seq::empty(),
                    result: collection->List_element,
                    position,
                },
            )
        } else if collection is Mapping {
            Ok(*collection->Mapping_key)
        } else {
            Err(SpecAnalysisError::CollectionExpected(position, type_))
        },
    }
}

/// The variables in scope once the first `k` names of a list
/// comprehension branch are bound for its inferred iteratees; the first
/// error otherwise.
pub open spec fn iteratee_scope(
    names: Seq<String>,
    iteratees: Seq<ListComprehensionIteratee<Expression>>,
    k: int,
    variables: Map<Seq<char>, SpecType>,
    position: SpecPosition,
    types: Map<Seq<char>, SpecType>,
) -> Result<Map<Seq<char>, SpecType>, SpecAnalysisError>
    decreases k,
{
    if k <= 0 {
        Ok(variables)
    } else {
        match iteratee_scope(names, iteratees, k - 1, variables, position, types) {
            Err(error) => Err(error),
            Ok(scope) => match iteratees[k - 1].type_ {
                None => Err(SpecAnalysisError::TypeNotInferred(position)),
                Some(type_) => match iteratee_binding(type_@, position, types) {
                    Err(error) => Err(error),
                    Ok(binding) => Ok(scope.insert(names[k - 1]@, binding)),
                },
            },
        }
    }
}


/// `result` is what becomes of a lambda: its body inferred with its
/// arguments bound, the rest as it was.
#[verifier::opaque]
pub open spec fn inferred_lambda(
    lambda: Lambda<Expression>,
    result: Result<Lambda<Expression>, SpecAnalysisError>,
    variables: Map<Seq<char>, SpecType>,
    types: Map<Seq<char>, SpecType>,
    records: Map<Seq<char>, Seq<SpecRecordField>>,
) -> bool
    decreases lambda, 2int,
{
    exists|body: Result<Expression, SpecAnalysisError>|
        #[trigger] produced(body) && inferred(
            *lambda.body,
            body,
            bind_arguments(variables, lambda.arguments@),
            types,
            records,
        ) && match body {
            Err(error) => result == Err::<Lambda<Expression>, SpecAnalysisError>(error),
            Ok(body) => result matches Ok(new) && same_arguments(lambda.arguments@, new.arguments@)
                && new.result_type@ == lambda.result_type@ && *new.body == body && new.position@
                == lambda.position@,
        }
}

/// `result` is what becomes of an expression once the types it leaves open
/// are inferred; the first error otherwise.
pub open spec fn inferred(
    expression: Expression,
    result: Result<Expression, SpecAnalysisError>,
    variables: Map<Seq<char>, SpecType>,
    types: Map<Seq<char>, SpecType>,
    records: Map<Seq<char>, Seq<SpecRecordField>>,
) -> bool
    decreases expression, 1int,
{
    match expression {
        Expression::Boolean { value, position } => result matches Ok(
            Expression::Boolean { value: v, position: p },
        ) && v == value && p@ == position@,
        Expression::BuiltInFunction { name, position } => result matches Ok(
            Expression::BuiltInFunction { name: n, position: p },
        ) && n == name && p@ == position@,
        Expression::Call { .. } => inferred_call(expression, result, variables, types, records),
        Expression::If { .. } => inferred_if(expression, result, variables, types, records),
        Expression::IfList { .. } => inferred_if_list(expression, result, variables, types, records),
        Expression::IfMap { .. } => inferred_if_map(expression, result, variables, types, records),
        Expression::IfType { .. } => inferred_if_type(expression, result, variables, types, records),
        Expression::Lambda(lambda) => exists|l: Result<Lambda<Expression>, SpecAnalysisError>|
            #[trigger] produced(l) && inferred_lambda(lambda, l, variables, types, records) && match l {
                Err(error) => result == Err::<Expression, SpecAnalysisError>(error),
                Ok(l) => result == Ok::<Expression, SpecAnalysisError>(Expression::Lambda(l)),
            },
        Expression::Let { .. } => inferred_let(expression, result, variables, types, records),
        Expression::List { type_, elements, position } => exists|
            l: Result<Seq<ListElement<Expression>>, SpecAnalysisError>,
        |
            #[trigger] produced(l) && inferred_list_elements(
                elements,
                elements@.len() as int,
                l,
                variables,
                types,
                records,
            ) && match l {
                Err(error) => result == Err::<Expression, SpecAnalysisError>(error),
                Ok(l) => result matches Ok(
                    Expression::List { type_: t, elements: e, position: p },
                ) && t@ == type_@ && e@ == l && p@ == position@,
            },
        Expression::ListComprehension { .. } => inferred_list_comprehension(
            expression,
            result,
            variables,
            types,
            records,
        ),
        Expression::Mapping { key_type, value_type, elements, position } => exists|
            m: Result<Seq<MapElement<Expression>>, SpecAnalysisError>,
        |
            #[trigger] produced(m) && inferred_map_elements(
                elements,
                elements@.len() as int,
                m,
                variables,
                types,
                records,
            ) && match m {
                Err(error) => result == Err::<Expression, SpecAnalysisError>(error),
                Ok(m) => result matches Ok(
                    Expression::Mapping { key_type: k, value_type: v, elements: e, position: p },
                ) && k@ == key_type@ && v@ == value_type@ && e@ == m && p@ == position@,
            },
        Expression::Unit { position } => result matches Ok(Expression::Unit { position: p }) && p@
            == position@,
        Expression::Number { value, position } => result matches Ok(
            Expression::Number { value: v, position: p },
        ) && v == value && p@ == position@,
        Expression::Operation(_) => inferred_operation(expression, result, variables, types, records),
        Expression::RecordConstruction { type_, fields, position } => exists|
            f: Result<Seq<RecordFieldValue<Expression>>, SpecAnalysisError>,
        |
            #[trigger] produced(f) && inferred_fields(
                fields,
                fields@.len() as int,
                f,
                variables,
                types,
                records,
            ) && match f {
                Err(error) => result == Err::<Expression, SpecAnalysisError>(error),
                Ok(f) => result matches Ok(
                    Expression::RecordConstruction { type_: t, fields: x, position: p },
                ) && t@ == type_@ && x@ == f && p@ == position@,
            },
        Expression::RecordDeconstruction { .. } => inferred_record_deconstruction(
            expression,
            result,
            variables,
            types,
            records,
        ),
        Expression::RecordUpdate { .. } => inferred_record_update(
            expression,
            result,
            variables,
            types,
            records,
        ),
        Expression::String { value, position } => result matches Ok(
            Expression::String { value: v, position: p },
        ) && v@ == value@ && p@ == position@,
        Expression::Thunk { .. } => inferred_thunk(expression, result, variables, types, records),
        Expression::TypeCoercion { from, to, argument, position } => exists|
            a: Result<Expression, SpecAnalysisError>,
        |
            #[trigger] produced(a) && inferred(*argument, a, variables, types, records) && match a {
                Err(error) => result == Err::<Expression, SpecAnalysisError>(error),
                Ok(a) => result matches Ok(
                    Expression::TypeCoercion { from: f, to: t, argument: x, position: p },
                ) && f@ == from@ && t@ == to@ && *x == a && p@ == position@,
            },
        Expression::Variable { name, position } => result matches Ok(
            Expression::Variable { name: n, position: p },
        ) && n@ == name@ && p@ == position@,
    }
}

/// `result` is what becomes of a call: of a built-in function, its
/// arguments inferred and its function type made of their types; of
/// another function, the function inferred, its type extracted as the
/// function type, and the arguments inferred.
#[verifier::opaque]
pub open spec fn inferred_call(
    expression: Expression,
    result: Result<Expression, SpecAnalysisError>,
    variables: Map<Seq<char>, SpecType>,
    types: Map<Seq<char>, SpecType>,
    records: Map<Seq<char>, Seq<SpecRecordField>>,
) -> bool
    decreases expression, 0int,
{
    match expression {
        Expression::Call { function, arguments, position, .. } => match *function {
            Expression::BuiltInFunction { name, position: function_position } => exists|
                a: Result<Seq<Expression>, SpecAnalysisError>,
            |
                #[trigger] produced(a) && inferred_arguments(
                    arguments,
                    arguments@.len() as int,
                    a,
                    variables,
                    types,
                    records,
                ) && match a {
                    Err(error) => result == Err::<Expression, SpecAnalysisError>(error),
                    Ok(a) => match extracted_types(a, a.len() as int, variables, types, records) {
                        Err(error) => result == Err::<Expression, SpecAnalysisError>(error),
                        Ok(argument_types) => match built_in_function_type(
                            name,
                            argument_types,
                            position@,
                            types,
                        ) {
                            Err(error) => result == Err::<Expression, SpecAnalysisError>(error),
                            Ok(function_type) => result matches Ok(
                                Expression::Call {
                                    function_type: Some(t),
                                    function: f,
                                    arguments: b,
                                    position: p,
                                },
                            ) && t@ == function_type && (*f matches Expression::BuiltInFunction {
                                name: n,
                                position: q,
                            } && n == name && q@ == function_position@) && b@ == a && p@
                                == position@,
                        },
                    },
                },
            _ => exists|f: Result<Expression, SpecAnalysisError>|
                #[trigger] produced(f) && inferred(*function, f, variables, types, records)
                    && match f {
                    Err(error) => result == Err::<Expression, SpecAnalysisError>(error),
                    Ok(f) => match extracted(f, variables, types, records) {
                        Err(error) => result == Err::<Expression, SpecAnalysisError>(error),
                        Ok(function_type) => exists|a: Result<Seq<Expression>, SpecAnalysisError>|
                            #[trigger] produced(a) && inferred_arguments(
                                arguments,
                                arguments@.len() as int,
                                a,
                                variables,
                                types,
                                records,
                            ) && match a {
                                Err(error) => result == Err::<Expression, SpecAnalysisError>(error),
                                Ok(a) => result matches Ok(
                                    Expression::Call {
                                        function_type: Some(t),
                                        function: g,
                                        arguments: b,
                                        position: p,
                                    },
                                ) && t@ == function_type && *g == f && b@ == a && p@ == position@,
                            },
                    },
                },
        },
        _ => false,
    }
}

/// `result` is what becomes of an if expression: its branches inferred,
/// then its condition.
#[verifier::opaque]
pub open spec fn inferred_if(
    expression: Expression,
    result: Result<Expression, SpecAnalysisError>,
    variables: Map<Seq<char>, SpecType>,
    types: Map<Seq<char>, SpecType>,
    records: Map<Seq<char>, Seq<SpecRecordField>>,
) -> bool
    decreases expression, 0int,
{
    match expression {
        Expression::If { condition, then, else_, position } => exists|
            t: Result<Expression, SpecAnalysisError>,
        |
            #[trigger] produced(t) && inferred(*then, t, variables, types, records) && match t {
                Err(error) => result == Err::<Expression, SpecAnalysisError>(error),
                Ok(t) => exists|e: Result<Expression, SpecAnalysisError>|
                    #[trigger] produced(e) && inferred(*else_, e, variables, types, records)
                        && match e {
                        Err(error) => result == Err::<Expression, SpecAnalysisError>(error),
                        Ok(e) => exists|c: Result<Expression, SpecAnalysisError>|
                            #[trigger] produced(c) && inferred(*condition, c, variables, types, records)
                                && match c {
                                Err(error) => result == Err::<Expression, SpecAnalysisError>(error),
                                Ok(c) => result matches Ok(
                                    Expression::If {
                                        condition: x,
                                        then: y,
                                        else_: z,
                                        position: p,
                                    },
                                ) && *x == c && *y == t && *z == e && p@ == position@,
                            },
                    },
            },
        _ => false,
    }
}

/// `result` is what becomes of an if-list expression: its list inferred,
/// its element type read off the list's canonical type, then its branches
/// inferred, the first element (as a thunk) and the rest bound in the
/// first.
#[verifier::opaque]
pub open spec fn inferred_if_list(
    expression: Expression,
    result: Result<Expression, SpecAnalysisError>,
    variables: Map<Seq<char>, SpecType>,
    types: Map<Seq<char>, SpecType>,
    records: Map<Seq<char>, Seq<SpecRecordField>>,
) -> bool
    decreases expression, 0int,
{
    match expression {
        Expression::IfList { list, first_name, rest_name, then, else_, position, .. } => exists|
            l: Result<Expression, SpecAnalysisError>,
        |
            #[trigger] produced(l) && inferred(*list, l, variables, types, records) && match l {
                Err(error) => result == Err::<Expression, SpecAnalysisError>(error),
                Ok(l) => match extracted(l, variables, types, records) {
                    Err(error) => result == Err::<Expression, SpecAnalysisError>(error),
                    Ok(list_type) => match canonical(list_type, types) {
                        Err(error) => result == Err::<Expression, SpecAnalysisError>(error),
                        Ok(canonical_list) => if !(canonical_list is List) {
                            result == Err::<Expression, SpecAnalysisError>(
                                SpecAnalysisError::ListExpected(expression_position(*list), list_type),
                            )
                        } else {
                            exists|t: Result<Expression, SpecAnalysisError>|
                                #[trigger] produced(t) && inferred(
                                    *then,
                                    t,
                                    variables.insert(
                                        first_name@,
                                        SpecType::Function {
                                            arguments: Seq::empty(),
                                            result: canonical_list->List_element,
                                            position: position@,
                                        },
                                    ).insert(rest_name@, canonical_list),
                                    types,
                                    records,
                                ) && match t {
                                    Err(error) => result == Err::<Expression, SpecAnalysisError>(
                                        error,
                                    ),
                                    Ok(t) => exists|e: Result<Expression, SpecAnalysisError>|
                                        #[trigger] produced(e) && inferred(
                                            *else_,
                                            e,
                                            variables,
                                            types,
                                            records,
                                        ) && match e {
                                            Err(error) => result == Err::<
                                                Expression,
                                                SpecAnalysisError,
                                            >(error),
                                            Ok(e) => result matches Ok(
                                                Expression::IfList {
                                                    type_: Some(a),
                                                    list: b,
                                                    first_name: c,
                                                    rest_name: d,
                                                    then: f,
                                                    else_: g,
                                                    position: p,
                                                },
                                            ) && a@ == *canonical_list->List_element && *b == l
                                                && c@ == first_name@ && d@ == rest_name@ && *f == t
                                                && *g == e && p@ == position@,
                                        },
                                }
                        },
                    },
                },
            },
        _ => false,
    }
}

/// `result` is what becomes of an if-map expression: its map and key
/// inferred, its key and value types read off the map's canonical type,
/// then its branches inferred, the value bound in the first.
#[verifier::opaque]
pub open spec fn inferred_if_map(
    expression: Expression,
    result: Result<Expression, SpecAnalysisError>,
    variables: Map<Seq<char>, SpecType>,
    types: Map<Seq<char>, SpecType>,
    records: Map<Seq<char>, Seq<SpecRecordField>>,
) -> bool
    decreases expression, 0int,
{
    match expression {
        Expression::IfMap { name, map, key, then, else_, position, .. } => exists|
            m: Result<Expression, SpecAnalysisError>,
        |
            #[trigger] produced(m) && inferred(*map, m, variables, types, records) && match m {
                Err(error) => result == Err::<Expression, SpecAnalysisError>(error),
                Ok(m) => exists|k: Result<Expression, SpecAnalysisError>|
                    #[trigger] produced(k) && inferred(*key, k, variables, types, records) && match k {
                        Err(error) => result == Err::<Expression, SpecAnalysisError>(error),
                        Ok(k) => match extracted(m, variables, types, records) {
                            Err(error) => result == Err::<Expression, SpecAnalysisError>(error),
                            Ok(map_type) => match canonical(map_type, types) {
                                Err(error) => result == Err::<Expression, SpecAnalysisError>(error),
                                Ok(canonical_map) => if !(canonical_map is Mapping) {
                                    result == Err::<Expression, SpecAnalysisError>(
                                        SpecAnalysisError::MapExpected(
                                            expression_position(*map),
                                            map_type,
                                        ),
                                    )
                                } else {
                                    exists|t: Result<Expression, SpecAnalysisError>|
                                        #[trigger] produced(t) && inferred(
                                            *then,
                                            t,
                                            variables.insert(name@, *canonical_map->Mapping_value),
                                            types,
                                            records,
                                        ) && match t {
                                            Err(error) => result == Err::<
                                                Expression,
                                                SpecAnalysisError,
                                            >(error),
                                            Ok(t) => exists|e: Result<Expression, SpecAnalysisError>|
                                                #[trigger] produced(e) && inferred(
                                                    *else_,
                                                    e,
                                                    variables,
                                                    types,
                                                    records,
                                                ) && match e {
                                                    Err(error) => result == Err::<
                                                        Expression,
                                                        SpecAnalysisError,
                                                    >(error),
                                                    Ok(e) => result matches Ok(
                                                        Expression::IfMap {
                                                            key_type: Some(a),
                                                            value_type: Some(b),
                                                            name: c,
                                                            map: d,
                                                            key: f,
                                                            then: g,
                                                            else_: h,
                                                            position: p,
                                                        },
                                                    ) && a@ == *canonical_map->Mapping_key && b@
                                                        == *canonical_map->Mapping_value && c@
                                                        == name@ && *d == m && *f == k && *g == t
                                                        && *h == e && p@ == position@,
                                                },
                                        }
                                },
                            },
                        },
                    },
            },
        _ => false,
    }
}

/// `result` is what becomes of an if-type expression: its argument
/// inferred, each branch inferred with the name bound to its type, and an
/// else branch given what the branches leave of the argument's type and
/// inferred with the name bound to it.
#[verifier::opaque]
pub open spec fn inferred_if_type(
    expression: Expression,
    result: Result<Expression, SpecAnalysisError>,
    variables: Map<Seq<char>, SpecType>,
    types: Map<Seq<char>, SpecType>,
    records: Map<Seq<char>, Seq<SpecRecordField>>,
) -> bool
    decreases expression, 0int,
{
    match expression {
        Expression::IfType { name, argument, branches, else_, position } => exists|
            a: Result<Expression, SpecAnalysisError>,
        |
            #[trigger] produced(a) && inferred(*argument, a, variables, types, records) && match a {
                Err(error) => result == Err::<Expression, SpecAnalysisError>(error),
                Ok(a) => exists|b: Result<Seq<IfTypeBranch<Expression>>, SpecAnalysisError>|
                    #[trigger] produced(b) && inferred_if_branches(
                        branches,
                        branches@.len() as int,
                        b,
                        name@,
                        variables,
                        types,
                        records,
                    ) && match b {
                        Err(error) => result == Err::<Expression, SpecAnalysisError>(error),
                        Ok(b) => exists|
                            e: Result<Option<Box<ElseBranch<Expression>>>, SpecAnalysisError>,
                        |
                            #[trigger] produced(e) && inferred_else(
                                else_,
                                e,
                                name@,
                                a,
                                union_of(
                                    branches@.map_values(
                                        |branch: IfTypeBranch<Expression>| branch.type_@,
                                    ),
                                    position@,
                                ),
                                variables,
                                types,
                                records,
                            ) && match e {
                                Err(error) => result == Err::<Expression, SpecAnalysisError>(error),
                                Ok(e) => result matches Ok(
                                    Expression::IfType {
                                        name: n,
                                        argument: x,
                                        branches: y,
                                        else_: z,
                                        position: p,
                                    },
                                ) && n@ == name@ && *x == a && y@ == b && z == e && p@
                                    == position@,
                            },
                    },
            },
        _ => false,
    }
}

/// `result` is what becomes of a let expression: its bound expression
/// inferred and its type extracted, then its body inferred with the name
/// bound to that type.
#[verifier::opaque]
pub open spec fn inferred_let(
    expression: Expression,
    result: Result<Expression, SpecAnalysisError>,
    variables: Map<Seq<char>, SpecType>,
    types: Map<Seq<char>, SpecType>,
    records: Map<Seq<char>, Seq<SpecRecordField>>,
) -> bool
    decreases expression, 0int,
{
    match expression {
        Expression::Let { name, bound_expression, expression: body, position, .. } => exists|
            b: Result<Expression, SpecAnalysisError>,
        |
            #[trigger] produced(b) && inferred(*bound_expression, b, variables, types, records)
                && match b {
                Err(error) => result == Err::<Expression, SpecAnalysisError>(error),
                Ok(b) => match extracted(b, variables, types, records) {
                    Err(error) => result == Err::<Expression, SpecAnalysisError>(error),
                    Ok(bound_type) => exists|e: Result<Expression, SpecAnalysisError>|
                        #[trigger] produced(e) && inferred(
                            *body,
                            e,
                            bound_scope(variables, name, bound_type),
                            types,
                            records,
                        ) && match e {
                            Err(error) => result == Err::<Expression, SpecAnalysisError>(error),
                            Ok(e) => result matches Ok(
                                Expression::Let {
                                    name: n,
                                    type_: Some(t),
                                    bound_expression: x,
                                    expression: y,
                                    position: p,
                                },
                            ) && (match (n, name) {
                                (Some(n), Some(name)) => n@ == name@,
                                (None, None) => true,
                                _ => false,
                            }) && t@ == bound_type && *x == b && *y == e && p@ == position@,
                        },
                },
            },
        _ => false,
    }
}

/// The variables in scope in the body of a let expression: its name, if
/// it has one, bound to the type of its bound expression.
pub open spec fn bound_scope(
    variables: Map<Seq<char>, SpecType>,
    name: Option<String>,
    type_: SpecType,
) -> Map<Seq<char>, SpecType> {
    match name {
        Some(name) => variables.insert(name@, type_),
        None => variables,
    }
}


/// `result` is what becomes of a list comprehension: its branches in turn,
/// then its element inferred with the names of all branches bound.
#[verifier::opaque]
pub open spec fn inferred_list_comprehension(
    expression: Expression,
    result: Result<Expression, SpecAnalysisError>,
    variables: Map<Seq<char>, SpecType>,
    types: Map<Seq<char>, SpecType>,
    records: Map<Seq<char>, Seq<SpecRecordField>>,
) -> bool
    decreases expression, 0int,
{
    match expression {
        Expression::ListComprehension { type_, element, branches, position } => exists|
            b: Result<
                (Seq<ListComprehensionBranch<Expression>>, Map<Seq<char>, SpecType>),
                SpecAnalysisError,
            >,
        |
            #[trigger] produced(b) && inferred_comprehension_branches(
                branches,
                branches@.len() as int,
                b,
                variables,
                position@,
                types,
                records,
            ) && match b {
                Err(error) => result == Err::<Expression, SpecAnalysisError>(error),
                Ok((b, scope)) => exists|e: Result<Expression, SpecAnalysisError>|
                    #[trigger] produced(e) && inferred(*element, e, scope, types, records) && match e {
                        Err(error) => result == Err::<Expression, SpecAnalysisError>(error),
                        Ok(e) => result matches Ok(
                            Expression::ListComprehension {
                                type_: t,
                                element: x,
                                branches: y,
                                position: p,
                            },
                        ) && t@ == type_@ && *x == e && y@ == b && p@ == position@,
                    },
            },
        _ => false,
    }
}

/// `result` is what becomes of an operation: its operands inferred; an
/// addition takes the canonical type of its first operand, an equality the
/// union of the types of its operands, a try operation the type of its
/// operand without its error.
#[verifier::opaque]
pub open spec fn inferred_operation(
    expression: Expression,
    result: Result<Expression, SpecAnalysisError>,
    variables: Map<Seq<char>, SpecType>,
    types: Map<Seq<char>, SpecType>,
    records: Map<Seq<char>, Seq<SpecRecordField>>,
) -> bool
    decreases expression, 0int,
{
    match expression {
        Expression::Operation(operation) => match operation {
            Operation::Addition { lhs, rhs, position, .. } => exists|
                l: Result<Expression, SpecAnalysisError>,
            |
                #[trigger] produced(l) && inferred(*lhs, l, variables, types, records) && match l {
                    Err(error) => result == Err::<Expression, SpecAnalysisError>(error),
                    Ok(l) => match extracted(l, variables, types, records) {
                        Err(error) => result == Err::<Expression, SpecAnalysisError>(error),
                        Ok(lhs_type) => match canonical(lhs_type, types) {
                            Err(error) => result == Err::<Expression, SpecAnalysisError>(error),
                            Ok(operand_type) => exists|r: Result<Expression, SpecAnalysisError>|
                                #[trigger] produced(r) && inferred(*rhs, r, variables, types, records)
                                    && match r {
                                    Err(error) => result == Err::<Expression, SpecAnalysisError>(
                                        error,
                                    ),
                                    Ok(r) => result matches Ok(
                                        Expression::Operation(
                                            Operation::Addition {
                                                type_: Some(t),
                                                lhs: x,
                                                rhs: y,
                                                position: p,
                                            },
                                        ),
                                    ) && t@ == operand_type && *x == l && *y == r && p@
                                        == position@,
                                },
                        },
                    },
                },
            Operation::Arithmetic { operator, lhs, rhs, position } => exists|
                l: Result<Expression, SpecAnalysisError>,
            |
                #[trigger] produced(l) && inferred(*lhs, l, variables, types, records) && match l {
                    Err(error) => result == Err::<Expression, SpecAnalysisError>(error),
                    Ok(l) => exists|r: Result<Expression, SpecAnalysisError>|
                        #[trigger] produced(r) && inferred(*rhs, r, variables, types, records)
                            && match r {
                            Err(error) => result == Err::<Expression, SpecAnalysisError>(error),
                            Ok(r) => result matches Ok(
                                Expression::Operation(
                                    Operation::Arithmetic {
                                        operator: o,
                                        lhs: x,
                                        rhs: y,
                                        position: p,
                                    },
                                ),
                            ) && o == operator && *x == l && *y == r && p@ == position@,
                        },
                },
            Operation::Boolean { operator, lhs, rhs, position } => exists|
                l: Result<Expression, SpecAnalysisError>,
            |
                #[trigger] produced(l) && inferred(*lhs, l, variables, types, records) && match l {
                    Err(error) => result == Err::<Expression, SpecAnalysisError>(error),
                    Ok(l) => exists|r: Result<Expression, SpecAnalysisError>|
                        #[trigger] produced(r) && inferred(*rhs, r, variables, types, records)
                            && match r {
                            Err(error) => result == Err::<Expression, SpecAnalysisError>(error),
                            Ok(r) => result matches Ok(
                                Expression::Operation(
                                    Operation::Boolean { operator: o, lhs: x, rhs: y, position: p },
                                ),
                            ) && o == operator && *x == l && *y == r && p@ == position@,
                        },
                },
            Operation::Equality { operator, lhs, rhs, position, .. } => exists|
                l: Result<Expression, SpecAnalysisError>,
            |
                #[trigger] produced(l) && inferred(*lhs, l, variables, types, records) && match l {
                    Err(error) => result == Err::<Expression, SpecAnalysisError>(error),
                    Ok(l) => exists|r: Result<Expression, SpecAnalysisError>|
                        #[trigger] produced(r) && inferred(*rhs, r, variables, types, records)
                            && match r {
                            Err(error) => result == Err::<Expression, SpecAnalysisError>(error),
                            Ok(r) => match extracted(l, variables, types, records) {
                                Err(error) => result == Err::<Expression, SpecAnalysisError>(error),
                                Ok(lhs_type) => match extracted(r, variables, types, records) {
                                    Err(error) => result == Err::<Expression, SpecAnalysisError>(
                                        error,
                                    ),
                                    Ok(rhs_type) => result matches Ok(
                                        Expression::Operation(
                                            Operation::Equality {
                                                type_: Some(t),
                                                operator: o,
                                                lhs: x,
                                                rhs: y,
                                                position: p,
                                            },
                                        ),
                                    ) && t@ == (SpecType::Union {
                                        lhs: Box::new(lhs_type),
                                        rhs: Box::new(rhs_type),
                                        position: position@,
                                    }) && o == operator && *x == l && *y == r && p@ == position@,
                                },
                            },
                        },
                },
            Operation::Not { expression: operand, position } => exists|
                e: Result<Expression, SpecAnalysisError>,
            |
                #[trigger] produced(e) && inferred(*operand, e, variables, types, records) && match e {
                    Err(error) => result == Err::<Expression, SpecAnalysisError>(error),
                    Ok(e) => result matches Ok(
                        Expression::Operation(Operation::Not { expression: x, position: p }),
                    ) && *x == e && p@ == position@,
                },
            Operation::Order { operator, lhs, rhs, position } => exists|
                l: Result<Expression, SpecAnalysisError>,
            |
                #[trigger] produced(l) && inferred(*lhs, l, variables, types, records) && match l {
                    Err(error) => result == Err::<Expression, SpecAnalysisError>(error),
                    Ok(l) => exists|r: Result<Expression, SpecAnalysisError>|
                        #[trigger] produced(r) && inferred(*rhs, r, variables, types, records)
                            && match r {
                            Err(error) => result == Err::<Expression, SpecAnalysisError>(error),
                            Ok(r) => result matches Ok(
                                Expression::Operation(
                                    Operation::Order { operator: o, lhs: x, rhs: y, position: p },
                                ),
                            ) && o == operator && *x == l && *y == r && p@ == position@,
                        },
                },
            Operation::Try { expression: operand, position, .. } => exists|
                e: Result<Expression, SpecAnalysisError>,
            |
                #[trigger] produced(e) && inferred(*operand, e, variables, types, records) && match e {
                    Err(error) => result == Err::<Expression, SpecAnalysisError>(error),
                    Ok(e) => match extracted(e, variables, types, records) {
                        Err(error) => result == Err::<Expression, SpecAnalysisError>(error),
                        Ok(operand_type) => match try_type(operand_type, position@, types) {
                            Err(error) => result == Err::<Expression, SpecAnalysisError>(error),
                            Ok(success_type) => result matches Ok(
                                Expression::Operation(
                                    Operation::Try { type_: Some(t), expression: x, position: p },
                                ),
                            ) && t@ == success_type && *x == e && p@ == position@,
                        },
                    },
                },
        },
        _ => false,
    }
}

/// `result` is what becomes of a record deconstruction: its record
/// inferred, and its type the record's type.
#[verifier::opaque]
pub open spec fn inferred_record_deconstruction(
    expression: Expression,
    result: Result<Expression, SpecAnalysisError>,
    variables: Map<Seq<char>, SpecType>,
    types: Map<Seq<char>, SpecType>,
    records: Map<Seq<char>, Seq<SpecRecordField>>,
) -> bool
    decreases expression, 0int,
{
    match expression {
        Expression::RecordDeconstruction { record, field_name, position, .. } => exists|
            r: Result<Expression, SpecAnalysisError>,
        |
            #[trigger] produced(r) && inferred(*record, r, variables, types, records) && match r {
                Err(error) => result == Err::<Expression, SpecAnalysisError>(error),
                Ok(r) => match extracted(r, variables, types, records) {
                    Err(error) => result == Err::<Expression, SpecAnalysisError>(error),
                    Ok(record_type) => result matches Ok(
                        Expression::RecordDeconstruction {
                            type_: Some(t),
                            record: x,
                            field_name: n,
                            position: p,
                        },
                    ) && t@ == record_type && *x == r && n@ == field_name@ && p@ == position@,
                },
            },
        _ => false,
    }
}

/// `result` is what becomes of a record update: its record, then its
/// fields inferred.
#[verifier::opaque]
pub open spec fn inferred_record_update(
    expression: Expression,
    result: Result<Expression, SpecAnalysisError>,
    variables: Map<Seq<char>, SpecType>,
    types: Map<Seq<char>, SpecType>,
    records: Map<Seq<char>, Seq<SpecRecordField>>,
) -> bool
    decreases expression, 0int,
{
    match expression {
        Expression::RecordUpdate { type_, record, fields, position } => exists|
            r: Result<Expression, SpecAnalysisError>,
        |
            #[trigger] produced(r) && inferred(*record, r, variables, types, records) && match r {
                Err(error) => result == Err::<Expression, SpecAnalysisError>(error),
                Ok(r) => exists|f: Result<Seq<RecordFieldValue<Expression>>, SpecAnalysisError>|
                    #[trigger] produced(f) && inferred_fields(
                        fields,
                        fields@.len() as int,
                        f,
                        variables,
                        types,
                        records,
                    ) && match f {
                        Err(error) => result == Err::<Expression, SpecAnalysisError>(error),
                        Ok(f) => result matches Ok(
                            Expression::RecordUpdate { type_: t, record: x, fields: y, position: p },
                        ) && t@ == type_@ && *x == r && y@ == f && p@ == position@,
                    },
            },
        _ => false,
    }
}

/// `result` is what becomes of a thunk: its type extracted from its body
/// as it stands, then its body inferred.
#[verifier::opaque]
pub open spec fn inferred_thunk(
    expression: Expression,
    result: Result<Expression, SpecAnalysisError>,
    variables: Map<Seq<char>, SpecType>,
    types: Map<Seq<char>, SpecType>,
    records: Map<Seq<char>, Seq<SpecRecordField>>,
) -> bool
    decreases expression, 0int,
{
    match expression {
        Expression::Thunk { expression: body, position, .. } => match extracted(
            *body,
            variables,
            types,
            records,
        ) {
            Err(error) => result == Err::<Expression, SpecAnalysisError>(error),
            Ok(body_type) => exists|e: Result<Expression, SpecAnalysisError>|
                #[trigger] produced(e) && inferred(*body, e, variables, types, records) && match e {
                    Err(error) => result == Err::<Expression, SpecAnalysisError>(error),
                    Ok(e) => result matches Ok(
                        Expression::Thunk { type_: Some(t), expression: x, position: p },
                    ) && t@ == body_type && *x == e && p@ == position@,
                },
        },
        _ => false,
    }
}

/// `result` is what becomes of the first `n` arguments of a call, each
/// inferred.
#[verifier::opaque]
pub open spec fn inferred_arguments(
    arguments: Vec<Expression>,
    n: int,
    result: Result<Seq<Expression>, SpecAnalysisError>,
    variables: Map<Seq<char>, SpecType>,
    types: Map<Seq<char>, SpecType>,
    records: Map<Seq<char>, Seq<SpecRecordField>>,
) -> bool
    decreases arguments, n,
{
    if n <= 0 || n > arguments@.len() {
        result == Ok::<Seq<Expression>, SpecAnalysisError>(Seq::empty())
    } else {
        exists|prefix: Result<Seq<Expression>, SpecAnalysisError>|
            #[trigger] produced(prefix) && inferred_arguments(
                arguments,
                n - 1,
                prefix,
                variables,
                types,
                records,
            ) && match prefix {
                Err(error) => result == Err::<Seq<Expression>, SpecAnalysisError>(error),
                Ok(prefix) => exists|x: Result<Expression, SpecAnalysisError>|
                    #[trigger] produced(x) && inferred(arguments@[n - 1], x, variables, types, records)
                        && match x {
                        Err(error) => result == Err::<Seq<Expression>, SpecAnalysisError>(error),
                        Ok(x) => result == Ok::<Seq<Expression>, SpecAnalysisError>(prefix.push(x)),
                    },
            }
    }
}

/// `result` is what becomes of the first `n` branches of an if-type
/// expression, each inferred with the name bound to its type.
#[verifier::opaque]
pub open spec fn inferred_if_branches(
    branches: Vec<IfTypeBranch<Expression>>,
    n: int,
    result: Result<Seq<IfTypeBranch<Expression>>, SpecAnalysisError>,
    name: Seq<char>,
    variables: Map<Seq<char>, SpecType>,
    types: Map<Seq<char>, SpecType>,
    records: Map<Seq<char>, Seq<SpecRecordField>>,
) -> bool
    decreases branches, n,
{
    if n <= 0 || n > branches@.len() {
        result == Ok::<Seq<IfTypeBranch<Expression>>, SpecAnalysisError>(Seq::empty())
    } else {
        exists|prefix: Result<Seq<IfTypeBranch<Expression>>, SpecAnalysisError>|
            #[trigger] produced(prefix) && inferred_if_branches(
                branches,
                n - 1,
                prefix,
                name,
                variables,
                types,
                records,
            ) && match prefix {
                Err(error) => result == Err::<Seq<IfTypeBranch<Expression>>, SpecAnalysisError>(
                    error,
                ),
                Ok(prefix) => exists|x: Result<Expression, SpecAnalysisError>|
                    #[trigger] produced(x) && inferred(
                        branches@[n - 1].expression,
                        x,
                        variables.insert(name, branches@[n - 1].type_@),
                        types,
                        records,
                    ) && match x {
                        Err(error) => result == Err::<
                            Seq<IfTypeBranch<Expression>>,
                            SpecAnalysisError,
                        >(error),
                        Ok(x) => result matches Ok(s) && s.len() == prefix.len() + 1
                            && s.drop_last() == prefix && s.last().type_@ == branches@[n
                            - 1].type_@ && s.last().expression == x,
                    },
            }
    }
}

/// `result` is what becomes of the else branch of an if-type expression:
/// its type what the branches' union leaves of the inferred argument's
/// type, which must leave something, and its expression inferred with the
/// name bound to that type.
#[verifier::opaque]
pub open spec fn inferred_else(
    else_: Option<Box<ElseBranch<Expression>>>,
    result: Result<Option<Box<ElseBranch<Expression>>>, SpecAnalysisError>,
    name: Seq<char>,
    argument: Expression,
    branch_union: SpecType,
    variables: Map<Seq<char>, SpecType>,
    types: Map<Seq<char>, SpecType>,
    records: Map<Seq<char>, Seq<SpecRecordField>>,
) -> bool
    decreases else_, 2int,
{
    match else_ {
        None => result == Ok::<Option<Box<ElseBranch<Expression>>>, SpecAnalysisError>(None),
        Some(branch) => match extracted(argument, variables, types, records) {
            Err(error) => result == Err::<Option<Box<ElseBranch<Expression>>>, SpecAnalysisError>(
                error,
            ),
            Ok(argument_type) => match difference_spec(argument_type, branch_union, types) {
                Err(error) => result == Err::<
                    Option<Box<ElseBranch<Expression>>>,
                    SpecAnalysisError,
                >(error),
                Ok(None) => result == Err::<Option<Box<ElseBranch<Expression>>>, SpecAnalysisError>(
                    SpecAnalysisError::UnreachableCode(branch.position@),
                ),
                Ok(Some(rest)) => exists|x: Result<Expression, SpecAnalysisError>|
                    #[trigger] produced(x) && inferred(
                        branch.expression,
                        x,
                        variables.insert(name, rest),
                        types,
                        records,
                    ) && match x {
                        Err(error) => result == Err::<
                            Option<Box<ElseBranch<Expression>>>,
                            SpecAnalysisError,
                        >(error),
                        Ok(x) => result matches Ok(Some(b)) && (b.type_ matches Some(t) && t@
                            == rest) && b.expression == x && b.position@ == branch.position@,
                    },
            },
        },
    }
}

/// `result` is what becomes of the first `n` elements of a list literal,
/// each inferred.
#[verifier::opaque]
pub open spec fn inferred_list_elements(
    elements: Vec<ListElement<Expression>>,
    n: int,
    result: Result<Seq<ListElement<Expression>>, SpecAnalysisError>,
    variables: Map<Seq<char>, SpecType>,
    types: Map<Seq<char>, SpecType>,
    records: Map<Seq<char>, Seq<SpecRecordField>>,
) -> bool
    decreases elements, n,
{
    if n <= 0 || n > elements@.len() {
        result == Ok::<Seq<ListElement<Expression>>, SpecAnalysisError>(Seq::empty())
    } else {
        exists|prefix: Result<Seq<ListElement<Expression>>, SpecAnalysisError>|
            #[trigger] produced(prefix) && inferred_list_elements(
                elements,
                n - 1,
                prefix,
                variables,
                types,
                records,
            ) && match prefix {
                Err(error) => result == Err::<Seq<ListElement<Expression>>, SpecAnalysisError>(
                    error,
                ),
                Ok(prefix) => match elements@[n - 1] {
                    ListElement::Multiple(e) => exists|x: Result<Expression, SpecAnalysisError>|
                        #[trigger] produced(x) && inferred(e, x, variables, types, records)
                            && match x {
                            Err(error) => result == Err::<
                                Seq<ListElement<Expression>>,
                                SpecAnalysisError,
                            >(error),
                            Ok(x) => result == Ok::<
                                Seq<ListElement<Expression>>,
                                SpecAnalysisError,
                            >(prefix.push(ListElement::Multiple(x))),
                        },
                    ListElement::Single(e) => exists|x: Result<Expression, SpecAnalysisError>|
                        #[trigger] produced(x) && inferred(e, x, variables, types, records)
                            && match x {
                            Err(error) => result == Err::<
                                Seq<ListElement<Expression>>,
                                SpecAnalysisError,
                            >(error),
                            Ok(x) => result == Ok::<
                                Seq<ListElement<Expression>>,
                                SpecAnalysisError,
                            >(prefix.push(ListElement::Single(x))),
                        },
                },
            }
    }
}

/// `result` is what becomes of the first `n` elements of a map literal,
/// each key and value inferred.
#[verifier::opaque]
pub open spec fn inferred_map_elements(
    elements: Vec<MapElement<Expression>>,
    n: int,
    result: Result<Seq<MapElement<Expression>>, SpecAnalysisError>,
    variables: Map<Seq<char>, SpecType>,
    types: Map<Seq<char>, SpecType>,
    records: Map<Seq<char>, Seq<SpecRecordField>>,
) -> bool
    decreases elements, n,
{
    if n <= 0 || n > elements@.len() {
        result == Ok::<Seq<MapElement<Expression>>, SpecAnalysisError>(Seq::empty())
    } else {
        exists|prefix: Result<Seq<MapElement<Expression>>, SpecAnalysisError>|
            #[trigger] produced(prefix) && inferred_map_elements(
                elements,
                n - 1,
                prefix,
                variables,
                types,
                records,
            ) && match prefix {
                Err(error) => result == Err::<Seq<MapElement<Expression>>, SpecAnalysisError>(
                    error,
                ),
                Ok(prefix) => match elements@[n - 1] {
                    MapElement::Single(entry) => exists|k: Result<Expression, SpecAnalysisError>|
                        #[trigger] produced(k) && inferred(entry.key, k, variables, types, records)
                            && match k {
                            Err(error) => result == Err::<
                                Seq<MapElement<Expression>>,
                                SpecAnalysisError,
                            >(error),
                            Ok(k) => exists|v: Result<Expression, SpecAnalysisError>|
                                #[trigger] produced(v) && inferred(
                                    entry.value,
                                    v,
                                    variables,
                                    types,
                                    records,
                                ) && match v {
                                    Err(error) => result == Err::<
                                        Seq<MapElement<Expression>>,
                                        SpecAnalysisError,
                                    >(error),
                                    Ok(v) => result matches Ok(s) && s.len() == prefix.len() + 1
                                        && s.drop_last() == prefix && (s.last() matches MapElement::Single(e)
                                        && e.key == k && e.value == v && e.position@
                                        == entry.position@),
                                },
                        },
                    MapElement::Multiple(e) => exists|x: Result<Expression, SpecAnalysisError>|
                        #[trigger] produced(x) && inferred(e, x, variables, types, records)
                            && match x {
                            Err(error) => result == Err::<
                                Seq<MapElement<Expression>>,
                                SpecAnalysisError,
                            >(error),
                            Ok(x) => result == Ok::<
                                Seq<MapElement<Expression>>,
                                SpecAnalysisError,
                            >(prefix.push(MapElement::Multiple(x))),
                        },
                },
            }
    }
}

/// `result` is what becomes of the first `n` fields of a record
/// construction or update, each inferred.
#[verifier::opaque]
pub open spec fn inferred_fields(
    fields: Vec<RecordFieldValue<Expression>>,
    n: int,
    result: Result<Seq<RecordFieldValue<Expression>>, SpecAnalysisError>,
    variables: Map<Seq<char>, SpecType>,
    types: Map<Seq<char>, SpecType>,
    records: Map<Seq<char>, Seq<SpecRecordField>>,
) -> bool
    decreases fields, n,
{
    if n <= 0 || n > fields@.len() {
        result == Ok::<Seq<RecordFieldValue<Expression>>, SpecAnalysisError>(Seq::empty())
    } else {
        exists|prefix: Result<Seq<RecordFieldValue<Expression>>, SpecAnalysisError>|
            #[trigger] produced(prefix) && inferred_fields(
                fields,
                n - 1,
                prefix,
                variables,
                types,
                records,
            ) && match prefix {
                Err(error) => result == Err::<
                    Seq<RecordFieldValue<Expression>>,
                    SpecAnalysisError,
                >(error),
                Ok(prefix) => exists|x: Result<Expression, SpecAnalysisError>|
                    #[trigger] produced(x) && inferred(
                        fields@[n - 1].expression,
                        x,
                        variables,
                        types,
                        records,
                    ) && match x {
                        Err(error) => result == Err::<
                            Seq<RecordFieldValue<Expression>>,
                            SpecAnalysisError,
                        >(error),
                        Ok(x) => result matches Ok(s) && s.len() == prefix.len() + 1
                            && s.drop_last() == prefix && s.last().name@ == fields@[n - 1].name@
                            && s.last().expression == x && s.last().position@ == fields@[n
                            - 1].position@,
                    },
            }
    }
}

/// `result` is what becomes of the first `n` iteratees of a list
/// comprehension branch: each inferred, with its type extracted.
#[verifier::opaque]
pub open spec fn inferred_iteratees(
    iteratees: Vec<ListComprehensionIteratee<Expression>>,
    n: int,
    result: Result<Seq<ListComprehensionIteratee<Expression>>, SpecAnalysisError>,
    variables: Map<Seq<char>, SpecType>,
    types: Map<Seq<char>, SpecType>,
    records: Map<Seq<char>, Seq<SpecRecordField>>,
) -> bool
    decreases iteratees, n,
{
    if n <= 0 || n > iteratees@.len() {
        result == Ok::<Seq<ListComprehensionIteratee<Expression>>, SpecAnalysisError>(
            Seq::empty(),
        )
    } else {
        exists|prefix: Result<Seq<ListComprehensionIteratee<Expression>>, SpecAnalysisError>|
            #[trigger] produced(prefix) && inferred_iteratees(
                iteratees,
                n - 1,
                prefix,
                variables,
                types,
                records,
            ) && match prefix {
                Err(error) => result == Err::<
                    Seq<ListComprehensionIteratee<Expression>>,
                    SpecAnalysisError,
                >(error),
                Ok(prefix) => exists|x: Result<Expression, SpecAnalysisError>|
                    #[trigger] produced(x) && inferred(
                        iteratees@[n - 1].expression,
                        x,
                        variables,
                        types,
                        records,
                    ) && match x {
                        Err(error) => result == Err::<
                            Seq<ListComprehensionIteratee<Expression>>,
                            SpecAnalysisError,
                        >(error),
                        Ok(x) => match extracted(x, variables, types, records) {
                            Err(error) => result == Err::<
                                Seq<ListComprehensionIteratee<Expression>>,
                                SpecAnalysisError,
                            >(error),
                            Ok(iteratee_type) => result matches Ok(s) && s.len() == prefix.len() + 1
                                && s.drop_last() == prefix && (s.last().type_ matches Some(t) && t@
                                == iteratee_type) && s.last().expression == x
                                && s.last().position@ == iteratees@[n - 1].position@,
                        },
                    },
            }
    }
}

/// `result` is what becomes of the optional condition of a list
/// comprehension branch: inferred where there is one.
#[verifier::opaque]
pub open spec fn inferred_condition(
    condition: Option<Expression>,
    result: Result<Option<Expression>, SpecAnalysisError>,
    variables: Map<Seq<char>, SpecType>,
    types: Map<Seq<char>, SpecType>,
    records: Map<Seq<char>, Seq<SpecRecordField>>,
) -> bool
    decreases condition, 2int,
{
    match condition {
        None => result == Ok::<Option<Expression>, SpecAnalysisError>(None),
        Some(condition) => exists|x: Result<Expression, SpecAnalysisError>|
            #[trigger] produced(x) && inferred(condition, x, variables, types, records) && match x {
                Err(error) => result == Err::<Option<Expression>, SpecAnalysisError>(error),
                Ok(x) => result == Ok::<Option<Expression>, SpecAnalysisError>(Some(x)),
            },
    }
}

/// `result` is what becomes of the first `n` branches of a list
/// comprehension, with the variables in scope after them: each branch's
/// iteratees inferred, its names bound for them, and its condition
/// inferred with them in scope.
#[verifier::opaque]
pub open spec fn inferred_comprehension_branches(
    branches: Vec<ListComprehensionBranch<Expression>>,
    n: int,
    result: Result<
        (Seq<ListComprehensionBranch<Expression>>, Map<Seq<char>, SpecType>),
        SpecAnalysisError,
    >,
    variables: Map<Seq<char>, SpecType>,
    position: SpecPosition,
    types: Map<Seq<char>, SpecType>,
    records: Map<Seq<char>, Seq<SpecRecordField>>,
) -> bool
    decreases branches, n,
{
    if n <= 0 || n > branches@.len() {
        result == Ok::<
            (Seq<ListComprehensionBranch<Expression>>, Map<Seq<char>, SpecType>),
            SpecAnalysisError,
        >((Seq::empty(), variables))
    } else {
        exists|
            prefix: Result<
                (Seq<ListComprehensionBranch<Expression>>, Map<Seq<char>, SpecType>),
                SpecAnalysisError,
            >,
        |
            #[trigger] produced(prefix) && inferred_comprehension_branches(
                branches,
                n - 1,
                prefix,
                variables,
                position,
                types,
                records,
            ) && match prefix {
                Err(error) => result == Err::<
                    (Seq<ListComprehensionBranch<Expression>>, Map<Seq<char>, SpecType>),
                    SpecAnalysisError,
                >(error),
                Ok((prefix, scope)) => exists|
                    i: Result<Seq<ListComprehensionIteratee<Expression>>, SpecAnalysisError>,
                |
                    #[trigger] produced(i) && inferred_iteratees(
                        branches@[n - 1].iteratees,
                        branches@[n - 1].iteratees@.len() as int,
                        i,
                        scope,
                        types,
                        records,
                    ) && match i {
                        Err(error) => result == Err::<
                            (Seq<ListComprehensionBranch<Expression>>, Map<Seq<char>, SpecType>),
                            SpecAnalysisError,
                        >(error),
                        Ok(i) => match iteratee_scope(
                            branches@[n - 1].names@,
                            i,
                            crate::type_coercer::zipped_length(
                                branches@[n - 1].names@.len() as int,
                                i.len() as int,
                            ),
                            scope,
                            position,
                            types,
                        ) {
                            Err(error) => result == Err::<
                                (
                                    Seq<ListComprehensionBranch<Expression>>,
                                    Map<Seq<char>, SpecType>,
                                ),
                                SpecAnalysisError,
                            >(error),
                            Ok(bound) => exists|c: Result<Option<Expression>, SpecAnalysisError>|
                                #[trigger] produced(c) && inferred_condition(
                                    branches@[n - 1].condition,
                                    c,
                                    bound,
                                    types,
                                    records,
                                ) && match c {
                                    Err(error) => result == Err::<
                                        (
                                            Seq<ListComprehensionBranch<Expression>>,
                                            Map<Seq<char>, SpecType>,
                                        ),
                                        SpecAnalysisError,
                                    >(error),
                                    Ok(c) => result matches Ok((s, m)) && m == bound && s.len()
                                        == prefix.len() + 1 && s.drop_last() == prefix
                                        && same_strings(s.last().names@, branches@[n - 1].names@)
                                        && s.last().iteratees@ == i && s.last().condition == c
                                        && s.last().position@ == branches@[n - 1].position@,
                                },
                        },
                    },
            }
    }
}

/// `result` is what becomes of the first `n` function definitions of a
/// module: each lambda inferred with the module's environment.
#[verifier::opaque]
pub open spec fn inferred_definitions(
    definitions: Seq<FunctionDefinition>,
    n: int,
    result: Result<Seq<FunctionDefinition>, SpecAnalysisError>,
    variables: Map<Seq<char>, SpecType>,
    types: Map<Seq<char>, SpecType>,
    records: Map<Seq<char>, Seq<SpecRecordField>>,
) -> bool
    decreases n,
{
    if n <= 0 || n > definitions.len() {
        result == Ok::<Seq<FunctionDefinition>, SpecAnalysisError>(Seq::empty())
    } else {
        exists|prefix: Result<Seq<FunctionDefinition>, SpecAnalysisError>|
            #[trigger] produced(prefix) && inferred_definitions(
                definitions,
                n - 1,
                prefix,
                variables,
                types,
                records,
            ) && match prefix {
                Err(error) => result == Err::<Seq<FunctionDefinition>, SpecAnalysisError>(error),
                Ok(prefix) => exists|l: Result<Lambda<Expression>, SpecAnalysisError>|
                    #[trigger] produced(l) && inferred_lambda(
                        definitions[n - 1].lambda,
                        l,
                        variables,
                        types,
                        records,
                    ) && match l {
                        Err(error) => result == Err::<Seq<FunctionDefinition>, SpecAnalysisError>(
                            error,
                        ),
                        Ok(l) => result matches Ok(s) && s.len() == prefix.len() + 1
                            && s.drop_last() == prefix && s.last().name@ == definitions[n
                            - 1].name@ && s.last().original_name@ == definitions[n
                            - 1].original_name@ && s.last().lambda == l
                            && s.last().foreign_definition_configuration == definitions[n
                            - 1].foreign_definition_configuration && s.last().is_public
                            == definitions[n - 1].is_public && s.last().position@ == definitions[n
                            - 1].position@,
                    },
            }
    }
}

/// `result` is what becomes of a module: the lambdas of its function
/// definitions inferred with the module's environment, everything else as
/// it was.
pub open spec fn inferred_module(
    module: Module,
    result: Result<Module, SpecAnalysisError>,
    types: Map<Seq<char>, SpecType>,
    records: Map<Seq<char>, Seq<SpecRecordField>>,
) -> bool {
    exists|d: Result<Seq<FunctionDefinition>, SpecAnalysisError>|
        #[trigger] produced(d) && inferred_definitions(
            module.function_definitions@,
            module.function_definitions@.len() as int,
            d,
            environment(module),
            types,
            records,
        ) && match d {
            Err(error) => result == Err::<Module, SpecAnalysisError>(error),
            Ok(d) => result matches Ok(new) && same_type_definitions(
                module.type_definitions@,
                new.type_definitions@,
            ) && same_type_aliases(module.type_aliases@, new.type_aliases@)
                && same_foreign_declarations(
                module.foreign_declarations@,
                new.foreign_declarations@,
            ) && same_function_declarations(
                module.function_declarations@,
                new.function_declarations@,
            ) && new.function_definitions@ == d && new.position@ == module.position@,
        }
}

/// Infers the types of a lambda's body with its arguments bound.
#[verifier::spinoff_prover]
fn infer_lambda(context: &AnalysisContext, lambda: &Lambda<Expression>, variables: &TypeMap) -> (result:
    Result<Lambda<Expression>, AnalysisError>)
    requires
        aliases_acyclic(type_map_contents(*context.types())),
        inferable(*lambda.body),
    ensures
        produced(view_lambda_result(result)),
        inferred_lambda(
            *lambda,
            view_lambda_result(result),
            type_map_contents(*variables),
            type_map_contents(*context.types()),
            record_map_contents(*context.records()),
        ),
        result matches Ok(l) ==> if_types_complete(*l.body),
    decreases lambda, 0int,
{
    proof {
        reveal(inferred_lambda);
    }
    let scope = crate::type_checker::bind_lambda_arguments(variables, lambda);
    let body = infer_expression(context, &lambda.body, &scope);
    match body {
        Err(error) => Err(error),
        Ok(body) => Ok(
            Lambda {
                arguments: copy_arguments(&lambda.arguments),
                result_type: clone_type(&lambda.result_type),
                body: Box::new(body),
                position: lambda.position.copy(),
            },
        ),
    }
}

/// Infers the types that an expression leaves open.
#[verifier::spinoff_prover]
pub fn infer_expression(context: &AnalysisContext, expression: &Expression, variables: &TypeMap) -> (result:
    Result<Expression, AnalysisError>)
    requires
        aliases_acyclic(type_map_contents(*context.types())),
        inferable(*expression),
    ensures
        produced(view_result(result)),
        inferred(
            *expression,
            view_result(result),
            type_map_contents(*variables),
            type_map_contents(*context.types()),
            record_map_contents(*context.records()),
        ),
        result matches Ok(e) ==> if_types_complete(e),
    decreases expression, 3int,
{
    match expression {
        Expression::Boolean { value, position } => Ok(
            Expression::Boolean { value: *value, position: position.copy() },
        ),
        Expression::BuiltInFunction { name, position } => Ok(
            Expression::BuiltInFunction { name: *name, position: position.copy() },
        ),
        Expression::Call { .. } => infer_call(context, expression, variables),
        Expression::If { .. } => infer_if(context, expression, variables),
        Expression::IfList { .. } => infer_if_list(context, expression, variables),
        Expression::IfMap { .. } => infer_if_map(context, expression, variables),
        Expression::IfType { .. } => infer_if_type(context, expression, variables),
        Expression::Lambda(lambda) => {
            let lambda = infer_lambda(context, lambda, variables)?;
            Ok(Expression::Lambda(lambda))
        },
        Expression::Let { .. } => infer_let(context, expression, variables),
        Expression::List { type_, elements, position } => {
            let elements = infer_list_elements(context, elements, elements.len(), variables)?;
            Ok(Expression::List { type_: clone_type(type_), elements, position: position.copy() })
        },
        Expression::ListComprehension { .. } => infer_list_comprehension(context, expression, variables),
        Expression::Mapping { key_type, value_type, elements, position } => {
            let elements = infer_map_elements(context, elements, elements.len(), variables)?;
            Ok(
                Expression::Mapping {
                    key_type: clone_type(key_type),
                    value_type: clone_type(value_type),
                    elements,
                    position: position.copy(),
                },
            )
        },
        Expression::Unit { position } => Ok(Expression::Unit { position: position.copy() }),
        Expression::Number { value, position } => Ok(
            Expression::Number { value: *value, position: position.copy() },
        ),
        Expression::Operation(_) => infer_operation(context, expression, variables),
        Expression::RecordConstruction { type_, fields, position } => {
            let fields = infer_fields(context, fields, fields.len(), variables)?;
            Ok(
                Expression::RecordConstruction {
                    type_: clone_type(type_),
                    fields,
                    position: position.copy(),
                },
            )
        },
        Expression::RecordDeconstruction { .. } => infer_record_deconstruction(
            context,
            expression,
            variables,
        ),
        Expression::RecordUpdate { .. } => infer_record_update(context, expression, variables),
        Expression::String { value, position } => Ok(
            Expression::String {
                value: crate::ir_copy::copy_bytes(value),
                position: position.copy(),
            },
        ),
        Expression::Thunk { .. } => infer_thunk(context, expression, variables),
        Expression::TypeCoercion { from, to, argument, position } => {
            let argument = infer_expression(context, argument, variables)?;
            Ok(
                Expression::TypeCoercion {
                    from: clone_type(from),
                    to: clone_type(to),
                    argument: Box::new(argument),
                    position: position.copy(),
                },
            )
        },
        Expression::Variable { name, position } => Ok(
            Expression::Variable { name: name.clone(), position: position.copy() },
        ),
    }
}

/// Infers the first `n` arguments of a call.
#[verifier::spinoff_prover]
fn infer_arguments(
    context: &AnalysisContext,
    arguments: &Vec<Expression>,
    n: usize,
    variables: &TypeMap,
) -> (result: Result<Vec<Expression>, AnalysisError>)
    requires
        aliases_acyclic(type_map_contents(*context.types())),
        n <= arguments.len(),
        forall|i: int| 0 <= i < arguments@.len() ==> inferable(#[trigger] arguments@[i]),
    ensures
        produced(view_seq_result(result)),
        inferred_arguments(
            *arguments,
            n as int,
            view_seq_result(result),
            type_map_contents(*variables),
            type_map_contents(*context.types()),
            record_map_contents(*context.records()),
        ),
        result matches Ok(v) ==> v@.len() == n && forall|i: int|
            0 <= i < v@.len() ==> if_types_complete(#[trigger] v@[i]),
    decreases arguments, n,
{
    proof {
        reveal(inferred_arguments);
    }
    if n == 0 {
        let empty: Vec<Expression> = Vec::new();
        proof {
            assert(empty@ =~= Seq::<Expression>::empty());
        }
        return Ok(empty);
    }
    let prefix_result = infer_arguments(context, arguments, n - 1, variables);
    proof {
        assert(inferred_arguments(
            *arguments,
            n as int - 1,
            view_seq_result(prefix_result),
            type_map_contents(*variables),
            type_map_contents(*context.types()),
            record_map_contents(*context.records()),
        ));
    }
    let mut prefix = prefix_result?;
    let x_result = infer_expression(context, &arguments[n - 1], variables);
    proof {
        assert(inferred(
            arguments@[n as int - 1],
            view_result(x_result),
            type_map_contents(*variables),
            type_map_contents(*context.types()),
            record_map_contents(*context.records()),
        ));
    }
    let x = x_result?;
    let ghost before = prefix@;
    prefix.push(x);
    proof {
        assert(prefix@ =~= before.push(x));
    }
    Ok(prefix)
}

/// The types of the first `n` expressions.
#[verifier::spinoff_prover]
fn extract_types(
    context: &AnalysisContext,
    expressions: &Vec<Expression>,
    n: usize,
    variables: &TypeMap,
) -> (result: Result<Vec<Type>, AnalysisError>)
    requires
        aliases_acyclic(type_map_contents(*context.types())),
        n <= expressions.len(),
        forall|i: int| 0 <= i < expressions@.len() ==> if_types_complete(#[trigger] expressions@[i]),
    ensures
        match result {
            Ok(types) => Ok(view_types(types@)),
            Err(error) => Err(error@),
        } == extracted_types(
            expressions@,
            n as int,
            type_map_contents(*variables),
            type_map_contents(*context.types()),
            record_map_contents(*context.records()),
        ),
    decreases n,
{
    if n == 0 {
        let empty: Vec<Type> = Vec::new();
        proof {
            assert(view_types(empty@) =~= Seq::<SpecType>::empty());
        }
        return Ok(empty);
    }
    let mut prefix = extract_types(context, expressions, n - 1, variables)?;
    let type_ = extract_from_expression(context, &expressions[n - 1], variables)?;
    let ghost before = prefix@;
    prefix.push(type_);
    proof {
        assert(prefix@.drop_last() =~= before);
        lemma_view_types(prefix@);
        lemma_view_types(before);
        assert(view_types(prefix@) =~= view_types(before).push(type_@));
    }
    Ok(prefix)
}

/// The type of a built-in function called with arguments of the given
/// types, at the given position.
#[verifier::spinoff_prover]
fn built_in_type(
    name: BuiltInFunctionName,
    argument_types: Vec<Type>,
    position: &Position,
    types: &TypeMap,
) -> (result: Result<Type, AnalysisError>)
    requires
        aliases_acyclic(type_map_contents(*types)),
    ensures
        match result {
            Ok(type_) => Ok(type_@),
            Err(error) => Err(error@),
        } == built_in_function_type(name, view_types(argument_types@), position@, type_map_contents(*types)),
{
    proof {
        lemma_view_types(argument_types@);
    }
    let any = || -> (t: Type)
        ensures
            t@ == (SpecType::Any { position: position@ }),
        { Type::Any { position: position.copy() } };
    match name {
        BuiltInFunctionName::Debug => {
            let arguments = vec![any()];
            proof {
                lemma_view_types(arguments@);
                assert(view_types(arguments@) =~= seq![SpecType::Any { position: position@ }]);
            }
            Ok(Type::function(arguments, Type::none(position.copy()), position.copy()))
        },
        BuiltInFunctionName::Delete | BuiltInFunctionName::Spawn => {
            if argument_types.len() == 0 {
                return Err(AnalysisError::ArgumentCount(position.copy()));
            }
            let result = clone_type(&argument_types[0]);
            Ok(Type::function(argument_types, result, position.copy()))
        },
        BuiltInFunctionName::Error => {
            let arguments = vec![any()];
            proof {
                lemma_view_types(arguments@);
                assert(view_types(arguments@) =~= seq![SpecType::Any { position: position@ }]);
            }
            Ok(Type::function(arguments, Type::error(position.copy()), position.copy()))
        },
        BuiltInFunctionName::Keys | BuiltInFunctionName::Values => {
            if argument_types.len() == 0 {
                return Err(AnalysisError::ArgumentCount(position.copy()));
            }
            let map = canonicalize(&argument_types[0], types)?;
            match map {
                Type::Mapping { key, value, .. } => {
                    let element = match name {
                        BuiltInFunctionName::Keys => *key,
                        _ => *value,
                    };
                    Ok(Type::function(argument_types, Type::list(element, position.copy()), position.copy()))
                },
                _ => Err(AnalysisError::MapExpected(position.copy(), clone_type(&argument_types[0]))),
            }
        },
        BuiltInFunctionName::Race => {
            if argument_types.len() == 0 {
                return Err(AnalysisError::ArgumentCount(position.copy()));
            }
            let list = canonicalize(&argument_types[0], types)?;
            match list {
                Type::List { element, .. } => Ok(Type::function(argument_types, *element, position.copy())),
                _ => Err(AnalysisError::ListExpected(position.copy(), clone_type(&argument_types[0]))),
            }
        },
        BuiltInFunctionName::ReflectDebug => {
            let arguments = vec![any()];
            proof {
                lemma_view_types(arguments@);
                assert(view_types(arguments@) =~= seq![SpecType::Any { position: position@ }]);
            }
            Ok(Type::function(arguments, Type::string(position.copy()), position.copy()))
        },
        BuiltInFunctionName::ReflectEqual => {
            let arguments = vec![any(), any()];
            proof {
                lemma_view_types(arguments@);
                assert(view_types(arguments@) =~= seq![
                    SpecType::Any { position: position@ },
                    SpecType::Any { position: position@ },
                ]);
            }
            Ok(
                Type::function(
                    arguments,
                    Type::union(Type::boolean(position.copy()), Type::none(position.copy()), position.copy()),
                    position.copy(),
                ),
            )
        },
        BuiltInFunctionName::Size => Ok(Type::function(argument_types, Type::number(position.copy()), position.copy())),
        BuiltInFunctionName::Source => {
            let arguments = vec![Type::error(position.copy())];
            proof {
                lemma_view_types(arguments@);
                assert(view_types(arguments@) =~= seq![SpecType::Error { position: position@ }]);
            }
            Ok(Type::function(arguments, Type::any(position.copy()), position.copy()))
        },
    }
}

/// Infers a call: of a built-in function, its arguments and its function
/// type; of another function, the function, its type and its arguments.
#[verifier::spinoff_prover]
fn infer_call(context: &AnalysisContext, expression: &Expression, variables: &TypeMap) -> (result:
    Result<Expression, AnalysisError>)
    requires
        aliases_acyclic(type_map_contents(*context.types())),
        inferable(*expression),
        expression is Call,
    ensures
        produced(view_result(result)),
        inferred_call(
            *expression,
            view_result(result),
            type_map_contents(*variables),
            type_map_contents(*context.types()),
            record_map_contents(*context.records()),
        ),
        result matches Ok(e) ==> if_types_complete(e),
    decreases expression, 2int,
{
    proof {
        reveal(inferred_call);
    }
    match expression {
        Expression::Call { function, arguments, position, .. } => match &**function {
            Expression::BuiltInFunction { name, position: function_position } => {
                let arguments = infer_arguments(context, arguments, arguments.len(), variables)?;
                let argument_types = extract_types(context, &arguments, arguments.len(), variables)?;
                let function_type = built_in_type(*name, argument_types, position, context.types())?;
                let built_in = Expression::BuiltInFunction { name: *name, position: function_position.copy() };
                proof {
                    assert(if_types_complete(built_in));
                }
                let call = Expression::Call {
                    function_type: Some(function_type),
                    function: Box::new(built_in),
                    arguments,
                    position: position.copy(),
                };
                proof {
                    assert(if_types_complete(call));
                }
                Ok(call)
            },
            _ => {
                let new_function = infer_expression(context, function, variables)?;
                let function_type = extract_from_expression(context, &new_function, variables)?;
                let arguments = infer_arguments(context, arguments, arguments.len(), variables)?;
                let call = Expression::Call {
                    function_type: Some(function_type),
                    function: Box::new(new_function),
                    arguments,
                    position: position.copy(),
                };
                proof {
                    assert(if_types_complete(call));
                }
                Ok(call)
            },
        },
        _ => Err(AnalysisError::TypeNotInferred(expression.position().copy())),
    }
}

/// Infers an if expression: its branches, then its condition.
#[verifier::spinoff_prover]
fn infer_if(context: &AnalysisContext, expression: &Expression, variables: &TypeMap) -> (result:
    Result<Expression, AnalysisError>)
    requires
        aliases_acyclic(type_map_contents(*context.types())),
        inferable(*expression),
        expression is If,
    ensures
        produced(view_result(result)),
        inferred_if(
            *expression,
            view_result(result),
            type_map_contents(*variables),
            type_map_contents(*context.types()),
            record_map_contents(*context.records()),
        ),
        result matches Ok(e) ==> if_types_complete(e),
    decreases expression, 2int,
{
    proof {
        reveal(inferred_if);
    }
    match expression {
        Expression::If { condition, then, else_, position } => {
            let then = infer_expression(context, then, variables)?;
            let else_ = infer_expression(context, else_, variables)?;
            let condition = infer_expression(context, condition, variables)?;
            Ok(
                Expression::If {
                    condition: Box::new(condition),
                    then: Box::new(then),
                    else_: Box::new(else_),
                    position: position.copy(),
                },
            )
        },
        _ => Err(AnalysisError::TypeNotInferred(expression.position().copy())),
    }
}

/// Infers an if-list expression: its list, its element type, then its
/// branches, the first element and the rest of the list bound in the first.
#[verifier::spinoff_prover]
fn infer_if_list(context: &AnalysisContext, expression: &Expression, variables: &TypeMap) -> (result:
    Result<Expression, AnalysisError>)
    requires
        aliases_acyclic(type_map_contents(*context.types())),
        inferable(*expression),
        expression is IfList,
    ensures
        produced(view_result(result)),
        inferred_if_list(
            *expression,
            view_result(result),
            type_map_contents(*variables),
            type_map_contents(*context.types()),
            record_map_contents(*context.records()),
        ),
        result matches Ok(e) ==> if_types_complete(e),
    decreases expression, 2int,
{
    proof {
        reveal(inferred_if_list);
    }
    match expression {
        Expression::IfList { list, first_name, rest_name, then, else_, position, .. } => {
            let new_list = infer_expression(context, list, variables)?;
            let list_type = extract_from_expression(context, &new_list, variables)?;
            let canonical_list = canonicalize(&list_type, context.types())?;
            let element = match &canonical_list {
                Type::List { element, .. } => clone_type(element),
                _ => {
                    return Err(AnalysisError::ListExpected(list.position().copy(), list_type));
                },
            };
            let mut scope = variables.duplicate();
            proof {
                assert(view_types(Seq::<Type>::empty()) =~= Seq::<SpecType>::empty());
            }
            scope.insert(
                first_name.clone(),
                Type::Function {
                    arguments: Vec::new(),
                    result: Box::new(clone_type(&element)),
                    position: position.copy(),
                },
            );
            scope.insert(rest_name.clone(), canonical_list);
            let then_result = infer_expression(context, then, &scope);
            proof {
                assert(inferred(
                    **then,
                    view_result(then_result),
                    type_map_contents(*variables).insert(
                        first_name@,
                        SpecType::Function {
                            arguments: Seq::empty(),
                            result: Box::new(element@),
                            position: position@,
                        },
                    ).insert(rest_name@, canonical(list_type@, type_map_contents(*context.types()))->Ok_0),
                    type_map_contents(*context.types()),
                    record_map_contents(*context.records()),
                ));
            }
            let new_then = then_result?;
            let new_else = infer_expression(context, else_, variables)?;
            Ok(
                Expression::IfList {
                    type_: Some(element),
                    list: Box::new(new_list),
                    first_name: first_name.clone(),
                    rest_name: rest_name.clone(),
                    then: Box::new(new_then),
                    else_: Box::new(new_else),
                    position: position.copy(),
                },
            )
        },
        _ => Err(AnalysisError::TypeNotInferred(expression.position().copy())),
    }
}

/// Infers an if-map expression: its map and key, its key and value types,
/// then its branches, the value bound in the first.
#[verifier::spinoff_prover]
fn infer_if_map(context: &AnalysisContext, expression: &Expression, variables: &TypeMap) -> (result:
    Result<Expression, AnalysisError>)
    requires
        aliases_acyclic(type_map_contents(*context.types())),
        inferable(*expression),
        expression is IfMap,
    ensures
        produced(view_result(result)),
        inferred_if_map(
            *expression,
            view_result(result),
            type_map_contents(*variables),
            type_map_contents(*context.types()),
            record_map_contents(*context.records()),
        ),
        result matches Ok(e) ==> if_types_complete(e),
    decreases expression, 2int,
{
    proof {
        reveal(inferred_if_map);
    }
    match expression {
        Expression::IfMap { name, map, key, then, else_, position, .. } => {
            let new_map = infer_expression(context, map, variables)?;
            let new_key = infer_expression(context, key, variables)?;
            let map_type = extract_from_expression(context, &new_map, variables)?;
            let canonical_map = canonicalize(&map_type, context.types())?;
            let (key_type, value_type) = match &canonical_map {
                Type::Mapping { key, value, .. } => (clone_type(key), clone_type(value)),
                _ => {
                    return Err(AnalysisError::MapExpected(map.position().copy(), map_type));
                },
            };
            let mut scope = variables.duplicate();
            scope.insert(name.clone(), clone_type(&value_type));
            let then_result = infer_expression(context, then, &scope);
            proof {
                assert(inferred(
                    **then,
                    view_result(then_result),
                    type_map_contents(*variables).insert(name@, value_type@),
                    type_map_contents(*context.types()),
                    record_map_contents(*context.records()),
                ));
            }
            let new_then = then_result?;
            let new_else = infer_expression(context, else_, variables)?;
            Ok(
                Expression::IfMap {
                    key_type: Some(key_type),
                    value_type: Some(value_type),
                    name: name.clone(),
                    map: Box::new(new_map),
                    key: Box::new(new_key),
                    then: Box::new(new_then),
                    else_: Box::new(new_else),
                    position: position.copy(),
                },
            )
        },
        _ => Err(AnalysisError::TypeNotInferred(expression.position().copy())),
    }
}

/// Infers an if-type expression: its argument, its branches, and its else
/// branch with the type that the branches leave.
#[verifier::spinoff_prover]
fn infer_if_type(context: &AnalysisContext, expression: &Expression, variables: &TypeMap) -> (result:
    Result<Expression, AnalysisError>)
    requires
        aliases_acyclic(type_map_contents(*context.types())),
        inferable(*expression),
        expression is IfType,
    ensures
        produced(view_result(result)),
        inferred_if_type(
            *expression,
            view_result(result),
            type_map_contents(*variables),
            type_map_contents(*context.types()),
            record_map_contents(*context.records()),
        ),
        result matches Ok(e) ==> if_types_complete(e),
    decreases expression, 2int,
{
    proof {
        reveal(inferred_if_type);
    }
    match expression {
        Expression::IfType { name, argument, branches, else_, position } => {
            let new_argument = infer_expression(context, argument, variables)?;
            let new_branches = infer_if_branches(context, branches, branches.len(), name, variables)?;
            let branch_types = crate::type_checker::branch_types(branches);
            proof {
                lemma_view_types(branch_types@);
            }
            let else_result = infer_else(
                context,
                else_,
                name,
                &new_argument,
                &branch_types,
                position,
                variables,
            );
            proof {
                assert(inferred_else(
                    *else_,
                    view_outcome(else_result),
                    name@,
                    new_argument,
                    union_of(
                        branches@.map_values(|branch: IfTypeBranch<Expression>| branch.type_@),
                        position@,
                    ),
                    type_map_contents(*variables),
                    type_map_contents(*context.types()),
                    record_map_contents(*context.records()),
                ));
            }
            let new_else = else_result?;
            Ok(
                Expression::IfType {
                    name: name.clone(),
                    argument: Box::new(new_argument),
                    branches: new_branches,
                    else_: new_else,
                    position: position.copy(),
                },
            )
        },
        _ => Err(AnalysisError::TypeNotInferred(expression.position().copy())),
    }
}

/// Infers the first `n` branches of an if-type expression.
#[verifier::spinoff_prover]
fn infer_if_branches(
    context: &AnalysisContext,
    branches: &Vec<IfTypeBranch<Expression>>,
    n: usize,
    name: &String,
    variables: &TypeMap,
) -> (result: Result<Vec<IfTypeBranch<Expression>>, AnalysisError>)
    requires
        aliases_acyclic(type_map_contents(*context.types())),
        n <= branches.len(),
        forall|i: int| 0 <= i < branches@.len() ==> inferable(#[trigger] branches@[i].expression),
    ensures
        produced(view_seq_result(result)),
        inferred_if_branches(
            *branches,
            n as int,
            view_seq_result(result),
            name@,
            type_map_contents(*variables),
            type_map_contents(*context.types()),
            record_map_contents(*context.records()),
        ),
        result matches Ok(v) ==> v@.len() == n && forall|i: int|
            0 <= i < v@.len() ==> if_types_complete(#[trigger] v@[i].expression),
    decreases branches, n,
{
    proof {
        reveal(inferred_if_branches);
    }
    if n == 0 {
        let empty: Vec<IfTypeBranch<Expression>> = Vec::new();
        proof {
            assert(empty@ =~= Seq::<IfTypeBranch<Expression>>::empty());
        }
        return Ok(empty);
    }
    let prefix_result = infer_if_branches(context, branches, n - 1, name, variables);
    proof {
        assert(inferred_if_branches(
            *branches,
            n as int - 1,
            view_seq_result(prefix_result),
            name@,
            type_map_contents(*variables),
            type_map_contents(*context.types()),
            record_map_contents(*context.records()),
        ));
    }
    let mut prefix = prefix_result?;
    let branch = &branches[n - 1];
    let mut scope = variables.duplicate();
    scope.insert(name.clone(), clone_type(&branch.type_));
    let x_result = infer_expression(context, &branch.expression, &scope);
    proof {
        assert(inferred(
            branches@[n as int - 1].expression,
            view_result(x_result),
            type_map_contents(*variables).insert(name@, branches@[n as int - 1].type_@),
            type_map_contents(*context.types()),
            record_map_contents(*context.records()),
        ));
    }
    let x = x_result?;
    let ghost before = prefix@;
    prefix.push(IfTypeBranch { type_: clone_type(&branch.type_), expression: x });
    proof {
        assert(prefix@.drop_last() =~= before);
    }
    Ok(prefix)
}

/// Infers the else branch of an if-type expression, if any: its type is
/// what the branches leave of the inferred argument's type.
#[verifier::spinoff_prover]
fn infer_else(
    context: &AnalysisContext,
    else_: &Option<Box<ElseBranch<Expression>>>,
    name: &String,
    argument: &Expression,
    branch_types: &Vec<Type>,
    position: &Position,
    variables: &TypeMap,
) -> (result: Result<Option<Box<ElseBranch<Expression>>>, AnalysisError>)
    requires
        aliases_acyclic(type_map_contents(*context.types())),
        if_types_complete(*argument),
        match *else_ {
            Some(branch) => inferable(branch.expression) && branch_types@.len() > 0,
            None => true,
        },
    ensures
        produced(view_outcome(result)),
        inferred_else(
            *else_,
            view_outcome(result),
            name@,
            *argument,
            union_of(view_types(branch_types@), position@),
            type_map_contents(*variables),
            type_map_contents(*context.types()),
            record_map_contents(*context.records()),
        ),
        result matches Ok(o) ==> (o is Some <==> else_ is Some) && match o {
            Some(branch) => if_types_complete(branch.expression),
            None => true,
        },
    decreases else_, 0int,
{
    proof {
        reveal(inferred_else);
    }
    match else_ {
        None => Ok(None),
        Some(branch) => {
            let argument_type = extract_from_expression(context, argument, variables)?;
            let union = create_union(branch_types, position);
            proof {
                lemma_view_types(branch_types@);
            }
            let union = match union {
                Some(union) => union,
                None => {
                    return Err(AnalysisError::UnreachableCode(branch.position.copy()));
                },
            };
            let rest = match calculate_difference(&argument_type, &union, context.types())? {
                Some(rest) => rest,
                None => {
                    return Err(AnalysisError::UnreachableCode(branch.position.copy()));
                },
            };
            let mut scope = variables.duplicate();
            scope.insert(name.clone(), clone_type(&rest));
            let x_result = infer_expression(context, &branch.expression, &scope);
            proof {
                assert(inferred(
                    branch.expression,
                    view_result(x_result),
                    type_map_contents(*variables).insert(name@, rest@),
                    type_map_contents(*context.types()),
                    record_map_contents(*context.records()),
                ));
            }
            let x = x_result?;
            Ok(
                Some(
                    Box::new(
                        ElseBranch { type_: Some(rest), expression: x, position: branch.position.copy() },
                    ),
                ),
            )
        },
    }
}

/// Infers a let expression: its bound expression and its type, then its
/// body with the name bound to that type.
#[verifier::spinoff_prover]
fn infer_let(context: &AnalysisContext, expression: &Expression, variables: &TypeMap) -> (result:
    Result<Expression, AnalysisError>)
    requires
        aliases_acyclic(type_map_contents(*context.types())),
        inferable(*expression),
        expression is Let,
    ensures
        produced(view_result(result)),
        inferred_let(
            *expression,
            view_result(result),
            type_map_contents(*variables),
            type_map_contents(*context.types()),
            record_map_contents(*context.records()),
        ),
        result matches Ok(e) ==> if_types_complete(e),
    decreases expression, 2int,
{
    proof {
        reveal(inferred_let);
    }
    match expression {
        Expression::Let { name, bound_expression, expression: body, position, .. } => {
            let bound = infer_expression(context, bound_expression, variables)?;
            let bound_type = extract_from_expression(context, &bound, variables)?;
            let new_body = match name {
                Some(name) => {
                    let mut scope = variables.duplicate();
                    scope.insert(name.clone(), clone_type(&bound_type));
                    let body_result = infer_expression(context, body, &scope);
                    proof {
                        assert(inferred(
                            **body,
                            view_result(body_result),
                            type_map_contents(*variables).insert(name@, bound_type@),
                            type_map_contents(*context.types()),
                            record_map_contents(*context.records()),
                        ));
                    }
                    body_result?
                },
                None => infer_expression(context, body, variables)?,
            };
            Ok(
                Expression::Let {
                    name: match name {
                        Some(name) => Some(name.clone()),
                        None => None,
                    },
                    type_: Some(bound_type),
                    bound_expression: Box::new(bound),
                    expression: Box::new(new_body),
                    position: position.copy(),
                },
            )
        },
        _ => Err(AnalysisError::TypeNotInferred(expression.position().copy())),
    }
}

/// Infers the first `n` elements of a list literal.
#[verifier::spinoff_prover]
fn infer_list_elements(
    context: &AnalysisContext,
    elements: &Vec<ListElement<Expression>>,
    n: usize,
    variables: &TypeMap,
) -> (result: Result<Vec<ListElement<Expression>>, AnalysisError>)
    requires
        aliases_acyclic(type_map_contents(*context.types())),
        n <= elements.len(),
        forall|i: int|
            0 <= i < elements@.len() ==> match #[trigger] elements@[i] {
                ListElement::Multiple(x) => inferable(x),
                ListElement::Single(x) => inferable(x),
            },
    ensures
        produced(view_seq_result(result)),
        inferred_list_elements(
            *elements,
            n as int,
            view_seq_result(result),
            type_map_contents(*variables),
            type_map_contents(*context.types()),
            record_map_contents(*context.records()),
        ),
        result matches Ok(v) ==> v@.len() == n && forall|i: int|
            0 <= i < v@.len() ==> match #[trigger] v@[i] {
                ListElement::Multiple(x) => if_types_complete(x),
                ListElement::Single(x) => if_types_complete(x),
            },
    decreases elements, n,
{
    proof {
        reveal(inferred_list_elements);
    }
    if n == 0 {
        let empty: Vec<ListElement<Expression>> = Vec::new();
        proof {
            assert(empty@ =~= Seq::<ListElement<Expression>>::empty());
        }
        return Ok(empty);
    }
    let prefix_result = infer_list_elements(context, elements, n - 1, variables);
    proof {
        assert(inferred_list_elements(
            *elements,
            n as int - 1,
            view_seq_result(prefix_result),
            type_map_contents(*variables),
            type_map_contents(*context.types()),
            record_map_contents(*context.records()),
        ));
    }
    let mut prefix = prefix_result?;
    let ghost before = prefix@;
    match &elements[n - 1] {
        ListElement::Multiple(e) => {
            let x = infer_expression(context, e, variables)?;
            prefix.push(ListElement::Multiple(x));
        },
        ListElement::Single(e) => {
            let x = infer_expression(context, e, variables)?;
            prefix.push(ListElement::Single(x));
        },
    }
    proof {
        assert(prefix@ =~= before.push(prefix@.last()));
    }
    Ok(prefix)
}

/// Infers the first `n` elements of a map literal.
#[verifier::spinoff_prover]
fn infer_map_elements(
    context: &AnalysisContext,
    elements: &Vec<MapElement<Expression>>,
    n: usize,
    variables: &TypeMap,
) -> (result: Result<Vec<MapElement<Expression>>, AnalysisError>)
    requires
        aliases_acyclic(type_map_contents(*context.types())),
        n <= elements.len(),
        forall|i: int|
            0 <= i < elements@.len() ==> match #[trigger] elements@[i] {
                MapElement::Single(entry) => inferable(entry.key) && inferable(entry.value),
                MapElement::Multiple(x) => inferable(x),
            },
    ensures
        produced(view_seq_result(result)),
        inferred_map_elements(
            *elements,
            n as int,
            view_seq_result(result),
            type_map_contents(*variables),
            type_map_contents(*context.types()),
            record_map_contents(*context.records()),
        ),
        result matches Ok(v) ==> v@.len() == n && forall|i: int|
            0 <= i < v@.len() ==> match #[trigger] v@[i] {
                MapElement::Single(entry) => if_types_complete(entry.key) && if_types_complete(
                    entry.value,
                ),
                MapElement::Multiple(x) => if_types_complete(x),
            },
    decreases elements, n,
{
    proof {
        reveal(inferred_map_elements);
    }
    if n == 0 {
        let empty: Vec<MapElement<Expression>> = Vec::new();
        proof {
            assert(empty@ =~= Seq::<MapElement<Expression>>::empty());
        }
        return Ok(empty);
    }
    let prefix_result = infer_map_elements(context, elements, n - 1, variables);
    proof {
        assert(inferred_map_elements(
            *elements,
            n as int - 1,
            view_seq_result(prefix_result),
            type_map_contents(*variables),
            type_map_contents(*context.types()),
            record_map_contents(*context.records()),
        ));
    }
    let mut prefix = prefix_result?;
    let ghost before = prefix@;
    match &elements[n - 1] {
        MapElement::Single(entry) => {
            let key = infer_expression(context, &entry.key, variables)?;
            let value = infer_expression(context, &entry.value, variables)?;
            prefix.push(MapElement::Single(MapEntry { key, value, position: entry.position.copy() }));
        },
        MapElement::Multiple(e) => {
            let x = infer_expression(context, e, variables)?;
            prefix.push(MapElement::Multiple(x));
        },
    }
    proof {
        assert(prefix@.drop_last() =~= before);
        assert(prefix@ =~= before.push(prefix@.last()));
    }
    Ok(prefix)
}

/// Infers a list comprehension: its branches in turn, then its element
/// with the names of all branches bound.
#[verifier::spinoff_prover]
fn infer_list_comprehension(
    context: &AnalysisContext,
    expression: &Expression,
    variables: &TypeMap,
) -> (result: Result<Expression, AnalysisError>)
    requires
        aliases_acyclic(type_map_contents(*context.types())),
        inferable(*expression),
        expression is ListComprehension,
    ensures
        produced(view_result(result)),
        inferred_list_comprehension(
            *expression,
            view_result(result),
            type_map_contents(*variables),
            type_map_contents(*context.types()),
            record_map_contents(*context.records()),
        ),
        result matches Ok(e) ==> if_types_complete(e),
    decreases expression, 2int,
{
    proof {
        reveal(inferred_list_comprehension);
    }
    match expression {
        Expression::ListComprehension { type_, element, branches, position } => {
            let (new_branches, scope) = infer_comprehension_branches(
                context,
                branches,
                branches.len(),
                variables,
                position,
            )?;
            let element_result = infer_expression(context, element, &scope);
            proof {
                assert(inferred(
                    **element,
                    view_result(element_result),
                    type_map_contents(scope),
                    type_map_contents(*context.types()),
                    record_map_contents(*context.records()),
                ));
            }
            let new_element = element_result?;
            Ok(
                Expression::ListComprehension {
                    type_: clone_type(type_),
                    element: Box::new(new_element),
                    branches: new_branches,
                    position: position.copy(),
                },
            )
        },
        _ => Err(AnalysisError::TypeNotInferred(expression.position().copy())),
    }
}

/// Infers the first `n` branches of a list comprehension; the variables in
/// scope after them.
#[verifier::spinoff_prover]
fn infer_comprehension_branches(
    context: &AnalysisContext,
    branches: &Vec<ListComprehensionBranch<Expression>>,
    n: usize,
    variables: &TypeMap,
    position: &Position,
) -> (result: Result<(Vec<ListComprehensionBranch<Expression>>, TypeMap), AnalysisError>)
    requires
        aliases_acyclic(type_map_contents(*context.types())),
        n <= branches.len(),
        forall|i: int|
            0 <= i < branches@.len() ==> (forall|j: int|
                0 <= j < branches@[i].iteratees@.len() ==> inferable(
                    #[trigger] branches@[i].iteratees@[j].expression,
                )) && match #[trigger] branches@[i].condition {
                Some(condition) => inferable(condition),
                None => true,
            },
    ensures
        produced(view_branches_result(result)),
        inferred_comprehension_branches(
            *branches,
            n as int,
            view_branches_result(result),
            type_map_contents(*variables),
            position@,
            type_map_contents(*context.types()),
            record_map_contents(*context.records()),
        ),
        result matches Ok((v, m)) ==> v@.len() == n && forall|i: int|
            0 <= i < v@.len() ==> (forall|j: int|
                0 <= j < v@[i].iteratees@.len() ==> if_types_complete(
                    #[trigger] v@[i].iteratees@[j].expression,
                )) && match #[trigger] v@[i].condition {
                Some(condition) => if_types_complete(condition),
                None => true,
            },
    decreases branches, n,
{
    proof {
        reveal(inferred_comprehension_branches);
    }
    if n == 0 {
        let empty: Vec<ListComprehensionBranch<Expression>> = Vec::new();
        proof {
            assert(empty@ =~= Seq::<ListComprehensionBranch<Expression>>::empty());
        }
        return Ok((empty, variables.duplicate()));
    }
    let prefix_result = infer_comprehension_branches(context, branches, n - 1, variables, position);
    proof {
        assert(inferred_comprehension_branches(
            *branches,
            n as int - 1,
            view_branches_result(prefix_result),
            type_map_contents(*variables),
            position@,
            type_map_contents(*context.types()),
            record_map_contents(*context.records()),
        ));
    }
    let (mut prefix, scope) = prefix_result?;
    let branch = &branches[n - 1];
    let iteratees_result = infer_iteratees(context, &branch.iteratees, branch.iteratees.len(), &scope);
    proof {
        assert(inferred_iteratees(
            branches@[n as int - 1].iteratees,
            branches@[n as int - 1].iteratees@.len() as int,
            view_seq_result(iteratees_result),
            type_map_contents(scope),
            type_map_contents(*context.types()),
            record_map_contents(*context.records()),
        ));
    }
    let iteratees = iteratees_result?;
    let k = if branch.names.len() < iteratees.len() {
        branch.names.len()
    } else {
        iteratees.len()
    };
    let bound = bind_names(&branch.names, &iteratees, k, &scope, position, context.types())?;
    let condition_result = infer_condition(context, &branch.condition, &bound);
    proof {
        assert(inferred_condition(
            branches@[n as int - 1].condition,
            view_outcome(condition_result),
            type_map_contents(bound),
            type_map_contents(*context.types()),
            record_map_contents(*context.records()),
        ));
    }
    let condition = condition_result?;
    let ghost before = prefix@;
    prefix.push(
        ListComprehensionBranch {
            names: copy_strings(&branch.names),
            iteratees,
            condition,
            position: branch.position.copy(),
        },
    );
    proof {
        assert(prefix@.drop_last() =~= before);
    }
    Ok((prefix, bound))
}

/// Infers the first `n` iteratees of a list comprehension branch and their
/// types.
#[verifier::spinoff_prover]
fn infer_iteratees(
    context: &AnalysisContext,
    iteratees: &Vec<ListComprehensionIteratee<Expression>>,
    n: usize,
    variables: &TypeMap,
) -> (result: Result<Vec<ListComprehensionIteratee<Expression>>, AnalysisError>)
    requires
        aliases_acyclic(type_map_contents(*context.types())),
        n <= iteratees.len(),
        forall|j: int| 0 <= j < iteratees@.len() ==> inferable(#[trigger] iteratees@[j].expression),
    ensures
        produced(view_seq_result(result)),
        inferred_iteratees(
            *iteratees,
            n as int,
            view_seq_result(result),
            type_map_contents(*variables),
            type_map_contents(*context.types()),
            record_map_contents(*context.records()),
        ),
        result matches Ok(v) ==> v@.len() == n && forall|j: int|
            0 <= j < v@.len() ==> if_types_complete(#[trigger] v@[j].expression),
    decreases iteratees, n,
{
    proof {
        reveal(inferred_iteratees);
    }
    if n == 0 {
        let empty: Vec<ListComprehensionIteratee<Expression>> = Vec::new();
        proof {
            assert(empty@ =~= Seq::<ListComprehensionIteratee<Expression>>::empty());
        }
        return Ok(empty);
    }
    let prefix_result = infer_iteratees(context, iteratees, n - 1, variables);
    proof {
        assert(inferred_iteratees(
            *iteratees,
            n as int - 1,
            view_seq_result(prefix_result),
            type_map_contents(*variables),
            type_map_contents(*context.types()),
            record_map_contents(*context.records()),
        ));
    }
    let mut prefix = prefix_result?;
    let iteratee = &iteratees[n - 1];
    let x_result = infer_expression(context, &iteratee.expression, variables);
    proof {
        assert(inferred(
            iteratees@[n as int - 1].expression,
            view_result(x_result),
            type_map_contents(*variables),
            type_map_contents(*context.types()),
            record_map_contents(*context.records()),
        ));
    }
    let x = x_result?;
    let type_ = extract_from_expression(context, &x, variables)?;
    let ghost before = prefix@;
    prefix.push(ListComprehensionIteratee { type_: Some(type_), expression: x, position: iteratee.position.copy() });
    proof {
        assert(prefix@.drop_last() =~= before);
    }
    Ok(prefix)
}

/// Binds the first `k` names of a list comprehension branch for its
/// inferred iteratees.
#[verifier::spinoff_prover]
fn bind_names(
    names: &Vec<String>,
    iteratees: &Vec<ListComprehensionIteratee<Expression>>,
    k: usize,
    variables: &TypeMap,
    position: &Position,
    types: &TypeMap,
) -> (result: Result<TypeMap, AnalysisError>)
    requires
        aliases_acyclic(type_map_contents(*types)),
        k <= names.len(),
        k <= iteratees.len(),
    ensures
        match result {
            Ok(scope) => Ok(type_map_contents(scope)),
            Err(error) => Err(error@),
        } == iteratee_scope(
            names@,
            iteratees@,
            k as int,
            type_map_contents(*variables),
            position@,
            type_map_contents(*types),
        ),
    decreases k,
{
    if k == 0 {
        return Ok(variables.duplicate());
    }
    let mut scope = bind_names(names, iteratees, k - 1, variables, position, types)?;
    let type_ = match &iteratees[k - 1].type_ {
        Some(type_) => type_,
        None => {
            return Err(AnalysisError::TypeNotInferred(position.copy()));
        },
    };
    let collection = canonicalize(type_, types)?;
    let binding = match collection {
        Type::List { element, .. } => {
            proof {
                assert(view_types(Seq::<Type>::empty()) =~= Seq::<SpecType>::empty());
            }
            Type::Function { arguments: Vec::new(), result: element, position: position.copy() }
        },
        Type::Mapping { key, .. } => *key,
        _ => {
            return Err(AnalysisError::CollectionExpected(position.copy(), clone_type(type_)));
        },
    };
    scope.insert(names[k - 1].clone(), binding);
    Ok(scope)
}

/// Infers the condition of a list comprehension branch, if any.
#[verifier::spinoff_prover]
fn infer_condition(context: &AnalysisContext, condition: &Option<Expression>, variables: &TypeMap) -> (result:
    Result<Option<Expression>, AnalysisError>)
    requires
        aliases_acyclic(type_map_contents(*context.types())),
        match *condition {
            Some(condition) => inferable(condition),
            None => true,
        },
    ensures
        produced(view_outcome(result)),
        inferred_condition(
            *condition,
            view_outcome(result),
            type_map_contents(*variables),
            type_map_contents(*context.types()),
            record_map_contents(*context.records()),
        ),
        result matches Ok(o) ==> match o {
            Some(condition) => if_types_complete(condition),
            None => true,
        },
    decreases condition, 0int,
{
    proof {
        reveal(inferred_condition);
    }
    match condition {
        None => Ok(None),
        Some(condition) => {
            let x = infer_expression(context, condition, variables)?;
            Ok(Some(x))
        },
    }
}

/// Infers an operation: its operands, and the types that additions,
/// equalities and try operations take from them.
#[verifier::spinoff_prover]
fn infer_operation(context: &AnalysisContext, expression: &Expression, variables: &TypeMap) -> (result:
    Result<Expression, AnalysisError>)
    requires
        aliases_acyclic(type_map_contents(*context.types())),
        inferable(*expression),
        expression is Operation,
    ensures
        produced(view_result(result)),
        inferred_operation(
            *expression,
            view_result(result),
            type_map_contents(*variables),
            type_map_contents(*context.types()),
            record_map_contents(*context.records()),
        ),
        result matches Ok(e) ==> if_types_complete(e),
    decreases expression, 2int,
{
    proof {
        reveal(inferred_operation);
    }
    match expression {
        Expression::Operation(operation) => match operation {
            Operation::Addition { lhs, rhs, position, .. } => {
                let l = infer_expression(context, lhs, variables)?;
                let lhs_type = extract_from_expression(context, &l, variables)?;
                let operand_type = canonicalize(&lhs_type, context.types())?;
                let r = infer_expression(context, rhs, variables)?;
                Ok(
                    Expression::Operation(
                        Operation::Addition {
                            type_: Some(operand_type),
                            lhs: Box::new(l),
                            rhs: Box::new(r),
                            position: position.copy(),
                        },
                    ),
                )
            },
            Operation::Arithmetic { operator, lhs, rhs, position } => {
                let l = infer_expression(context, lhs, variables)?;
                let r = infer_expression(context, rhs, variables)?;
                Ok(
                    Expression::Operation(
                        Operation::Arithmetic {
                            operator: *operator,
                            lhs: Box::new(l),
                            rhs: Box::new(r),
                            position: position.copy(),
                        },
                    ),
                )
            },
            Operation::Boolean { operator, lhs, rhs, position } => {
                let l = infer_expression(context, lhs, variables)?;
                let r = infer_expression(context, rhs, variables)?;
                Ok(
                    Expression::Operation(
                        Operation::Boolean {
                            operator: *operator,
                            lhs: Box::new(l),
                            rhs: Box::new(r),
                            position: position.copy(),
                        },
                    ),
                )
            },
            Operation::Equality { operator, lhs, rhs, position, .. } => {
                let l = infer_expression(context, lhs, variables)?;
                let r = infer_expression(context, rhs, variables)?;
                let lhs_type = extract_from_expression(context, &l, variables)?;
                let rhs_type = extract_from_expression(context, &r, variables)?;
                Ok(
                    Expression::Operation(
                        Operation::Equality {
                            type_: Some(Type::union(lhs_type, rhs_type, position.copy())),
                            operator: *operator,
                            lhs: Box::new(l),
                            rhs: Box::new(r),
                            position: position.copy(),
                        },
                    ),
                )
            },
            Operation::Not { expression: operand, position } => {
                let x = infer_expression(context, operand, variables)?;
                Ok(
                    Expression::Operation(
                        Operation::Not { expression: Box::new(x), position: position.copy() },
                    ),
                )
            },
            Operation::Order { operator, lhs, rhs, position } => {
                let l = infer_expression(context, lhs, variables)?;
                let r = infer_expression(context, rhs, variables)?;
                Ok(
                    Expression::Operation(
                        Operation::Order {
                            operator: *operator,
                            lhs: Box::new(l),
                            rhs: Box::new(r),
                            position: position.copy(),
                        },
                    ),
                )
            },
            Operation::Try { expression: operand, position, .. } => {
                let x = infer_expression(context, operand, variables)?;
                let operand_type = extract_from_expression(context, &x, variables)?;
                let rest = calculate_difference(
                    &operand_type,
                    &Type::error(position.copy()),
                    context.types(),
                )?;
                let success_type = match rest {
                    Some(rest) => if rest.is_any() {
                        return Err(AnalysisError::UnionExpected(position.copy(), rest));
                    } else {
                        rest
                    },
                    None => {
                        return Err(AnalysisError::UnionExpected(position.copy(), operand_type));
                    },
                };
                Ok(
                    Expression::Operation(
                        Operation::Try {
                            type_: Some(success_type),
                            expression: Box::new(x),
                            position: position.copy(),
                        },
                    ),
                )
            },
        },
        _ => Err(AnalysisError::TypeNotInferred(expression.position().copy())),
    }
}

/// Infers a record deconstruction: its record and the record's type.
#[verifier::spinoff_prover]
fn infer_record_deconstruction(
    context: &AnalysisContext,
    expression: &Expression,
    variables: &TypeMap,
) -> (result: Result<Expression, AnalysisError>)
    requires
        aliases_acyclic(type_map_contents(*context.types())),
        inferable(*expression),
        expression is RecordDeconstruction,
    ensures
        produced(view_result(result)),
        inferred_record_deconstruction(
            *expression,
            view_result(result),
            type_map_contents(*variables),
            type_map_contents(*context.types()),
            record_map_contents(*context.records()),
        ),
        result matches Ok(e) ==> if_types_complete(e),
    decreases expression, 2int,
{
    proof {
        reveal(inferred_record_deconstruction);
    }
    match expression {
        Expression::RecordDeconstruction { record, field_name, position, .. } => {
            let new_record = infer_expression(context, record, variables)?;
            let record_type = extract_from_expression(context, &new_record, variables)?;
            Ok(
                Expression::RecordDeconstruction {
                    type_: Some(record_type),
                    record: Box::new(new_record),
                    field_name: field_name.clone(),
                    position: position.copy(),
                },
            )
        },
        _ => Err(AnalysisError::TypeNotInferred(expression.position().copy())),
    }
}

/// Infers a record update: its record, then its fields.
#[verifier::spinoff_prover]
fn infer_record_update(context: &AnalysisContext, expression: &Expression, variables: &TypeMap) -> (result:
    Result<Expression, AnalysisError>)
    requires
        aliases_acyclic(type_map_contents(*context.types())),
        inferable(*expression),
        expression is RecordUpdate,
    ensures
        produced(view_result(result)),
        inferred_record_update(
            *expression,
            view_result(result),
            type_map_contents(*variables),
            type_map_contents(*context.types()),
            record_map_contents(*context.records()),
        ),
        result matches Ok(e) ==> if_types_complete(e),
    decreases expression, 2int,
{
    proof {
        reveal(inferred_record_update);
    }
    match expression {
        Expression::RecordUpdate { type_, record, fields, position } => {
            let new_record = infer_expression(context, record, variables)?;
            let new_fields = infer_fields(context, fields, fields.len(), variables)?;
            Ok(
                Expression::RecordUpdate {
                    type_: clone_type(type_),
                    record: Box::new(new_record),
                    fields: new_fields,
                    position: position.copy(),
                },
            )
        },
        _ => Err(AnalysisError::TypeNotInferred(expression.position().copy())),
    }
}

/// Infers the first `n` fields of a record construction or update.
#[verifier::spinoff_prover]
fn infer_fields(
    context: &AnalysisContext,
    fields: &Vec<RecordFieldValue<Expression>>,
    n: usize,
    variables: &TypeMap,
) -> (result: Result<Vec<RecordFieldValue<Expression>>, AnalysisError>)
    requires
        aliases_acyclic(type_map_contents(*context.types())),
        n <= fields.len(),
        forall|i: int| 0 <= i < fields@.len() ==> inferable(#[trigger] fields@[i].expression),
    ensures
        produced(view_seq_result(result)),
        inferred_fields(
            *fields,
            n as int,
            view_seq_result(result),
            type_map_contents(*variables),
            type_map_contents(*context.types()),
            record_map_contents(*context.records()),
        ),
        result matches Ok(v) ==> v@.len() == n && forall|i: int|
            0 <= i < v@.len() ==> if_types_complete(#[trigger] v@[i].expression),
    decreases fields, n,
{
    proof {
        reveal(inferred_fields);
    }
    if n == 0 {
        let empty: Vec<RecordFieldValue<Expression>> = Vec::new();
        proof {
            assert(empty@ =~= Seq::<RecordFieldValue<Expression>>::empty());
        }
        return Ok(empty);
    }
    let prefix_result = infer_fields(context, fields, n - 1, variables);
    proof {
        assert(inferred_fields(
            *fields,
            n as int - 1,
            view_seq_result(prefix_result),
            type_map_contents(*variables),
            type_map_contents(*context.types()),
            record_map_contents(*context.records()),
        ));
    }
    let mut prefix = prefix_result?;
    let field = &fields[n - 1];
    let x_result = infer_expression(context, &field.expression, variables);
    proof {
        assert(inferred(
            fields@[n as int - 1].expression,
            view_result(x_result),
            type_map_contents(*variables),
            type_map_contents(*context.types()),
            record_map_contents(*context.records()),
        ));
    }
    let x = x_result?;
    let ghost before = prefix@;
    prefix.push(RecordFieldValue { name: field.name.clone(), expression: x, position: field.position.copy() });
    proof {
        assert(prefix@.drop_last() =~= before);
    }
    Ok(prefix)
}

/// Infers a thunk: its type from its body as it stands, then its body.
#[verifier::spinoff_prover]
fn infer_thunk(context: &AnalysisContext, expression: &Expression, variables: &TypeMap) -> (result:
    Result<Expression, AnalysisError>)
    requires
        aliases_acyclic(type_map_contents(*context.types())),
        inferable(*expression),
        expression is Thunk,
    ensures
        produced(view_result(result)),
        inferred_thunk(
            *expression,
            view_result(result),
            type_map_contents(*variables),
            type_map_contents(*context.types()),
            record_map_contents(*context.records()),
        ),
        result matches Ok(e) ==> if_types_complete(e),
    decreases expression, 2int,
{
    proof {
        reveal(inferred_thunk);
    }
    match expression {
        Expression::Thunk { expression: body, position, .. } => {
            let body_type = extract_from_expression(context, body, variables)?;
            let new_body = infer_expression(context, body, variables)?;
            Ok(
                Expression::Thunk {
                    type_: Some(body_type),
                    expression: Box::new(new_body),
                    position: position.copy(),
                },
            )
        },
        _ => Err(AnalysisError::TypeNotInferred(expression.position().copy())),
    }
}

/// Infers the lambdas of the first `n` function definitions.
#[verifier::spinoff_prover]
fn infer_definitions(
    context: &AnalysisContext,
    definitions: &Vec<FunctionDefinition>,
    n: usize,
    variables: &TypeMap,
) -> (result: Result<Vec<FunctionDefinition>, AnalysisError>)
    requires
        aliases_acyclic(type_map_contents(*context.types())),
        n <= definitions.len(),
        forall|i: int|
            0 <= i < definitions@.len() ==> inferable(*(#[trigger] definitions@[i]).lambda.body),
    ensures
        produced(view_seq_result(result)),
        inferred_definitions(
            definitions@,
            n as int,
            view_seq_result(result),
            type_map_contents(*variables),
            type_map_contents(*context.types()),
            record_map_contents(*context.records()),
        ),
        result matches Ok(v) ==> forall|i: int|
            0 <= i < v@.len() ==> if_types_complete(*(#[trigger] v@[i]).lambda.body),
    decreases n,
{
    proof {
        reveal(inferred_definitions);
    }
    if n == 0 {
        let empty: Vec<FunctionDefinition> = Vec::new();
        proof {
            assert(empty@ =~= Seq::<FunctionDefinition>::empty());
        }
        return Ok(empty);
    }
    let prefix_result = infer_definitions(context, definitions, n - 1, variables);
    proof {
        assert(inferred_definitions(
            definitions@,
            n as int - 1,
            view_seq_result(prefix_result),
            type_map_contents(*variables),
            type_map_contents(*context.types()),
            record_map_contents(*context.records()),
        ));
    }
    let mut prefix = prefix_result?;
    let definition = &definitions[n - 1];
    let lambda_result = infer_lambda(context, &definition.lambda, variables);
    proof {
        assert(inferred_lambda(
            definitions@[n as int - 1].lambda,
            view_lambda_result(lambda_result),
            type_map_contents(*variables),
            type_map_contents(*context.types()),
            record_map_contents(*context.records()),
        ));
    }
    let lambda = lambda_result?;
    let ghost before = prefix@;
    prefix.push(
        FunctionDefinition {
            name: definition.name.clone(),
            original_name: definition.original_name.clone(),
            lambda,
            foreign_definition_configuration: definition.foreign_definition_configuration,
            is_public: definition.is_public,
            position: definition.position.copy(),
        },
    );
    proof {
        assert(prefix@.drop_last() =~= before);
    }
    Ok(prefix)
}

/// Every function definition of a module has a body whose types can be
/// inferred.
pub open spec fn module_inferable(module: Module) -> bool {
    forall|i: int|
        0 <= i < module.function_definitions@.len() ==> inferable(
            *(#[trigger] module.function_definitions@[i]).lambda.body,
        )
}

/// Infers the types that the function definitions of a module leave open.
pub fn infer(context: &AnalysisContext, module: &Module) -> (result: Result<Module, AnalysisError>)
    requires
        aliases_acyclic(type_map_contents(*context.types())),
        module_inferable(*module),
    ensures
        inferred_module(
            *module,
            view_module_result(result),
            type_map_contents(*context.types()),
            record_map_contents(*context.records()),
        ),
        result matches Ok(m) ==> module_if_types_complete(m),
{
    let variables = create_environment(module);
    let definitions = infer_definitions(
        context,
        &module.function_definitions,
        module.function_definitions.len(),
        &variables,
    )?;
    Ok(
        Module {
            type_definitions: copy_type_definitions(&module.type_definitions),
            type_aliases: copy_type_aliases(&module.type_aliases),
            foreign_declarations: copy_foreign_declarations(&module.foreign_declarations),
            function_declarations: copy_function_declarations(&module.function_declarations),
            function_definitions: definitions,
            position: module.position.copy(),
        },
    )
}

/// The operand type inferred for an equality subsumes the type of each of
/// its operands, the left one as well as the right one, wherever that type
/// canonicalizes.
pub proof fn law_inferred_equality_covers_operands(
    expression: Expression,
    result: Result<Expression, SpecAnalysisError>,
    variables: Map<Seq<char>, SpecType>,
    types: Map<Seq<char>, SpecType>,
    records: Map<Seq<char>, Seq<SpecRecordField>>,
)
    requires
        expression is Operation,
        expression->Operation_0 is Equality,
        inferred(expression, result, variables, types, records),
        result is Ok,
        aliases_acyclic(types),
    ensures
        result->Ok_0 is Operation,
        result->Ok_0->Operation_0 is Equality,
        result->Ok_0->Operation_0->Equality_type_ is Some,
        extracted(*result->Ok_0->Operation_0->Equality_lhs, variables, types, records) is Ok,
        extracted(*result->Ok_0->Operation_0->Equality_rhs, variables, types, records) is Ok,
        canonical(result->Ok_0->Operation_0->Equality_type_->0@, types) is Ok ==> {
            &&& subsumes(
                extracted(*result->Ok_0->Operation_0->Equality_lhs, variables, types, records)->Ok_0,
                result->Ok_0->Operation_0->Equality_type_->0@,
                types,
            ) == Ok::<bool, SpecAnalysisError>(true)
            &&& subsumes(
                extracted(*result->Ok_0->Operation_0->Equality_rhs, variables, types, records)->Ok_0,
                result->Ok_0->Operation_0->Equality_type_->0@,
                types,
            ) == Ok::<bool, SpecAnalysisError>(true)
        },
{
    reveal(inferred_operation);
    assert(inferred_operation(expression, result, variables, types, records));
    let operation = expression->Operation_0;
    let lhs = *operation->Equality_lhs;
    let rhs = *operation->Equality_rhs;
    let position = operation->Equality_position;
    let l = choose|l: Result<Expression, SpecAnalysisError>|
        #[trigger] produced(l) && inferred(lhs, l, variables, types, records) && match l {
            Err(error) => result == Err::<Expression, SpecAnalysisError>(error),
            Ok(l) => exists|r: Result<Expression, SpecAnalysisError>|
                #[trigger] produced(r) && inferred(rhs, r, variables, types, records) && match r {
                    Err(error) => result == Err::<Expression, SpecAnalysisError>(error),
                    Ok(r) => match extracted(l, variables, types, records) {
                        Err(error) => result == Err::<Expression, SpecAnalysisError>(error),
                        Ok(lhs_type) => match extracted(r, variables, types, records) {
                            Err(error) => result == Err::<Expression, SpecAnalysisError>(error),
                            Ok(rhs_type) => result matches Ok(
                                Expression::Operation(
                                    Operation::Equality {
                                        type_: Some(t),
                                        operator: o,
                                        lhs: x,
                                        rhs: y,
                                        position: p,
                                    },
                                ),
                            ) && t@ == (SpecType::Union {
                                lhs: Box::new(lhs_type),
                                rhs: Box::new(rhs_type),
                                position: position@,
                            }) && o == operation->Equality_operator && *x == l && *y == r && p@ == position@,
                        },
                    },
                },
        };
    let new = result->Ok_0->Operation_0;
    let t = new->Equality_type_->0@;
    if canonical(t, types) is Ok {
        let a = extracted(*new->Equality_lhs, variables, types, records)->Ok_0;
        let b = extracted(*new->Equality_rhs, variables, types, records)->Ok_0;
        let members = seq![a, b];
        assert(members.drop_last() =~= seq![a]);
        assert(union_of(seq![a], position@) == a);
        assert(members.last() == b);
        assert(union_of(members, position@) == t);
        assert(crate::type_canonicalizer::canonicalizable(t, types));
        crate::type_subsumption_checker::law_union_subsumes_members(members, position@, 0, types);
        crate::type_subsumption_checker::law_union_subsumes_members(members, position@, 1, types);
    }
}

} // verus!
