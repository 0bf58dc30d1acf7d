//! The types of expressions, read off their parts.
use crate::context::AnalysisContext;
use crate::error::{AnalysisError, SpecAnalysisError};
use crate::ir::{
    expression_position,
    if_types_complete,
    operation_position,
    Argument,
    Expression,
    IfTypeBranch,
    Lambda,
    Operation,
};
use crate::record_field_resolver::{record_fields, resolve as resolve_fields};
use crate::tables::{record_map_contents, type_map_contents, TypeMap};
use crate::type_canonicalizer::{
    aliases_acyclic,
    canonical,
    canonicalizable,
    canonicalize_function,
    canonicalize_list,
    canonicalize_map,
};
use crate::types::{clone_type, lemma_view_types, view_fields, view_types, RecordField, SpecRecordField, SpecType, Type};
use crate::union_type_creator::{create, union_of};
use vstd::prelude::*;

verus! {

/// The models of the types of some lambda arguments.
pub open spec fn argument_types(arguments: Seq<Argument>) -> Seq<SpecType> {
    arguments.map_values(|argument: Argument| argument.type_@)
}

/// The function type of a lambda: its argument types, its result type, at
/// its position.
pub open spec fn lambda_type(lambda: Lambda<Expression>) -> SpecType {
    SpecType::Function {
        arguments: argument_types(lambda.arguments@),
        result: Box::new(lambda.result_type@),
        position: lambda.position@,
    }
}

/// The function type of a lambda.
pub fn extract_from_lambda(lambda: &Lambda<Expression>) -> (type_: Type)
    ensures
        type_@ == lambda_type(*lambda),
{
    let mut arguments: Vec<Type> = Vec::new();
    let mut i: usize = 0;
    while i < lambda.arguments.len()
        invariant
            i <= lambda.arguments.len(),
            arguments@.len() == i,
            forall|k: int| 0 <= k < i ==> (#[trigger] arguments@[k])@ == lambda.arguments@[k].type_@,
        decreases lambda.arguments.len() - i,
    {
        arguments.push(lambda.arguments[i].type_.clone());
        i = i + 1;
    }
    proof {
        lemma_view_types(arguments@);
        assert(crate::types::view_types(arguments@) =~= argument_types(lambda.arguments@));
    }
    Type::Function {
        arguments,
        result: Box::new(lambda.result_type.clone()),
        position: lambda.position.copy(),
    }
}

/// The type of the field of a name among record fields, the first if
/// several have the name.
pub open spec fn field_type(fields: Seq<SpecRecordField>, name: Seq<char>) -> Option<SpecType>
    decreases fields.len(),
{
    if fields.len() == 0 {
        None
    } else if fields[0].name == name {
        Some(fields[0].type_)
    } else {
        field_type(fields.drop_first(), name)
    }
}

/// `Ok` of `prefix` before what `result` holds, or its error.
pub open spec fn prepend(prefix: Seq<SpecType>, result: Result<Seq<SpecType>, SpecAnalysisError>) -> Result<
    Seq<SpecType>,
    SpecAnalysisError,
> {
    match result {
        Ok(rest) => Ok(prefix + rest),
        Err(error) => Err(error),
    }
}

/// The type of an expression read off its parts, with the types of
/// variables in `variables`; the first error met otherwise.
pub open spec fn extracted(
    expression: Expression,
    variables: Map<Seq<char>, SpecType>,
    types: Map<Seq<char>, SpecType>,
    records: Map<Seq<char>, Seq<SpecRecordField>>,
) -> Result<SpecType, SpecAnalysisError>
    decreases expression, 0int,
{
    match expression {
        Expression::Boolean { position, .. } => Ok(SpecType::Boolean { position: position@ }),
        Expression::BuiltInFunction { position, .. } => Err(
            SpecAnalysisError::BuiltInFunctionNotCalled(position@),
        ),
        Expression::Call { function_type, function, position, .. } => match function_type {
            None => Err(SpecAnalysisError::TypeNotInferred(position@)),
            Some(type_) => match canonical(type_@, types) {
                Ok(canonical) => if canonical is Function {
                    Ok(*canonical->Function_result)
                } else {
                    Err(SpecAnalysisError::FunctionExpected(expression_position(*function), type_@))
                },
                Err(error) => Err(error),
            },
        },
        Expression::If { then, else_, position, .. } => match extracted(*then, variables, types, records) {
            Ok(a) => match extracted(*else_, variables, types, records) {
                Ok(b) => Ok(SpecType::Union { lhs: Box::new(a), rhs: Box::new(b), position: position@ }),
                Err(error) => Err(error),
            },
            Err(error) => Err(error),
        },
        Expression::IfList { list, first_name, rest_name, then, else_, position, .. } => match extracted(
            *list,
            variables,
            types,
            records,
        ) {
            Ok(type_) => match canonical(type_, types) {
                Ok(list_type) => if list_type is List {
                    match extracted(
                        *then,
                        variables.insert(
                            first_name@,
                            SpecType::Function {
                                arguments: Seq::empty(),
                                result: list_type->List_element,
                                position: position@,
                            },
                        ).insert(rest_name@, list_type),
                        types,
                        records,
                    ) {
                        Ok(a) => match extracted(*else_, variables, types, records) {
                            Ok(b) => Ok(
                                SpecType::Union { lhs: Box::new(a), rhs: Box::new(b), position: position@ },
                            ),
                            Err(error) => Err(error),
                        },
                        Err(error) => Err(error),
                    }
                } else {
                    Err(SpecAnalysisError::ListExpected(expression_position(*list), type_))
                },
                Err(error) => Err(error),
            },
            Err(error) => Err(error),
        },
        Expression::IfMap { name, map, then, else_, position, .. } => match extracted(
            *map,
            variables,
            types,
            records,
        ) {
            Ok(type_) => match canonical(type_, types) {
                Ok(map_type) => if map_type is Mapping {
                    match extracted(
                        *then,
                        variables.insert(name@, *map_type->Mapping_value),
                        types,
                        records,
                    ) {
                        Ok(a) => match extracted(*else_, variables, types, records) {
                            Ok(b) => Ok(
                                SpecType::Union { lhs: Box::new(a), rhs: Box::new(b), position: position@ },
                            ),
                            Err(error) => Err(error),
                        },
                        Err(error) => Err(error),
                    }
                } else {
                    Err(SpecAnalysisError::MapExpected(expression_position(*map), type_))
                },
                Err(error) => Err(error),
            },
            Err(error) => Err(error),
        },
        Expression::IfType { name, branches, else_, position, .. } => match extracted_branches(
            branches,
            name@,
            0,
            variables,
            types,
            records,
        ) {
            Ok(branch_types) => match else_ {
                Some(branch) => match branch.type_ {
                    Some(type_) => match extracted(
                        branch.expression,
                        variables.insert(name@, type_@),
                        types,
                        records,
                    ) {
                        Ok(else_type) => Ok(union_of(branch_types.push(else_type), position@)),
                        Err(error) => Err(error),
                    },
                    None => Err(SpecAnalysisError::TypeNotInferred(branch.position@)),
                },
                None => Ok(union_of(branch_types, position@)),
            },
            Err(error) => Err(error),
        },
        Expression::Lambda(lambda) => Ok(lambda_type(lambda)),
        Expression::Let { name, type_, expression, position, .. } => match name {
            Some(name) => match type_ {
                Some(type_) => extracted(*expression, variables.insert(name@, type_@), types, records),
                None => Err(SpecAnalysisError::TypeNotInferred(position@)),
            },
            None => extracted(*expression, variables, types, records),
        },
        Expression::List { type_, position, .. } => Ok(
            SpecType::List { element: Box::new(type_@), position: position@ },
        ),
        Expression::ListComprehension { type_, position, .. } => Ok(
            SpecType::List { element: Box::new(type_@), position: position@ },
        ),
        Expression::Mapping { key_type, value_type, position, .. } => Ok(
            SpecType::Mapping {
                key: Box::new(key_type@),
                value: Box::new(value_type@),
                position: position@,
            },
        ),
        Expression::Unit { position } => Ok(SpecType::Unit { position: position@ }),
        Expression::Number { position, .. } => Ok(SpecType::Number { position: position@ }),
        Expression::Operation(operation) => match operation {
            Operation::Addition { type_, position, .. } => match type_ {
                Some(type_) => Ok(type_@),
                None => Err(SpecAnalysisError::TypeNotInferred(position@)),
            },
            Operation::Arithmetic { position, .. } => Ok(SpecType::Number { position: position@ }),
            Operation::Try { type_, position, .. } => match type_ {
                Some(type_) => Ok(type_@),
                None => Err(SpecAnalysisError::TypeNotInferred(position@)),
            },
            _ => Ok(SpecType::Boolean { position: operation_position(operation) }),
        },
        Expression::RecordConstruction { type_, .. } => Ok(type_@),
        Expression::RecordDeconstruction { type_, field_name, position, .. } => match type_ {
            Some(type_) => match record_fields(type_@, position@, types, records) {
                Ok(fields) => match field_type(fields, field_name@) {
                    Some(field_type) => Ok(field_type),
                    None => Err(SpecAnalysisError::UnknownRecordField(position@)),
                },
                Err(error) => Err(error),
            },
            None => Err(SpecAnalysisError::TypeNotInferred(position@)),
        },
        Expression::RecordUpdate { type_, .. } => Ok(type_@),
        Expression::String { position, .. } => Ok(SpecType::String { position: position@ }),
        Expression::Thunk { type_, position, .. } => match type_ {
            Some(type_) => Ok(
                SpecType::Function {
                    arguments: Seq::empty(),
                    result: Box::new(type_@),
                    position: position@,
                },
            ),
            None => Err(SpecAnalysisError::TypeNotInferred(position@)),
        },
        Expression::TypeCoercion { to, .. } => Ok(to@),
        Expression::Variable { name, position } => if variables.contains_key(name@) {
            Ok(variables[name@])
        } else {
            Err(SpecAnalysisError::VariableNotFound(name@, position@))
        },
    }
}

/// The types of the branches of an if-type expression from the `i`th on,
/// each with the bound name of the type of its branch; the first error met
/// otherwise.
pub open spec fn extracted_branches(
    branches: Vec<IfTypeBranch<Expression>>,
    name: Seq<char>,
    i: int,
    variables: Map<Seq<char>, SpecType>,
    types: Map<Seq<char>, SpecType>,
    records: Map<Seq<char>, Seq<SpecRecordField>>,
) -> Result<Seq<SpecType>, SpecAnalysisError>
    decreases branches, branches@.len() - i,
{
    if i < 0 || i >= branches@.len() {
        Ok(Seq::empty())
    } else {
        match extracted(
            branches@[i].expression,
            variables.insert(name, branches@[i].type_@),
            types,
            records,
        ) {
            Ok(type_) => prepend(
                seq![type_],
                extracted_branches(branches, name, i + 1, variables, types, records),
            ),
            Err(error) => Err(error),
        }
    }
}

/// The models of a result that holds a type.
pub open spec fn view_type_result(result: Result<Type, AnalysisError>) -> Result<
    SpecType,
    SpecAnalysisError,
> {
    match result {
        Ok(type_) => Ok(type_@),
        Err(error) => Err(error@),
    }
}

pub(crate) fn find_field<'a>(fields: &'a Vec<RecordField>, name: &String) -> (field: Option<&'a RecordField>)
    ensures
        match field {
            Some(field) => field_type(view_fields(fields@), name@) == Some(field.type_@),
            None => field_type(view_fields(fields@), name@) is None,
        },
{
    let mut i: usize = 0;
    proof {
        assert(view_fields(fields@).skip(0) =~= view_fields(fields@));
    }
    while i < fields.len()
        invariant
            i <= fields.len(),
            field_type(view_fields(fields@), name@) == field_type(
                view_fields(fields@).skip(i as int),
                name@,
            ),
        decreases fields.len() - i,
    {
        proof {
            assert(view_fields(fields@).skip(i as int)[0] == fields@[i as int]@);
            assert(view_fields(fields@).skip(i as int).drop_first() =~= view_fields(fields@).skip(
                i + 1,
            ));
        }
        if fields[i].name.eq(name) {
            return Some(&fields[i]);
        }
        i = i + 1;
    }
    None
}

/// What reading the type of an expression off its parts needs: where it
/// canonicalizes a type (the type of a called function, of an iterated list
/// or map, of a deconstructed record), no chain of aliases of the context
/// loops, and each if-type expression that it reaches has a branch.
pub open spec fn extraction_ready(expression: Expression, types: Map<Seq<char>, SpecType>) -> bool
    decreases expression,
{
    match expression {
        Expression::Call { .. } => aliases_acyclic(types),
        Expression::RecordDeconstruction { .. } => aliases_acyclic(types),
        Expression::If { then, else_, .. } => extraction_ready(*then, types) && extraction_ready(
            *else_,
            types,
        ),
        Expression::IfList { list, then, else_, .. } => aliases_acyclic(types) && extraction_ready(
            *list,
            types,
        ) && extraction_ready(*then, types) && extraction_ready(*else_, types),
        Expression::IfMap { map, then, else_, .. } => aliases_acyclic(types) && extraction_ready(
            *map,
            types,
        ) && extraction_ready(*then, types) && extraction_ready(*else_, types),
        Expression::IfType { branches, else_, .. } => (branches@.len() > 0 || else_ is Some) && (forall|
            i: int,
        | 0 <= i < branches@.len() ==> extraction_ready(#[trigger] branches@[i].expression, types))
            && match else_ {
            Some(branch) => extraction_ready(branch.expression, types),
            None => true,
        },
        Expression::Let { expression, .. } => extraction_ready(*expression, types),
        _ => true,
    }
}

/// An expression whose if-type expressions all have a branch is ready for
/// extraction under aliases that canonicalize.
pub broadcast proof fn lemma_extraction_ready(expression: Expression, types: Map<Seq<char>, SpecType>)
    requires
        aliases_acyclic(types),
        if_types_complete(expression),
    ensures
        #[trigger] extraction_ready(expression, types),
    decreases expression,
{
    match expression {
        Expression::If { then, else_, .. } => {
            lemma_extraction_ready(*then, types);
            lemma_extraction_ready(*else_, types);
        },
        Expression::IfList { list, then, else_, .. } => {
            lemma_extraction_ready(*list, types);
            lemma_extraction_ready(*then, types);
            lemma_extraction_ready(*else_, types);
        },
        Expression::IfMap { map, then, else_, .. } => {
            lemma_extraction_ready(*map, types);
            lemma_extraction_ready(*then, types);
            lemma_extraction_ready(*else_, types);
        },
        Expression::IfType { branches, else_, .. } => {
            assert forall|i: int| 0 <= i < branches@.len() implies extraction_ready(
                #[trigger] branches@[i].expression,
                types,
            ) by {
                assert(decreases_to!(branches => branches@[i]));
                lemma_extraction_ready(branches@[i].expression, types);
            }
            if let Some(branch) = else_ {
                lemma_extraction_ready(branch.expression, types);
            }
        },
        Expression::Let { expression: body, .. } => {
            lemma_extraction_ready(*body, types);
        },
        _ => {},
    }
}

/// The type of an expression read off its parts.
pub fn extract_from_expression(
    context: &AnalysisContext,
    expression: &Expression,
    variables: &TypeMap,
) -> (type_: Result<Type, AnalysisError>)
    requires
        extraction_ready(*expression, type_map_contents(*context.types())),
    ensures
        view_type_result(type_) == extracted(
            *expression,
            type_map_contents(*variables),
            type_map_contents(*context.types()),
            record_map_contents(*context.records()),
        ),
    decreases expression, 2int,
{
    match expression {
        Expression::Boolean { position, .. } => Ok(Type::Boolean { position: position.copy() }),
        Expression::BuiltInFunction { position, .. } => Err(
            AnalysisError::BuiltInFunctionNotCalled(position.copy()),
        ),
        Expression::Call { .. } => extract_from_call(context, expression, variables),
        Expression::If { then, else_, position, .. } => {
            let a = extract_from_expression(context, then, variables)?;
            let b = extract_from_expression(context, else_, variables)?;
            Ok(Type::Union { lhs: Box::new(a), rhs: Box::new(b), position: position.copy() })
        },
        Expression::IfList { .. } => extract_from_if_list(context, expression, variables),
        Expression::IfMap { .. } => extract_from_if_map(context, expression, variables),
        Expression::IfType { .. } => extract_from_if_type(context, expression, variables),
        Expression::Lambda(lambda) => Ok(extract_from_lambda(lambda)),
        Expression::Let { name, type_, expression: body, position, .. } => match name {
            Some(name) => match type_ {
                Some(type_) => {
                    let mut scope = variables.duplicate();
                    scope.insert(name.clone(), clone_type(type_));
                    extract_from_expression(context, body, &scope)
                },
                None => Err(AnalysisError::TypeNotInferred(position.copy())),
            },
            None => extract_from_expression(context, body, variables),
        },
        Expression::List { type_, position, .. } => Ok(
            Type::List { element: Box::new(clone_type(type_)), position: position.copy() },
        ),
        Expression::ListComprehension { type_, position, .. } => Ok(
            Type::List { element: Box::new(clone_type(type_)), position: position.copy() },
        ),
        Expression::Mapping { key_type, value_type, position, .. } => Ok(
            Type::Mapping {
                key: Box::new(clone_type(key_type)),
                value: Box::new(clone_type(value_type)),
                position: position.copy(),
            },
        ),
        Expression::Unit { position } => Ok(Type::Unit { position: position.copy() }),
        Expression::Number { position, .. } => Ok(Type::Number { position: position.copy() }),
        Expression::Operation(operation) => match operation {
            Operation::Addition { type_, position, .. } => match type_ {
                Some(type_) => Ok(clone_type(type_)),
                None => Err(AnalysisError::TypeNotInferred(position.copy())),
            },
            Operation::Arithmetic { position, .. } => Ok(Type::Number { position: position.copy() }),
            Operation::Try { type_, position, .. } => match type_ {
                Some(type_) => Ok(clone_type(type_)),
                None => Err(AnalysisError::TypeNotInferred(position.copy())),
            },
            _ => Ok(Type::Boolean { position: operation.position().copy() }),
        },
        Expression::RecordConstruction { type_, .. } => Ok(clone_type(type_)),
        Expression::RecordDeconstruction { .. } => extract_from_record_deconstruction(context, expression, variables),
        Expression::RecordUpdate { type_, .. } => Ok(clone_type(type_)),
        Expression::String { position, .. } => Ok(Type::String { position: position.copy() }),
        Expression::Thunk { type_, position, .. } => match type_ {
            Some(type_) => {
                proof {
                    assert(crate::types::view_types(Seq::<Type>::empty()) =~= Seq::<SpecType>::empty());
                }
                Ok(
                    Type::Function {
                        arguments: Vec::new(),
                        result: Box::new(clone_type(type_)),
                        position: position.copy(),
                    },
                )
            },
            None => Err(AnalysisError::TypeNotInferred(position.copy())),
        },
        Expression::TypeCoercion { to, .. } => Ok(clone_type(to)),
        Expression::Variable { name, position } => match variables.get(name.as_str()) {
            Some(type_) => Ok(clone_type(type_)),
            None => Err(AnalysisError::VariableNotFound(name.clone(), position.copy())),
        },
    }
}

fn extract_from_call(
    context: &AnalysisContext,
    expression: &Expression,
    variables: &TypeMap,
) -> (type_: Result<Type, AnalysisError>)
    requires
        extraction_ready(*expression, type_map_contents(*context.types())),
        expression is Call,
    ensures
        view_type_result(type_) == extracted(
            *expression,
            type_map_contents(*variables),
            type_map_contents(*context.types()),
            record_map_contents(*context.records()),
        ),
    decreases expression, 1int,
{
    let types = context.types();
    match expression {
        Expression::Call { function_type, function, position, .. } => match function_type {
            None => Err(AnalysisError::TypeNotInferred(position.copy())),
            Some(type_) => {
                proof {
                    assert(canonicalizable(type_@, type_map_contents(*types)));
                }
                match canonicalize_function(type_, types)? {
                    Some(Type::Function { result, .. }) => Ok(*result),
                    _ => Err(AnalysisError::FunctionExpected(function.position().copy(), type_.clone())),
                }
            },
        },
        _ => Err(AnalysisError::TypeNotInferred(expression.position().copy())),
    }
}

fn extract_from_if_list(
    context: &AnalysisContext,
    expression: &Expression,
    variables: &TypeMap,
) -> (type_: Result<Type, AnalysisError>)
    requires
        extraction_ready(*expression, type_map_contents(*context.types())),
        expression is IfList,
    ensures
        view_type_result(type_) == extracted(
            *expression,
            type_map_contents(*variables),
            type_map_contents(*context.types()),
            record_map_contents(*context.records()),
        ),
    decreases expression, 1int,
{
    let types = context.types();
    match expression {
        Expression::IfList { list, first_name, rest_name, then, else_, position, .. } => {
            let type_ = extract_from_expression(context, list, variables)?;
            proof {
                assert(canonicalizable(type_@, type_map_contents(*types)));
            }
            match canonicalize_list(&type_, types)? {
                Some(list_type) => match &list_type {
                    Type::List { element, .. } => {
                        let mut scope = variables.duplicate();
                        scope.insert(
                            first_name.clone(),
                            Type::Function {
                                arguments: Vec::new(),
                                result: Box::new(clone_type(element)),
                                position: position.copy(),
                            },
                        );
                        proof {
                            assert(crate::types::view_types(Seq::<Type>::empty()) =~= Seq::<SpecType>::empty());
                        }
                        scope.insert(rest_name.clone(), clone_type(&list_type));
                        let a = extract_from_expression(context, then, &scope)?;
                        let b = extract_from_expression(context, else_, variables)?;
                        Ok(Type::Union { lhs: Box::new(a), rhs: Box::new(b), position: position.copy() })
                    },
                    _ => Err(AnalysisError::ListExpected(list.position().copy(), type_)),
                },
                None => Err(AnalysisError::ListExpected(list.position().copy(), type_)),
            }
        },
        _ => Err(AnalysisError::TypeNotInferred(expression.position().copy())),
    }
}

fn extract_from_if_map(
    context: &AnalysisContext,
    expression: &Expression,
    variables: &TypeMap,
) -> (type_: Result<Type, AnalysisError>)
    requires
        extraction_ready(*expression, type_map_contents(*context.types())),
        expression is IfMap,
    ensures
        view_type_result(type_) == extracted(
            *expression,
            type_map_contents(*variables),
            type_map_contents(*context.types()),
            record_map_contents(*context.records()),
        ),
    decreases expression, 1int,
{
    let types = context.types();
    match expression {
        Expression::IfMap { name, map, then, else_, position, .. } => {
            let type_ = extract_from_expression(context, map, variables)?;
            proof {
                assert(canonicalizable(type_@, type_map_contents(*types)));
            }
            match canonicalize_map(&type_, types)? {
                Some(Type::Mapping { value, .. }) => {
                    let mut scope = variables.duplicate();
                    scope.insert(name.clone(), *value);
                    let a = extract_from_expression(context, then, &scope)?;
                    let b = extract_from_expression(context, else_, variables)?;
                    Ok(Type::Union { lhs: Box::new(a), rhs: Box::new(b), position: position.copy() })
                },
                _ => Err(AnalysisError::MapExpected(map.position().copy(), type_)),
            }
        },
        _ => Err(AnalysisError::TypeNotInferred(expression.position().copy())),
    }
}

fn extract_from_if_type(
    context: &AnalysisContext,
    expression: &Expression,
    variables: &TypeMap,
) -> (type_: Result<Type, AnalysisError>)
    requires
        extraction_ready(*expression, type_map_contents(*context.types())),
        expression is IfType,
    ensures
        view_type_result(type_) == extracted(
            *expression,
            type_map_contents(*variables),
            type_map_contents(*context.types()),
            record_map_contents(*context.records()),
        ),
    decreases expression, 1int,
{
    let types = context.types();
    match expression {
        Expression::IfType { name, branches, else_, position, .. } => {
            let mut branch_types = extract_from_branches(context, branches, name, variables)?;
            match else_ {
                Some(branch) => match &branch.type_ {
                    Some(type_) => {
                        let mut scope = variables.duplicate();
                        scope.insert(name.clone(), clone_type(type_));
                        let else_type = extract_from_expression(context, &branch.expression, &scope)?;
                        let ghost before = branch_types@;
                        branch_types.push(else_type);
                        proof {
                            assert(branch_types@.drop_last() =~= before);
                            assert(view_types(branch_types@) == view_types(before).push(else_type@));
                        }
                    },
                    None => {
                        return Err(AnalysisError::TypeNotInferred(branch.position.copy()));
                    },
                },
                None => {},
            }
            proof {
                crate::types::lemma_view_types(branch_types@);
            }
            Ok(create(&branch_types, position).unwrap())
        },
        _ => Err(AnalysisError::TypeNotInferred(expression.position().copy())),
    }
}

fn extract_from_record_deconstruction(
    context: &AnalysisContext,
    expression: &Expression,
    variables: &TypeMap,
) -> (type_: Result<Type, AnalysisError>)
    requires
        extraction_ready(*expression, type_map_contents(*context.types())),
        expression is RecordDeconstruction,
    ensures
        view_type_result(type_) == extracted(
            *expression,
            type_map_contents(*variables),
            type_map_contents(*context.types()),
            record_map_contents(*context.records()),
        ),
    decreases expression, 1int,
{
    let types = context.types();
    match expression {
        Expression::RecordDeconstruction { type_, field_name, position, .. } => match type_ {
            Some(type_) => {
                proof {
                    assert(canonicalizable(type_@, type_map_contents(*types)));
                }
                let fields = resolve_fields(type_, position, types, context.records())?;
                match find_field(fields, field_name) {
                    Some(field) => Ok(clone_type(&field.type_)),
                    None => Err(AnalysisError::UnknownRecordField(position.copy())),
                }
            },
            None => Err(AnalysisError::TypeNotInferred(position.copy())),
        },
        _ => Err(AnalysisError::TypeNotInferred(expression.position().copy())),
    }
}

fn extract_from_branches(
    context: &AnalysisContext,
    branches: &Vec<IfTypeBranch<Expression>>,
    name: &String,
    variables: &TypeMap,
) -> (branch_types: Result<Vec<Type>, AnalysisError>)
    requires
        forall|i: int|
            0 <= i < branches@.len() ==> extraction_ready(
                #[trigger] branches@[i].expression,
                type_map_contents(*context.types()),
            ),
    ensures
        match branch_types {
            Ok(branch_types) => extracted_branches(
                *branches,
                name@,
                0,
                type_map_contents(*variables),
                type_map_contents(*context.types()),
                record_map_contents(*context.records()),
            ) == Ok::<Seq<SpecType>, SpecAnalysisError>(view_types(branch_types@)),
            Err(error) => extracted_branches(
                *branches,
                name@,
                0,
                type_map_contents(*variables),
                type_map_contents(*context.types()),
                record_map_contents(*context.records()),
            ) == Err::<Seq<SpecType>, SpecAnalysisError>(error@),
        },
    decreases branches, 0int,
{
    let ghost whole = extracted_branches(
        *branches,
        name@,
        0,
        type_map_contents(*variables),
        type_map_contents(*context.types()),
        record_map_contents(*context.records()),
    );
    let mut branch_types: Vec<Type> = Vec::new();
    let mut i: usize = 0;
    proof {
        assert(view_types(branch_types@) =~= Seq::<SpecType>::empty());
        assert(prepend(Seq::empty(), whole) == whole);
    }
    while i < branches.len()
        invariant
            i <= branches.len(),
            forall|k: int|
                0 <= k < branches@.len() ==> extraction_ready(
                    #[trigger] branches@[k].expression,
                    type_map_contents(*context.types()),
                ),
            whole == extracted_branches(
                *branches,
                name@,
                0,
                type_map_contents(*variables),
                type_map_contents(*context.types()),
                record_map_contents(*context.records()),
            ),
            whole == prepend(
                view_types(branch_types@),
                extracted_branches(
                    *branches,
                    name@,
                    i as int,
                    type_map_contents(*variables),
                    type_map_contents(*context.types()),
                    record_map_contents(*context.records()),
                ),
            ),
        decreases branches.len() - i,
    {
        proof {
            assert(decreases_to!(branches => branches@[i as int]));
            assert(decreases_to!(branches@[i as int] => branches@[i as int].expression));
        }
        let mut scope = variables.duplicate();
        scope.insert(name.clone(), clone_type(&branches[i].type_));
        let type_ = extract_from_expression(context, &branches[i].expression, &scope)?;
        let ghost before = branch_types@;
        branch_types.push(type_);
        proof {
            assert(branch_types@.drop_last() =~= before);
            assert(view_types(before) + (seq![type_@] + match extracted_branches(
                *branches,
                name@,
                i + 1,
                type_map_contents(*variables),
                type_map_contents(*context.types()),
                record_map_contents(*context.records()),
            ) {
                Ok(rest) => rest,
                Err(_) => Seq::empty(),
            }) =~= view_types(branch_types@) + match extracted_branches(
                *branches,
                name@,
                i + 1,
                type_map_contents(*variables),
                type_map_contents(*context.types()),
                record_map_contents(*context.records()),
            ) {
                Ok(rest) => rest,
                Err(_) => Seq::empty(),
            });
        }
        i = i + 1;
    }
    proof {
        assert(view_types(branch_types@) + Seq::<SpecType>::empty() =~= view_types(branch_types@));
    }
    Ok(branch_types)
}

} // verus!
