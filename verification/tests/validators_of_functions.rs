#![allow(dead_code)]
use hir::ir::{
    Argument, Expression, FunctionDefinition, Lambda, Module, TypeAlias, TypeDefinition,
};
use hir::position::Position;
use hir::types::{RecordField, Type};

fn p() -> Position {
    Position::fake()
}

fn empty_module() -> Module {
    Module {
        type_definitions: vec![],
        type_aliases: vec![],
        foreign_declarations: vec![],
        function_declarations: vec![],
        function_definitions: vec![],
        position: p(),
    }
}

fn module_with_definitions(definitions: Vec<FunctionDefinition>) -> Module {
    Module { function_definitions: definitions, ..empty_module() }
}

fn definition(name: &str, lambda: Lambda<Expression>) -> FunctionDefinition {
    FunctionDefinition {
        name: name.to_string(),
        original_name: name.to_string(),
        lambda,
        foreign_definition_configuration: None,
        is_public: false,
        position: p(),
    }
}

fn lambda(arguments: Vec<Argument>, result_type: Type, body: Expression) -> Lambda<Expression> {
    Lambda { arguments, result_type, body: Box::new(body), position: p() }
}

fn argument(name: &str, type_: Type) -> Argument {
    Argument { name: name.to_string(), type_ }
}

fn type_definition(name: &str, fields: Vec<RecordField>, is_open: bool, is_public: bool, is_external: bool) -> TypeDefinition {
    TypeDefinition {
        name: name.to_string(),
        original_name: name.to_string(),
        fields,
        is_open,
        is_public,
        is_external,
        position: p(),
    }
}

fn type_alias(name: &str, type_: Type) -> TypeAlias {
    TypeAlias {
        name: name.to_string(),
        original_name: name.to_string(),
        type_,
        is_public: false,
        is_external: false,
        position: p(),
    }
}

fn variable(name: &str) -> Expression {
    Expression::Variable { name: name.to_string(), position: p() }
}

fn unit() -> Expression {
    Expression::Unit { position: p() }
}

fn number(value: f64) -> Expression {
    Expression::Number { value: value.to_bits(), position: p() }
}

fn let_(name: Option<&str>, type_: Option<Type>, bound: Expression, body: Expression) -> Expression {
    Expression::Let {
        name: name.map(|name| name.to_string()),
        type_,
        bound_expression: Box::new(bound),
        expression: Box::new(body),
        position: p(),
    }
}

use hir::context::AnalysisContext;
use hir::error::AnalysisError;
use hir::ir::{BuiltInFunctionName, ListComprehensionBranch, ListComprehensionIteratee, ListElement, Operation, RecordFieldValue};
use hir::tables::{RecordMap, TypeMap};
use hir::type_collector::{collect, collect_record_fields};
use hir::type_extractor::extract_from_expression;

fn context_of(module: &Module) -> AnalysisContext {
    AnalysisContext::new(collect(module), collect_record_fields(module))
}

fn empty_context() -> AnalysisContext {
    AnalysisContext::new(TypeMap::new(), RecordMap::new())
}

fn record_module(is_open: bool, is_public: bool, is_external: bool, lambda_: Lambda<Expression>) -> Module {
    Module {
        type_definitions: vec![type_definition("r", vec![RecordField::new("x", Type::none(p()))], is_open, is_public, is_external)],
        function_definitions: vec![definition("x", lambda_)],
        ..empty_module()
    }
}

fn record_type() -> Type {
    Type::record("r", "r", p())
}

fn construction() -> Lambda<Expression> {
    lambda(
        vec![],
        record_type(),
        Expression::RecordConstruction {
            type_: record_type(),
            fields: vec![RecordFieldValue { name: "x".to_string(), expression: unit(), position: p() }],
            position: p(),
        },
    )
}

fn deconstruction() -> Lambda<Expression> {
    lambda(
        vec![argument("x", record_type())],
        Type::none(p()),
        Expression::RecordDeconstruction {
            type_: Some(record_type()),
            record: Box::new(variable("x")),
            field_name: "x".to_string(),
            position: p(),
        },
    )
}

fn update() -> Lambda<Expression> {
    lambda(
        vec![argument("x", record_type())],
        Type::none(p()),
        Expression::RecordUpdate {
            type_: record_type(),
            record: Box::new(variable("x")),
            fields: vec![RecordFieldValue { name: "x".to_string(), expression: unit(), position: p() }],
            position: p(),
        },
    )
}

fn validate_fields(module: &Module) -> Result<(), AnalysisError> {
    hir::record_field_validator::validate(&context_of(module), module)
}

#[test]
fn validate_record_construction() {
    validate_fields(&record_module(false, false, false, construction())).unwrap();
}

#[test]
#[should_panic]
fn fail_to_validate_record_construction() {
    validate_fields(&record_module(false, false, true, construction())).unwrap();
}

#[test]
fn validate_record_deconstruction() {
    validate_fields(&record_module(false, false, false, deconstruction())).unwrap();
}

#[test]
#[should_panic]
fn fail_to_validate_record_deconstruction() {
    validate_fields(&record_module(false, false, true, deconstruction())).unwrap();
}

#[test]
fn validate_record_update() {
    validate_fields(&record_module(false, false, false, update())).unwrap();
}

#[test]
#[should_panic]
fn fail_to_validate_record_update() {
    validate_fields(&record_module(false, false, true, update())).unwrap();
}

#[test]
#[should_panic]
fn fail_to_validate_record_construction_with_external_private_record() {
    validate_fields(&record_module(true, false, true, construction())).unwrap();
}

#[test]
fn validate_record_construction_with_external_public_open_record() {
    assert_eq!(validate_fields(&record_module(true, true, true, construction())), Ok(()));
    assert_eq!(
        validate_fields(&record_module(false, true, true, construction())),
        Err(AnalysisError::RecordFieldPrivate(p()))
    );
}

fn error_union() -> Type {
    Type::union(Type::none(p()), Type::reference("error", p()), p())
}

fn try_x() -> Expression {
    Expression::Operation(Operation::Try { type_: None, expression: Box::new(variable("x")), position: p() })
}

fn with_error_definition(module: Module) -> Module {
    Module { type_definitions: vec![type_definition("error", vec![], false, false, false)], ..module }
}

fn validate_try(module: &Module) -> Result<(), AnalysisError> {
    hir::try_operation_validator::validate(
        &AnalysisContext::with_error_type(
            collect(module),
            collect_record_fields(module),
            Some(Type::record("error", "error", p())),
        ),
        module,
    )
}

fn try_module(definitions: Vec<FunctionDefinition>) -> Module {
    with_error_definition(module_with_definitions(definitions))
}

#[test]
fn validate_empty_module() {
    assert_eq!(validate_try(&empty_module()), Ok(()));
}

#[test]
fn fail_to_validate_lambda() {
    let module = try_module(vec![definition("x", lambda(vec![argument("x", error_union())], Type::none(p()), try_x()))]);
    assert_eq!(validate_try(&module), Err(AnalysisError::InvalidTryOperation(p())));
}

#[test]
fn validate_lambda_returning_error() {
    let module = try_module(vec![definition("x", lambda(vec![argument("x", error_union())], error_union(), try_x()))]);
    assert_eq!(validate_try(&module), Ok(()));
}

#[test]
fn validate_thunk() {
    let module = try_module(vec![definition(
        "x",
        lambda(
            vec![argument("x", error_union())],
            Type::function(vec![], Type::none(p()), p()),
            Expression::Thunk { type_: Some(error_union()), expression: Box::new(try_x()), position: p() },
        ),
    )]);
    assert_eq!(validate_try(&module), Ok(()));
}

#[test]
fn fail_to_validate_thunk() {
    let module = try_module(vec![definition(
        "x",
        lambda(
            vec![argument("x", error_union())],
            Type::function(vec![], Type::none(p()), p()),
            Expression::Thunk { type_: Some(Type::none(p())), expression: Box::new(try_x()), position: p() },
        ),
    )]);
    assert_eq!(validate_try(&module), Err(AnalysisError::InvalidTryOperation(p())));
}

#[test]
fn fail_to_validate_list() {
    let module = try_module(vec![definition(
        "x",
        lambda(
            vec![argument("x", error_union())],
            Type::function(vec![], Type::none(p()), p()),
            Expression::List { type_: Type::none(p()), elements: vec![ListElement::Single(try_x())], position: p() },
        ),
    )]);
    assert_eq!(validate_try(&module), Err(AnalysisError::TryOperationInList(p())));
}

fn comprehension_module(element: Expression, iteratee: Expression) -> Module {
    try_module(vec![definition(
        "x",
        lambda(
            vec![],
            Type::function(vec![], Type::none(p()), p()),
            Expression::ListComprehension {
                type_: Type::none(p()),
                element: Box::new(element),
                branches: vec![ListComprehensionBranch {
                    names: vec!["x".to_string()],
                    iteratees: vec![ListComprehensionIteratee { type_: None, expression: iteratee, position: p() }],
                    condition: None,
                    position: p(),
                }],
                position: p(),
            },
        ),
    )])
}

#[test]
fn fail_to_validate_element_of_list_comprehension() {
    assert_eq!(
        validate_try(&comprehension_module(try_x(), variable("xs"))),
        Err(AnalysisError::TryOperationInList(p()))
    );
}

#[test]
fn fail_to_validate_list_of_list_comprehension() {
    assert_eq!(
        validate_try(&comprehension_module(unit(), try_x())),
        Err(AnalysisError::TryOperationInList(p()))
    );
}

#[test]
fn try_operation_without_error_type_is_undefined() {
    let module = try_module(vec![definition("x", lambda(vec![argument("x", error_union())], error_union(), try_x()))]);
    assert_eq!(
        hir::try_operation_validator::validate(&context_of(&module), &module),
        Err(AnalysisError::ErrorTypeUndefined)
    );
}

#[test]
fn context_error_type() {
    let with = AnalysisContext::with_error_type(TypeMap::new(), RecordMap::new(), Some(Type::number(p())));
    assert_eq!(with.error_type(), Ok(&Type::number(p())));
    let without = AnalysisContext::new(TypeMap::new(), RecordMap::new());
    assert_eq!(without.error_type(), Err(AnalysisError::ErrorTypeUndefined));
}

#[test]
fn extract_from_let() {
    assert_eq!(
        extract_from_expression(&empty_context(), &let_(Some("x"), Some(Type::none(p())), unit(), variable("x")), &TypeMap::new()).unwrap(),
        Type::none(p())
    );
}

#[test]
fn extract_from_try_operation() {
    assert_eq!(
        extract_from_expression(
            &empty_context(),
            &Expression::Operation(Operation::Try { type_: Some(Type::none(p())), expression: Box::new(variable("x")), position: p() }),
            &TypeMap::new(),
        )
        .unwrap(),
        Type::none(p())
    );
}

#[test]
fn extract_from_thunk() {
    assert_eq!(
        extract_from_expression(
            &empty_context(),
            &Expression::Thunk { type_: Some(Type::none(p())), expression: Box::new(variable("x")), position: p() },
            &TypeMap::new(),
        ),
        Ok(Type::function(vec![], Type::none(p()), p()))
    );
}

#[test]
fn fail_to_extract_from_thunk() {
    assert_eq!(
        extract_from_expression(
            &empty_context(),
            &Expression::Thunk { type_: None, expression: Box::new(variable("x")), position: p() },
            &TypeMap::new(),
        ),
        Err(AnalysisError::TypeNotInferred(p()))
    );
}

#[test]
fn extract_from_size() {
    assert_eq!(
        extract_from_expression(
            &empty_context(),
            &Expression::Call {
                function_type: Some(Type::function(vec![Type::list(Type::none(p()), p())], Type::number(p()), p())),
                function: Box::new(Expression::BuiltInFunction { name: BuiltInFunctionName::Size, position: p() }),
                arguments: vec![Expression::List { type_: Type::none(p()), elements: vec![], position: p() }],
                position: p(),
            },
            &TypeMap::new(),
        ),
        Ok(Type::number(p()))
    );
}

#[test]
fn extract_from_spawn() {
    let function_type = || Type::function(vec![], Type::none(p()), p());
    assert_eq!(
        extract_from_expression(
            &empty_context(),
            &Expression::Call {
                function_type: Some(Type::function(vec![function_type()], function_type(), p())),
                function: Box::new(Expression::BuiltInFunction { name: BuiltInFunctionName::Spawn, position: p() }),
                arguments: vec![Expression::Lambda(lambda(vec![], Type::none(p()), unit()))],
                position: p(),
            },
            &TypeMap::new(),
        ),
        Ok(function_type())
    );
}

#[test]
fn extract_from_variable() {
    let mut variables = TypeMap::new();
    variables.insert("x".to_string(), Type::number(p()));
    assert_eq!(extract_from_expression(&empty_context(), &variable("x"), &variables), Ok(Type::number(p())));
    assert_eq!(
        extract_from_expression(&empty_context(), &variable("y"), &variables),
        Err(AnalysisError::VariableNotFound("y".to_string(), p()))
    );
}

#[test]
fn extract_from_if_under_looping_aliases() {
    let module = Module { type_aliases: vec![type_alias("a", Type::reference("a", p()))], ..empty_module() };
    let boolean = || Expression::Boolean { value: true, position: p() };
    let if_ = Expression::If {
        condition: Box::new(boolean()),
        then: Box::new(boolean()),
        else_: Box::new(variable("x")),
        position: p(),
    };
    let mut variables = TypeMap::new();
    variables.insert("x".to_string(), Type::none(p()));
    assert_eq!(
        extract_from_expression(&context_of(&module), &if_, &variables),
        Ok(Type::union(Type::boolean(p()), Type::none(p()), p()))
    );
}
