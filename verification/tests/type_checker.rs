#![allow(dead_code)]
use hir::ir::{
    Argument, Expression, FunctionDefinition, Lambda, Module, TypeAlias, TypeDefinition,
};
use hir::position::Position;
use hir::types::{RecordField, Type};

fn p() -> Position {
    Position::fake()
}

fn empty_module() -> Module {
    Module {
        type_definitions: vec![],
        type_aliases: vec![],
        foreign_declarations: vec![],
        function_declarations: vec![],
        function_definitions: vec![],
        position: p(),
    }
}

fn module_with_definitions(definitions: Vec<FunctionDefinition>) -> Module {
    Module { function_definitions: definitions, ..empty_module() }
}

fn definition(name: &str, lambda: Lambda<Expression>) -> FunctionDefinition {
    FunctionDefinition {
        name: name.to_string(),
        original_name: name.to_string(),
        lambda,
        foreign_definition_configuration: None,
        is_public: false,
        position: p(),
    }
}

fn lambda(arguments: Vec<Argument>, result_type: Type, body: Expression) -> Lambda<Expression> {
    Lambda { arguments, result_type, body: Box::new(body), position: p() }
}

fn argument(name: &str, type_: Type) -> Argument {
    Argument { name: name.to_string(), type_ }
}

fn type_definition(name: &str, fields: Vec<RecordField>, is_open: bool, is_public: bool, is_external: bool) -> TypeDefinition {
    TypeDefinition {
        name: name.to_string(),
        original_name: name.to_string(),
        fields,
        is_open,
        is_public,
        is_external,
        position: p(),
    }
}

fn type_alias(name: &str, type_: Type) -> TypeAlias {
    TypeAlias {
        name: name.to_string(),
        original_name: name.to_string(),
        type_,
        is_public: false,
        is_external: false,
        position: p(),
    }
}

fn variable(name: &str) -> Expression {
    Expression::Variable { name: name.to_string(), position: p() }
}

fn unit() -> Expression {
    Expression::Unit { position: p() }
}

fn number(value: f64) -> Expression {
    Expression::Number { value: value.to_bits(), position: p() }
}

fn let_(name: Option<&str>, type_: Option<Type>, bound: Expression, body: Expression) -> Expression {
    Expression::Let {
        name: name.map(|name| name.to_string()),
        type_,
        bound_expression: Box::new(bound),
        expression: Box::new(body),
        position: p(),
    }
}

use hir::context::AnalysisContext;
use hir::error::AnalysisError;
use hir::ir::{
    ArithmeticOperator, BooleanOperator, CallingConvention, ElseBranch, EqualityOperator, ForeignDeclaration,
    FunctionDeclaration, IfTypeBranch, Operation,
};
use hir::type_checker::check_types;
use hir::type_collector::{collect, collect_record_fields};

fn check_module(module: &Module) -> Result<(), AnalysisError> {
    check_types(&AnalysisContext::new(collect(module), collect_record_fields(module)), module)
}

fn single(name: &str, lambda_: Lambda<Expression>) -> Module {
    module_with_definitions(vec![definition(name, lambda_)])
}

fn not_matched(lower: Type, upper: Type) -> AnalysisError {
    AnalysisError::TypesNotMatched(p(), lower, p(), upper)
}

fn boolean(value: bool) -> Expression {
    Expression::Boolean { value, position: p() }
}

fn not(operand: Expression) -> Expression {
    Expression::Operation(Operation::Not { expression: Box::new(operand), position: p() })
}

fn call(function_type: Type, function: Expression, arguments: Vec<Expression>) -> Expression {
    Expression::Call { function_type: Some(function_type), function: Box::new(function), arguments, position: p() }
}

fn if_(condition: Expression, then: Expression, else_: Expression) -> Expression {
    Expression::If { condition: Box::new(condition), then: Box::new(then), else_: Box::new(else_), position: p() }
}

fn if_type(argument: Expression, branches: Vec<(Type, Expression)>, else_: Option<(Option<Type>, Expression)>) -> Expression {
    Expression::IfType {
        name: "y".to_string(),
        argument: Box::new(argument),
        branches: branches.into_iter().map(|(type_, expression)| IfTypeBranch { type_, expression }).collect(),
        else_: else_.map(|(type_, expression)| Box::new(ElseBranch { type_, expression, position: p() })),
        position: p(),
    }
}

fn number_or_none() -> Type {
    Type::union(Type::number(p()), Type::none(p()), p())
}

#[test]
fn check_empty_module() {
    assert_eq!(check_module(&empty_module()), Ok(()));
}

#[test]
fn check() {
    assert_eq!(check_module(&single("x", lambda(vec![], Type::none(p()), unit()))), Ok(()));
}

#[test]
fn check_result_type() {
    let function_type = || Type::function(vec![], Type::number(p()), p());
    let module = Module {
        foreign_declarations: vec![ForeignDeclaration {
            name: "y".to_string(),
            foreign_name: "y".to_string(),
            calling_convention: CallingConvention::Native,
            type_: function_type(),
            position: p(),
        }],
        ..single("x", lambda(vec![], Type::none(p()), call(function_type(), variable("y"), vec![])))
    };
    assert_eq!(check_module(&module), Err(not_matched(Type::number(p()), Type::none(p()))));
}

#[test]
fn check_overridden_function_declaration() {
    let module = Module {
        function_declarations: vec![FunctionDeclaration {
            name: "f".to_string(),
            type_: Type::function(vec![Type::number(p())], Type::number(p()), p()),
            position: p(),
        }],
        ..single(
            "f",
            lambda(vec![], Type::none(p()), call(Type::function(vec![], Type::none(p()), p()), variable("f"), vec![])),
        )
    };
    assert_eq!(check_module(&module), Ok(()));
}

#[test]
fn check_thunk() {
    check_module(&single(
        "x",
        lambda(
            vec![],
            Type::function(vec![], Type::none(p()), p()),
            Expression::Thunk { type_: Some(Type::none(p())), expression: Box::new(unit()), position: p() },
        ),
    ))
    .unwrap();
}

#[test]
fn check_subsumption_of_function_result_type() {
    assert_eq!(check_module(&single("x", lambda(vec![], number_or_none(), unit()))), Ok(()));
}

#[test]
fn fail_to_check_function_result_type() {
    assert_eq!(
        check_module(&single("x", lambda(vec![], Type::number(p()), unit()))),
        Err(not_matched(Type::none(p()), Type::number(p())))
    );
}

#[test]
fn check_let() {
    check_module(&single(
        "x",
        lambda(vec![], Type::none(p()), let_(Some("x"), Some(Type::none(p())), unit(), variable("x"))),
    ))
    .unwrap();
}

#[test]
fn fail_to_check_expression_in_let() {
    assert_eq!(
        check_module(&single(
            "x",
            lambda(vec![], Type::none(p()), let_(Some("x"), Some(Type::none(p())), unit(), not(unit()))),
        )),
        Err(not_matched(Type::none(p()), Type::boolean(p())))
    );
}

#[test]
fn check_if() {
    check_module(&single("f", lambda(vec![], Type::number(p()), if_(boolean(true), number(0.0), number(0.0))))).unwrap();
}

#[test]
fn check_if_of_union_type() {
    check_module(&single("f", lambda(vec![], number_or_none(), if_(boolean(true), number(0.0), unit())))).unwrap();
}

#[test]
fn fail_to_check_then_expression() {
    assert_eq!(
        check_module(&single("f", lambda(vec![], Type::number(p()), if_(boolean(true), not(unit()), number(0.0))))),
        Err(not_matched(Type::none(p()), Type::boolean(p())))
    );
}

#[test]
fn fail_to_check_else_expression() {
    assert_eq!(
        check_module(&single("f", lambda(vec![], Type::number(p()), if_(boolean(true), number(0.0), not(unit()))))),
        Err(not_matched(Type::none(p()), Type::boolean(p())))
    );
}

#[test]
fn check_with_union() {
    check_module(&single(
        "f",
        lambda(
            vec![argument("x", number_or_none())],
            Type::none(p()),
            if_type(variable("x"), vec![(Type::number(p()), unit()), (Type::none(p()), unit())], None),
        ),
    ))
    .unwrap();
}

#[test]
fn check_with_any() {
    check_module(&single(
        "f",
        lambda(
            vec![argument("x", Type::any(p()))],
            Type::none(p()),
            if_type(variable("x"), vec![(Type::none(p()), unit())], Some((Some(Type::any(p())), unit()))),
        ),
    ))
    .unwrap();
}

#[test]
fn check_result_of_union() {
    check_module(&single(
        "f",
        lambda(
            vec![argument("x", Type::any(p()))],
            number_or_none(),
            if_type(variable("x"), vec![(Type::none(p()), number(42.0))], Some((Some(Type::any(p())), unit()))),
        ),
    ))
    .unwrap();
}

#[test]
fn check_result_of_any() {
    check_module(&single(
        "f",
        lambda(
            vec![argument("x", Type::any(p()))],
            Type::any(p()),
            if_type(variable("x"), vec![(Type::none(p()), unit())], Some((Some(Type::any(p())), variable("y")))),
        ),
    ))
    .unwrap();
}

#[test]
#[should_panic]
fn fail_to_check_due_to_wrong_argument_type() {
    check_module(&single(
        "f",
        lambda(vec![], Type::none(p()), if_type(unit(), vec![(Type::none(p()), unit())], None)),
    ))
    .unwrap();
}

#[test]
#[should_panic]
fn fail_to_check_union_due_to_missing_else() {
    check_module(&single(
        "f",
        lambda(
            vec![argument("x", number_or_none())],
            Type::none(p()),
            if_type(variable("x"), vec![(Type::number(p()), unit())], None),
        ),
    ))
    .unwrap();
}

#[test]
#[should_panic]
fn fail_to_check_any_due_to_missing_else() {
    check_module(&single(
        "f",
        lambda(
            vec![argument("x", number_or_none())],
            Type::none(p()),
            if_type(variable("x"), vec![(Type::number(p()), unit())], None),
        ),
    ))
    .unwrap();
}

#[test]
#[should_panic]
fn fail_to_check_due_to_any_type_branch() {
    check_module(&single(
        "f",
        lambda(
            vec![argument("x", Type::any(p()))],
            Type::none(p()),
            if_type(variable("x"), vec![(Type::any(p()), unit())], Some((Some(Type::any(p())), unit()))),
        ),
    ))
    .unwrap();
}

#[test]
#[should_panic]
fn fail_to_check_union_due_to_mismatched_branch_type() {
    check_module(&single(
        "f",
        lambda(
            vec![argument("x", number_or_none())],
            Type::none(p()),
            if_type(variable("x"), vec![(Type::boolean(p()), unit())], Some((Some(number_or_none()), unit()))),
        ),
    ))
    .unwrap();
}

#[test]
fn check_call() {
    check_module(&single(
        "f",
        lambda(vec![], Type::none(p()), call(Type::function(vec![], Type::none(p()), p()), variable("f"), vec![])),
    ))
    .unwrap();
}

#[test]
fn check_call_with_arguments() {
    check_module(&single(
        "f",
        lambda(
            vec![argument("x", Type::none(p()))],
            Type::none(p()),
            call(Type::function(vec![Type::none(p())], Type::none(p()), p()), variable("f"), vec![unit()]),
        ),
    ))
    .unwrap();
}

#[test]
#[should_panic]
fn fail_to_check_call_with_wrong_argument_type() {
    check_module(&single(
        "f",
        lambda(
            vec![argument("x", Type::none(p()))],
            Type::none(p()),
            call(Type::function(vec![Type::none(p())], Type::none(p()), p()), variable("f"), vec![number(42.0)]),
        ),
    ))
    .unwrap();
}

#[test]
#[should_panic]
fn fail_to_check_call_with_wrong_argument_count() {
    check_module(&single(
        "f",
        lambda(
            vec![argument("x", Type::none(p()))],
            Type::none(p()),
            call(Type::function(vec![Type::none(p())], Type::none(p()), p()), variable("f"), vec![]),
        ),
    ))
    .unwrap();
}

#[test]
fn call_with_wrong_argument_count_is_an_argument_count_error() {
    assert_eq!(
        check_module(&single(
            "f",
            lambda(
                vec![argument("x", Type::none(p()))],
                Type::none(p()),
                call(Type::function(vec![Type::none(p())], Type::none(p()), p()), variable("f"), vec![]),
            ),
        )),
        Err(AnalysisError::ArgumentCount(p()))
    );
}

fn addition(type_: Type, lhs: Expression, rhs: Expression) -> Expression {
    Expression::Operation(Operation::Addition { type_: Some(type_), lhs: Box::new(lhs), rhs: Box::new(rhs), position: p() })
}

fn string(text: &str) -> Expression {
    Expression::String { value: text.as_bytes().to_vec(), position: p() }
}

#[test]
fn check_addition_operation_with_numbers() {
    check_module(&single("x", lambda(vec![], Type::number(p()), addition(Type::number(p()), number(1.0), number(2.0))))).unwrap();
}

#[test]
fn check_addition_operation_with_strings() {
    check_module(&single("x", lambda(vec![], Type::string(p()), addition(Type::string(p()), string(""), string(""))))).unwrap();
}

#[test]
fn check_addition_operation_with_nones() {
    assert_eq!(
        check_module(&single("x", lambda(vec![], Type::none(p()), addition(Type::none(p()), unit(), unit())))),
        Err(AnalysisError::InvalidAdditionOperand(p()))
    );
}

#[test]
fn check_arithmetic_operation() {
    check_module(&single(
        "x",
        lambda(
            vec![],
            Type::number(p()),
            Expression::Operation(Operation::Arithmetic {
                operator: ArithmeticOperator::Subtract,
                lhs: Box::new(number(0.0)),
                rhs: Box::new(number(0.0)),
                position: p(),
            }),
        ),
    ))
    .unwrap();
}

fn and(lhs: Expression, rhs: Expression) -> Expression {
    Expression::Operation(Operation::Boolean { operator: BooleanOperator::And, lhs: Box::new(lhs), rhs: Box::new(rhs), position: p() })
}

#[test]
fn check_boolean_operation() {
    check_module(&single("x", lambda(vec![], Type::boolean(p()), and(boolean(true), boolean(true))))).unwrap();
}

#[test]
fn fail_to_check_boolean_operation() {
    assert_eq!(
        check_module(&single("x", lambda(vec![], Type::boolean(p()), and(number(42.0), boolean(true))))),
        Err(not_matched(Type::number(p()), Type::boolean(p())))
    );
}

fn equal(type_: Type, lhs: Expression, rhs: Expression) -> Expression {
    Expression::Operation(Operation::Equality {
        type_: Some(type_),
        operator: EqualityOperator::Equal,
        lhs: Box::new(lhs),
        rhs: Box::new(rhs),
        position: p(),
    })
}

#[test]
fn check_equality_operation() {
    check_module(&single("x", lambda(vec![], Type::boolean(p()), equal(Type::number(p()), number(0.0), number(0.0))))).unwrap();
}

#[test]
fn check_equality_operation_with_subsumption() {
    check_module(&single("x", lambda(vec![], Type::boolean(p()), equal(number_or_none(), unit(), unit())))).unwrap();
}

#[test]
fn check_not_operation() {
    check_module(&single("x", lambda(vec![], Type::boolean(p()), not(boolean(true))))).unwrap();
}

#[test]
fn variable_not_found() {
    assert_eq!(
        check_module(&single("x", lambda(vec![], Type::none(p()), variable("y")))),
        Err(AnalysisError::VariableNotFound("y".to_string(), p()))
    );
}
