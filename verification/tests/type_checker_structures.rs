#![allow(dead_code)]
use hir::ir::{
    Argument, Expression, FunctionDefinition, Lambda, Module, TypeAlias, TypeDefinition,
};
use hir::position::Position;
use hir::types::{RecordField, Type};

fn p() -> Position {
    Position::fake()
}

fn empty_module() -> Module {
    Module {
        type_definitions: vec![],
        type_aliases: vec![],
        foreign_declarations: vec![],
        function_declarations: vec![],
        function_definitions: vec![],
        position: p(),
    }
}

fn module_with_definitions(definitions: Vec<FunctionDefinition>) -> Module {
    Module { function_definitions: definitions, ..empty_module() }
}

fn definition(name: &str, lambda: Lambda<Expression>) -> FunctionDefinition {
    FunctionDefinition {
        name: name.to_string(),
        original_name: name.to_string(),
        lambda,
        foreign_definition_configuration: None,
        is_public: false,
        position: p(),
    }
}

fn lambda(arguments: Vec<Argument>, result_type: Type, body: Expression) -> Lambda<Expression> {
    Lambda { arguments, result_type, body: Box::new(body), position: p() }
}

fn argument(name: &str, type_: Type) -> Argument {
    Argument { name: name.to_string(), type_ }
}

fn type_definition(name: &str, fields: Vec<RecordField>, is_open: bool, is_public: bool, is_external: bool) -> TypeDefinition {
    TypeDefinition {
        name: name.to_string(),
        original_name: name.to_string(),
        fields,
        is_open,
        is_public,
        is_external,
        position: p(),
    }
}

fn type_alias(name: &str, type_: Type) -> TypeAlias {
    TypeAlias {
        name: name.to_string(),
        original_name: name.to_string(),
        type_,
        is_public: false,
        is_external: false,
        position: p(),
    }
}

fn variable(name: &str) -> Expression {
    Expression::Variable { name: name.to_string(), position: p() }
}

fn unit() -> Expression {
    Expression::Unit { position: p() }
}

fn number(value: f64) -> Expression {
    Expression::Number { value: value.to_bits(), position: p() }
}

fn let_(name: Option<&str>, type_: Option<Type>, bound: Expression, body: Expression) -> Expression {
    Expression::Let {
        name: name.map(|name| name.to_string()),
        type_,
        bound_expression: Box::new(bound),
        expression: Box::new(body),
        position: p(),
    }
}


use hir::context::AnalysisContext;
use hir::error::AnalysisError;
use hir::ir::{
    ArithmeticOperator, BuiltInFunctionName, ListComprehensionBranch, ListComprehensionIteratee, ListElement,
    MapElement, MapEntry, Operation, OrderOperator, RecordFieldValue,
};
use hir::type_checker::check_types;
use hir::type_collector::{collect, collect_record_fields};

fn check_module(module: &Module) -> Result<(), AnalysisError> {
    check_types(&AnalysisContext::new(collect(module), collect_record_fields(module)), module)
}

fn single(name: &str, lambda_: Lambda<Expression>) -> Module {
    module_with_definitions(vec![definition(name, lambda_)])
}

fn not_matched(lower: Type, upper: Type) -> AnalysisError {
    AnalysisError::TypesNotMatched(p(), lower, p(), upper)
}

fn boolean(value: bool) -> Expression {
    Expression::Boolean { value, position: p() }
}

fn string(text: &str) -> Expression {
    Expression::String { value: text.as_bytes().to_vec(), position: p() }
}

fn call(function_type: Type, function: Expression, arguments: Vec<Expression>) -> Expression {
    Expression::Call { function_type: Some(function_type), function: Box::new(function), arguments, position: p() }
}

fn built_in(name: BuiltInFunctionName) -> Expression {
    Expression::BuiltInFunction { name, position: p() }
}

fn thunk_type(result: Type) -> Type {
    Type::function(vec![], result, p())
}

fn none_list() -> Type {
    Type::list(Type::none(p()), p())
}

fn none_map() -> Type {
    Type::map(Type::none(p()), Type::none(p()), p())
}

fn boolean_none_map() -> Type {
    Type::map(Type::boolean(p()), Type::none(p()), p())
}

fn number_or_none() -> Type {
    Type::union(Type::number(p()), Type::none(p()), p())
}

fn none_or_error() -> Type {
    Type::union(Type::none(p()), Type::error(p()), p())
}

fn equal(type_: Type, lhs: Expression, rhs: Expression) -> Expression {
    Expression::Operation(Operation::Equality {
        type_: Some(type_),
        operator: hir::ir::EqualityOperator::Equal,
        lhs: Box::new(lhs),
        rhs: Box::new(rhs),
        position: p(),
    })
}

fn try_(type_: Type, operand: Expression) -> Expression {
    Expression::Operation(Operation::Try { type_: Some(type_), expression: Box::new(operand), position: p() })
}

fn list(element_type: Type, elements: Vec<ListElement<Expression>>) -> Expression {
    Expression::List { type_: element_type, elements, position: p() }
}

fn mapping(elements: Vec<MapElement<Expression>>) -> Expression {
    Expression::Mapping { key_type: Type::none(p()), value_type: Type::none(p()), elements, position: p() }
}

fn entry(key: Expression, value: Expression) -> MapElement<Expression> {
    MapElement::Single(MapEntry { key, value, position: p() })
}

fn iteratee(type_: Type, expression: Expression) -> ListComprehensionIteratee<Expression> {
    ListComprehensionIteratee { type_: Some(type_), expression, position: p() }
}

fn comprehension(
    element: Expression,
    names: Vec<&str>,
    iteratees: Vec<ListComprehensionIteratee<Expression>>,
    condition: Option<Expression>,
) -> Expression {
    Expression::ListComprehension {
        type_: Type::none(p()),
        element: Box::new(element),
        branches: vec![ListComprehensionBranch {
            names: names.into_iter().map(|name| name.to_string()).collect(),
            iteratees,
            condition,
            position: p(),
        }],
        position: p(),
    }
}

fn call_x() -> Expression {
    call(thunk_type(Type::none(p())), variable("x"), vec![])
}

fn if_list(then: Expression, else_: Expression) -> Expression {
    Expression::IfList {
        type_: Some(Type::none(p())),
        list: Box::new(variable("x")),
        first_name: "y".to_string(),
        rest_name: "ys".to_string(),
        then: Box::new(then),
        else_: Box::new(else_),
        position: p(),
    }
}

fn if_map(key: Expression, then: Expression, else_: Expression) -> Expression {
    Expression::IfMap {
        key_type: Some(Type::boolean(p())),
        value_type: Some(Type::none(p())),
        name: "y".to_string(),
        map: Box::new(variable("x")),
        key: Box::new(key),
        then: Box::new(then),
        else_: Box::new(else_),
        position: p(),
    }
}

fn coercion(from: Type, to: Type, argument: Expression) -> Expression {
    Expression::TypeCoercion { from, to, argument: Box::new(argument), position: p() }
}

fn record_module(fields: Vec<RecordField>, lambda_: Lambda<Expression>) -> Module {
    Module {
        type_definitions: vec![type_definition("r", fields, false, false, false)],
        ..single("x", lambda_)
    }
}

fn none_field() -> Vec<RecordField> {
    vec![RecordField::new("x", Type::none(p()))]
}

fn field_value(name: &str, expression: Expression) -> RecordFieldValue<Expression> {
    RecordFieldValue { name: name.to_string(), expression, position: p() }
}

fn construction(fields: Vec<RecordFieldValue<Expression>>) -> Expression {
    Expression::RecordConstruction { type_: Type::reference("r", p()), fields, position: p() }
}

fn deconstruction(field_name: &str) -> Expression {
    Expression::RecordDeconstruction {
        type_: Some(Type::reference("r", p())),
        record: Box::new(variable("x")),
        field_name: field_name.to_string(),
        position: p(),
    }
}

#[test]
fn fail_to_check_equality_operation() {
    assert_eq!(
        check_module(&single("x", lambda(vec![], Type::boolean(p()), equal(number_or_none(), number(42.0), unit())))),
        Err(not_matched(Type::number(p()), Type::none(p())))
    );
}

#[test]
fn check_order_operation() {
    check_module(&single(
        "x",
        lambda(
            vec![],
            Type::boolean(p()),
            Expression::Operation(Operation::Order {
                operator: OrderOperator::LessThan,
                lhs: Box::new(number(0.0)),
                rhs: Box::new(number(0.0)),
                position: p(),
            }),
        ),
    ))
    .unwrap();
}

#[test]
fn check_try_operation() {
    check_module(&single(
        "f",
        lambda(vec![argument("x", none_or_error())], none_or_error(), try_(Type::none(p()), variable("x"))),
    ))
    .unwrap();
}

#[test]
fn check_try_operation_with_number() {
    let union_type = Type::union(Type::number(p()), Type::error(p()), p());
    check_module(&single(
        "f",
        lambda(
            vec![argument("x", union_type.clone())],
            union_type,
            Expression::Operation(Operation::Arithmetic {
                operator: ArithmeticOperator::Subtract,
                lhs: Box::new(try_(Type::number(p()), variable("x"))),
                rhs: Box::new(number(42.0)),
                position: p(),
            }),
        ),
    ))
    .unwrap();
}

#[test]
fn fail_to_check_try_operation_with_any() {
    check_module(&single(
        "f",
        lambda(vec![argument("x", Type::any(p()))], Type::any(p()), try_(Type::any(p()), variable("x"))),
    ))
    .unwrap();
}

#[test]
fn fail_to_check_try_operation_with_wrong_success_type() {
    assert_eq!(
        check_module(&single(
            "f",
            lambda(vec![argument("x", none_or_error())], none_or_error(), try_(Type::number(p()), variable("x"))),
        )),
        Err(not_matched(Type::number(p()), none_or_error()))
    );
}

#[test]
fn fail_to_check_try_operation_with_wrong_operand_type() {
    assert_eq!(
        check_module(&single(
            "f",
            lambda(vec![argument("x", Type::none(p()))], none_or_error(), try_(Type::number(p()), variable("x"))),
        )),
        Err(not_matched(Type::error(p()), Type::none(p())))
    );
}

#[test]
fn check_record() {
    let module = record_module(
        none_field(),
        lambda(vec![], Type::reference("r", p()), construction(vec![field_value("x", unit())])),
    );
    assert_eq!(check_module(&module), Ok(()));
}

#[test]
fn fail_to_check_record_with_missing_field() {
    let module = record_module(none_field(), lambda(vec![], Type::reference("r", p()), construction(vec![])));
    assert!(matches!(check_module(&module), Err(AnalysisError::RecordFieldNotFound(_, _))));
}

#[test]
fn fail_to_check_record_with_unknown_field() {
    let module = record_module(
        vec![],
        lambda(vec![], Type::reference("r", p()), construction(vec![field_value("x", unit())])),
    );
    assert!(matches!(check_module(&module), Err(AnalysisError::UnknownRecordField(_))));
}

#[test]
fn check_record_update() {
    let module = record_module(
        none_field(),
        lambda(
            vec![argument("x", Type::reference("r", p()))],
            Type::reference("r", p()),
            Expression::RecordUpdate {
                type_: Type::reference("r", p()),
                record: Box::new(variable("x")),
                fields: vec![field_value("x", unit())],
                position: p(),
            },
        ),
    );
    assert_eq!(check_module(&module), Ok(()));
}

#[test]
fn check_record_deconstruction() {
    let module = record_module(
        none_field(),
        lambda(vec![argument("x", Type::reference("r", p()))], Type::none(p()), deconstruction("x")),
    );
    assert_eq!(check_module(&module), Ok(()));
}

#[test]
fn fail_to_check_record_deconstruction_due_to_unknown_field() {
    let module = record_module(
        none_field(),
        lambda(vec![argument("x", Type::reference("r", p()))], Type::none(p()), deconstruction("y")),
    );
    assert_eq!(check_module(&module), Err(AnalysisError::UnknownRecordField(p())));
}

#[test]
fn fail_to_check_different_records() {
    let module = Module {
        type_definitions: vec![
            type_definition("r1", vec![], false, false, false),
            type_definition("r2", vec![], false, false, false),
        ],
        ..single("x", lambda(vec![argument("x", Type::reference("r1", p()))], Type::reference("r2", p()), variable("x")))
    };
    assert_eq!(
        check_module(&module),
        Err(not_matched(Type::reference("r1", p()), Type::reference("r2", p())))
    );
}

#[test]
fn check_list_with_single_element() {
    check_module(&single("x", lambda(vec![], none_list(), list(Type::none(p()), vec![ListElement::Single(unit())]))))
        .unwrap();
}

#[test]
fn check_list_with_multiple_element() {
    check_module(&single(
        "x",
        lambda(
            vec![argument("x", none_list())],
            none_list(),
            list(Type::none(p()), vec![ListElement::Multiple(variable("x"))]),
        ),
    ))
    .unwrap();
}

#[test]
fn fail_to_check_list_with_single_element() {
    assert_eq!(
        check_module(&single(
            "x",
            lambda(vec![], none_list(), list(Type::none(p()), vec![ListElement::Single(number(42.0))])),
        )),
        Err(not_matched(Type::number(p()), Type::none(p())))
    );
}

#[test]
fn fail_to_check_list_with_multiple_element() {
    assert_eq!(
        check_module(&single(
            "x",
            lambda(
                vec![argument("x", Type::list(Type::number(p()), p()))],
                none_list(),
                list(Type::none(p()), vec![ListElement::Multiple(variable("x"))]),
            ),
        )),
        Err(not_matched(Type::number(p()), Type::none(p())))
    );
}

#[test]
fn check_list_with_single_element_of_union() {
    check_module(&single(
        "x",
        lambda(vec![], Type::list(number_or_none(), p()), list(number_or_none(), vec![ListElement::Single(unit())])),
    ))
    .unwrap();
}

#[test]
fn check_list_with_multiple_element_of_union() {
    check_module(&single(
        "x",
        lambda(
            vec![argument("x", none_list())],
            Type::list(number_or_none(), p()),
            list(number_or_none(), vec![ListElement::Multiple(variable("x"))]),
        ),
    ))
    .unwrap();
}

#[test]
fn check_list_comprehension() {
    check_module(&single(
        "f",
        lambda(
            vec![],
            none_list(),
            comprehension(call_x(), vec!["x"], vec![iteratee(none_list(), list(Type::none(p()), vec![]))], None),
        ),
    ))
    .unwrap();
}

#[test]
fn check_iteratee() {
    assert_eq!(
        check_module(&single(
            "f",
            lambda(
                vec![],
                none_list(),
                comprehension(
                    call_x(),
                    vec!["x"],
                    vec![iteratee(none_list(), list(Type::none(p()), vec![ListElement::Single(number(42.0))]))],
                    None,
                ),
            ),
        )),
        Err(not_matched(Type::number(p()), Type::none(p())))
    );
}

#[test]
fn check_condition() {
    assert_eq!(
        check_module(&single(
            "f",
            lambda(
                vec![],
                none_list(),
                comprehension(
                    unit(),
                    vec!["x"],
                    vec![iteratee(none_list(), list(Type::none(p()), vec![]))],
                    Some(unit()),
                ),
            ),
        )),
        Err(not_matched(Type::none(p()), Type::boolean(p())))
    );
}

#[test]
fn check_parallel() {
    assert_eq!(
        check_module(&single(
            "f",
            lambda(
                vec![],
                none_list(),
                comprehension(
                    call_x(),
                    vec!["x", "y"],
                    vec![
                        iteratee(none_list(), list(Type::none(p()), vec![])),
                        iteratee(none_list(), list(Type::none(p()), vec![ListElement::Single(number(42.0))])),
                    ],
                    None,
                ),
            ),
        )),
        Err(not_matched(Type::number(p()), Type::none(p())))
    );
}

#[test]
fn check_iteratee_count() {
    assert_eq!(
        check_module(&single(
            "f",
            lambda(
                vec![],
                none_list(),
                comprehension(
                    call_x(),
                    vec!["x"],
                    vec![
                        iteratee(none_list(), list(Type::none(p()), vec![])),
                        iteratee(none_list(), list(Type::none(p()), vec![])),
                    ],
                    None,
                ),
            ),
        )),
        Err(AnalysisError::ListComprehensionIterateeCount(p()))
    );
}

#[test]
fn check_no_element() {
    assert_eq!(check_module(&single("x", lambda(vec![], none_map(), mapping(vec![])))), Ok(()));
}

#[test]
fn check_single_element() {
    assert_eq!(check_module(&single("x", lambda(vec![], none_map(), mapping(vec![entry(unit(), unit())])))), Ok(()));
}

#[test]
fn fail_to_check_key_type() {
    assert_eq!(
        check_module(&single("x", lambda(vec![], none_map(), mapping(vec![entry(number(42.0), unit())])))),
        Err(not_matched(Type::number(p()), Type::none(p())))
    );
}

#[test]
fn fail_to_check_value_type() {
    assert_eq!(
        check_module(&single("x", lambda(vec![], none_map(), mapping(vec![entry(unit(), number(42.0))])))),
        Err(not_matched(Type::number(p()), Type::none(p())))
    );
}

#[test]
fn check_multiple_elements() {
    assert_eq!(
        check_module(&single(
            "x",
            lambda(vec![argument("x", none_map())], none_map(), mapping(vec![MapElement::Multiple(variable("x"))])),
        )),
        Ok(())
    );
}

#[test]
fn check_multiple_elements_with_wrong_key_type() {
    assert_eq!(
        check_module(&single(
            "x",
            lambda(
                vec![argument("x", Type::map(Type::number(p()), Type::none(p()), p()))],
                none_map(),
                mapping(vec![MapElement::Multiple(variable("x"))]),
            ),
        )),
        Err(not_matched(Type::number(p()), Type::none(p())))
    );
}

#[test]
fn check_multiple_elements_with_wrong_value_type() {
    assert_eq!(
        check_module(&single(
            "x",
            lambda(
                vec![argument("x", Type::map(Type::none(p()), Type::number(p()), p()))],
                none_map(),
                mapping(vec![MapElement::Multiple(variable("x"))]),
            ),
        )),
        Err(not_matched(Type::number(p()), Type::none(p())))
    );
}

#[test]
fn check_first_variable() {
    check_module(&single(
        "x",
        lambda(
            vec![argument("x", none_list())],
            Type::none(p()),
            if_list(call(thunk_type(Type::none(p())), variable("y"), vec![]), unit()),
        ),
    ))
    .unwrap();
}

#[test]
fn check_rest_variable() {
    check_module(&single(
        "x",
        lambda(vec![argument("x", none_list())], none_list(), if_list(variable("ys"), variable("x"))),
    ))
    .unwrap();
}

#[test]
fn type_checker_check_union_type_result() {
    check_module(&single(
        "x",
        lambda(
            vec![argument("x", none_list())],
            Type::union(Type::none(p()), Type::number(p()), p()),
            if_list(call(thunk_type(Type::none(p())), variable("y"), vec![]), number(42.0)),
        ),
    ))
    .unwrap();
}

#[test]
fn fail_to_check_argument() {
    assert_eq!(
        check_module(&single(
            "x",
            lambda(vec![argument("x", Type::list(Type::number(p()), p()))], Type::none(p()), if_list(unit(), unit())),
        )),
        Err(not_matched(Type::list(Type::number(p()), p()), none_list()))
    );
}

#[test]
fn type_checker_fail_to_check_result() {
    assert_eq!(
        check_module(&single(
            "x",
            lambda(vec![argument("x", none_list())], Type::none(p()), if_list(variable("y"), number(42.0))),
        )),
        Err(not_matched(
            Type::union(thunk_type(Type::none(p())), Type::number(p()), p()),
            Type::none(p())
        ))
    );
}

#[test]
fn check_if_map() {
    check_module(&single(
        "x",
        lambda(vec![argument("x", boolean_none_map())], Type::none(p()), if_map(boolean(true), variable("y"), unit())),
    ))
    .unwrap();
}

#[test]
fn if_map_check_union_type_result() {
    check_module(&single(
        "x",
        lambda(
            vec![argument("x", boolean_none_map())],
            number_or_none(),
            if_map(boolean(true), variable("y"), number(42.0)),
        ),
    ))
    .unwrap();
}

#[test]
fn fail_to_check_map() {
    let wrong_map_type = Type::map(Type::number(p()), Type::none(p()), p());
    assert_eq!(
        check_module(&single(
            "x",
            lambda(vec![argument("x", wrong_map_type.clone())], Type::none(p()), if_map(boolean(true), unit(), unit())),
        )),
        Err(not_matched(wrong_map_type, boolean_none_map()))
    );
}

#[test]
fn fail_to_check_key() {
    assert_eq!(
        check_module(&single(
            "x",
            lambda(vec![argument("x", boolean_none_map())], Type::none(p()), if_map(number(42.0), unit(), unit())),
        )),
        Err(not_matched(Type::number(p()), Type::boolean(p())))
    );
}

#[test]
fn if_map_fail_to_check_result() {
    assert_eq!(
        check_module(&single(
            "x",
            lambda(vec![argument("x", boolean_none_map())], Type::none(p()), if_map(boolean(true), number(42.0), unit())),
        )),
        Err(not_matched(number_or_none(), Type::none(p())))
    );
}

#[test]
fn check_union() {
    check_module(&single("x", lambda(vec![], number_or_none(), coercion(Type::none(p()), number_or_none(), unit()))))
        .unwrap();
}

#[test]
fn check_any() {
    check_module(&single("x", lambda(vec![], Type::any(p()), coercion(Type::none(p()), Type::any(p()), unit()))))
        .unwrap();
}

#[test]
fn type_checker_check_list() {
    let any_list = Type::list(Type::any(p()), p());
    check_module(&single(
        "x",
        lambda(vec![argument("x", none_list())], any_list.clone(), coercion(none_list(), any_list, variable("x"))),
    ))
    .unwrap();
}

#[test]
fn type_checker_check_map() {
    let union_map = Type::map(
        Type::union(Type::string(p()), Type::none(p()), p()),
        number_or_none(),
        p(),
    );
    check_module(&single(
        "x",
        lambda(vec![argument("x", none_map())], union_map.clone(), coercion(none_map(), union_map, variable("x"))),
    ))
    .unwrap();
}

fn string_number_map() -> Type {
    Type::map(Type::string(p()), Type::number(p()), p())
}

#[test]
fn check_delete() {
    check_module(&single(
        "f",
        lambda(
            vec![argument("x", string_number_map())],
            string_number_map(),
            call(
                Type::function(vec![string_number_map(), Type::string(p())], string_number_map(), p()),
                built_in(BuiltInFunctionName::Delete),
                vec![variable("x"), string("")],
            ),
        ),
    ))
    .unwrap();
}

#[test]
fn check_key() {
    assert!(matches!(
        check_module(&single(
            "f",
            lambda(
                vec![argument("x", string_number_map())],
                string_number_map(),
                call(
                    Type::function(vec![string_number_map(), Type::none(p())], string_number_map(), p()),
                    built_in(BuiltInFunctionName::Delete),
                    vec![variable("x"), string("")],
                ),
            ),
        )),
        Err(AnalysisError::TypesNotMatched(_, _, _, _))
    ));
}

#[test]
fn check_result() {
    assert!(matches!(
        check_module(&single(
            "f",
            lambda(
                vec![argument("x", string_number_map())],
                Type::none(p()),
                call(
                    Type::function(vec![string_number_map(), Type::string(p())], Type::none(p()), p()),
                    built_in(BuiltInFunctionName::Delete),
                    vec![variable("x"), string("")],
                ),
            ),
        )),
        Err(AnalysisError::TypesNotMatched(_, _, _, _))
    ));
}

#[test]
fn size_check_list() {
    check_module(&single(
        "x",
        lambda(
            vec![argument("x", none_list())],
            Type::number(p()),
            call(
                Type::function(vec![none_list()], Type::number(p()), p()),
                built_in(BuiltInFunctionName::Size),
                vec![variable("x")],
            ),
        ),
    ))
    .unwrap();
}

#[test]
fn size_check_map() {
    check_module(&single(
        "x",
        lambda(
            vec![argument("x", none_map())],
            Type::number(p()),
            call(
                Type::function(vec![none_map()], Type::number(p()), p()),
                built_in(BuiltInFunctionName::Size),
                vec![variable("x")],
            ),
        ),
    ))
    .unwrap();
}

#[test]
fn fail_to_check_none() {
    assert!(matches!(
        check_module(&single(
            "x",
            lambda(
                vec![argument("x", Type::none(p()))],
                Type::number(p()),
                call(
                    Type::function(vec![Type::none(p())], Type::number(p()), p()),
                    built_in(BuiltInFunctionName::Size),
                    vec![variable("x")],
                ),
            ),
        )),
        Err(AnalysisError::CollectionExpected(_, _))
    ));
}

#[test]
fn check_spawn() {
    let function_type = thunk_type(Type::none(p()));
    check_module(&single(
        "x",
        lambda(
            vec![],
            function_type.clone(),
            call(
                Type::function(vec![function_type.clone()], function_type, p()),
                built_in(BuiltInFunctionName::Spawn),
                vec![Expression::Lambda(lambda(vec![], Type::none(p()), unit()))],
            ),
        ),
    ))
    .unwrap();
}

#[test]
fn fail_to_check_with_argument() {
    let function_type = Type::function(vec![Type::none(p())], Type::none(p()), p());
    assert!(matches!(
        check_module(&single(
            "x",
            lambda(
                vec![],
                function_type.clone(),
                call(
                    Type::function(vec![function_type.clone()], function_type, p()),
                    built_in(BuiltInFunctionName::Spawn),
                    vec![Expression::Lambda(lambda(vec![argument("x", Type::none(p()))], Type::none(p()), unit()))],
                ),
            ),
        )),
        Err(AnalysisError::SpawnedFunctionArguments(_))
    ));
}
