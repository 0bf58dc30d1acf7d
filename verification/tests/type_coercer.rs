#![allow(dead_code)]
use hir::ir::{
    Argument, Expression, FunctionDefinition, Lambda, Module, TypeAlias, TypeDefinition,
};
use hir::position::Position;
use hir::types::{RecordField, Type};

fn p() -> Position {
    Position::fake()
}

fn empty_module() -> Module {
    Module {
        type_definitions: vec![],
        type_aliases: vec![],
        foreign_declarations: vec![],
        function_declarations: vec![],
        function_definitions: vec![],
        position: p(),
    }
}

fn module_with_definitions(definitions: Vec<FunctionDefinition>) -> Module {
    Module { function_definitions: definitions, ..empty_module() }
}

fn definition(name: &str, lambda: Lambda<Expression>) -> FunctionDefinition {
    FunctionDefinition {
        name: name.to_string(),
        original_name: name.to_string(),
        lambda,
        foreign_definition_configuration: None,
        is_public: false,
        position: p(),
    }
}

fn lambda(arguments: Vec<Argument>, result_type: Type, body: Expression) -> Lambda<Expression> {
    Lambda { arguments, result_type, body: Box::new(body), position: p() }
}

fn argument(name: &str, type_: Type) -> Argument {
    Argument { name: name.to_string(), type_ }
}

fn type_definition(name: &str, fields: Vec<RecordField>, is_open: bool, is_public: bool, is_external: bool) -> TypeDefinition {
    TypeDefinition {
        name: name.to_string(),
        original_name: name.to_string(),
        fields,
        is_open,
        is_public,
        is_external,
        position: p(),
    }
}

fn type_alias(name: &str, type_: Type) -> TypeAlias {
    TypeAlias {
        name: name.to_string(),
        original_name: name.to_string(),
        type_,
        is_public: false,
        is_external: false,
        position: p(),
    }
}

fn variable(name: &str) -> Expression {
    Expression::Variable { name: name.to_string(), position: p() }
}

fn unit() -> Expression {
    Expression::Unit { position: p() }
}

fn number(value: f64) -> Expression {
    Expression::Number { value: value.to_bits(), position: p() }
}

fn let_(name: Option<&str>, type_: Option<Type>, bound: Expression, body: Expression) -> Expression {
    Expression::Let {
        name: name.map(|name| name.to_string()),
        type_,
        bound_expression: Box::new(bound),
        expression: Box::new(body),
        position: p(),
    }
}

use hir::context::AnalysisContext;
use hir::error::AnalysisError;
use hir::ir::{BuiltInFunctionName, EqualityOperator, ListElement, Operation};
use hir::type_coercer::coerce_types;
use hir::type_collector::{collect, collect_record_fields};

fn coerce_module(module: &Module) -> Result<Module, AnalysisError> {
    coerce_types(&AnalysisContext::new(collect(module), collect_record_fields(module)), module)
}

fn single(lambda_: Lambda<Expression>) -> Module {
    module_with_definitions(vec![definition("f", lambda_)])
}

fn number_or_none() -> Type {
    Type::union(Type::number(p()), Type::none(p()), p())
}

fn coercion(from: Type, to: Type, argument: Expression) -> Expression {
    Expression::TypeCoercion { from, to, argument: Box::new(argument), position: p() }
}

fn boolean(value: bool) -> Expression {
    Expression::Boolean { value, position: p() }
}

#[test]
fn coerce_function_result() {
    assert_eq!(
        coerce_module(&single(lambda(vec![], number_or_none(), unit()))),
        Ok(single(lambda(vec![], number_or_none(), coercion(Type::none(p()), number_or_none(), unit()))))
    );
}

#[test]
fn coerce_function_result_of_variable() {
    assert_eq!(
        coerce_module(&single(lambda(vec![argument("x", Type::none(p()))], number_or_none(), variable("x")))),
        Ok(single(lambda(
            vec![argument("x", Type::none(p()))],
            number_or_none(),
            coercion(Type::none(p()), number_or_none(), variable("x"))
        )))
    );
}

#[test]
fn coerce_built_in_call() {
    let list_type = || Type::list(Type::none(p()), p());
    let module = single(lambda(
        vec![argument("x", list_type())],
        Type::number(p()),
        Expression::Call {
            function_type: Some(Type::function(vec![list_type()], Type::number(p()), p())),
            function: Box::new(Expression::BuiltInFunction { name: BuiltInFunctionName::Size, position: p() }),
            arguments: vec![variable("x")],
            position: p(),
        },
    ));
    assert_eq!(coerce_module(&module), Ok(single(lambda(
        vec![argument("x", list_type())],
        Type::number(p()),
        Expression::Call {
            function_type: Some(Type::function(vec![list_type()], Type::number(p()), p())),
            function: Box::new(Expression::BuiltInFunction { name: BuiltInFunctionName::Size, position: p() }),
            arguments: vec![variable("x")],
            position: p(),
        },
    ))));
}

fn if_(condition: Expression, then: Expression, else_: Expression) -> Expression {
    Expression::If { condition: Box::new(condition), then: Box::new(then), else_: Box::new(else_), position: p() }
}

#[test]
fn coerce_if() {
    assert_eq!(
        coerce_module(&single(lambda(vec![], number_or_none(), if_(boolean(true), number(42.0), unit())))),
        Ok(single(lambda(
            vec![],
            number_or_none(),
            if_(
                boolean(true),
                coercion(Type::number(p()), number_or_none(), number(42.0)),
                coercion(Type::none(p()), number_or_none(), unit()),
            ),
        )))
    );
}

fn if_list(then: Expression, else_: Expression) -> Expression {
    Expression::IfList {
        type_: Some(Type::number(p())),
        list: Box::new(variable("xs")),
        first_name: "x".to_string(),
        rest_name: "xs".to_string(),
        then: Box::new(then),
        else_: Box::new(else_),
        position: p(),
    }
}

fn element_call() -> Expression {
    Expression::Call {
        function_type: Some(Type::function(vec![], Type::number(p()), p())),
        function: Box::new(variable("x")),
        arguments: vec![],
        position: p(),
    }
}

#[test]
fn coerce_if_list() {
    let list_type = || Type::list(Type::number(p()), p());
    assert_eq!(
        coerce_module(&single(lambda(vec![argument("xs", list_type())], number_or_none(), if_list(element_call(), unit())))),
        Ok(single(lambda(
            vec![argument("xs", list_type())],
            number_or_none(),
            if_list(
                coercion(Type::number(p()), number_or_none(), element_call()),
                coercion(Type::none(p()), number_or_none(), unit()),
            ),
        )))
    );
}

#[test]
fn coerce_if_list_with_function_union_type() {
    let list_type = || Type::list(Type::number(p()), p());
    let thunk_type = || Type::function(vec![], Type::number(p()), p());
    let union_type = || Type::union(thunk_type(), Type::none(p()), p());
    assert_eq!(
        coerce_module(&single(lambda(vec![argument("xs", list_type())], union_type(), if_list(variable("x"), unit())))),
        Ok(single(lambda(
            vec![argument("xs", list_type())],
            union_type(),
            if_list(
                coercion(thunk_type(), union_type(), variable("x")),
                coercion(Type::none(p()), union_type(), unit()),
            ),
        )))
    );
}

fn if_map(key_type: Type, key: Expression, then: Expression, else_: Expression) -> Expression {
    Expression::IfMap {
        key_type: Some(key_type),
        value_type: Some(Type::number(p())),
        name: "x".to_string(),
        map: Box::new(variable("xs")),
        key: Box::new(key),
        then: Box::new(then),
        else_: Box::new(else_),
        position: p(),
    }
}

#[test]
fn coerce_if_map() {
    let map_type = || Type::map(Type::boolean(p()), Type::number(p()), p());
    assert_eq!(
        coerce_module(&single(lambda(
            vec![argument("xs", map_type())],
            number_or_none(),
            if_map(Type::boolean(p()), boolean(true), variable("x"), unit()),
        ))),
        Ok(single(lambda(
            vec![argument("xs", map_type())],
            number_or_none(),
            if_map(
                Type::boolean(p()),
                boolean(true),
                coercion(Type::number(p()), number_or_none(), variable("x")),
                coercion(Type::none(p()), number_or_none(), unit()),
            ),
        )))
    );
}

#[test]
fn coerce_key_in_if_map() {
    let key_type = || Type::union(Type::boolean(p()), Type::none(p()), p());
    let map_type = || Type::map(key_type(), Type::number(p()), p());
    assert_eq!(
        coerce_module(&single(lambda(
            vec![argument("xs", map_type())],
            Type::none(p()),
            if_map(key_type(), boolean(true), unit(), unit()),
        ))),
        Ok(single(lambda(
            vec![argument("xs", map_type())],
            Type::none(p()),
            if_map(key_type(), coercion(Type::boolean(p()), key_type(), boolean(true)), unit(), unit()),
        )))
    );
}

#[test]
fn coerce_equality_operation() {
    let equality = |lhs: Expression, rhs: Expression| {
        Expression::Operation(Operation::Equality {
            type_: Some(number_or_none()),
            operator: EqualityOperator::Equal,
            lhs: Box::new(lhs),
            rhs: Box::new(rhs),
            position: p(),
        })
    };
    assert_eq!(
        coerce_module(&single(lambda(vec![], Type::boolean(p()), equality(number(42.0), unit())))),
        Ok(single(lambda(
            vec![],
            Type::boolean(p()),
            equality(
                coercion(Type::number(p()), number_or_none(), number(42.0)),
                coercion(Type::none(p()), number_or_none(), unit()),
            ),
        )))
    );
}

#[test]
fn coerce_thunk() {
    let thunk = |body: Expression| Expression::Thunk { type_: Some(number_or_none()), expression: Box::new(body), position: p() };
    let thunk_type = || Type::function(vec![], number_or_none(), p());
    assert_eq!(
        coerce_module(&single(lambda(vec![], thunk_type(), thunk(number(42.0))))),
        Ok(single(lambda(vec![], thunk_type(), thunk(coercion(Type::number(p()), number_or_none(), number(42.0))))))
    );
}

#[test]
fn coerce_single_element_in_list() {
    let list = |element: Expression| Expression::List {
        type_: number_or_none(),
        elements: vec![ListElement::Single(element)],
        position: p(),
    };
    let list_type = || Type::list(number_or_none(), p());
    assert_eq!(
        coerce_module(&single(lambda(vec![], list_type(), list(number(42.0))))),
        Ok(single(lambda(vec![], list_type(), list(coercion(Type::number(p()), number_or_none(), number(42.0))))))
    );
}

#[test]
fn coerce_multiple_element_in_list() {
    let list = |element: Expression| Expression::List {
        type_: number_or_none(),
        elements: vec![ListElement::Multiple(element)],
        position: p(),
    };
    let list_type = || Type::list(number_or_none(), p());
    assert_eq!(
        coerce_module(&single(lambda(vec![argument("xs", Type::list(Type::number(p()), p()))], list_type(), list(variable("xs"))))),
        Ok(single(lambda(
            vec![argument("xs", Type::list(Type::number(p()), p()))],
            list_type(),
            list(coercion(Type::list(Type::number(p()), p()), list_type(), variable("xs"))),
        )))
    );
}

#[test]
fn coercion_of_a_checked_module_keeps_equal_types() {
    let module = single(lambda(vec![argument("x", Type::number(p()))], Type::number(p()), variable("x")));
    assert_eq!(coerce_module(&module), Ok(single(lambda(vec![argument("x", Type::number(p()))], Type::number(p()), variable("x")))));
}

#[test]
fn coercion_fails_on_uninferred_thunk() {
    let module = single(lambda(
        vec![],
        Type::function(vec![], Type::none(p()), p()),
        Expression::Thunk { type_: None, expression: Box::new(unit()), position: p() },
    ));
    assert_eq!(coerce_module(&module), Err(AnalysisError::TypeNotInferred(p())));
}

use hir::ir::{
    ElseBranch, IfTypeBranch, ListComprehensionBranch, ListComprehensionIteratee, MapElement, MapEntry,
    RecordFieldValue,
};

#[test]
fn coerce_if_type() {
    let if_type = |branch: Expression, else_: Expression| Expression::IfType {
        name: "y".to_string(),
        argument: Box::new(variable("x")),
        branches: vec![IfTypeBranch { type_: Type::number(p()), expression: branch }],
        else_: Some(Box::new(ElseBranch { type_: Some(Type::none(p())), expression: else_, position: p() })),
        position: p(),
    };
    assert_eq!(
        coerce_module(&single(lambda(
            vec![argument("x", number_or_none())],
            number_or_none(),
            if_type(variable("y"), unit()),
        ))),
        Ok(single(lambda(
            vec![argument("x", number_or_none())],
            number_or_none(),
            if_type(
                coercion(Type::number(p()), number_or_none(), variable("y")),
                coercion(Type::none(p()), number_or_none(), unit()),
            ),
        )))
    );
}

fn record_module(lambda_: Lambda<Expression>) -> Module {
    Module {
        type_definitions: vec![type_definition("r", vec![RecordField::new("x", number_or_none())], false, false, false)],
        ..single(lambda_)
    }
}

fn record_type() -> Type {
    Type::record("r", "r", p())
}

fn field_x(expression: Expression) -> Vec<RecordFieldValue<Expression>> {
    vec![RecordFieldValue { name: "x".to_string(), expression, position: p() }]
}

#[test]
fn coerce_record_construction() {
    let construction = |value: Expression| Expression::RecordConstruction {
        type_: record_type(),
        fields: field_x(value),
        position: p(),
    };
    assert_eq!(
        coerce_module(&record_module(lambda(vec![], record_type(), construction(unit())))),
        Ok(record_module(lambda(
            vec![],
            record_type(),
            construction(coercion(Type::none(p()), number_or_none(), unit())),
        )))
    );
}

#[test]
fn coerce_record_update() {
    let update = |value: Expression| Expression::RecordUpdate {
        type_: record_type(),
        record: Box::new(variable("r")),
        fields: field_x(value),
        position: p(),
    };
    assert_eq!(
        coerce_module(&record_module(lambda(vec![argument("r", record_type())], record_type(), update(unit())))),
        Ok(record_module(lambda(
            vec![argument("r", record_type())],
            record_type(),
            update(coercion(Type::none(p()), number_or_none(), unit())),
        )))
    );
}

fn none_list_type() -> Type {
    Type::list(Type::none(p()), p())
}

fn empty_none_list() -> Expression {
    Expression::List { type_: Type::none(p()), elements: vec![], position: p() }
}

fn comprehension(element_type: Type, element: Expression, condition: Option<Expression>) -> Expression {
    Expression::ListComprehension {
        type_: element_type,
        element: Box::new(element),
        branches: vec![ListComprehensionBranch {
            names: vec!["x".to_string()],
            iteratees: vec![ListComprehensionIteratee {
                type_: Some(none_list_type()),
                expression: empty_none_list(),
                position: p(),
            }],
            condition,
            position: p(),
        }],
        position: p(),
    }
}

#[test]
fn coerce_output_element() {
    let output_type = Type::list(number_or_none(), p());
    assert_eq!(
        coerce_module(&single(lambda(vec![], output_type.clone(), comprehension(number_or_none(), unit(), None)))),
        Ok(single(lambda(
            vec![],
            output_type,
            comprehension(number_or_none(), coercion(Type::none(p()), number_or_none(), unit()), None),
        )))
    );
}

#[test]
fn coerce_input_element() {
    let output_type = Type::list(number_or_none(), p());
    let call_x = || Expression::Call {
        function_type: Some(Type::function(vec![], Type::none(p()), p())),
        function: Box::new(variable("x")),
        arguments: vec![],
        position: p(),
    };
    assert_eq!(
        coerce_module(&single(lambda(vec![], output_type.clone(), comprehension(number_or_none(), call_x(), None)))),
        Ok(single(lambda(
            vec![],
            output_type,
            comprehension(number_or_none(), coercion(Type::none(p()), number_or_none(), call_x()), None),
        )))
    );
}

#[test]
fn coerce_condition() {
    let equal = |rhs: Expression| Expression::Operation(Operation::Equality {
        type_: Some(number_or_none()),
        operator: EqualityOperator::Equal,
        lhs: Box::new(variable("a")),
        rhs: Box::new(rhs),
        position: p(),
    });
    assert_eq!(
        coerce_module(&single(lambda(
            vec![argument("a", number_or_none())],
            none_list_type(),
            comprehension(Type::none(p()), unit(), Some(equal(unit()))),
        ))),
        Ok(single(lambda(
            vec![argument("a", number_or_none())],
            none_list_type(),
            comprehension(
                Type::none(p()),
                unit(),
                Some(equal(coercion(Type::none(p()), number_or_none(), unit()))),
            ),
        )))
    );
}

fn mapping(key_type: Type, value_type: Type, elements: Vec<MapElement<Expression>>) -> Expression {
    Expression::Mapping { key_type, value_type, elements, position: p() }
}

fn entry(key: Expression, value: Expression) -> MapElement<Expression> {
    MapElement::Single(MapEntry { key, value, position: p() })
}

#[test]
fn coerce_key() {
    let map_type = Type::map(number_or_none(), Type::none(p()), p());
    assert_eq!(
        coerce_module(&single(lambda(
            vec![],
            map_type.clone(),
            mapping(number_or_none(), Type::none(p()), vec![entry(unit(), unit())]),
        ))),
        Ok(single(lambda(
            vec![],
            map_type,
            mapping(
                number_or_none(),
                Type::none(p()),
                vec![entry(coercion(Type::none(p()), number_or_none(), unit()), unit())],
            ),
        )))
    );
}

#[test]
fn coerce_value() {
    let map_type = Type::map(Type::none(p()), number_or_none(), p());
    assert_eq!(
        coerce_module(&single(lambda(
            vec![],
            map_type.clone(),
            mapping(Type::none(p()), number_or_none(), vec![entry(unit(), unit())]),
        ))),
        Ok(single(lambda(
            vec![],
            map_type,
            mapping(
                Type::none(p()),
                number_or_none(),
                vec![entry(unit(), coercion(Type::none(p()), number_or_none(), unit()))],
            ),
        )))
    );
}

fn coerce_map_of(key_type: Type, value_type: Type) {
    let from_map_type = Type::map(Type::none(p()), Type::none(p()), p());
    let to_map_type = Type::map(key_type.clone(), value_type.clone(), p());
    assert_eq!(
        coerce_module(&single(lambda(
            vec![argument("x", from_map_type.clone())],
            to_map_type.clone(),
            mapping(key_type.clone(), value_type.clone(), vec![MapElement::Multiple(variable("x"))]),
        ))),
        Ok(single(lambda(
            vec![argument("x", from_map_type.clone())],
            to_map_type.clone(),
            mapping(
                key_type,
                value_type,
                vec![MapElement::Multiple(coercion(from_map_type, to_map_type, variable("x")))],
            ),
        )))
    );
}

#[test]
fn coerce_map_keys() {
    coerce_map_of(number_or_none(), Type::none(p()));
}

#[test]
fn coerce_map_values() {
    coerce_map_of(Type::none(p()), number_or_none());
}
