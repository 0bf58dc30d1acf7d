#![allow(dead_code)]
use hir::ir::{
    Argument, Expression, FunctionDefinition, Lambda, Module, TypeAlias, TypeDefinition,
};
use hir::position::Position;
use hir::types::{RecordField, Type};

fn p() -> Position {
    Position::fake()
}

fn empty_module() -> Module {
    Module {
        type_definitions: vec![],
        type_aliases: vec![],
        foreign_declarations: vec![],
        function_declarations: vec![],
        function_definitions: vec![],
        position: p(),
    }
}

fn module_with_definitions(definitions: Vec<FunctionDefinition>) -> Module {
    Module { function_definitions: definitions, ..empty_module() }
}

fn definition(name: &str, lambda: Lambda<Expression>) -> FunctionDefinition {
    FunctionDefinition {
        name: name.to_string(),
        original_name: name.to_string(),
        lambda,
        foreign_definition_configuration: None,
        is_public: false,
        position: p(),
    }
}

fn lambda(arguments: Vec<Argument>, result_type: Type, body: Expression) -> Lambda<Expression> {
    Lambda { arguments, result_type, body: Box::new(body), position: p() }
}

fn argument(name: &str, type_: Type) -> Argument {
    Argument { name: name.to_string(), type_ }
}

fn type_definition(name: &str, fields: Vec<RecordField>, is_open: bool, is_public: bool, is_external: bool) -> TypeDefinition {
    TypeDefinition {
        name: name.to_string(),
        original_name: name.to_string(),
        fields,
        is_open,
        is_public,
        is_external,
        position: p(),
    }
}

fn type_alias(name: &str, type_: Type) -> TypeAlias {
    TypeAlias {
        name: name.to_string(),
        original_name: name.to_string(),
        type_,
        is_public: false,
        is_external: false,
        position: p(),
    }
}

fn variable(name: &str) -> Expression {
    Expression::Variable { name: name.to_string(), position: p() }
}

fn unit() -> Expression {
    Expression::Unit { position: p() }
}

fn number(value: f64) -> Expression {
    Expression::Number { value: value.to_bits(), position: p() }
}

fn let_(name: Option<&str>, type_: Option<Type>, bound: Expression, body: Expression) -> Expression {
    Expression::Let {
        name: name.map(|name| name.to_string()),
        type_,
        bound_expression: Box::new(bound),
        expression: Box::new(body),
        position: p(),
    }
}

use hir::analysis::analyze;
use hir::context::AnalysisContext;
use hir::error::AnalysisError;
use hir::ir::{
    BuiltInFunctionName, ElseBranch, EqualityOperator, FunctionDeclaration, IfTypeBranch, ListComprehensionBranch,
    ListComprehensionIteratee, Operation,
};
use hir::type_collector::{collect, collect_record_fields};
use hir::type_inferrer::infer;

fn context_of(module: &Module) -> AnalysisContext {
    AnalysisContext::new(collect(module), collect_record_fields(module))
}

fn infer_module(module: &Module) -> Result<Module, AnalysisError> {
    infer(&context_of(module), module)
}

fn single(name: &str, lambda_: Lambda<Expression>) -> Module {
    module_with_definitions(vec![definition(name, lambda_)])
}

fn call(function_type: Option<Type>, function: Expression, arguments: Vec<Expression>) -> Expression {
    Expression::Call { function_type, function: Box::new(function), arguments, position: p() }
}

fn built_in(name: BuiltInFunctionName) -> Expression {
    Expression::BuiltInFunction { name, position: p() }
}

#[test]
fn infer_empty_module() {
    infer_module(&empty_module()).unwrap();
}

#[test]
fn infer_call() {
    assert_eq!(
        infer_module(&single("x", lambda(vec![], Type::none(p()), call(None, variable("x"), vec![])))),
        Ok(single(
            "x",
            lambda(
                vec![],
                Type::none(p()),
                call(Some(Type::function(vec![], Type::none(p()), p())), variable("x"), vec![]),
            )
        ))
    );
}

#[test]
fn infer_equality_operation() {
    let equality = |type_: Option<Type>| {
        Expression::Operation(Operation::Equality {
            type_,
            operator: EqualityOperator::Equal,
            lhs: Box::new(unit()),
            rhs: Box::new(unit()),
            position: p(),
        })
    };
    assert_eq!(
        infer_module(&single("x", lambda(vec![], Type::none(p()), equality(None)))),
        Ok(single(
            "x",
            lambda(vec![], Type::none(p()), equality(Some(Type::union(Type::none(p()), Type::none(p()), p()))))
        ))
    );
}

#[test]
fn infer_let() {
    assert_eq!(
        infer_module(&single("x", lambda(vec![], Type::none(p()), let_(Some("x"), None, unit(), variable("x"))))),
        Ok(single("x", lambda(vec![], Type::none(p()), let_(Some("x"), Some(Type::none(p())), unit(), variable("x")))))
    );
}

#[test]
fn infer_let_with_call() {
    let declaration = || FunctionDeclaration {
        name: "f".to_string(),
        type_: Type::function(vec![], Type::none(p()), p()),
        position: p(),
    };
    let module = |type_: Option<Type>, function_type: Option<Type>| Module {
        function_declarations: vec![declaration()],
        ..single("x", lambda(vec![], Type::none(p()), let_(Some("x"), type_, call(function_type, variable("f"), vec![]), variable("x"))))
    };
    assert_eq!(
        infer_module(&module(None, None)),
        Ok(module(Some(Type::none(p())), Some(Type::function(vec![], Type::none(p()), p()))))
    );
}

#[test]
fn type_inferrer_infer() {
    let element_type = || Type::none(p());
    let list_type = || Type::list(element_type(), p());
    let comprehension = |let_type: Option<Type>, call_type: Option<Type>, iteratee_type: Option<Type>| {
        Expression::ListComprehension {
            type_: element_type(),
            element: Box::new(let_(Some("y"), let_type, call(call_type, variable("x"), vec![]), variable("y"))),
            branches: vec![ListComprehensionBranch {
                names: vec!["x".to_string()],
                iteratees: vec![ListComprehensionIteratee {
                    type_: iteratee_type,
                    expression: Expression::List { type_: element_type(), elements: vec![], position: p() },
                    position: p(),
                }],
                condition: None,
                position: p(),
            }],
            position: p(),
        }
    };
    assert_eq!(
        infer_module(&single("f", lambda(vec![], list_type(), comprehension(None, None, None)))),
        Ok(single(
            "f",
            lambda(
                vec![],
                list_type(),
                comprehension(
                    Some(element_type()),
                    Some(Type::function(vec![], element_type(), p())),
                    Some(list_type()),
                ),
            )
        ))
    );
}

#[test]
fn type_inferrer_check_overridden_function_declaration() {
    let module = |function_type: Option<Type>| Module {
        function_declarations: vec![FunctionDeclaration {
            name: "f".to_string(),
            type_: Type::function(vec![Type::number(p())], Type::number(p()), p()),
            position: p(),
        }],
        ..single("f", lambda(vec![], Type::none(p()), call(function_type, variable("f"), vec![])))
    };
    assert_eq!(infer_module(&module(None)), Ok(module(Some(Type::function(vec![], Type::none(p()), p())))));
}

#[test]
fn infer_thunk() {
    let thunk = |type_: Option<Type>| Expression::Thunk { type_, expression: Box::new(unit()), position: p() };
    assert_eq!(
        infer_module(&single("x", lambda(vec![], Type::function(vec![], Type::none(p()), p()), thunk(None)))),
        Ok(single("x", lambda(vec![], Type::function(vec![], Type::none(p()), p()), thunk(Some(Type::none(p()))))))
    );
}

#[test]
fn infer_record_deconstruction() {
    let record_type = || Type::record("r", "r", p());
    let deconstruction = |type_: Option<Type>| Expression::RecordDeconstruction {
        type_,
        record: Box::new(variable("x")),
        field_name: "f".to_string(),
        position: p(),
    };
    let module = |type_: Option<Type>| Module {
        type_definitions: vec![type_definition("r", vec![RecordField::new("f", Type::none(p()))], false, false, false)],
        ..single("x", lambda(vec![argument("x", record_type())], Type::none(p()), deconstruction(type_)))
    };
    assert_eq!(infer_module(&module(None)), Ok(module(Some(record_type()))));
}

fn if_type(name: &str, argument_type: Type, else_type: Option<Type>, else_expression: Expression) -> Module {
    single(
        "x",
        lambda(
            vec![argument("x", argument_type)],
            Type::none(p()),
            Expression::IfType {
                name: name.to_string(),
                argument: Box::new(variable("x")),
                branches: vec![IfTypeBranch { type_: Type::number(p()), expression: unit() }],
                else_: Some(Box::new(ElseBranch { type_: else_type, expression: else_expression, position: p() })),
                position: p(),
            },
        ),
    )
}

#[test]
fn infer_else_branch_type_of_none() {
    let union_type = || Type::union(Type::number(p()), Type::none(p()), p());
    assert_eq!(
        infer_module(&if_type("x", union_type(), None, unit())),
        Ok(if_type("x", union_type(), Some(Type::none(p())), unit()))
    );
}

#[test]
fn infer_else_branch_type_of_any() {
    assert_eq!(
        infer_module(&if_type("x", Type::any(p()), None, unit())),
        Ok(if_type("x", Type::any(p()), Some(Type::any(p())), unit()))
    );
}

#[test]
fn fail_to_infer_else_branch_type_due_to_unreachable_code() {
    assert_eq!(
        infer_module(&if_type("x", Type::number(p()), None, unit())),
        Err(AnalysisError::UnreachableCode(p()))
    );
}

#[test]
fn infer_else_branch_type_with_bound_variable() {
    let union_type = || Type::union(Type::number(p()), Type::none(p()), p());
    assert_eq!(
        infer_module(&if_type("y", union_type(), None, variable("y"))),
        Ok(if_type("y", union_type(), Some(Type::none(p())), variable("y")))
    );
}

fn built_in_module(
    name: BuiltInFunctionName,
    arguments: Vec<Argument>,
    result_type: Type,
    call_arguments: Vec<Expression>,
    function_type: Option<Type>,
) -> Module {
    single("f", lambda(arguments, result_type, call(function_type, built_in(name), call_arguments)))
}

#[test]
fn infer_size() {
    let list_type = || Type::list(Type::none(p()), p());
    let module = |function_type| {
        built_in_module(BuiltInFunctionName::Size, vec![argument("x", list_type())], Type::number(p()), vec![variable("x")], function_type)
    };
    assert_eq!(
        infer_module(&module(None)),
        Ok(module(Some(Type::function(vec![list_type()], Type::number(p()), p()))))
    );
}

#[test]
fn infer_reflect_equal() {
    let result_type = || Type::union(Type::boolean(p()), Type::none(p()), p());
    let module = |function_type| {
        built_in_module(BuiltInFunctionName::ReflectEqual, vec![], result_type(), vec![unit(), unit()], function_type)
    };
    assert_eq!(
        infer_module(&module(None)),
        Ok(module(Some(Type::function(vec![Type::any(p()), Type::any(p())], result_type(), p()))))
    );
}

#[test]
fn infer_debug() {
    let module = |function_type| built_in_module(BuiltInFunctionName::Debug, vec![], Type::none(p()), vec![unit()], function_type);
    assert_eq!(
        infer_module(&module(None)),
        Ok(module(Some(Type::function(vec![Type::any(p())], Type::none(p()), p()))))
    );
}

#[test]
fn infer_reflect_debug() {
    let module = |function_type| built_in_module(BuiltInFunctionName::ReflectDebug, vec![], Type::string(p()), vec![unit()], function_type);
    assert_eq!(
        infer_module(&module(None)),
        Ok(module(Some(Type::function(vec![Type::any(p())], Type::string(p()), p()))))
    );
}

#[test]
fn infer_spawn() {
    let function_type = || Type::function(vec![], Type::none(p()), p());
    let module = |type_| {
        built_in_module(
            BuiltInFunctionName::Spawn,
            vec![],
            function_type(),
            vec![Expression::Lambda(lambda(vec![], Type::none(p()), unit()))],
            type_,
        )
    };
    assert_eq!(
        infer_module(&module(None)),
        Ok(module(Some(Type::function(vec![function_type()], function_type(), p()))))
    );
}

#[test]
fn infer_race() {
    let list_type = || Type::list(Type::list(Type::none(p()), p()), p());
    let module = |type_| {
        built_in_module(BuiltInFunctionName::Race, vec![argument("x", list_type())], Type::list(Type::none(p()), p()), vec![variable("x")], type_)
    };
    assert_eq!(
        infer_module(&module(None)),
        Ok(module(Some(Type::function(vec![list_type()], Type::list(Type::none(p()), p()), p()))))
    );
}

#[test]
fn infer_delete() {
    let map_type = || Type::map(Type::string(p()), Type::number(p()), p());
    let module = |type_| {
        built_in_module(
            BuiltInFunctionName::Delete,
            vec![argument("x", map_type())],
            map_type(),
            vec![variable("x"), Expression::String { value: vec![], position: p() }],
            type_,
        )
    };
    assert_eq!(
        infer_module(&module(None)),
        Ok(module(Some(Type::function(vec![map_type(), Type::string(p())], map_type(), p()))))
    );
}

#[test]
fn infer_delete_without_arguments_is_an_argument_count_error() {
    let module = built_in_module(BuiltInFunctionName::Delete, vec![], Type::none(p()), vec![], None);
    assert_eq!(infer_module(&module), Err(AnalysisError::ArgumentCount(p())));
}

#[test]
fn fail_to_infer_with_error() {
    let try_ = Expression::Operation(Operation::Try { type_: None, expression: Box::new(variable("x")), position: p() });
    let module = single("f", lambda(vec![argument("x", Type::error(p()))], Type::error(p()), try_));
    assert_eq!(infer_module(&module), Err(AnalysisError::UnionExpected(p(), Type::error(p()))));
}

#[test]
fn infer_try_operation() {
    let try_ = |type_| Expression::Operation(Operation::Try { type_, expression: Box::new(variable("x")), position: p() });
    let union_type = || Type::union(Type::number(p()), Type::error(p()), p());
    let module = |type_| single("f", lambda(vec![argument("x", union_type())], union_type(), try_(type_)));
    assert_eq!(infer_module(&module(None)), Ok(module(Some(Type::number(p())))));
}

#[test]
fn analyze_simple_module() {
    let union_type = || Type::union(Type::number(p()), Type::none(p()), p());
    let module = single("f", lambda(vec![argument("x", Type::number(p()))], union_type(), variable("x")));
    assert_eq!(
        analyze(&context_of(&module), &module),
        Ok(single(
            "f",
            lambda(
                vec![argument("x", Type::number(p()))],
                union_type(),
                Expression::TypeCoercion {
                    from: Type::number(p()),
                    to: union_type(),
                    argument: Box::new(variable("x")),
                    position: p(),
                },
            )
        ))
    );
}

#[test]
fn analyze_reports_duplicate_function_names_first() {
    let module = module_with_definitions(vec![
        definition("f", lambda(vec![], Type::number(p()), unit())),
        definition("f", lambda(vec![], Type::none(p()), unit())),
    ]);
    assert_eq!(
        analyze(&context_of(&module), &module),
        Err(AnalysisError::DuplicateFunctionNames(p(), p()))
    );
}

#[test]
fn analyze_reports_type_mismatch() {
    let module = single("f", lambda(vec![], Type::number(p()), unit()));
    assert_eq!(
        analyze(&context_of(&module), &module),
        Err(AnalysisError::TypesNotMatched(p(), Type::none(p()), p(), Type::number(p())))
    );
}

#[test]
fn analyze_reports_missing_type() {
    let module = single("f", lambda(vec![], Type::reference("t", p()), unit()));
    assert_eq!(
        analyze(&context_of(&module), &module),
        Err(AnalysisError::TypeNotFound(Type::reference("t", p())))
    );
}

use hir::ir::MapElement;

fn comprehension_branch(name: &str, type_: Option<Type>, iteratee: Expression, condition: Option<Expression>) -> ListComprehensionBranch<Expression> {
    ListComprehensionBranch {
        names: vec![name.to_string()],
        iteratees: vec![ListComprehensionIteratee { type_, expression: iteratee, position: p() }],
        condition,
        position: p(),
    }
}

fn list_comprehension(element_type: Type, element: Expression, branches: Vec<ListComprehensionBranch<Expression>>) -> Expression {
    Expression::ListComprehension { type_: element_type, element: Box::new(element), branches, position: p() }
}

fn empty_list(element_type: Type) -> Expression {
    Expression::List { type_: element_type, elements: vec![], position: p() }
}

#[test]
fn infer_two_branches() {
    let element_type = || Type::none(p());
    let list_type = || Type::list(element_type(), p());
    let nested_list_type = || Type::list(list_type(), p());
    let comprehension = |inferred: bool| {
        let some = |type_: Type| if inferred { Some(type_) } else { None };
        list_comprehension(
            element_type(),
            let_(
                Some("y"),
                some(element_type()),
                call(some(Type::function(vec![], element_type(), p())), variable("x"), vec![]),
                variable("y"),
            ),
            vec![
                comprehension_branch("xs", some(nested_list_type()), empty_list(list_type()), None),
                comprehension_branch(
                    "x",
                    some(list_type()),
                    call(some(Type::function(vec![], list_type(), p())), variable("xs"), vec![]),
                    None,
                ),
            ],
        )
    };
    assert_eq!(
        infer_module(&single("f", lambda(vec![], list_type(), comprehension(false)))),
        Ok(single("f", lambda(vec![], list_type(), comprehension(true))))
    );
}

#[test]
fn infer_condition() {
    let list_type = || Type::list(Type::boolean(p()), p());
    let comprehension = |inferred: bool| {
        let some = |type_: Type| if inferred { Some(type_) } else { None };
        list_comprehension(
            Type::none(p()),
            unit(),
            vec![comprehension_branch(
                "x",
                some(list_type()),
                empty_list(Type::boolean(p())),
                Some(let_(
                    Some("y"),
                    some(Type::boolean(p())),
                    call(some(Type::function(vec![], Type::boolean(p()), p())), variable("x"), vec![]),
                    variable("y"),
                )),
            )],
        )
    };
    assert_eq!(
        infer_module(&single("f", lambda(vec![], list_type(), comprehension(false)))),
        Ok(single("f", lambda(vec![], list_type(), comprehension(true))))
    );
}

#[test]
fn infer_map_iteratee() {
    let map_type = || Type::map(Type::none(p()), Type::none(p()), p());
    let list_type = || Type::list(Type::none(p()), p());
    let empty_map = || Expression::Mapping {
        key_type: Type::none(p()),
        value_type: Type::none(p()),
        elements: Vec::<MapElement<Expression>>::new(),
        position: p(),
    };
    let comprehension = |inferred: bool| {
        let some = |type_: Type| if inferred { Some(type_) } else { None };
        list_comprehension(
            Type::none(p()),
            let_(Some("x"), some(Type::none(p())), variable("k"), variable("x")),
            vec![comprehension_branch("k", some(map_type()), empty_map(), None)],
        )
    };
    assert_eq!(
        infer_module(&single("f", lambda(vec![], list_type(), comprehension(false)))),
        Ok(single("f", lambda(vec![], list_type(), comprehension(true))))
    );
}

#[test]
fn infer_else_branch_type_of_union() {
    let union_type = || {
        Type::union(Type::union(Type::number(p()), Type::boolean(p()), p()), Type::none(p()), p())
    };
    assert_eq!(
        infer_module(&if_type("x", union_type(), None, unit())),
        Ok(if_type("x", union_type(), Some(Type::union(Type::boolean(p()), Type::none(p()), p())), unit()))
    );
}

fn if_list_module(inferred: bool, bound: &str, bound_type: Type) -> Module {
    let some = |type_: Type| if inferred { Some(type_) } else { None };
    single(
        "f",
        lambda(
            vec![argument("x", Type::list(Type::none(p()), p()))],
            Type::none(p()),
            Expression::IfList {
                type_: some(Type::none(p())),
                list: Box::new(variable("x")),
                first_name: "y".to_string(),
                rest_name: "ys".to_string(),
                then: Box::new(let_(Some("z"), some(bound_type), variable(bound), variable("z"))),
                else_: Box::new(unit()),
                position: p(),
            },
        ),
    )
}

#[test]
fn infer_with_first_name_in_let() {
    let thunk = || Type::function(vec![], Type::none(p()), p());
    assert_eq!(infer_module(&if_list_module(false, "y", thunk())), Ok(if_list_module(true, "y", thunk())));
}

#[test]
fn infer_with_rest_name_in_let() {
    let list_type = || Type::list(Type::none(p()), p());
    assert_eq!(infer_module(&if_list_module(false, "ys", list_type())), Ok(if_list_module(true, "ys", list_type())));
}

#[test]
fn infer_with_name() {
    let map_type = || Type::map(Type::boolean(p()), Type::none(p()), p());
    let module = |inferred: bool| {
        let some = |type_: Type| if inferred { Some(type_) } else { None };
        single(
            "f",
            lambda(
                vec![argument("x", map_type())],
                Type::none(p()),
                Expression::IfMap {
                    key_type: some(Type::boolean(p())),
                    value_type: some(Type::none(p())),
                    name: "y".to_string(),
                    map: Box::new(variable("x")),
                    key: Box::new(Expression::Boolean { value: true, position: p() }),
                    then: Box::new(let_(Some("z"), some(Type::none(p())), variable("y"), variable("z"))),
                    else_: Box::new(unit()),
                    position: p(),
                },
            ),
        )
    };
    assert_eq!(infer_module(&module(false)), Ok(module(true)));
}

#[test]
fn infer_delete_key_from_key_argument() {
    let map_type = || Type::map(Type::union(Type::string(p()), Type::none(p()), p()), Type::number(p()), p());
    let module = |type_| {
        built_in_module(
            BuiltInFunctionName::Delete,
            vec![],
            map_type(),
            vec![
                Expression::Mapping {
                    key_type: Type::union(Type::string(p()), Type::none(p()), p()),
                    value_type: Type::number(p()),
                    elements: vec![],
                    position: p(),
                },
                unit(),
            ],
            type_,
        )
    };
    assert_eq!(
        infer_module(&module(None)),
        Ok(module(Some(Type::function(vec![map_type(), Type::none(p())], map_type(), p()))))
    );
}
