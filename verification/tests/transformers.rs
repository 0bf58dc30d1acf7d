#![allow(dead_code)]
use hir::ir::{
    Argument, Expression, FunctionDefinition, Lambda, Module, TypeAlias, TypeDefinition,
};
use hir::position::Position;
use hir::types::{RecordField, Type};

fn p() -> Position {
    Position::fake()
}

fn empty_module() -> Module {
    Module {
        type_definitions: vec![],
        type_aliases: vec![],
        foreign_declarations: vec![],
        function_declarations: vec![],
        function_definitions: vec![],
        position: p(),
    }
}

fn module_with_definitions(definitions: Vec<FunctionDefinition>) -> Module {
    Module { function_definitions: definitions, ..empty_module() }
}

fn definition(name: &str, lambda: Lambda<Expression>) -> FunctionDefinition {
    FunctionDefinition {
        name: name.to_string(),
        original_name: name.to_string(),
        lambda,
        foreign_definition_configuration: None,
        is_public: false,
        position: p(),
    }
}

fn lambda(arguments: Vec<Argument>, result_type: Type, body: Expression) -> Lambda<Expression> {
    Lambda { arguments, result_type, body: Box::new(body), position: p() }
}

fn argument(name: &str, type_: Type) -> Argument {
    Argument { name: name.to_string(), type_ }
}

fn type_definition(name: &str, fields: Vec<RecordField>, is_open: bool, is_public: bool, is_external: bool) -> TypeDefinition {
    TypeDefinition {
        name: name.to_string(),
        original_name: name.to_string(),
        fields,
        is_open,
        is_public,
        is_external,
        position: p(),
    }
}

fn type_alias(name: &str, type_: Type) -> TypeAlias {
    TypeAlias {
        name: name.to_string(),
        original_name: name.to_string(),
        type_,
        is_public: false,
        is_external: false,
        position: p(),
    }
}

fn variable(name: &str) -> Expression {
    Expression::Variable { name: name.to_string(), position: p() }
}

fn unit() -> Expression {
    Expression::Unit { position: p() }
}

fn number(value: f64) -> Expression {
    Expression::Number { value: value.to_bits(), position: p() }
}

fn let_(name: Option<&str>, type_: Option<Type>, bound: Expression, body: Expression) -> Expression {
    Expression::Let {
        name: name.map(|name| name.to_string()),
        type_,
        bound_expression: Box::new(bound),
        expression: Box::new(body),
        position: p(),
    }
}

use hir::ir::{ListComprehensionBranch, ListComprehensionIteratee};
use hir::tables::NameMap;

fn rename_x_to(new_name: &'static str, old_name: &'static str) -> impl Fn(&String, &Position) -> Expression {
    move |name: &String, position: &Position| {
        if name == old_name {
            Expression::Variable { name: new_name.to_string(), position: position.copy() }
        } else {
            Expression::Variable { name: name.clone(), position: position.copy() }
        }
    }
}

fn single_definition(lambda_: Lambda<Expression>) -> Module {
    module_with_definitions(vec![definition("x", lambda_)])
}

fn comprehension(element_type: Type, element: Expression, branches: Vec<ListComprehensionBranch<Expression>>) -> Expression {
    Expression::ListComprehension { type_: element_type, element: Box::new(element), branches, position: p() }
}

fn branch(names: Vec<&str>, iteratees: Vec<Expression>, condition: Option<Expression>) -> ListComprehensionBranch<Expression> {
    ListComprehensionBranch {
        names: names.into_iter().map(|name| name.to_string()).collect(),
        iteratees: iteratees
            .into_iter()
            .map(|expression| ListComprehensionIteratee { type_: None, expression, position: p() })
            .collect(),
        condition,
        position: p(),
    }
}

#[test]
fn built_in_type_transformer_transform_empty_module() {
    assert_eq!(hir::built_in_type_transformer::transform(&empty_module()), empty_module());
}

#[test]
fn built_in_type_transformer_transform_function_result_type() {
    assert_eq!(
        hir::built_in_type_transformer::transform(&single_definition(lambda(vec![], Type::reference("none", p()), unit()))),
        single_definition(lambda(vec![], Type::none(p()), unit()))
    );
}

#[test]
fn transform_function_argument_type() {
    assert_eq!(
        hir::built_in_type_transformer::transform(&single_definition(lambda(
            vec![argument("y", Type::reference("none", p()))],
            Type::reference("foo", p()),
            unit()
        ))),
        single_definition(lambda(vec![argument("y", Type::none(p()))], Type::reference("foo", p()), unit()))
    );
}

#[test]
fn transform_record_field() {
    let module = |type_: Type| Module {
        type_definitions: vec![type_definition("x", vec![RecordField::new("x", type_)], false, false, false)],
        ..empty_module()
    };
    assert_eq!(
        hir::built_in_type_transformer::transform(&module(Type::reference("none", p()))),
        module(Type::none(p()))
    );
}

#[test]
fn transform_all_built_in_type_names() {
    let names = ["any", "boolean", "error", "none", "number", "string"];
    let expected = [Type::any(p()), Type::boolean(p()), Type::error(p()), Type::none(p()), Type::number(p()), Type::string(p())];
    for (name, expected) in names.iter().zip(expected) {
        assert_eq!(
            hir::built_in_type_transformer::transform(&single_definition(lambda(vec![], Type::reference(name, p()), unit()))),
            single_definition(lambda(vec![], expected, unit()))
        );
    }
}

#[test]
fn built_in_variable_transformer_transform_empty_module() {
    assert_eq!(hir::built_in_variable_transformer::transform(&empty_module()), empty_module());
}

#[test]
fn built_in_variable_transformer_transform_function_result_type() {
    assert_eq!(
        hir::built_in_variable_transformer::transform(&single_definition(lambda(vec![], Type::none(p()), variable("none")))),
        single_definition(lambda(vec![], Type::none(p()), unit()))
    );
}

#[test]
fn built_in_variable_transformer_keeps_other_variables() {
    let module = single_definition(lambda(vec![], Type::none(p()), variable("foo")));
    assert_eq!(hir::built_in_variable_transformer::transform(&module), module);
    assert_eq!(
        hir::built_in_variable_transformer::transform(&single_definition(lambda(vec![], Type::boolean(p()), variable("true")))),
        single_definition(lambda(vec![], Type::boolean(p()), Expression::Boolean { value: true, position: p() }))
    );
}

#[test]
fn variable_transformer_transform_variable() {
    assert_eq!(
        hir::variable_transformer::transform(
            &single_definition(lambda(vec![], Type::none(p()), variable("x"))),
            &rename_x_to("y", "x")
        ),
        single_definition(lambda(vec![], Type::none(p()), variable("y")))
    );
}

#[test]
fn variable_transformer_do_not_transform_variable_shadowed_by_argument() {
    let module = single_definition(lambda(vec![argument("x", Type::none(p()))], Type::none(p()), variable("x")));
    assert_eq!(hir::variable_transformer::transform(&module, &rename_x_to("y", "x")), module);
}

#[test]
fn variable_transformer_do_not_transform_variable_shadowed_by_statement() {
    let module = single_definition(lambda(vec![], Type::none(p()), let_(Some("x"), None, unit(), variable("x"))));
    assert_eq!(hir::variable_transformer::transform(&module, &rename_x_to("y", "x")), module);
}

#[test]
fn variable_transformer_do_not_transform_shadowed_variable_in_let() {
    let module = single_definition(lambda(vec![], Type::none(p()), let_(Some("x"), None, unit(), variable("x"))));
    assert_eq!(hir::variable_transformer::transform(&module, &rename_x_to("y", "x")), module);
}

#[test]
fn transform_shadowed_variable_in_iteratee() {
    let module = |name: &str| {
        single_definition(lambda(
            vec![],
            Type::none(p()),
            comprehension(Type::number(p()), variable("x"), vec![branch(vec!["x"], vec![variable(name)], None)]),
        ))
    };
    assert_eq!(hir::variable_transformer::transform(&module("x"), &rename_x_to("y", "x")), module("y"));
}

#[test]
fn transform_variable_in_condition() {
    let module = |name: &str| {
        single_definition(lambda(
            vec![],
            Type::none(p()),
            comprehension(
                Type::number(p()),
                variable("x"),
                vec![branch(vec!["x"], vec![variable("xs")], Some(variable(name)))],
            ),
        ))
    };
    assert_eq!(hir::variable_transformer::transform(&module("a"), &rename_x_to("b", "a")), module("b"));
}

#[test]
fn transform_shadowed_variable_in_condition() {
    let module = single_definition(lambda(
        vec![],
        Type::none(p()),
        comprehension(
            Type::number(p()),
            variable("x"),
            vec![branch(vec!["x"], vec![variable("xs")], Some(variable("x")))],
        ),
    ));
    assert_eq!(hir::variable_transformer::transform(&module, &rename_x_to("y", "x")), module);
}

#[test]
fn transform_shadowed_primary_name() {
    let module = single_definition(lambda(
        vec![],
        Type::none(p()),
        comprehension(Type::none(p()), variable("x"), vec![branch(vec!["x"], vec![variable("xs")], None)]),
    ));
    assert_eq!(hir::variable_transformer::transform(&module, &rename_x_to("y", "x")), module);
}

#[test]
fn transform_shadowed_secondary_name() {
    let module = single_definition(lambda(
        vec![],
        Type::none(p()),
        comprehension(Type::number(p()), variable("v"), vec![branch(vec!["k", "v"], vec![variable("xs")], None)]),
    ));
    assert_eq!(hir::variable_transformer::transform(&module, &rename_x_to("x", "v")), module);
}

#[test]
fn transform_variable_shadowed_by_second_branch() {
    let module = single_definition(lambda(
        vec![],
        Type::none(p()),
        comprehension(
            Type::number(p()),
            variable("y"),
            vec![branch(vec!["x"], vec![variable("xs")], None), branch(vec!["y"], vec![variable("x")], None)],
        ),
    ));
    assert_eq!(hir::variable_transformer::transform(&module, &rename_x_to("z", "y")), module);
}

fn names_x_to_foo_x() -> NameMap {
    let mut names = NameMap::new();
    names.insert("x".to_string(), "foo.x".to_string());
    names
}

#[test]
fn rename_variable() {
    assert_eq!(
        hir::variable_renamer::rename(&single_definition(lambda(vec![], Type::none(p()), variable("x"))), &names_x_to_foo_x()),
        single_definition(lambda(vec![], Type::none(p()), variable("foo.x")))
    );
}

#[test]
fn do_not_rename_variable_shadowed_by_argument() {
    let module = single_definition(lambda(vec![argument("x", Type::none(p()))], Type::none(p()), variable("x")));
    assert_eq!(hir::variable_renamer::rename(&module, &names_x_to_foo_x()), module);
}

#[test]
fn do_not_rename_variable_shadowed_by_statement() {
    let module = single_definition(lambda(vec![], Type::none(p()), let_(Some("x"), None, unit(), variable("x"))));
    assert_eq!(hir::variable_renamer::rename(&module, &names_x_to_foo_x()), module);
}

#[test]
fn do_not_rename_shadowed_variable_in_let() {
    let module = single_definition(lambda(vec![], Type::none(p()), let_(Some("x"), None, unit(), variable("x"))));
    assert_eq!(hir::variable_renamer::rename(&module, &names_x_to_foo_x()), module);
}

#[test]
fn rename_variable_in_bound_expression_of_let() {
    let module = single_definition(lambda(vec![], Type::none(p()), let_(Some("x"), None, variable("x"), variable("x"))));
    assert_eq!(
        hir::variable_renamer::rename(&module, &names_x_to_foo_x()),
        single_definition(lambda(vec![], Type::none(p()), let_(Some("x"), None, variable("foo.x"), variable("x"))))
    );
}

fn qualified_definition(module: &Module) -> &FunctionDefinition {
    &module.function_definitions[0]
}

#[test]
fn definition_qualifier_qualify_definition() {
    let qualified = hir::definition_qualifier::qualify(&single_definition(lambda(vec![], Type::none(p()), unit())), "foo.");
    assert_eq!(qualified_definition(&qualified).name, "foo.x");
    assert_eq!(qualified_definition(&qualified).lambda, lambda(vec![], Type::none(p()), unit()));
}

#[test]
fn definition_qualifier_qualify_variable() {
    let qualified = hir::definition_qualifier::qualify(&single_definition(lambda(vec![], Type::none(p()), variable("x"))), "foo.");
    assert_eq!(qualified_definition(&qualified).name, "foo.x");
    assert_eq!(qualified_definition(&qualified).lambda, lambda(vec![], Type::none(p()), variable("foo.x")));
}

#[test]
fn definition_qualifier_do_not_qualify_variable_shadowed_by_argument() {
    let qualified = hir::definition_qualifier::qualify(
        &single_definition(lambda(vec![argument("x", Type::none(p()))], Type::none(p()), variable("x"))),
        "foo.",
    );
    assert_eq!(qualified_definition(&qualified).name, "foo.x");
    assert_eq!(
        qualified_definition(&qualified).lambda,
        lambda(vec![argument("x", Type::none(p()))], Type::none(p()), variable("x"))
    );
}

#[test]
fn definition_qualifier_do_not_qualify_variable_shadowed_by_statement() {
    let body = || let_(Some("x"), None, unit(), variable("x"));
    let qualified = hir::definition_qualifier::qualify(&single_definition(lambda(vec![], Type::none(p()), body())), "foo.");
    assert_eq!(qualified_definition(&qualified).name, "foo.x");
    assert_eq!(qualified_definition(&qualified).lambda, lambda(vec![], Type::none(p()), body()));
}

#[test]
fn function_definition_qualifier_qualify_definition() {
    let qualified = hir::definition_qualifier::qualify(&single_definition(lambda(vec![], Type::none(p()), unit())), "foo.");
    assert_eq!(qualified_definition(&qualified).name, "foo.x");
}

#[test]
fn function_definition_qualifier_qualify_variable() {
    let qualified = hir::definition_qualifier::qualify(&single_definition(lambda(vec![], Type::none(p()), variable("x"))), "foo.");
    assert_eq!(qualified_definition(&qualified).lambda.body, Box::new(variable("foo.x")));
}

#[test]
fn function_definition_qualifier_do_not_qualify_variable_shadowed_by_argument() {
    let qualified = hir::definition_qualifier::qualify(
        &single_definition(lambda(vec![argument("x", Type::none(p()))], Type::none(p()), variable("x"))),
        "foo.",
    );
    assert_eq!(qualified_definition(&qualified).lambda.body, Box::new(variable("x")));
}

#[test]
fn function_definition_qualifier_do_not_qualify_variable_shadowed_by_statement() {
    let qualified = hir::definition_qualifier::qualify(
        &single_definition(lambda(vec![], Type::none(p()), let_(Some("x"), None, unit(), variable("x")))),
        "foo.",
    );
    assert_eq!(
        qualified_definition(&qualified).lambda.body,
        Box::new(let_(Some("x"), None, unit(), variable("x")))
    );
}

#[test]
fn qualify_type_definition() {
    let qualified = hir::type_qualifier::qualify(
        &Module { type_definitions: vec![type_definition("x", vec![], false, false, false)], ..empty_module() },
        "foo.",
    );
    assert_eq!(
        qualified,
        Module {
            type_definitions: vec![TypeDefinition { name: "foo.x".to_string(), ..type_definition("x", vec![], false, false, false) }],
            ..empty_module()
        }
    );
}

#[test]
fn qualify_type_definition_recursively() {
    let qualified = hir::type_qualifier::qualify(
        &Module {
            type_definitions: vec![type_definition("x", vec![RecordField::new("x", Type::reference("x", p()))], false, false, false)],
            ..empty_module()
        },
        "foo.",
    );
    assert_eq!(
        qualified,
        Module {
            type_definitions: vec![TypeDefinition {
                name: "foo.x".to_string(),
                ..type_definition("x", vec![RecordField::new("x", Type::reference("foo.x", p()))], false, false, false)
            }],
            ..empty_module()
        }
    );
}

#[test]
fn qualify_type_alias() {
    let qualified = hir::type_qualifier::qualify(
        &Module { type_aliases: vec![type_alias("x", Type::reference("x", p()))], ..empty_module() },
        "foo.",
    );
    assert_eq!(qualified.type_aliases[0].name, "foo.x");
    assert_eq!(qualified.type_aliases[0].type_, Type::reference("foo.x", p()));
}

#[test]
fn type_transformer_identity_keeps_module() {
    let union = Type::union(Type::none(p()), Type::list(Type::number(p()), p()), p());
    let module = Module {
        type_definitions: vec![type_definition("r", vec![RecordField::new("x", union.clone())], false, false, false)],
        type_aliases: vec![type_alias("a", Type::function(vec![Type::string(p())], union.clone(), p()))],
        function_definitions: vec![definition(
            "f",
            lambda(vec![argument("x", union.clone())], union.clone(), let_(Some("y"), Some(union.clone()), variable("x"), variable("y"))),
        )],
        ..empty_module()
    };
    assert_eq!(hir::type_transformer::transform(&module, &|type_: &Type| type_.clone()), module);
}

#[test]
fn variable_transformer_identity_keeps_module() {
    let body = let_(
        Some("y"),
        None,
        variable("x"),
        comprehension(Type::none(p()), variable("z"), vec![branch(vec!["z"], vec![variable("y")], Some(variable("w")))]),
    );
    let module = single_definition(lambda(vec![argument("a", Type::none(p()))], Type::none(p()), body));
    let identity = |name: &String, position: &Position| Expression::Variable { name: name.clone(), position: position.copy() };
    assert_eq!(hir::variable_transformer::transform(&module, &identity), module);
}
