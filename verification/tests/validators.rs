#![allow(dead_code)]
use hir::ir::{
    Argument, Expression, FunctionDefinition, Lambda, Module, TypeAlias, TypeDefinition,
};
use hir::position::Position;
use hir::types::{RecordField, Type};

fn p() -> Position {
    Position::fake()
}

fn empty_module() -> Module {
    Module {
        type_definitions: vec![],
        type_aliases: vec![],
        foreign_declarations: vec![],
        function_declarations: vec![],
        function_definitions: vec![],
        position: p(),
    }
}

fn module_with_definitions(definitions: Vec<FunctionDefinition>) -> Module {
    Module { function_definitions: definitions, ..empty_module() }
}

fn definition(name: &str, lambda: Lambda<Expression>) -> FunctionDefinition {
    FunctionDefinition {
        name: name.to_string(),
        original_name: name.to_string(),
        lambda,
        foreign_definition_configuration: None,
        is_public: false,
        position: p(),
    }
}

fn lambda(arguments: Vec<Argument>, result_type: Type, body: Expression) -> Lambda<Expression> {
    Lambda { arguments, result_type, body: Box::new(body), position: p() }
}

fn argument(name: &str, type_: Type) -> Argument {
    Argument { name: name.to_string(), type_ }
}

fn type_definition(name: &str, fields: Vec<RecordField>, is_open: bool, is_public: bool, is_external: bool) -> TypeDefinition {
    TypeDefinition {
        name: name.to_string(),
        original_name: name.to_string(),
        fields,
        is_open,
        is_public,
        is_external,
        position: p(),
    }
}

fn type_alias(name: &str, type_: Type) -> TypeAlias {
    TypeAlias {
        name: name.to_string(),
        original_name: name.to_string(),
        type_,
        is_public: false,
        is_external: false,
        position: p(),
    }
}

fn variable(name: &str) -> Expression {
    Expression::Variable { name: name.to_string(), position: p() }
}

fn unit() -> Expression {
    Expression::Unit { position: p() }
}

fn number(value: f64) -> Expression {
    Expression::Number { value: value.to_bits(), position: p() }
}

fn let_(name: Option<&str>, type_: Option<Type>, bound: Expression, body: Expression) -> Expression {
    Expression::Let {
        name: name.map(|name| name.to_string()),
        type_,
        bound_expression: Box::new(bound),
        expression: Box::new(body),
        position: p(),
    }
}

use hir::context::AnalysisContext;
use hir::error::AnalysisError;
use hir::ir::{CallingConvention, ForeignDeclaration};
use hir::tables::NameSet;
use hir::type_collector::{collect, collect_record_fields};

fn context_of(module: &Module) -> AnalysisContext {
    AnalysisContext::new(collect(module), collect_record_fields(module))
}

#[test]
fn validate_module() {
    let module = module_with_definitions(vec![
        definition("x", lambda(vec![], Type::none(p()), unit())),
        definition("x", lambda(vec![], Type::none(p()), unit())),
    ]);
    assert_eq!(
        hir::duplicate_function_name_validator::validate(&module),
        Err(AnalysisError::DuplicateFunctionNames(p(), p()))
    );
}

#[test]
fn validate_module_without_duplicates() {
    let module = module_with_definitions(vec![
        definition("x", lambda(vec![], Type::none(p()), unit())),
        definition("y", lambda(vec![], Type::none(p()), unit())),
    ]);
    assert_eq!(hir::duplicate_function_name_validator::validate(&module), Ok(()));
}

#[test]
fn validate_type_definitions() {
    let module = Module {
        type_definitions: vec![
            type_definition("x", vec![], false, false, false),
            type_definition("x", vec![], false, false, false),
        ],
        ..empty_module()
    };
    assert_eq!(
        hir::duplicate_type_name_validator::validate(&module),
        Err(AnalysisError::DuplicateTypeNames(p(), p()))
    );
}

#[test]
fn validate_type_aliases() {
    let module = Module {
        type_aliases: vec![type_alias("x", Type::none(p())), type_alias("x", Type::none(p()))],
        ..empty_module()
    };
    assert_eq!(
        hir::duplicate_type_name_validator::validate(&module),
        Err(AnalysisError::DuplicateTypeNames(p(), p()))
    );
}

#[test]
fn validate_type_definition_and_alias() {
    let module = Module {
        type_definitions: vec![type_definition("x", vec![], false, false, false)],
        type_aliases: vec![type_alias("x", Type::none(p()))],
        ..empty_module()
    };
    assert_eq!(
        hir::duplicate_type_name_validator::validate(&module),
        Err(AnalysisError::DuplicateTypeNames(p(), p()))
    );
}

#[test]
fn duplicate_type_names_point_at_the_first_definition() {
    let first = Position::new("a.pen", 1, 1, "type x {}");
    let second = Position::new("a.pen", 2, 1, "type x = none");
    let module = Module {
        type_definitions: vec![TypeDefinition { position: first, ..type_definition("x", vec![], false, false, false) }],
        type_aliases: vec![TypeAlias { position: second, ..type_alias("x", Type::none(p())) }],
        ..empty_module()
    };
    match hir::duplicate_type_name_validator::validate(&module) {
        Err(AnalysisError::DuplicateTypeNames(one, other)) => {
            assert_eq!(one.line_number, 1);
            assert_eq!(other.line_number, 1);
        }
        other => panic!("unexpected result: {:?}", other),
    }
}

#[test]
fn create_with_foreign_declaration() {
    let type_ = Type::function(vec![], Type::none(p()), p());
    let module = Module {
        foreign_declarations: vec![ForeignDeclaration {
            name: "foo".to_string(),
            foreign_name: "bar".to_string(),
            calling_convention: CallingConvention::Native,
            type_: hir::types::clone_type(&type_),
            position: p(),
        }],
        ..empty_module()
    };
    let variables = hir::module_environment::create(&module);
    assert_eq!(variables.names(), vec!["foo".to_string()]);
    assert_eq!(variables.get("foo"), Some(&type_));
}

#[test]
fn create_with_definitions_and_declarations() {
    let module = Module {
        function_declarations: vec![hir::ir::FunctionDeclaration {
            name: "g".to_string(),
            type_: Type::function(vec![], Type::number(p()), p()),
            position: p(),
        }],
        function_definitions: vec![definition("f", lambda(vec![argument("x", Type::number(p()))], Type::none(p()), unit()))],
        ..empty_module()
    };
    let variables = hir::module_environment::create(&module);
    assert_eq!(variables.get("g"), Some(&Type::function(vec![], Type::number(p()), p())));
    assert_eq!(
        variables.get("f"),
        Some(&Type::function(vec![Type::number(p())], Type::none(p()), p()))
    );
    assert_eq!(variables.get("x"), None);
}

fn unused_error_module(argument_type: Option<Type>, let_type: Type, bound: Expression) -> Module {
    let arguments = match argument_type {
        Some(type_) => vec![argument("x", type_)],
        None => vec![],
    };
    module_with_definitions(vec![definition(
        "f",
        lambda(arguments, Type::none(p()), let_(None, Some(let_type), bound, unit())),
    )])
}

#[test]
fn validate_none_type() {
    let module = unused_error_module(None, Type::none(p()), unit());
    assert_eq!(hir::unused_error_validator::validate(&context_of(&module), &module), Ok(()));
}

#[test]
fn validate_any_type() {
    let module = unused_error_module(None, Type::any(p()), unit());
    assert_eq!(hir::unused_error_validator::validate(&context_of(&module), &module), Ok(()));
}

#[test]
fn fail_to_validate_error_type() {
    let module = unused_error_module(Some(Type::error(p())), Type::error(p()), variable("x"));
    assert_eq!(
        hir::unused_error_validator::validate(&context_of(&module), &module),
        Err(AnalysisError::UnusedErrorValue(p()))
    );
}

#[test]
fn fail_to_validate_result_type() {
    let result_type = Type::union(Type::none(p()), Type::error(p()), p());
    let module = unused_error_module(Some(hir::types::clone_type(&result_type)), result_type, variable("x"));
    assert_eq!(
        hir::unused_error_validator::validate(&context_of(&module), &module),
        Err(AnalysisError::UnusedErrorValue(p()))
    );
}

fn alias_module(type_: Type) -> Module {
    Module { type_aliases: vec![type_alias("x", type_)], ..empty_module() }
}

#[test]
fn fail_to_validate_direct_recursion() {
    assert_eq!(
        hir::recursive_type_alias_validator::validate(&alias_module(Type::reference("x", p()))),
        Err(AnalysisError::RecursiveTypeAlias(p()))
    );
}

#[test]
fn fail_to_validate_recursion_through_union() {
    assert_eq!(
        hir::recursive_type_alias_validator::validate(&alias_module(Type::union(
            Type::reference("x", p()),
            Type::none(p()),
            p()
        ))),
        Err(AnalysisError::RecursiveTypeAlias(p()))
    );
}

#[test]
fn fail_to_validate_recursion_through_list() {
    assert_eq!(
        hir::recursive_type_alias_validator::validate(&alias_module(Type::list(Type::reference("x", p()), p()))),
        Err(AnalysisError::RecursiveTypeAlias(p()))
    );
}

#[test]
fn fail_to_validate_recursion_through_map_key() {
    assert_eq!(
        hir::recursive_type_alias_validator::validate(&alias_module(Type::union(
            Type::reference("x", p()),
            Type::none(p()),
            p()
        ))),
        Err(AnalysisError::RecursiveTypeAlias(p()))
    );
}

#[test]
fn fail_to_validate_recursion_through_map_value() {
    assert_eq!(
        hir::recursive_type_alias_validator::validate(&alias_module(Type::union(
            Type::none(p()),
            Type::reference("x", p()),
            p()
        ))),
        Err(AnalysisError::RecursiveTypeAlias(p()))
    );
}

#[test]
fn validate_aliases_without_recursion() {
    let module = Module {
        type_aliases: vec![
            type_alias("x", Type::list(Type::reference("y", p()), p())),
            type_alias("y", Type::map(Type::string(p()), Type::number(p()), p())),
        ],
        ..empty_module()
    };
    assert_eq!(hir::recursive_type_alias_validator::validate(&module), Ok(()));
}

#[test]
fn fail_to_validate_mutual_recursion() {
    let module = Module {
        type_aliases: vec![
            type_alias("x", Type::reference("y", p())),
            type_alias("y", Type::list(Type::reference("x", p()), p())),
        ],
        ..empty_module()
    };
    assert_eq!(
        hir::recursive_type_alias_validator::validate(&module),
        Err(AnalysisError::RecursiveTypeAlias(p()))
    );
}

#[test]
fn fail_to_validate_non_existent_reference_type_in_type_alias() {
    assert_eq!(
        hir::type_existence_validator::validate(
            &alias_module(Type::reference("foo", p())),
            &NameSet::new(),
            &NameSet::new()
        ),
        Err(AnalysisError::TypeNotFound(Type::reference("foo", p())))
    );
}

#[test]
fn fail_to_validate_non_existent_reference_type_in_type_definition() {
    assert_eq!(
        hir::type_existence_validator::validate(
            &alias_module(Type::reference("foo", p())),
            &NameSet::new(),
            &NameSet::new()
        ),
        Err(AnalysisError::TypeNotFound(Type::reference("foo", p())))
    );
}

#[test]
fn fail_to_validate_non_existent_reference_type_in_record_field() {
    let module = Module {
        type_definitions: vec![type_definition(
            "x",
            vec![RecordField::new("x", Type::reference("foo", p()))],
            false,
            false,
            false,
        )],
        ..empty_module()
    };
    assert_eq!(
        hir::type_existence_validator::validate(&module, &NameSet::new(), &NameSet::new()),
        Err(AnalysisError::TypeNotFound(Type::reference("foo", p())))
    );
}

#[test]
fn fail_to_validate_non_existent_record_type() {
    let module = Module {
        type_definitions: vec![type_definition(
            "x",
            vec![RecordField::new("x", Type::record("foo", "foo", p()))],
            false,
            false,
            false,
        )],
        ..empty_module()
    };
    assert_eq!(
        hir::type_existence_validator::validate(&module, &NameSet::new(), &NameSet::new()),
        Err(AnalysisError::RecordNotFound(Type::record("foo", "foo", p())))
    );
}

#[test]
fn validate_existing_types() {
    let module = alias_module(Type::reference("foo", p()));
    let mut types = NameSet::new();
    types.insert("foo".to_string());
    assert_eq!(hir::type_existence_validator::validate(&module, &types, &NameSet::new()), Ok(()));
}

#[test]
fn validated_aliases_canonicalize() {
    let module = Module {
        type_aliases: vec![
            type_alias("x", Type::reference("y", p())),
            type_alias("y", Type::union(Type::number(p()), Type::reference("z", p()), p())),
            type_alias("z", Type::number(p())),
        ],
        ..empty_module()
    };
    assert_eq!(hir::recursive_type_alias_validator::validate(&module), Ok(()));
    let types = hir::type_collector::collect(&module);
    assert_eq!(hir::type_canonicalizer::canonicalize(&Type::reference("x", p()), &types), Ok(Type::number(p())));
}
