#![allow(dead_code)]
use hir::context::AnalysisContext;
use hir::error::AnalysisError;
use hir::impossible_type_validator::validate;
use hir::ir::{Module, TypeAlias, TypeDefinition};
use hir::position::Position;
use hir::type_collector::{collect, collect_record_fields};
use hir::types::{RecordField, Type};

fn p() -> Position {
    Position::fake()
}

fn empty_module() -> Module {
    Module {
        type_definitions: vec![],
        type_aliases: vec![],
        foreign_declarations: vec![],
        function_declarations: vec![],
        function_definitions: vec![],
        position: p(),
    }
}

fn type_definition(name: &str, fields: Vec<RecordField>) -> TypeDefinition {
    TypeDefinition {
        name: name.to_string(),
        original_name: name.to_string(),
        fields,
        is_open: false,
        is_public: false,
        is_external: false,
        position: p(),
    }
}

fn type_alias(name: &str, type_: Type) -> TypeAlias {
    TypeAlias {
        name: name.to_string(),
        original_name: name.to_string(),
        type_,
        is_public: false,
        is_external: false,
        position: p(),
    }
}

fn record(name: &str) -> Type {
    Type::record(name, name, p())
}

fn with_definitions(definitions: Vec<TypeDefinition>) -> Module {
    Module { type_definitions: definitions, ..empty_module() }
}

fn validate_module(module: &Module) -> Result<(), AnalysisError> {
    validate(&AnalysisContext::new(collect(module), collect_record_fields(module)), module)
}

fn is_impossible_record(result: Result<(), AnalysisError>) -> bool {
    matches!(result, Err(AnalysisError::ImpossibleRecord(_)))
}

#[test]
fn validate_record() {
    let module = with_definitions(vec![type_definition("a", vec![])]);
    assert!(matches!(validate_module(&module), Ok(())));
}

#[test]
fn validate_record_with_field() {
    let module = with_definitions(vec![type_definition("a", vec![RecordField::new("x", Type::none(p()))])]);
    assert!(matches!(validate_module(&module), Ok(())));
}

#[test]
fn validate_recursive_record_with_one_field() {
    let module = with_definitions(vec![type_definition("a", vec![RecordField::new("x", record("a"))])]);
    assert!(is_impossible_record(validate_module(&module)));
}

#[test]
fn validate_recursive_record_with_two_fields() {
    let module = with_definitions(vec![type_definition(
        "a",
        vec![RecordField::new("x", record("a")), RecordField::new("y", record("a"))],
    )]);
    assert!(is_impossible_record(validate_module(&module)));
}

#[test]
fn validate_recursive_record_with_two_fields_of_none_and_record() {
    let module = with_definitions(vec![type_definition(
        "a",
        vec![RecordField::new("x", Type::none(p())), RecordField::new("y", record("a"))],
    )]);
    assert!(is_impossible_record(validate_module(&module)));
}

#[test]
fn validate_recursive_record_with_union() {
    let module = with_definitions(vec![type_definition(
        "a",
        vec![RecordField::new("x", Type::union(record("a"), Type::none(p()), p()))],
    )]);
    assert!(matches!(validate_module(&module), Ok(())));
}

#[test]
fn validate_recursive_record_with_reference() {
    let module = Module {
        type_aliases: vec![type_alias("b", Type::reference("a", p()))],
        ..with_definitions(vec![type_definition("a", vec![RecordField::new("x", Type::reference("b", p()))])])
    };
    assert!(is_impossible_record(validate_module(&module)));
}

#[test]
fn validate_recursive_record_with_reference_to_union() {
    let module = Module {
        type_aliases: vec![type_alias("b", Type::union(record("a"), Type::none(p()), p()))],
        ..with_definitions(vec![type_definition("a", vec![RecordField::new("x", Type::reference("b", p()))])])
    };
    assert!(matches!(validate_module(&module), Ok(())));
}

#[test]
fn validate_mutually_recursive_records() {
    let module = with_definitions(vec![
        type_definition("a", vec![RecordField::new("x", record("b"))]),
        type_definition("b", vec![RecordField::new("x", record("a"))]),
    ]);
    assert!(is_impossible_record(validate_module(&module)));
}

#[test]
fn validate_mutually_recursive_records_with_union() {
    let module = with_definitions(vec![
        type_definition("a", vec![RecordField::new("x", Type::union(record("b"), Type::none(p()), p()))]),
        type_definition("b", vec![RecordField::new("x", record("a"))]),
    ]);
    assert!(matches!(validate_module(&module), Ok(())));
}

#[test]
fn validate_record_with_recursive_record() {
    let module = with_definitions(vec![
        type_definition("a", vec![RecordField::new("x", record("b"))]),
        type_definition("b", vec![RecordField::new("x", record("b"))]),
    ]);
    assert!(is_impossible_record(validate_module(&module)));
}

#[test]
fn impossible_record_points_at_its_definition() {
    let module = with_definitions(vec![type_definition("a", vec![RecordField::new("x", record("a"))])]);
    assert_eq!(validate_module(&module), Err(AnalysisError::ImpossibleRecord(p())));
}

#[test]
fn missing_alias_in_record_field_is_reported() {
    let module = with_definitions(vec![type_definition("a", vec![RecordField::new("x", Type::reference("b", p()))])]);
    assert!(matches!(validate_module(&module), Err(AnalysisError::TypeNotFound(_))));
}
