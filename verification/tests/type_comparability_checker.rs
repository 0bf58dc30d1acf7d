use hir::position::Position;
use hir::tables::{RecordMap, TypeMap};
use hir::type_comparability_checker::check;
use hir::types::{RecordField, Type};

fn p() -> Position {
    Position::fake()
}

fn records_with(name: &str, fields: Vec<RecordField>) -> RecordMap {
    let mut records = RecordMap::new();
    records.insert(name.to_string(), fields);
    records
}

fn comparable(type_: &Type, records: &RecordMap) -> bool {
    check(type_, &p(), &TypeMap::new(), records).unwrap()
}

#[test]
fn type_comparability_checker_check_record_type() {
    assert!(comparable(
        &Type::record("foo", "foo", p()),
        &records_with("foo", vec![RecordField::new("foo", Type::none(p()))]),
    ));
}

#[test]
fn check_record_type_with_function_field() {
    assert!(!comparable(
        &Type::record("foo", "foo", p()),
        &records_with("foo", vec![RecordField::new("x", Type::function(vec![], Type::none(p()), p()))]),
    ));
}

#[test]
fn check_comparability_of_record_type_with_any_field() {
    assert!(!comparable(
        &Type::record("foo", "foo", p()),
        &records_with("foo", vec![RecordField::new("x", Type::any(p()))]),
    ));
}

#[test]
fn check_record_type_with_function_element() {
    assert!(!comparable(
        &Type::record("foo", "foo", p()),
        &records_with("foo", vec![RecordField::new("x", Type::function(vec![], Type::none(p()), p()))]),
    ));
}

#[test]
fn check_comparability_of_record_type_with_any_element() {
    assert!(!comparable(
        &Type::record("foo", "foo", p()),
        &records_with("foo", vec![RecordField::new("x", Type::any(p()))]),
    ));
}

#[test]
fn type_comparability_checker_check_union_type() {
    assert!(comparable(&Type::union(Type::number(p()), Type::none(p()), p()), &RecordMap::new()));
}

#[test]
fn type_comparability_checker_check_union_type_with_function() {
    assert!(!comparable(
        &Type::union(Type::function(vec![], Type::none(p()), p()), Type::none(p()), p()),
        &RecordMap::new(),
    ));
}

#[test]
fn error_type_is_not_comparable() {
    assert!(!comparable(&Type::error(p()), &RecordMap::new()));
    assert!(comparable(&Type::list(Type::string(p()), p()), &RecordMap::new()));
    assert!(comparable(&Type::map(Type::string(p()), Type::number(p()), p()), &RecordMap::new()));
}

#[test]
fn missing_record_is_an_error() {
    assert_eq!(
        check(&Type::record("foo", "foo", p()), &p(), &TypeMap::new(), &RecordMap::new()),
        Err(hir::error::AnalysisError::RecordNotFound(Type::record("foo", "foo", p())))
    );
}
