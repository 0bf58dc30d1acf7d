use hir::position::Position;
use hir::tables::TypeMap;
use hir::type_equality_checker::check;
use hir::types::Type;

fn p() -> Position {
    Position::fake()
}

fn none() -> Type {
    Type::none(p())
}

fn number() -> Type {
    Type::number(p())
}

#[test]
fn type_equality_checker_check_numbers() {
    assert!(check(&number(), &number(), &TypeMap::new()).unwrap());
}

#[test]
fn type_equality_checker_fail_to_check_number_and_none() {
    assert!(!check(&number(), &none(), &TypeMap::new()).unwrap());
}

#[test]
fn type_equality_checker_check_lists() {
    assert!(check(&Type::list(number(), p()), &Type::list(number(), p()), &TypeMap::new()).unwrap());
}

#[test]
fn type_equality_checker_check_functions() {
    assert!(check(
        &Type::function(vec![], number(), p()),
        &Type::function(vec![], number(), p()),
        &TypeMap::new(),
    )
    .unwrap());
}

#[test]
fn type_equality_checker_check_function_arguments() {
    assert!(check(
        &Type::function(vec![], number(), p()),
        &Type::function(vec![], number(), p()),
        &TypeMap::new(),
    )
    .unwrap());
}

#[test]
fn type_equality_checker_check_union_and_number() {
    assert!(check(&Type::union(number(), number(), p()), &number(), &TypeMap::new()).unwrap());
}

#[test]
fn type_equality_checker_check_unions() {
    assert!(check(
        &Type::union(number(), none(), p()),
        &Type::union(none(), number(), p()),
        &TypeMap::new(),
    )
    .unwrap());
}

#[test]
fn type_equality_checker_check_records() {
    assert!(!check(
        &Type::record("x", "x", Position::fake()),
        &Type::record("y", "y", Position::fake()),
        &TypeMap::new(),
    )
    .unwrap());
}

#[test]
fn equality_is_symmetric_on_examples() {
    let types = TypeMap::new();
    let a = Type::union(number(), Type::list(none(), p()), p());
    let b = Type::union(Type::list(none(), p()), number(), p());
    assert_eq!(check(&a, &b, &types), check(&b, &a, &types));
    assert!(check(&a, &a, &types).unwrap());
}

#[test]
fn equality_through_a_reference() {
    let mut types = TypeMap::new();
    types.insert("t".to_string(), number());
    assert!(check(&Type::reference("t", p()), &number(), &types).unwrap());
}

#[test]
fn equality_is_transitive_on_examples() {
    let mut types = TypeMap::new();
    types.insert("t".to_string(), Type::union(number(), none(), p()));
    let a = Type::reference("t", p());
    let b = Type::union(none(), number(), p());
    let c = Type::union(Type::union(number(), none(), p()), number(), p());
    assert!(check(&a, &b, &types).unwrap());
    assert!(check(&b, &c, &types).unwrap());
    assert!(check(&a, &c, &types).unwrap());
}

#[test]
fn type_equals_its_canonical_form() {
    let type_ = Type::union(
        Type::list(Type::union(Type::none(p()), Type::number(p()), p()), p()),
        Type::union(Type::number(p()), Type::boolean(p()), p()),
        p(),
    );
    let canonical = hir::type_canonicalizer::canonicalize(&type_, &TypeMap::new()).unwrap();
    assert_eq!(check(&type_, &canonical, &TypeMap::new()), Ok(true));
}
