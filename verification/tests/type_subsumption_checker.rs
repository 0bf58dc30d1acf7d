use hir::position::Position;
use hir::tables::TypeMap;
use hir::type_subsumption_checker::check;
use hir::types::Type;

fn p() -> Position {
    Position::fake()
}

fn none() -> Type {
    Type::none(p())
}

fn number() -> Type {
    Type::number(p())
}

#[test]
fn type_subsumption_checker_check_numbers() {
    assert!(check(&number(), &number(), &TypeMap::new()).unwrap());
}

#[test]
fn check_number_and_union() {
    assert!(check(&number(), &Type::union(number(), none(), p()), &TypeMap::new()).unwrap());
}

#[test]
fn check_non_canonical_union_and_number() {
    assert!(check(&Type::union(number(), number(), p()), &number(), &TypeMap::new()).unwrap());
}

#[test]
fn type_subsumption_checker_check_lists() {
    assert!(check(&Type::list(number(), p()), &Type::list(number(), p()), &TypeMap::new()).unwrap());
}

#[test]
fn fail_to_check_lists_with_covariance() {
    assert_eq!(
        check(
            &Type::list(number(), p()),
            &Type::list(Type::union(number(), none(), p()), p()),
            &TypeMap::new(),
        ),
        Ok(false)
    );
}

#[test]
fn any_subsumes_every_type() {
    let types = TypeMap::new();
    for type_ in [number(), none(), Type::list(number(), p()), Type::function(vec![], none(), p())] {
        assert!(check(&type_, &Type::any(p()), &types).unwrap());
    }
}

#[test]
fn union_is_not_subsumed_by_its_member() {
    assert!(!check(&Type::union(number(), none(), p()), &number(), &TypeMap::new()).unwrap());
}

#[test]
fn union_subsumes_itself() {
    let types = TypeMap::new();
    let union = Type::union(Type::union(number(), none(), p()), Type::list(number(), p()), p());
    assert!(check(&union, &union, &types).unwrap());
    assert!(check(&Type::union(none(), number(), p()), &Type::union(number(), none(), p()), &types).unwrap());
}

#[test]
fn equal_types_subsume_each_other() {
    let one = Type::union(number(), Type::union(none(), number(), p()), p());
    let other = Type::union(none(), number(), p());
    assert_eq!(hir::type_equality_checker::check(&one, &other, &TypeMap::new()), Ok(true));
    assert_eq!(check(&one, &other, &TypeMap::new()), Ok(true));
    assert_eq!(check(&other, &one, &TypeMap::new()), Ok(true));
}

#[test]
fn union_subsumes_each_of_its_types() {
    let types = vec![number(), none(), Type::list(number(), p()), number()];
    let union = hir::union_type_creator::create(&types, &p()).unwrap();
    for type_ in &types {
        assert_eq!(check(type_, &union, &TypeMap::new()), Ok(true));
    }
    assert_eq!(check(&Type::boolean(p()), &union, &TypeMap::new()), Ok(false));
}

#[test]
fn subsumption_carries_through_a_middle_type() {
    let middle = Type::union(number(), none(), p());
    let upper = Type::union(Type::boolean(p()), middle.clone(), p());
    assert_eq!(check(&number(), &middle, &TypeMap::new()), Ok(true));
    assert_eq!(check(&middle, &upper, &TypeMap::new()), Ok(true));
    assert_eq!(check(&number(), &upper, &TypeMap::new()), Ok(true));
    assert_eq!(check(&upper, &middle, &TypeMap::new()), Ok(false));
}
