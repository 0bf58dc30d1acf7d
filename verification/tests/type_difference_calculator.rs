use hir::position::Position;
use hir::tables::TypeMap;
use hir::type_difference_calculator::calculate;
use hir::types::Type;

fn p() -> Position {
    Position::fake()
}

#[test]
fn calculate_with_any_and_any() {
    assert_eq!(calculate(&Type::any(p()), &Type::any(p()), &TypeMap::new()), Ok(None));
}

#[test]
fn calculate_with_any_and_number() {
    assert_eq!(
        calculate(&Type::any(p()), &Type::number(p()), &TypeMap::new()),
        Ok(Some(Type::any(p())))
    );
}

#[test]
fn calculate_with_number_and_any() {
    assert_eq!(calculate(&Type::number(p()), &Type::any(p()), &TypeMap::new()), Ok(None));
}

#[test]
fn calculate_with_number_and_number() {
    assert_eq!(calculate(&Type::number(p()), &Type::number(p()), &TypeMap::new()), Ok(None));
}

#[test]
fn calculate_with_union_and_number() {
    assert_eq!(
        calculate(
            &Type::union(Type::number(p()), Type::none(p()), p()),
            &Type::number(p()),
            &TypeMap::new(),
        ),
        Ok(Some(Type::none(p())))
    );
}

#[test]
fn calculate_with_union_and_union() {
    assert_eq!(
        calculate(
            &Type::union(Type::union(Type::number(p()), Type::boolean(p()), p()), Type::none(p()), p()),
            &Type::union(Type::boolean(p()), Type::none(p()), p()),
            &TypeMap::new(),
        ),
        Ok(Some(Type::number(p())))
    );
}

#[test]
fn calculate_with_missing_reference() {
    assert_eq!(
        calculate(&Type::reference("t", p()), &Type::number(p()), &TypeMap::new()),
        Err(hir::error::AnalysisError::TypeNotFound(Type::reference("t", p())))
    );
}

#[test]
fn difference_with_itself_is_nothing() {
    let types = TypeMap::new();
    for type_ in [
        Type::number(p()),
        Type::union(Type::number(p()), Type::none(p()), p()),
        Type::list(Type::string(p()), p()),
        Type::any(p()),
    ] {
        assert_eq!(calculate(&type_, &type_, &types), Ok(None));
    }
}

#[test]
fn difference_is_subsumed_by_the_first_type() {
    let one = Type::union(Type::union(Type::number(p()), Type::none(p()), p()), Type::boolean(p()), p());
    let difference = calculate(&one, &Type::none(p()), &TypeMap::new()).unwrap().unwrap();
    assert_eq!(
        difference,
        Type::union(Type::boolean(p()), Type::number(p()), p())
    );
    assert_eq!(hir::type_subsumption_checker::check(&difference, &one, &TypeMap::new()), Ok(true));
    assert_eq!(hir::type_subsumption_checker::check(&one, &difference, &TypeMap::new()), Ok(false));
}
