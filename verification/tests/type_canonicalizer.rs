use hir::position::Position;
use hir::tables::TypeMap;
use hir::type_canonicalizer::canonicalize;
use hir::types::Type;

fn p() -> Position {
    Position::fake()
}

fn none() -> Type {
    Type::none(p())
}

fn number() -> Type {
    Type::number(p())
}

fn empty() -> TypeMap {
    TypeMap::new()
}

#[test]
fn canonicalize_number() {
    assert_eq!(canonicalize(&number(), &empty()), Ok(number()));
}

#[test]
fn canonicalize_union_of_numbers() {
    assert_eq!(canonicalize(&Type::union(number(), number(), p()), &empty()), Ok(number()));
}

#[test]
fn canonicalize_union_of_3_types() {
    assert_eq!(
        canonicalize(&Type::union(number(), Type::union(Type::boolean(p()), none(), p()), p()), &empty()),
        Ok(Type::union(Type::union(Type::boolean(p()), none(), p()), number(), p()))
    );
}

#[test]
fn canonicalize_union_of_function_argument() {
    assert_eq!(
        canonicalize(&Type::function(vec![Type::union(number(), number(), p())], none(), p()), &empty()),
        Ok(Type::function(vec![number()], none(), p()))
    );
}

#[test]
fn canonicalize_union_of_function_result() {
    assert_eq!(
        canonicalize(&Type::function(vec![], Type::union(number(), number(), p()), p()), &empty()),
        Ok(Type::function(vec![], number(), p()))
    );
}

#[test]
fn canonicalize_union_of_list_element() {
    assert_eq!(
        canonicalize(&Type::list(Type::union(number(), number(), p()), p()), &empty()),
        Ok(Type::list(number(), p()))
    );
}

#[test]
fn canonicalize_union_with_any() {
    assert_eq!(canonicalize(&Type::union(number(), Type::any(p()), p()), &empty()), Ok(Type::any(p())));
}

#[test]
fn canonicalize_reference() {
    let mut types = TypeMap::new();
    types.insert("t".to_string(), number());
    assert_eq!(canonicalize(&Type::reference("t", p()), &types), Ok(number()));
}

#[test]
fn canonicalize_union_in_function_in_union() {
    let mut types = TypeMap::new();
    types.insert("t".to_string(), number());
    assert_eq!(
        canonicalize(
            &Type::union(Type::function(vec![], Type::union(none(), none(), p()), p()), none(), p()),
            &types,
        ),
        Ok(Type::union(Type::function(vec![], none(), p()), none(), p()))
    );
}

#[test]
fn canonicalize_missing_reference() {
    assert_eq!(
        canonicalize(&Type::reference("t", p()), &empty()),
        Err(hir::error::AnalysisError::TypeNotFound(Type::reference("t", p())))
    );
}

#[test]
fn canonicalize_twice_gives_the_same_type() {
    let type_ = Type::union(number(), Type::union(Type::boolean(p()), none(), p()), p());
    let once = canonicalize(&type_, &empty()).unwrap();
    assert_eq!(canonicalize(&once, &empty()), Ok(once));
}

#[test]
fn canonicalizing_a_canonical_form_keeps_it() {
    let type_ = Type::union(
        Type::list(Type::union(none(), number(), p()), p()),
        Type::union(Type::boolean(p()), Type::union(number(), Type::boolean(p()), p()), p()),
        p(),
    );
    let once = canonicalize(&type_, &empty()).unwrap();
    assert_eq!(canonicalize(&once, &empty()), Ok(once.clone()));
}
