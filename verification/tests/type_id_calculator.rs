use hir::position::Position;
use hir::tables::TypeMap;
use hir::type_canonicalizer::canonicalize;
use hir::type_id_calculator::{calculate, calculate_string};
use hir::types::Type;

fn p() -> Position {
    Position::fake()
}

fn canonical_string(type_: &Type, types: &TypeMap) -> String {
    calculate_string(&canonicalize(type_, types).unwrap())
}

#[test]
fn calculate_none_list_type_id() {
    assert_eq!(canonical_string(&Type::list(Type::none(p()), p()), &TypeMap::new()), "[none]");
}

#[test]
fn calculate_any_list_type_id() {
    assert_eq!(canonical_string(&Type::list(Type::any(p()), p()), &TypeMap::new()), "[any]");
}

#[test]
fn calculate_union_list_type_id() {
    assert_eq!(
        canonical_string(
            &Type::list(Type::union(Type::number(p()), Type::none(p()), p()), p()),
            &TypeMap::new(),
        ),
        "[(none|number)]"
    );
}

#[test]
fn canonicalize_types_before_id_calculation() {
    assert_eq!(
        calculate(&Type::union(Type::number(p()), Type::none(p()), p()), &TypeMap::new()),
        calculate(&Type::union(Type::none(p()), Type::number(p()), p()), &TypeMap::new())
    );
}

#[test]
fn different_types_get_different_ids() {
    let types = TypeMap::new();
    let number = calculate(&Type::number(p()), &types).unwrap();
    let none = calculate(&Type::none(p()), &types).unwrap();
    assert_ne!(number, none);
    assert!(number.chars().all(|c| c.is_ascii_hexdigit()));
    assert!(!number.is_empty());
}

#[test]
fn id_of_function_and_map_strings() {
    assert_eq!(
        canonical_string(
            &Type::function(vec![Type::number(p()), Type::string(p())], Type::map(Type::string(p()), Type::boolean(p()), p()), p()),
            &TypeMap::new(),
        ),
        "(\\(number,string){string:boolean})"
    );
    assert_eq!(canonical_string(&Type::record("a", "b", p()), &TypeMap::new()), "record(a)");
}

#[test]
fn swapped_union_members_are_the_same() {
    let one = Type::union(Type::list(Type::number(p()), p()), Type::none(p()), p());
    let other = Type::union(Type::boolean(p()), Type::number(p()), p());
    assert_eq!(
        hir::union_type_member_calculator::calculate(&Type::union(one.clone(), other.clone(), p()), &TypeMap::new()),
        hir::union_type_member_calculator::calculate(&Type::union(other.clone(), one.clone(), p()), &TypeMap::new())
    );
    assert_eq!(
        hir::type_id_calculator::calculate(&Type::union(one.clone(), other.clone(), p()), &TypeMap::new()),
        hir::type_id_calculator::calculate(&Type::union(other, one, p()), &TypeMap::new())
    );
}
