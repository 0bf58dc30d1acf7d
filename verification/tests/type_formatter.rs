use hir::position::Position;

use hir::types::Type;

fn p() -> Position {
    Position::fake()
}

fn none() -> Type {
    Type::none(p())
}

fn number() -> Type {
    Type::number(p())
}

#[test]
fn format_function() {
    assert_eq!(hir::type_formatter::format(&Type::function(vec![], none(), p())), "\\() none");
}

#[test]
fn format_function_with_argument() {
    assert_eq!(hir::type_formatter::format(&Type::function(vec![none()], none(), p())), "\\(none) none");
}

#[test]
fn format_function_with_arguments() {
    assert_eq!(
        hir::type_formatter::format(&Type::function(vec![number(), none()], none(), p())),
        "\\(number, none) none"
    );
}

#[test]
fn format_list() {
    assert_eq!(hir::type_formatter::format(&Type::list(none(), p())), "[none]");
}

#[test]
fn format_union() {
    assert_eq!(hir::type_formatter::format(&Type::union(number(), none(), p())), "number | none");
}

#[test]
fn format_unions() {
    assert_eq!(
        hir::type_formatter::format(&Type::union(none(), Type::union(Type::boolean(p()), number(), p()), p())),
        "none | boolean | number"
    );
}

#[test]
fn format_record() {
    assert_eq!(hir::type_formatter::format(&Type::record("foo", "bar", p())), "bar");
}

#[test]
fn format_reference() {
    assert_eq!(hir::type_formatter::format(&Type::reference("foo", p())), "foo");
}

#[test]
fn format_map() {
    assert_eq!(hir::type_formatter::format(&Type::map(number(), none(), p())), "{number: none}");
}

#[test]
fn format_primitive_types() {
    assert_eq!(hir::type_formatter::format(&Type::any(p())), "any");
    assert_eq!(hir::type_formatter::format(&Type::boolean(p())), "boolean");
    assert_eq!(hir::type_formatter::format(&Type::error(p())), "error");
    assert_eq!(hir::type_formatter::format(&Type::string(p())), "string");
}

#[test]
fn format_function_in_union() {
    assert_eq!(
        hir::type_formatter::format(&Type::union(Type::function(vec![], none(), p()), none(), p())),
        "\\() none | none"
    );
}
