//! Transformation of every type in a module, bottom up: the components of a
//! type are transformed first, and then the type made of them.
use crate::ir::{
    Argument,
    ElseBranch,
    Expression,
    ForeignDeclaration,
    FunctionDefinition,
    IfTypeBranch,
    Lambda,
    ListComprehensionBranch,
    ListComprehensionIteratee,
    ListElement,
    MapElement,
    MapEntry,
    Module,
    Operation,
    RecordFieldValue,
    TypeAlias,
    TypeDefinition,
};
use crate::ir_copy::{
    copy_bytes,
    copy_function_declarations,
    copy_strings,
    copy_type_alias,
    copy_type_definition,
    same_function_declarations,
    same_strings,
    same_type_alias,
    same_type_definition,
};
use crate::types::{clone_type, RecordField, Type};
use vstd::prelude::*;

verus! {

/// `mid` is `old` with its components transformed as `f` relates them; a
/// type without components stays as it is.
pub open spec fn rebuilt(old: Type, mid: Type, f: spec_fn(Type, Type) -> bool) -> bool
    decreases old, 0nat,
{
    match old {
        Type::Function { arguments, result, position } => mid matches Type::Function {
            arguments: a,
            result: r,
            position: p,
        } && a@.len() == arguments@.len() && (forall|i: int|
            0 <= i < arguments@.len() ==> type_transformed(#[trigger] arguments@[i], a@[i], f))
            && type_transformed(*result, *r, f) && p@ == position@,
        Type::List { element, position } => mid matches Type::List { element: e, position: p }
            && type_transformed(*element, *e, f) && p@ == position@,
        Type::Mapping { key, value, position } => mid matches Type::Mapping {
            key: k,
            value: v,
            position: p,
        } && type_transformed(*key, *k, f) && type_transformed(*value, *v, f) && p@ == position@,
        Type::Union { lhs, rhs, position } => mid matches Type::Union {
            lhs: l,
            rhs: r,
            position: p,
        } && type_transformed(*lhs, *l, f) && type_transformed(*rhs, *r, f) && p@ == position@,
        _ => mid@ == old@,
    }
}

/// `new` is what `f` makes of `old` once the components of `old` are
/// transformed.
pub open spec fn type_transformed(old: Type, new: Type, f: spec_fn(Type, Type) -> bool) -> bool
    decreases old, 1nat,
{
    exists|mid: Type| #![trigger f(mid, new)] rebuilt(old, mid, f) && f(mid, new)
}

/// Optional types transformed.
pub open spec fn option_type_transformed(
    old: Option<Type>,
    new: Option<Type>,
    f: spec_fn(Type, Type) -> bool,
) -> bool {
    match (old, new) {
        (Some(x), Some(y)) => type_transformed(x, y, f),
        (None, None) => true,
        _ => false,
    }
}

/// `new` is `old` with every type in it transformed bottom up; everything
/// else is the same.
pub open spec fn retyped(old: Expression, new: Expression, f: spec_fn(Type, Type) -> bool) -> bool
    decreases old,
{
    match old {
        Expression::Boolean { value, position } => new matches Expression::Boolean {
            value: v,
            position: p,
        } && v == value && p@ == position@,
        Expression::BuiltInFunction { name, position } => new matches Expression::BuiltInFunction {
            name: n,
            position: p,
        } && n == name && p@ == position@,
        Expression::Call { function_type, function, arguments, position } => new matches Expression::Call {
            function_type: t,
            function: g,
            arguments: a,
            position: p,
        } && option_type_transformed(function_type, t, f) && retyped(*function, *g, f)
            && a@.len() == arguments@.len() && (forall|i: int|
            0 <= i < arguments@.len() ==> retyped(#[trigger] arguments@[i], a@[i], f)) && p@
            == position@,
        Expression::If { condition, then, else_, position } => new matches Expression::If {
            condition: c,
            then: t,
            else_: e,
            position: p,
        } && retyped(*condition, *c, f) && retyped(*then, *t, f) && retyped(*else_, *e, f) && p@
            == position@,
        Expression::IfList { type_, list, first_name, rest_name, then, else_, position } => new matches Expression::IfList {
            type_: t,
            list: l,
            first_name: n,
            rest_name: r,
            then: u,
            else_: e,
            position: p,
        } && option_type_transformed(type_, t, f) && retyped(*list, *l, f) && n@ == first_name@
            && r@ == rest_name@ && retyped(*then, *u, f) && retyped(*else_, *e, f) && p@
            == position@,
        Expression::IfMap { key_type, value_type, name, map, key, then, else_, position } => new matches Expression::IfMap {
            key_type: k,
            value_type: v,
            name: n,
            map: m,
            key: q,
            then: t,
            else_: e,
            position: p,
        } && option_type_transformed(key_type, k, f) && option_type_transformed(value_type, v, f)
            && n@ == name@ && retyped(*map, *m, f) && retyped(*key, *q, f) && retyped(*then, *t, f)
            && retyped(*else_, *e, f) && p@ == position@,
        Expression::IfType { name, argument, branches, else_, position } => new matches Expression::IfType {
            name: n,
            argument: a,
            branches: b,
            else_: e,
            position: p,
        } && n@ == name@ && retyped(*argument, *a, f) && b@.len() == branches@.len() && (forall|
            i: int,
        |
            0 <= i < branches@.len() ==> type_transformed(
                (#[trigger] branches@[i]).type_,
                b@[i].type_,
                f,
            ) && retyped(branches@[i].expression, b@[i].expression, f)) && (match (else_, e) {
            (Some(x), Some(y)) => option_type_transformed(x.type_, y.type_, f) && retyped(
                x.expression,
                y.expression,
                f,
            ) && x.position@ == y.position@,
            (None, None) => true,
            _ => false,
        }) && p@ == position@,
        Expression::Lambda(lambda) => new matches Expression::Lambda(l) && retyped_lambda(
            lambda,
            l,
            f,
        ),
        Expression::Let { name, type_, bound_expression, expression, position } => new matches Expression::Let {
            name: n,
            type_: t,
            bound_expression: b,
            expression: e,
            position: p,
        } && (match (name, n) {
            (Some(x), Some(y)) => x@ == y@,
            (None, None) => true,
            _ => false,
        }) && option_type_transformed(type_, t, f) && retyped(*bound_expression, *b, f) && retyped(
            *expression,
            *e,
            f,
        ) && p@ == position@,
        Expression::List { type_, elements, position } => new matches Expression::List {
            type_: t,
            elements: l,
            position: p,
        } && type_transformed(type_, t, f) && l@.len() == elements@.len() && (forall|i: int|
            0 <= i < elements@.len() ==> match (#[trigger] elements@[i], l@[i]) {
                (ListElement::Multiple(x), ListElement::Multiple(y)) => retyped(x, y, f),
                (ListElement::Single(x), ListElement::Single(y)) => retyped(x, y, f),
                _ => false,
            }) && p@ == position@,
        Expression::ListComprehension { type_, element, branches, position } => new matches Expression::ListComprehension {
            type_: t,
            element: e,
            branches: b,
            position: p,
        } && type_transformed(type_, t, f) && retyped(*element, *e, f) && b@.len()
            == branches@.len() && (forall|i: int|
            0 <= i < branches@.len() ==> retyped_branch(#[trigger] branches@[i], b@[i], f)) && p@
            == position@,
        Expression::Mapping { key_type, value_type, elements, position } => new matches Expression::Mapping {
            key_type: k,
            value_type: v,
            elements: l,
            position: p,
        } && type_transformed(key_type, k, f) && type_transformed(value_type, v, f) && l@.len()
            == elements@.len() && (forall|i: int|
            0 <= i < elements@.len() ==> match (#[trigger] elements@[i], l@[i]) {
                (MapElement::Single(x), MapElement::Single(y)) => retyped(x.key, y.key, f)
                    && retyped(x.value, y.value, f) && x.position@ == y.position@,
                (MapElement::Multiple(x), MapElement::Multiple(y)) => retyped(x, y, f),
                _ => false,
            }) && p@ == position@,
        Expression::Unit { position } => new matches Expression::Unit { position: p } && p@
            == position@,
        Expression::Number { value, position } => new matches Expression::Number {
            value: v,
            position: p,
        } && v == value && p@ == position@,
        Expression::Operation(operation) => new matches Expression::Operation(o)
            && retyped_operation(operation, o, f),
        Expression::RecordConstruction { type_, fields, position } => new matches Expression::RecordConstruction {
            type_: t,
            fields: g,
            position: p,
        } && type_transformed(type_, t, f) && retyped_fields(fields@, g@, f) && p@ == position@,
        Expression::RecordDeconstruction { type_, record, field_name, position } => new matches Expression::RecordDeconstruction {
            type_: t,
            record: r,
            field_name: n,
            position: p,
        } && option_type_transformed(type_, t, f) && retyped(*record, *r, f) && n@ == field_name@
            && p@ == position@,
        Expression::RecordUpdate { type_, record, fields, position } => new matches Expression::RecordUpdate {
            type_: t,
            record: r,
            fields: g,
            position: p,
        } && type_transformed(type_, t, f) && retyped(*record, *r, f) && retyped_fields(
            fields@,
            g@,
            f,
        ) && p@ == position@,
        Expression::String { value, position } => new matches Expression::String {
            value: v,
            position: p,
        } && v@ == value@ && p@ == position@,
        Expression::Thunk { type_, expression, position } => new matches Expression::Thunk {
            type_: t,
            expression: e,
            position: p,
        } && option_type_transformed(type_, t, f) && retyped(*expression, *e, f) && p@ == position@,
        Expression::TypeCoercion { from, to, argument, position } => new matches Expression::TypeCoercion {
            from: g,
            to: t,
            argument: a,
            position: p,
        } && type_transformed(from, g, f) && type_transformed(to, t, f) && retyped(
            *argument,
            *a,
            f,
        ) && p@ == position@,
        Expression::Variable { name, position } => new matches Expression::Variable {
            name: n,
            position: p,
        } && n@ == name@ && p@ == position@,
    }
}

/// Lambda arguments with their types transformed.
pub open spec fn arguments_retyped(
    old: Seq<Argument>,
    new: Seq<Argument>,
    f: spec_fn(Type, Type) -> bool,
) -> bool {
    new.len() == old.len() && forall|i: int|
        0 <= i < old.len() ==> (#[trigger] old[i]).name@ == new[i].name@ && type_transformed(
            old[i].type_,
            new[i].type_,
            f,
        )
}

/// A lambda with its argument types, result type and body transformed.
pub open spec fn retyped_lambda(
    old: Lambda<Expression>,
    new: Lambda<Expression>,
    f: spec_fn(Type, Type) -> bool,
) -> bool
    decreases old,
{
    arguments_retyped(old.arguments@, new.arguments@, f) && type_transformed(
        old.result_type,
        new.result_type,
        f,
    ) && retyped(*old.body, *new.body, f) && new.position@ == old.position@
}

/// A list comprehension branch with its types and expressions transformed.
pub open spec fn retyped_branch(
    old: ListComprehensionBranch<Expression>,
    new: ListComprehensionBranch<Expression>,
    f: spec_fn(Type, Type) -> bool,
) -> bool
    decreases old,
{
    same_strings(old.names@, new.names@) && new.iteratees@.len() == old.iteratees@.len() && (forall|
        i: int,
    |
        0 <= i < old.iteratees@.len() ==> option_type_transformed(
            #[trigger] old.iteratees@[i].type_,
            new.iteratees@[i].type_,
            f,
        ) && retyped(old.iteratees@[i].expression, new.iteratees@[i].expression, f)
            && old.iteratees@[i].position@ == new.iteratees@[i].position@) && (match (
        old.condition,
        new.condition,
    ) {
        (Some(x), Some(y)) => retyped(x, y, f),
        (None, None) => true,
        _ => false,
    }) && new.position@ == old.position@
}

/// Record fields with their expressions transformed.
pub open spec fn retyped_fields(
    old: Seq<RecordFieldValue<Expression>>,
    new: Seq<RecordFieldValue<Expression>>,
    f: spec_fn(Type, Type) -> bool,
) -> bool
    decreases old,
{
    new.len() == old.len() && forall|i: int|
        0 <= i < old.len() ==> (#[trigger] old[i]).name@ == new[i].name@ && retyped(
            old[i].expression,
            new[i].expression,
            f,
        ) && old[i].position@ == new[i].position@
}

/// An operation with its types and operands transformed.
pub open spec fn retyped_operation(
    old: Operation<Expression>,
    new: Operation<Expression>,
    f: spec_fn(Type, Type) -> bool,
) -> bool
    decreases old,
{
    match (old, new) {
        (
            Operation::Addition { type_: t, lhs: l, rhs: r, position: p },
            Operation::Addition { type_: u, lhs: m, rhs: s, position: q },
        ) => option_type_transformed(t, u, f) && retyped(*l, *m, f) && retyped(*r, *s, f) && p@
            == q@,
        (
            Operation::Arithmetic { operator: o, lhs: l, rhs: r, position: p },
            Operation::Arithmetic { operator: n, lhs: m, rhs: s, position: q },
        ) => o == n && retyped(*l, *m, f) && retyped(*r, *s, f) && p@ == q@,
        (
            Operation::Boolean { operator: o, lhs: l, rhs: r, position: p },
            Operation::Boolean { operator: n, lhs: m, rhs: s, position: q },
        ) => o == n && retyped(*l, *m, f) && retyped(*r, *s, f) && p@ == q@,
        (
            Operation::Equality { type_: t, operator: o, lhs: l, rhs: r, position: p },
            Operation::Equality { type_: u, operator: n, lhs: m, rhs: s, position: q },
        ) => option_type_transformed(t, u, f) && o == n && retyped(*l, *m, f) && retyped(*r, *s, f)
            && p@ == q@,
        (
            Operation::Not { expression: e, position: p },
            Operation::Not { expression: g, position: q },
        ) => retyped(*e, *g, f) && p@ == q@,
        (
            Operation::Order { operator: o, lhs: l, rhs: r, position: p },
            Operation::Order { operator: n, lhs: m, rhs: s, position: q },
        ) => o == n && retyped(*l, *m, f) && retyped(*r, *s, f) && p@ == q@,
        (
            Operation::Try { type_: t, expression: e, position: p },
            Operation::Try { type_: u, expression: g, position: q },
        ) => option_type_transformed(t, u, f) && retyped(*e, *g, f) && p@ == q@,
        _ => false,
    }
}

/// Record fields of a type definition with their types transformed.
pub open spec fn record_fields_retyped(
    old: Seq<RecordField>,
    new: Seq<RecordField>,
    f: spec_fn(Type, Type) -> bool,
) -> bool {
    new.len() == old.len() && forall|i: int|
        0 <= i < old.len() ==> (#[trigger] old[i]).name@ == new[i].name@ && type_transformed(
            old[i].type_,
            new[i].type_,
            f,
        )
}

/// A type definition with its field types transformed, unless it is
/// external.
pub open spec fn type_definition_retyped(
    old: TypeDefinition,
    new: TypeDefinition,
    f: spec_fn(Type, Type) -> bool,
) -> bool {
    if old.is_external {
        same_type_definition(old, new)
    } else {
        &&& new.name@ == old.name@
        &&& new.original_name@ == old.original_name@
        &&& record_fields_retyped(old.fields@, new.fields@, f)
        &&& new.is_open == old.is_open
        &&& new.is_public == old.is_public
        &&& new.is_external == old.is_external
        &&& new.position@ == old.position@
    }
}

/// A type alias with its type transformed, unless it is external.
pub open spec fn type_alias_retyped(old: TypeAlias, new: TypeAlias, f: spec_fn(Type, Type) -> bool) -> bool {
    if old.is_external {
        same_type_alias(old, new)
    } else {
        &&& new.name@ == old.name@
        &&& new.original_name@ == old.original_name@
        &&& type_transformed(old.type_, new.type_, f)
        &&& new.is_public == old.is_public
        &&& new.is_external == old.is_external
        &&& new.position@ == old.position@
    }
}

/// A foreign declaration with its type transformed.
pub open spec fn foreign_declaration_retyped(
    old: ForeignDeclaration,
    new: ForeignDeclaration,
    f: spec_fn(Type, Type) -> bool,
) -> bool {
    &&& new.name@ == old.name@
    &&& new.foreign_name@ == old.foreign_name@
    &&& new.calling_convention == old.calling_convention
    &&& type_transformed(old.type_, new.type_, f)
    &&& new.position@ == old.position@
}

/// A function definition with the types of its lambda transformed.
pub open spec fn function_definition_retyped(
    old: FunctionDefinition,
    new: FunctionDefinition,
    f: spec_fn(Type, Type) -> bool,
) -> bool {
    &&& new.name@ == old.name@
    &&& new.original_name@ == old.original_name@
    &&& retyped_lambda(old.lambda, new.lambda, f)
    &&& new.foreign_definition_configuration == old.foreign_definition_configuration
    &&& new.is_public == old.is_public
    &&& new.position@ == old.position@
}

/// `new` is `old` with every type of its type definitions (but external
/// ones), type aliases (but external ones), foreign declarations and
/// function definitions transformed bottom up; function declarations stay.
pub open spec fn module_retyped(old: Module, new: Module, f: spec_fn(Type, Type) -> bool) -> bool {
    &&& new.type_definitions@.len() == old.type_definitions@.len()
    &&& forall|i: int|
        0 <= i < old.type_definitions@.len() ==> type_definition_retyped(
            #[trigger] old.type_definitions@[i],
            new.type_definitions@[i],
            f,
        )
    &&& new.type_aliases@.len() == old.type_aliases@.len()
    &&& forall|i: int|
        0 <= i < old.type_aliases@.len() ==> type_alias_retyped(
            #[trigger] old.type_aliases@[i],
            new.type_aliases@[i],
            f,
        )
    &&& new.foreign_declarations@.len() == old.foreign_declarations@.len()
    &&& forall|i: int|
        0 <= i < old.foreign_declarations@.len() ==> foreign_declaration_retyped(
            #[trigger] old.foreign_declarations@[i],
            new.foreign_declarations@[i],
            f,
        )
    &&& same_function_declarations(old.function_declarations@, new.function_declarations@)
    &&& new.function_definitions@.len() == old.function_definitions@.len()
    &&& forall|i: int|
        0 <= i < old.function_definitions@.len() ==> function_definition_retyped(
            #[trigger] old.function_definitions@[i],
            new.function_definitions@[i],
            f,
        )
    &&& new.position@ == old.position@
}

/// The relation between a type and what a function makes of it.
pub open spec fn type_relation<F: Fn(&Type) -> Type>(f: F) -> spec_fn(Type, Type) -> bool {
    |old: Type, new: Type| f.ensures((&old,), new)
}

/// `f` relates each type only to types of the same model.
pub open spec fn keeps_models(f: spec_fn(Type, Type) -> bool) -> bool {
    forall|a: Type, b: Type| #[trigger] f(a, b) ==> b@ == a@
}

/// A transformation that keeps the model of each type it is handed keeps
/// the model of every type it transforms: transforming with the identity
/// changes nothing.
pub proof fn law_model_keeping_transform_is_identity(old: Type, new: Type, f: spec_fn(Type, Type) -> bool)
    requires
        type_transformed(old, new, f),
        keeps_models(f),
    ensures
        new@ == old@,
    decreases old,
{
    assert(exists|mid: Type| #![trigger f(mid, new)] rebuilt(old, mid, f) && f(mid, new));
    let mid = choose|mid: Type| #![trigger f(mid, new)] rebuilt(old, mid, f) && f(mid, new);
    assert(f(mid, new));
    match old {
        Type::Function { arguments, result, position } => {
            assert(rebuilt(old, mid, f));
            assert(mid is Function);
            let a = mid->Function_arguments;
            let r = mid->Function_result;
            assert forall|i: int| 0 <= i < arguments@.len() implies a@[i]@ == (#[trigger] arguments@[i])@ by {
                assert(type_transformed(arguments@[i], a@[i], f));
                law_model_keeping_transform_is_identity(arguments@[i], a@[i], f);
            }
            law_model_keeping_transform_is_identity(*result, *r, f);
            crate::types::lemma_view_types(arguments@);
            crate::types::lemma_view_types(a@);
            assert(crate::types::view_types(a@) =~= crate::types::view_types(arguments@));
        },
        Type::List { element, .. } => {
            if let Type::List { element: e, .. } = mid {
                law_model_keeping_transform_is_identity(*element, *e, f);
            }
        },
        Type::Mapping { key, value, .. } => {
            if let Type::Mapping { key: k, value: v, .. } = mid {
                law_model_keeping_transform_is_identity(*key, *k, f);
                law_model_keeping_transform_is_identity(*value, *v, f);
            }
        },
        Type::Union { lhs, rhs, .. } => {
            if let Type::Union { lhs: l, rhs: r, .. } = mid {
                law_model_keeping_transform_is_identity(*lhs, *l, f);
                law_model_keeping_transform_is_identity(*rhs, *r, f);
            }
        },
        _ => {},
    }
}

/// Relates each type to the types of the same model: transforming with it
/// replaces types only by equal ones.
pub open spec fn same_models() -> spec_fn(Type, Type) -> bool {
    |a: Type, b: Type| b@ == a@
}

/// A type of the same model as another is what transforming that one with
/// `same_models` gives.
pub proof fn lemma_same_model_transformed(a: Type, b: Type)
    requires
        b@ == a@,
    ensures
        type_transformed(a, b, same_models()),
    decreases a,
{
    let g = same_models();
    match a {
        Type::Function { arguments, result, .. } => {
            assert(b is Function);
            let c = b->Function_arguments;
            let r = b->Function_result;
            crate::types::lemma_view_types(arguments@);
            crate::types::lemma_view_types(c@);
            assert forall|i: int| 0 <= i < arguments@.len() implies type_transformed(
                #[trigger] arguments@[i],
                c@[i],
                g,
            ) by {
                assert(crate::types::view_types(c@)[i] == crate::types::view_types(arguments@)[i]);
                lemma_same_model_transformed(arguments@[i], c@[i]);
            }
            lemma_same_model_transformed(*result, *r);
        },
        Type::List { element, .. } => {
            assert(b is List);
            lemma_same_model_transformed(*element, *b->List_element);
        },
        Type::Mapping { key, value, .. } => {
            assert(b is Mapping);
            lemma_same_model_transformed(*key, *b->Mapping_key);
            lemma_same_model_transformed(*value, *b->Mapping_value);
        },
        Type::Union { lhs, rhs, .. } => {
            assert(b is Union);
            lemma_same_model_transformed(*lhs, *b->Union_lhs);
            lemma_same_model_transformed(*rhs, *b->Union_rhs);
        },
        _ => {},
    }
    assert(rebuilt(a, b, g));
    assert(g(b, b));
}

/// What a model-keeping transformation makes of a type is what
/// `same_models` makes of it.
pub proof fn lemma_model_keeping_transformed(old: Type, new: Type, f: spec_fn(Type, Type) -> bool)
    requires
        type_transformed(old, new, f),
        keeps_models(f),
    ensures
        type_transformed(old, new, same_models()),
{
    law_model_keeping_transform_is_identity(old, new, f);
    lemma_same_model_transformed(old, new);
}

/// What a model-keeping transformation makes of an optional type is what
/// `same_models` makes of it.
pub proof fn lemma_option_model_keeping(old: Option<Type>, new: Option<Type>, f: spec_fn(Type, Type) -> bool)
    requires
        option_type_transformed(old, new, f),
        keeps_models(f),
    ensures
        option_type_transformed(old, new, same_models()),
{
    if let (Some(x), Some(y)) = (old, new) {
        lemma_model_keeping_transformed(x, y, f);
    }
}

/// What a model-keeping transformation makes of an expression is what
/// `same_models` makes of it.
pub proof fn lemma_model_keeping_retyped(old: Expression, new: Expression, f: spec_fn(Type, Type) -> bool)
    requires
        retyped(old, new, f),
        keeps_models(f),
    ensures
        retyped(old, new, same_models()),
    decreases old,
{
    let g = same_models();
    match old {
        Expression::Call { function_type, function, arguments, .. } => {
            lemma_option_model_keeping(function_type, new->Call_function_type, f);
            lemma_model_keeping_retyped(*function, *new->Call_function, f);
            let a = new->Call_arguments;
            assert forall|i: int| 0 <= i < arguments@.len() implies retyped(#[trigger] arguments@[i], a@[i], g) by {
                assert(decreases_to!(arguments => arguments@[i]));
                lemma_model_keeping_retyped(arguments@[i], a@[i], f);
            }
        },
        Expression::If { condition, then, else_, .. } => {
            lemma_model_keeping_retyped(*condition, *new->If_condition, f);
            lemma_model_keeping_retyped(*then, *new->If_then, f);
            lemma_model_keeping_retyped(*else_, *new->If_else_, f);
        },
        Expression::IfList { type_, list, then, else_, .. } => {
            lemma_option_model_keeping(type_, new->IfList_type_, f);
            lemma_model_keeping_retyped(*list, *new->IfList_list, f);
            lemma_model_keeping_retyped(*then, *new->IfList_then, f);
            lemma_model_keeping_retyped(*else_, *new->IfList_else_, f);
        },
        Expression::IfMap { key_type, value_type, map, key, then, else_, .. } => {
            lemma_option_model_keeping(key_type, new->IfMap_key_type, f);
            lemma_option_model_keeping(value_type, new->IfMap_value_type, f);
            lemma_model_keeping_retyped(*map, *new->IfMap_map, f);
            lemma_model_keeping_retyped(*key, *new->IfMap_key, f);
            lemma_model_keeping_retyped(*then, *new->IfMap_then, f);
            lemma_model_keeping_retyped(*else_, *new->IfMap_else_, f);
        },
        Expression::IfType { argument, branches, else_, .. } => {
            lemma_model_keeping_retyped(*argument, *new->IfType_argument, f);
            let b = new->IfType_branches;
            assert forall|i: int| 0 <= i < branches@.len() implies type_transformed(
                (#[trigger] branches@[i]).type_,
                b@[i].type_,
                g,
            ) && retyped(branches@[i].expression, b@[i].expression, g) by {
                assert(decreases_to!(branches => branches@[i]));
                lemma_model_keeping_transformed(branches@[i].type_, b@[i].type_, f);
                lemma_model_keeping_retyped(branches@[i].expression, b@[i].expression, f);
            }
            if let (Some(x), Some(y)) = (else_, new->IfType_else_) {
                lemma_option_model_keeping(x.type_, y.type_, f);
                lemma_model_keeping_retyped(x.expression, y.expression, f);
            }
        },
        Expression::Lambda(lambda) => {
            let l = new->Lambda_0;
            assert(retyped_lambda(lambda, l, f));
            assert(arguments_retyped(lambda.arguments@, l.arguments@, f));
            assert forall|i: int| 0 <= i < lambda.arguments@.len() implies type_transformed(
                (#[trigger] lambda.arguments@[i]).type_,
                l.arguments@[i].type_,
                g,
            ) by {
                lemma_model_keeping_transformed(lambda.arguments@[i].type_, l.arguments@[i].type_, f);
            }
            lemma_model_keeping_transformed(lambda.result_type, l.result_type, f);
            lemma_model_keeping_retyped(*lambda.body, *l.body, f);
            assert(retyped_lambda(lambda, l, g));
        },
        Expression::Let { type_, bound_expression, expression, .. } => {
            lemma_option_model_keeping(type_, new->Let_type_, f);
            lemma_model_keeping_retyped(*bound_expression, *new->Let_bound_expression, f);
            lemma_model_keeping_retyped(*expression, *new->Let_expression, f);
        },
        Expression::List { type_, elements, .. } => {
            lemma_model_keeping_transformed(type_, new->List_type_, f);
            let l = new->List_elements;
            assert forall|i: int| 0 <= i < elements@.len() implies match (#[trigger] elements@[i], l@[i]) {
                (ListElement::Multiple(x), ListElement::Multiple(y)) => retyped(x, y, g),
                (ListElement::Single(x), ListElement::Single(y)) => retyped(x, y, g),
                _ => false,
            } by {
                assert(decreases_to!(elements => elements@[i]));
                match (elements@[i], l@[i]) {
                    (ListElement::Multiple(x), ListElement::Multiple(y)) => {
                        lemma_model_keeping_retyped(x, y, f);
                    },
                    (ListElement::Single(x), ListElement::Single(y)) => {
                        lemma_model_keeping_retyped(x, y, f);
                    },
                    _ => {},
                }
            }
        },
        Expression::ListComprehension { type_, element, branches, .. } => {
            lemma_model_keeping_transformed(type_, new->ListComprehension_type_, f);
            lemma_model_keeping_retyped(*element, *new->ListComprehension_element, f);
            let b = new->ListComprehension_branches;
            assert forall|i: int| 0 <= i < branches@.len() implies retyped_branch(#[trigger] branches@[i], b@[i], g) by {
                assert(decreases_to!(branches => branches@[i]));
                let x = branches@[i];
                let y = b@[i];
                assert(retyped_branch(x, y, f));
                assert forall|j: int| 0 <= j < x.iteratees@.len() implies option_type_transformed(
                    #[trigger] x.iteratees@[j].type_,
                    y.iteratees@[j].type_,
                    g,
                ) && retyped(x.iteratees@[j].expression, y.iteratees@[j].expression, g) by {
                    assert(decreases_to!(x => x.iteratees));
                    assert(decreases_to!(x.iteratees => x.iteratees@[j]));
                    lemma_option_model_keeping(x.iteratees@[j].type_, y.iteratees@[j].type_, f);
                    lemma_model_keeping_retyped(x.iteratees@[j].expression, y.iteratees@[j].expression, f);
                }
                if let (Some(c), Some(d)) = (x.condition, y.condition) {
                    assert(decreases_to!(x => x.condition));
                    lemma_model_keeping_retyped(c, d, f);
                }
            }
        },
        Expression::Mapping { key_type, value_type, elements, .. } => {
            lemma_model_keeping_transformed(key_type, new->Mapping_key_type, f);
            lemma_model_keeping_transformed(value_type, new->Mapping_value_type, f);
            let l = new->Mapping_elements;
            assert forall|i: int| 0 <= i < elements@.len() implies match (#[trigger] elements@[i], l@[i]) {
                (MapElement::Single(x), MapElement::Single(y)) => retyped(x.key, y.key, g)
                    && retyped(x.value, y.value, g) && x.position@ == y.position@,
                (MapElement::Multiple(x), MapElement::Multiple(y)) => retyped(x, y, g),
                _ => false,
            } by {
                assert(decreases_to!(elements => elements@[i]));
                match (elements@[i], l@[i]) {
                    (MapElement::Single(x), MapElement::Single(y)) => {
                        lemma_model_keeping_retyped(x.key, y.key, f);
                        lemma_model_keeping_retyped(x.value, y.value, f);
                    },
                    (MapElement::Multiple(x), MapElement::Multiple(y)) => {
                        lemma_model_keeping_retyped(x, y, f);
                    },
                    _ => {},
                }
            }
        },
        Expression::Operation(operation) => {
            let o = new->Operation_0;
            assert(retyped_operation(operation, o, f));
            match (operation, o) {
                (Operation::Addition { type_: t, lhs: l, rhs: r, .. }, Operation::Addition { type_: u, lhs: m, rhs: s, .. }) => {
                    lemma_option_model_keeping(t, u, f);
                    lemma_model_keeping_retyped(*l, *m, f);
                    lemma_model_keeping_retyped(*r, *s, f);
                },
                (Operation::Arithmetic { lhs: l, rhs: r, .. }, Operation::Arithmetic { lhs: m, rhs: s, .. }) => {
                    lemma_model_keeping_retyped(*l, *m, f);
                    lemma_model_keeping_retyped(*r, *s, f);
                },
                (Operation::Boolean { lhs: l, rhs: r, .. }, Operation::Boolean { lhs: m, rhs: s, .. }) => {
                    lemma_model_keeping_retyped(*l, *m, f);
                    lemma_model_keeping_retyped(*r, *s, f);
                },
                (Operation::Equality { type_: t, lhs: l, rhs: r, .. }, Operation::Equality { type_: u, lhs: m, rhs: s, .. }) => {
                    lemma_option_model_keeping(t, u, f);
                    lemma_model_keeping_retyped(*l, *m, f);
                    lemma_model_keeping_retyped(*r, *s, f);
                },
                (Operation::Not { expression: e, .. }, Operation::Not { expression: h, .. }) => {
                    lemma_model_keeping_retyped(*e, *h, f);
                },
                (Operation::Order { lhs: l, rhs: r, .. }, Operation::Order { lhs: m, rhs: s, .. }) => {
                    lemma_model_keeping_retyped(*l, *m, f);
                    lemma_model_keeping_retyped(*r, *s, f);
                },
                (Operation::Try { type_: t, expression: e, .. }, Operation::Try { type_: u, expression: h, .. }) => {
                    lemma_option_model_keeping(t, u, f);
                    lemma_model_keeping_retyped(*e, *h, f);
                },
                _ => {},
            }
            assert(retyped_operation(operation, o, g));
        },
        Expression::RecordConstruction { type_, fields, .. } => {
            lemma_model_keeping_transformed(type_, new->RecordConstruction_type_, f);
            let h = new->RecordConstruction_fields;
            assert(retyped_fields(fields@, h@, f));
            assert forall|i: int| 0 <= i < fields@.len() implies retyped(
                (#[trigger] fields@[i]).expression,
                h@[i].expression,
                g,
            ) by {
                assert(decreases_to!(fields => fields@[i]));
                lemma_model_keeping_retyped(fields@[i].expression, h@[i].expression, f);
            }
            assert(retyped_fields(fields@, h@, g));
        },
        Expression::RecordDeconstruction { type_, record, .. } => {
            lemma_option_model_keeping(type_, new->RecordDeconstruction_type_, f);
            lemma_model_keeping_retyped(*record, *new->RecordDeconstruction_record, f);
        },
        Expression::RecordUpdate { type_, record, fields, .. } => {
            lemma_model_keeping_transformed(type_, new->RecordUpdate_type_, f);
            lemma_model_keeping_retyped(*record, *new->RecordUpdate_record, f);
            let h = new->RecordUpdate_fields;
            assert(retyped_fields(fields@, h@, f));
            assert forall|i: int| 0 <= i < fields@.len() implies retyped(
                (#[trigger] fields@[i]).expression,
                h@[i].expression,
                g,
            ) by {
                assert(decreases_to!(fields => fields@[i]));
                lemma_model_keeping_retyped(fields@[i].expression, h@[i].expression, f);
            }
            assert(retyped_fields(fields@, h@, g));
        },
        Expression::Thunk { type_, expression, .. } => {
            lemma_option_model_keeping(type_, new->Thunk_type_, f);
            lemma_model_keeping_retyped(*expression, *new->Thunk_expression, f);
        },
        Expression::TypeCoercion { from, to, argument, .. } => {
            lemma_model_keeping_transformed(from, new->TypeCoercion_from, f);
            lemma_model_keeping_transformed(to, new->TypeCoercion_to, f);
            lemma_model_keeping_retyped(*argument, *new->TypeCoercion_argument, f);
        },
        _ => {},
    }
}

/// Transforming a module with a function that keeps the model of every
/// type it is handed, such as the identity, gives the module back: each
/// type in it is replaced by one of the same model, and nothing else
/// changes.
pub proof fn law_model_keeping_transform_keeps_module(old: Module, new: Module, f: spec_fn(Type, Type) -> bool)
    requires
        module_retyped(old, new, f),
        keeps_models(f),
    ensures
        module_retyped(old, new, same_models()),
{
    let g = same_models();
    assert forall|i: int| 0 <= i < old.type_definitions@.len() implies type_definition_retyped(
        #[trigger] old.type_definitions@[i],
        new.type_definitions@[i],
        g,
    ) by {
        let x = old.type_definitions@[i];
        let y = new.type_definitions@[i];
        assert(type_definition_retyped(x, y, f));
        if !x.is_external {
            assert forall|j: int| 0 <= j < x.fields@.len() implies type_transformed(
                (#[trigger] x.fields@[j]).type_,
                y.fields@[j].type_,
                g,
            ) by {
                lemma_model_keeping_transformed(x.fields@[j].type_, y.fields@[j].type_, f);
            }
        }
    }
    assert forall|i: int| 0 <= i < old.type_aliases@.len() implies type_alias_retyped(
        #[trigger] old.type_aliases@[i],
        new.type_aliases@[i],
        g,
    ) by {
        let x = old.type_aliases@[i];
        let y = new.type_aliases@[i];
        assert(type_alias_retyped(x, y, f));
        if !x.is_external {
            lemma_model_keeping_transformed(x.type_, y.type_, f);
        }
    }
    assert forall|i: int| 0 <= i < old.foreign_declarations@.len() implies foreign_declaration_retyped(
        #[trigger] old.foreign_declarations@[i],
        new.foreign_declarations@[i],
        g,
    ) by {
        let x = old.foreign_declarations@[i];
        let y = new.foreign_declarations@[i];
        assert(foreign_declaration_retyped(x, y, f));
        lemma_model_keeping_transformed(x.type_, y.type_, f);
    }
    assert forall|i: int| 0 <= i < old.function_definitions@.len() implies function_definition_retyped(
        #[trigger] old.function_definitions@[i],
        new.function_definitions@[i],
        g,
    ) by {
        let x = old.function_definitions@[i];
        let y = new.function_definitions@[i];
        assert(function_definition_retyped(x, y, f));
        lemma_model_keeping_retyped(Expression::Lambda(x.lambda), Expression::Lambda(y.lambda), f);
    }
}

/// Transforms a type bottom up.
pub fn transform_type<F: Fn(&Type) -> Type>(type_: &Type, transform: &F) -> (transformed: Type)
    requires
        forall|t: &Type| transform.requires((t,)),
    ensures
        type_transformed(*type_, transformed, type_relation(*transform)),
    decreases type_,
{
    let mid = match type_ {
        Type::Function { arguments, result, position } => Type::Function {
            arguments: transform_types(arguments, transform),
            result: Box::new(transform_type(result, transform)),
            position: position.copy(),
        },
        Type::List { element, position } => Type::List {
            element: Box::new(transform_type(element, transform)),
            position: position.copy(),
        },
        Type::Mapping { key, value, position } => Type::Mapping {
            key: Box::new(transform_type(key, transform)),
            value: Box::new(transform_type(value, transform)),
            position: position.copy(),
        },
        Type::Union { lhs, rhs, position } => Type::Union {
            lhs: Box::new(transform_type(lhs, transform)),
            rhs: Box::new(transform_type(rhs, transform)),
            position: position.copy(),
        },
        _ => clone_type(type_),
    };
    let transformed = transform(&mid);
    proof {
        let f = type_relation(*transform);
        assert(f(mid, transformed));
        assert(rebuilt(*type_, mid, f));
    }
    transformed
}

/// Transforms types bottom up, one by one.
pub fn transform_types<F: Fn(&Type) -> Type>(types: &Vec<Type>, transform: &F) -> (transformed: Vec<
    Type,
>)
    requires
        forall|t: &Type| transform.requires((t,)),
    ensures
        transformed@.len() == types@.len(),
        forall|i: int|
            0 <= i < types@.len() ==> type_transformed(
                #[trigger] types@[i],
                transformed@[i],
                type_relation(*transform),
            ),
    decreases types,
{
    let mut transformed: Vec<Type> = Vec::new();
    let mut i: usize = 0;
    while i < types.len()
        invariant
            i <= types.len(),
            forall|t: &Type| transform.requires((t,)),
            transformed@.len() == i,
            forall|k: int|
                0 <= k < i ==> type_transformed(
                    #[trigger] types@[k],
                    transformed@[k],
                    type_relation(*transform),
                ),
        decreases types.len() - i,
    {
        proof {
            assert(decreases_to!(types => types@[i as int]));
        }
        transformed.push(transform_type(&types[i], transform));
        i = i + 1;
    }
    transformed
}

/// Transforms an optional type bottom up.
pub fn transform_option_type<F: Fn(&Type) -> Type>(
    type_: &Option<Type>,
    transform: &F,
) -> (transformed: Option<Type>)
    requires
        forall|t: &Type| transform.requires((t,)),
    ensures
        option_type_transformed(*type_, transformed, type_relation(*transform)),
{
    match type_ {
        Some(type_) => Some(transform_type(type_, transform)),
        None => None,
    }
}

/// Transforms every type in a module bottom up.
pub fn transform<F: Fn(&Type) -> Type>(module: &Module, transformation: &F) -> (transformed: Module)
    requires
        forall|t: &Type| transformation.requires((t,)),
    ensures
        module_retyped(*module, transformed, type_relation(*transformation)),
{
    let mut type_definitions: Vec<TypeDefinition> = Vec::new();
    let mut i: usize = 0;
    while i < module.type_definitions.len()
        invariant
            i <= module.type_definitions.len(),
            forall|t: &Type| transformation.requires((t,)),
            type_definitions@.len() == i,
            forall|k: int|
                0 <= k < i ==> type_definition_retyped(
                    #[trigger] module.type_definitions@[k],
                    type_definitions@[k],
                    type_relation(*transformation),
                ),
        decreases module.type_definitions.len() - i,
    {
        type_definitions.push(transform_type_definition(&module.type_definitions[i], transformation));
        i = i + 1;
    }
    let mut type_aliases: Vec<TypeAlias> = Vec::new();
    let mut i: usize = 0;
    while i < module.type_aliases.len()
        invariant
            i <= module.type_aliases.len(),
            forall|t: &Type| transformation.requires((t,)),
            type_aliases@.len() == i,
            forall|k: int|
                0 <= k < i ==> type_alias_retyped(
                    #[trigger] module.type_aliases@[k],
                    type_aliases@[k],
                    type_relation(*transformation),
                ),
        decreases module.type_aliases.len() - i,
    {
        let alias = &module.type_aliases[i];
        type_aliases.push(
            if alias.is_external {
                copy_type_alias(alias)
            } else {
                TypeAlias {
                    name: alias.name.clone(),
                    original_name: alias.original_name.clone(),
                    type_: transform_type(&alias.type_, transformation),
                    is_public: alias.is_public,
                    is_external: alias.is_external,
                    position: alias.position.copy(),
                }
            },
        );
        i = i + 1;
    }
    let mut foreign_declarations: Vec<ForeignDeclaration> = Vec::new();
    let mut i: usize = 0;
    while i < module.foreign_declarations.len()
        invariant
            i <= module.foreign_declarations.len(),
            forall|t: &Type| transformation.requires((t,)),
            foreign_declarations@.len() == i,
            forall|k: int|
                0 <= k < i ==> foreign_declaration_retyped(
                    #[trigger] module.foreign_declarations@[k],
                    foreign_declarations@[k],
                    type_relation(*transformation),
                ),
        decreases module.foreign_declarations.len() - i,
    {
        let declaration = &module.foreign_declarations[i];
        foreign_declarations.push(
            ForeignDeclaration {
                name: declaration.name.clone(),
                foreign_name: declaration.foreign_name.clone(),
                calling_convention: declaration.calling_convention,
                type_: transform_type(&declaration.type_, transformation),
                position: declaration.position.copy(),
            },
        );
        i = i + 1;
    }
    let mut function_definitions: Vec<FunctionDefinition> = Vec::new();
    let mut i: usize = 0;
    while i < module.function_definitions.len()
        invariant
            i <= module.function_definitions.len(),
            forall|t: &Type| transformation.requires((t,)),
            function_definitions@.len() == i,
            forall|k: int|
                0 <= k < i ==> function_definition_retyped(
                    #[trigger] module.function_definitions@[k],
                    function_definitions@[k],
                    type_relation(*transformation),
                ),
        decreases module.function_definitions.len() - i,
    {
        let definition = &module.function_definitions[i];
        function_definitions.push(
            FunctionDefinition {
                name: definition.name.clone(),
                original_name: definition.original_name.clone(),
                lambda: transform_lambda(&definition.lambda, transformation),
                foreign_definition_configuration: definition.foreign_definition_configuration,
                is_public: definition.is_public,
                position: definition.position.copy(),
            },
        );
        i = i + 1;
    }
    Module {
        type_definitions,
        type_aliases,
        foreign_declarations,
        function_declarations: copy_function_declarations(&module.function_declarations),
        function_definitions,
        position: module.position.copy(),
    }
}

fn transform_type_definition<F: Fn(&Type) -> Type>(
    definition: &TypeDefinition,
    transform: &F,
) -> (transformed: TypeDefinition)
    requires
        forall|t: &Type| transform.requires((t,)),
    ensures
        type_definition_retyped(*definition, transformed, type_relation(*transform)),
{
    if definition.is_external {
        return copy_type_definition(definition);
    }
    let mut fields: Vec<RecordField> = Vec::new();
    let mut i: usize = 0;
    while i < definition.fields.len()
        invariant
            i <= definition.fields.len(),
            forall|t: &Type| transform.requires((t,)),
            fields@.len() == i,
            forall|k: int|
                0 <= k < i ==> (#[trigger] definition.fields@[k]).name@ == fields@[k].name@
                    && type_transformed(
                    definition.fields@[k].type_,
                    fields@[k].type_,
                    type_relation(*transform),
                ),
        decreases definition.fields.len() - i,
    {
        let field = &definition.fields[i];
        fields.push(
            RecordField { name: field.name.clone(), type_: transform_type(&field.type_, transform) },
        );
        i = i + 1;
    }
    TypeDefinition {
        name: definition.name.clone(),
        original_name: definition.original_name.clone(),
        fields,
        is_open: definition.is_open,
        is_public: definition.is_public,
        is_external: definition.is_external,
        position: definition.position.copy(),
    }
}

fn transform_lambda<F: Fn(&Type) -> Type>(lambda: &Lambda<Expression>, transform: &F) -> (transformed: Lambda<Expression>)
    requires
        forall|t: &Type| transform.requires((t,)),
    ensures
        retyped_lambda(*lambda, transformed, type_relation(*transform)),
    decreases lambda,
{
    let mut arguments: Vec<Argument> = Vec::new();
    let mut i: usize = 0;
    while i < lambda.arguments.len()
        invariant
            i <= lambda.arguments.len(),
            forall|t: &Type| transform.requires((t,)),
            arguments@.len() == i,
            forall|k: int|
                0 <= k < i ==> (#[trigger] lambda.arguments@[k]).name@ == arguments@[k].name@
                    && type_transformed(
                    lambda.arguments@[k].type_,
                    arguments@[k].type_,
                    type_relation(*transform),
                ),
        decreases lambda.arguments.len() - i,
    {
        let argument = &lambda.arguments[i];
        arguments.push(
            Argument {
                name: argument.name.clone(),
                type_: transform_type(&argument.type_, transform),
            },
        );
        i = i + 1;
    }
    Lambda {
        arguments,
        result_type: transform_type(&lambda.result_type, transform),
        body: Box::new(transform_expression(&lambda.body, transform)),
        position: lambda.position.copy(),
    }
}

fn transform_expressions<F: Fn(&Type) -> Type>(expressions: &Vec<Expression>, transform: &F) -> (transformed: Vec<Expression>)
    requires
        forall|t: &Type| transform.requires((t,)),
    ensures
        transformed@.len() == expressions@.len(),
        forall|i: int|
            0 <= i < expressions@.len() ==> retyped(
                #[trigger] expressions@[i],
                transformed@[i],
                type_relation(*transform),
            ),
    decreases expressions,
{
    let mut transformed: Vec<Expression> = Vec::new();
    let mut i: usize = 0;
    while i < expressions.len()
        invariant
            i <= expressions.len(),
            forall|t: &Type| transform.requires((t,)),
            transformed@.len() == i,
            forall|k: int|
                0 <= k < i ==> retyped(
                    #[trigger] expressions@[k],
                    transformed@[k],
                    type_relation(*transform),
                ),
        decreases expressions.len() - i,
    {
        proof {
            assert(decreases_to!(expressions => expressions@[i as int]));
        }
        transformed.push(transform_expression(&expressions[i], transform));
        i = i + 1;
    }
    transformed
}

fn transform_fields<F: Fn(&Type) -> Type>(
    fields: &Vec<RecordFieldValue<Expression>>,
    transform: &F,
) -> (transformed: Vec<RecordFieldValue<Expression>>)
    requires
        forall|t: &Type| transform.requires((t,)),
    ensures
        retyped_fields(fields@, transformed@, type_relation(*transform)),
    decreases fields,
{
    let mut transformed: Vec<RecordFieldValue<Expression>> = Vec::new();
    let mut i: usize = 0;
    while i < fields.len()
        invariant
            i <= fields.len(),
            forall|t: &Type| transform.requires((t,)),
            transformed@.len() == i,
            forall|k: int|
                0 <= k < i ==> (#[trigger] fields@[k]).name@ == transformed@[k].name@ && retyped(
                    fields@[k].expression,
                    transformed@[k].expression,
                    type_relation(*transform),
                ) && fields@[k].position@ == transformed@[k].position@,
        decreases fields.len() - i,
    {
        let field = &fields[i];
        proof {
            assert(decreases_to!(fields => fields@[i as int]));
            assert(decreases_to!(fields@[i as int] => fields@[i as int].expression));
        }
        transformed.push(
            RecordFieldValue {
                name: field.name.clone(),
                expression: transform_expression(&field.expression, transform),
                position: field.position.copy(),
            },
        );
        i = i + 1;
    }
    transformed
}

fn transform_operation<F: Fn(&Type) -> Type>(operation: &Operation<Expression>, transform: &F) -> (transformed: Operation<Expression>)
    requires
        forall|t: &Type| transform.requires((t,)),
    ensures
        retyped_operation(*operation, transformed, type_relation(*transform)),
    decreases operation,
{
    match operation {
        Operation::Addition { type_, lhs, rhs, position } => Operation::Addition {
            type_: transform_option_type(type_, transform),
            lhs: Box::new(transform_expression(lhs, transform)),
            rhs: Box::new(transform_expression(rhs, transform)),
            position: position.copy(),
        },
        Operation::Arithmetic { operator, lhs, rhs, position } => Operation::Arithmetic {
            operator: *operator,
            lhs: Box::new(transform_expression(lhs, transform)),
            rhs: Box::new(transform_expression(rhs, transform)),
            position: position.copy(),
        },
        Operation::Boolean { operator, lhs, rhs, position } => Operation::Boolean {
            operator: *operator,
            lhs: Box::new(transform_expression(lhs, transform)),
            rhs: Box::new(transform_expression(rhs, transform)),
            position: position.copy(),
        },
        Operation::Equality { type_, operator, lhs, rhs, position } => Operation::Equality {
            type_: transform_option_type(type_, transform),
            operator: *operator,
            lhs: Box::new(transform_expression(lhs, transform)),
            rhs: Box::new(transform_expression(rhs, transform)),
            position: position.copy(),
        },
        Operation::Not { expression, position } => Operation::Not {
            expression: Box::new(transform_expression(expression, transform)),
            position: position.copy(),
        },
        Operation::Order { operator, lhs, rhs, position } => Operation::Order {
            operator: *operator,
            lhs: Box::new(transform_expression(lhs, transform)),
            rhs: Box::new(transform_expression(rhs, transform)),
            position: position.copy(),
        },
        Operation::Try { type_, expression, position } => Operation::Try {
            type_: transform_option_type(type_, transform),
            expression: Box::new(transform_expression(expression, transform)),
            position: position.copy(),
        },
    }
}

fn transform_if_branches<F: Fn(&Type) -> Type>(
    branches: &Vec<IfTypeBranch<Expression>>,
    transform: &F,
) -> (transformed: Vec<IfTypeBranch<Expression>>)
    requires
        forall|t: &Type| transform.requires((t,)),
    ensures
        transformed@.len() == branches@.len(),
        forall|k: int|
            0 <= k < branches@.len() ==> type_transformed(
                (#[trigger] branches@[k]).type_,
                transformed@[k].type_,
                type_relation(*transform),
            ) && retyped(
                branches@[k].expression,
                transformed@[k].expression,
                type_relation(*transform),
            ),
    decreases branches,
{
    let mut transformed: Vec<IfTypeBranch<Expression>> = Vec::new();
    let mut i: usize = 0;
    while i < branches.len()
        invariant
            i <= branches.len(),
            forall|t: &Type| transform.requires((t,)),
            transformed@.len() == i,
            forall|k: int|
                0 <= k < i ==> type_transformed(
                    (#[trigger] branches@[k]).type_,
                    transformed@[k].type_,
                    type_relation(*transform),
                ) && retyped(
                    branches@[k].expression,
                    transformed@[k].expression,
                    type_relation(*transform),
                ),
        decreases branches.len() - i,
    {
        proof {
            assert(decreases_to!(branches => branches@[i as int]));
            assert(decreases_to!(branches@[i as int] => branches@[i as int].expression));
        }
        transformed.push(
            IfTypeBranch {
                type_: transform_type(&branches[i].type_, transform),
                expression: transform_expression(&branches[i].expression, transform),
            },
        );
        i = i + 1;
    }
    transformed
}

fn transform_list_elements<F: Fn(&Type) -> Type>(
    elements: &Vec<ListElement<Expression>>,
    transform: &F,
) -> (transformed: Vec<ListElement<Expression>>)
    requires
        forall|t: &Type| transform.requires((t,)),
    ensures
        transformed@.len() == elements@.len(),
        forall|k: int|
            0 <= k < elements@.len() ==> match (#[trigger] elements@[k], transformed@[k]) {
                (ListElement::Multiple(x), ListElement::Multiple(y)) => retyped(
                    x,
                    y,
                    type_relation(*transform),
                ),
                (ListElement::Single(x), ListElement::Single(y)) => retyped(
                    x,
                    y,
                    type_relation(*transform),
                ),
                _ => false,
            },
    decreases elements,
{
    let mut transformed: Vec<ListElement<Expression>> = Vec::new();
    let mut i: usize = 0;
    while i < elements.len()
        invariant
            i <= elements.len(),
            forall|t: &Type| transform.requires((t,)),
            transformed@.len() == i,
            forall|k: int|
                0 <= k < i ==> match (#[trigger] elements@[k], transformed@[k]) {
                    (ListElement::Multiple(x), ListElement::Multiple(y)) => retyped(
                        x,
                        y,
                        type_relation(*transform),
                    ),
                    (ListElement::Single(x), ListElement::Single(y)) => retyped(
                        x,
                        y,
                        type_relation(*transform),
                    ),
                    _ => false,
                },
        decreases elements.len() - i,
    {
        proof {
            assert(decreases_to!(elements => elements@[i as int]));
        }
        let element = match &elements[i] {
            ListElement::Multiple(x) => {
                proof {
                    assert(decreases_to!(elements@[i as int] => elements@[i as int]->Multiple_0));
                }
                ListElement::Multiple(transform_expression(x, transform))
            },
            ListElement::Single(x) => {
                proof {
                    assert(decreases_to!(elements@[i as int] => elements@[i as int]->Single_0));
                }
                ListElement::Single(transform_expression(x, transform))
            },
        };
        transformed.push(element);
        i = i + 1;
    }
    transformed
}

fn transform_map_elements<F: Fn(&Type) -> Type>(
    elements: &Vec<MapElement<Expression>>,
    transform: &F,
) -> (transformed: Vec<MapElement<Expression>>)
    requires
        forall|t: &Type| transform.requires((t,)),
    ensures
        transformed@.len() == elements@.len(),
        forall|k: int|
            0 <= k < elements@.len() ==> match (#[trigger] elements@[k], transformed@[k]) {
                (MapElement::Single(x), MapElement::Single(y)) => retyped(
                    x.key,
                    y.key,
                    type_relation(*transform),
                ) && retyped(x.value, y.value, type_relation(*transform)) && x.position@
                    == y.position@,
                (MapElement::Multiple(x), MapElement::Multiple(y)) => retyped(
                    x,
                    y,
                    type_relation(*transform),
                ),
                _ => false,
            },
    decreases elements,
{
    let mut transformed: Vec<MapElement<Expression>> = Vec::new();
    let mut i: usize = 0;
    while i < elements.len()
        invariant
            i <= elements.len(),
            forall|t: &Type| transform.requires((t,)),
            transformed@.len() == i,
            forall|k: int|
                0 <= k < i ==> match (#[trigger] elements@[k], transformed@[k]) {
                    (MapElement::Single(x), MapElement::Single(y)) => retyped(
                        x.key,
                        y.key,
                        type_relation(*transform),
                    ) && retyped(x.value, y.value, type_relation(*transform)) && x.position@
                        == y.position@,
                    (MapElement::Multiple(x), MapElement::Multiple(y)) => retyped(
                        x,
                        y,
                        type_relation(*transform),
                    ),
                    _ => false,
                },
        decreases elements.len() - i,
    {
        proof {
            assert(decreases_to!(elements => elements@[i as int]));
        }
        let element = match &elements[i] {
            MapElement::Single(entry) => {
                proof {
                    assert(decreases_to!(elements@[i as int] => elements@[i as int]->Single_0));
                    assert(decreases_to!(elements@[i as int]->Single_0 => elements@[i as int]->Single_0.key));
                    assert(decreases_to!(elements@[i as int]->Single_0 => elements@[i as int]->Single_0.value));
                }
                MapElement::Single(
                    MapEntry {
                        key: transform_expression(&entry.key, transform),
                        value: transform_expression(&entry.value, transform),
                        position: entry.position.copy(),
                    },
                )
            },
            MapElement::Multiple(x) => {
                proof {
                    assert(decreases_to!(elements@[i as int] => elements@[i as int]->Multiple_0));
                }
                MapElement::Multiple(transform_expression(x, transform))
            },
        };
        transformed.push(element);
        i = i + 1;
    }
    transformed
}

fn transform_iteratees<F: Fn(&Type) -> Type>(
    iteratees: &Vec<ListComprehensionIteratee<Expression>>,
    transform: &F,
) -> (transformed: Vec<ListComprehensionIteratee<Expression>>)
    requires
        forall|t: &Type| transform.requires((t,)),
    ensures
        transformed@.len() == iteratees@.len(),
        forall|k: int|
            0 <= k < iteratees@.len() ==> option_type_transformed(
                #[trigger] iteratees@[k].type_,
                transformed@[k].type_,
                type_relation(*transform),
            ) && retyped(
                iteratees@[k].expression,
                transformed@[k].expression,
                type_relation(*transform),
            ) && iteratees@[k].position@ == transformed@[k].position@,
    decreases iteratees,
{
    let mut transformed: Vec<ListComprehensionIteratee<Expression>> = Vec::new();
    let mut j: usize = 0;
    while j < iteratees.len()
        invariant
            j <= iteratees.len(),
            forall|t: &Type| transform.requires((t,)),
            transformed@.len() == j,
            forall|k: int|
                0 <= k < j ==> option_type_transformed(
                    #[trigger] iteratees@[k].type_,
                    transformed@[k].type_,
                    type_relation(*transform),
                ) && retyped(
                    iteratees@[k].expression,
                    transformed@[k].expression,
                    type_relation(*transform),
                ) && iteratees@[k].position@ == transformed@[k].position@,
        decreases iteratees.len() - j,
    {
        let iteratee = &iteratees[j];
        proof {
            assert(decreases_to!(iteratees => iteratees@[j as int]));
            assert(decreases_to!(iteratees@[j as int] => iteratees@[j as int].expression));
        }
        transformed.push(
            ListComprehensionIteratee {
                type_: transform_option_type(&iteratee.type_, transform),
                expression: transform_expression(&iteratee.expression, transform),
                position: iteratee.position.copy(),
            },
        );
        j = j + 1;
    }
    transformed
}

fn transform_branches<F: Fn(&Type) -> Type>(
    branches: &Vec<ListComprehensionBranch<Expression>>,
    transform: &F,
) -> (transformed: Vec<ListComprehensionBranch<Expression>>)
    requires
        forall|t: &Type| transform.requires((t,)),
    ensures
        transformed@.len() == branches@.len(),
        forall|i: int|
            0 <= i < branches@.len() ==> retyped_branch(
                #[trigger] branches@[i],
                transformed@[i],
                type_relation(*transform),
            ),
    decreases branches,
{
    let mut transformed: Vec<ListComprehensionBranch<Expression>> = Vec::new();
    let mut i: usize = 0;
    while i < branches.len()
        invariant
            i <= branches.len(),
            forall|t: &Type| transform.requires((t,)),
            transformed@.len() == i,
            forall|k: int|
                0 <= k < i ==> retyped_branch(
                    #[trigger] branches@[k],
                    transformed@[k],
                    type_relation(*transform),
                ),
        decreases branches.len() - i,
    {
        let branch = &branches[i];
        proof {
            assert(decreases_to!(branches => branches@[i as int]));
            assert(decreases_to!(branches@[i as int] => branches@[i as int].iteratees));
        }
        let iteratees = transform_iteratees(&branch.iteratees, transform);
        let condition = match &branch.condition {
            Some(condition) => {
                proof {
                    assert(decreases_to!(branches@[i as int] => branches@[i as int].condition));
                    assert(decreases_to!(branches@[i as int].condition => branches@[i as int].condition->0));
                }
                Some(transform_expression(condition, transform))
            },
            None => None,
        };
        transformed.push(
            ListComprehensionBranch {
                names: copy_strings(&branch.names),
                iteratees,
                condition,
                position: branch.position.copy(),
            },
        );
        i = i + 1;
    }
    transformed
}

/// Transforms every type in an expression bottom up.
pub fn transform_expression<F: Fn(&Type) -> Type>(expression: &Expression, transform: &F) -> (transformed: Expression)
    requires
        forall|t: &Type| transform.requires((t,)),
    ensures
        retyped(*expression, transformed, type_relation(*transform)),
    decreases expression,
{
    match expression {
        Expression::Boolean { value, position } => Expression::Boolean {
            value: *value,
            position: position.copy(),
        },
        Expression::BuiltInFunction { name, position } => Expression::BuiltInFunction {
            name: *name,
            position: position.copy(),
        },
        Expression::Call { function_type, function, arguments, position } => Expression::Call {
            function_type: transform_option_type(function_type, transform),
            function: Box::new(transform_expression(function, transform)),
            arguments: transform_expressions(arguments, transform),
            position: position.copy(),
        },
        Expression::If { condition, then, else_, position } => Expression::If {
            condition: Box::new(transform_expression(condition, transform)),
            then: Box::new(transform_expression(then, transform)),
            else_: Box::new(transform_expression(else_, transform)),
            position: position.copy(),
        },
        Expression::IfList { type_, list, first_name, rest_name, then, else_, position } => Expression::IfList {
            type_: transform_option_type(type_, transform),
            list: Box::new(transform_expression(list, transform)),
            first_name: first_name.clone(),
            rest_name: rest_name.clone(),
            then: Box::new(transform_expression(then, transform)),
            else_: Box::new(transform_expression(else_, transform)),
            position: position.copy(),
        },
        Expression::IfMap { key_type, value_type, name, map, key, then, else_, position } => Expression::IfMap {
            key_type: transform_option_type(key_type, transform),
            value_type: transform_option_type(value_type, transform),
            name: name.clone(),
            map: Box::new(transform_expression(map, transform)),
            key: Box::new(transform_expression(key, transform)),
            then: Box::new(transform_expression(then, transform)),
            else_: Box::new(transform_expression(else_, transform)),
            position: position.copy(),
        },
        Expression::IfType { name, argument, branches, else_, position } => {
            let else_ = match else_ {
                Some(branch) => Some(
                    Box::new(
                        ElseBranch {
                            type_: transform_option_type(&branch.type_, transform),
                            expression: transform_expression(&branch.expression, transform),
                            position: branch.position.copy(),
                        },
                    ),
                ),
                None => None,
            };
            Expression::IfType {
                name: name.clone(),
                argument: Box::new(transform_expression(argument, transform)),
                branches: transform_if_branches(branches, transform),
                else_,
                position: position.copy(),
            }
        },
        Expression::Lambda(lambda) => Expression::Lambda(transform_lambda(lambda, transform)),
        Expression::Let { name, type_, bound_expression, expression: body, position } => Expression::Let {
            name: match name {
                Some(name) => Some(name.clone()),
                None => None,
            },
            type_: transform_option_type(type_, transform),
            bound_expression: Box::new(transform_expression(bound_expression, transform)),
            expression: Box::new(transform_expression(body, transform)),
            position: position.copy(),
        },
        Expression::List { type_, elements, position } => Expression::List {
            type_: transform_type(type_, transform),
            elements: transform_list_elements(elements, transform),
            position: position.copy(),
        },
        Expression::ListComprehension { type_, element, branches, position } => Expression::ListComprehension {
            type_: transform_type(type_, transform),
            element: Box::new(transform_expression(element, transform)),
            branches: transform_branches(branches, transform),
            position: position.copy(),
        },
        Expression::Mapping { key_type, value_type, elements, position } => Expression::Mapping {
            key_type: transform_type(key_type, transform),
            value_type: transform_type(value_type, transform),
            elements: transform_map_elements(elements, transform),
            position: position.copy(),
        },
        Expression::Unit { position } => Expression::Unit { position: position.copy() },
        Expression::Number { value, position } => Expression::Number {
            value: *value,
            position: position.copy(),
        },
        Expression::Operation(operation) => Expression::Operation(
            transform_operation(operation, transform),
        ),
        Expression::RecordConstruction { type_, fields, position } => Expression::RecordConstruction {
            type_: transform_type(type_, transform),
            fields: transform_fields(fields, transform),
            position: position.copy(),
        },
        Expression::RecordDeconstruction { type_, record, field_name, position } => Expression::RecordDeconstruction {
            type_: transform_option_type(type_, transform),
            record: Box::new(transform_expression(record, transform)),
            field_name: field_name.clone(),
            position: position.copy(),
        },
        Expression::RecordUpdate { type_, record, fields, position } => Expression::RecordUpdate {
            type_: transform_type(type_, transform),
            record: Box::new(transform_expression(record, transform)),
            fields: transform_fields(fields, transform),
            position: position.copy(),
        },
        Expression::String { value, position } => Expression::String {
            value: copy_bytes(value),
            position: position.copy(),
        },
        Expression::Thunk { type_, expression: body, position } => Expression::Thunk {
            type_: transform_option_type(type_, transform),
            expression: Box::new(transform_expression(body, transform)),
            position: position.copy(),
        },
        Expression::TypeCoercion { from, to, argument, position } => Expression::TypeCoercion {
            from: transform_type(from, transform),
            to: transform_type(to, transform),
            argument: Box::new(transform_expression(argument, transform)),
            position: position.copy(),
        },
        Expression::Variable { name, position } => Expression::Variable {
            name: name.clone(),
            position: position.copy(),
        },
    }
}

} // verus!
