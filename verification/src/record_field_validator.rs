//! Validation that record fields are accessed only where the record type
//! is open: defined in the module, or external but public and open.
use crate::context::AnalysisContext;
use crate::error::{AnalysisError, SpecAnalysisError};
use crate::expression_visitor::{derefs, expressions_in_definitions, visit};
use crate::ir::{Expression, Module, TypeDefinition};
use crate::tables::{name_set_contents, type_map_contents, NameSet, TypeMap};
use crate::type_canonicalizer::{aliases_acyclic, canonical, canonicalizable, canonicalize_record};
use crate::types::{SpecType, Type};
use crate::unused_error_validator::view_unit;
use vstd::prelude::*;

verus! {

/// Whether the fields of a record type may be accessed: it is defined in
/// the module, or it is external, public and open.
pub open spec fn record_open(definition: TypeDefinition) -> bool {
    !definition.is_external || definition.is_public && definition.is_open
}

/// The names of the open record types among type definitions.
pub open spec fn open_records(definitions: Seq<TypeDefinition>) -> Set<Seq<char>> {
    Set::new(
        |name: Seq<char>|
            exists|i: int|
                0 <= i < definitions.len() && record_open(#[trigger] definitions[i])
                    && definitions[i].name@ == name,
    )
}

/// What checking the access to the fields of a record type at a position
/// finds: the error that the type is no record, or that the record is not
/// open, or the first error of resolving the type.
pub open spec fn record_access(
    type_: SpecType,
    position: crate::position::SpecPosition,
    types: Map<Seq<char>, SpecType>,
    open: Set<Seq<char>>,
) -> Result<(), SpecAnalysisError> {
    match canonical(type_, types) {
        Err(error) => Err(error),
        Ok(record_type) => if !(record_type is Record) {
            Err(SpecAnalysisError::RecordExpected(position, type_))
        } else if open.contains(record_type->Record_name) {
            Ok(())
        } else {
            Err(SpecAnalysisError::RecordFieldPrivate(position))
        },
    }
}

/// What validating one expression finds.
pub open spec fn field_access(
    expression: Expression,
    types: Map<Seq<char>, SpecType>,
    open: Set<Seq<char>>,
) -> Result<(), SpecAnalysisError> {
    match expression {
        Expression::RecordConstruction { type_, position, .. } => record_access(
            type_@,
            position@,
            types,
            open,
        ),
        Expression::RecordDeconstruction { type_, position, .. } => match type_ {
            None => Err(SpecAnalysisError::TypeNotInferred(position@)),
            Some(type_) => record_access(type_@, position@, types, open),
        },
        Expression::RecordUpdate { type_, position, .. } => record_access(
            type_@,
            position@,
            types,
            open,
        ),
        _ => Ok(()),
    }
}

/// The first error that validating some expressions in order finds.
pub open spec fn first_access_error(
    expressions: Seq<Expression>,
    types: Map<Seq<char>, SpecType>,
    open: Set<Seq<char>>,
) -> Result<(), SpecAnalysisError>
    decreases expressions.len(),
{
    if expressions.len() == 0 {
        Ok(())
    } else {
        match field_access(expressions[0], types, open) {
            Err(error) => Err(error),
            Ok(()) => first_access_error(expressions.drop_first(), types, open),
        }
    }
}

/// Whether the fields of a record type may be accessed.
pub fn is_record_open(definition: &TypeDefinition) -> (open: bool)
    ensures
        open == record_open(*definition),
{
    !definition.is_external || definition.is_public && definition.is_open
}

fn collect_open_records(definitions: &Vec<TypeDefinition>) -> (names: NameSet)
    ensures
        name_set_contents(names) == open_records(definitions@),
{
    let mut names = NameSet::new();
    let mut i: usize = 0;
    while i < definitions.len()
        invariant
            i <= definitions.len(),
            name_set_contents(names) == open_records(definitions@.take(i as int)),
        decreases definitions.len() - i,
    {
        if is_record_open(&definitions[i]) {
            names.insert(definitions[i].name.clone());
        }
        proof {
            assert(name_set_contents(names) =~= open_records(definitions@.take(i + 1))) by {
                assert forall|name: Seq<char>|
                    open_records(definitions@.take(i + 1)).contains(name) implies name_set_contents(
                        names,
                    ).contains(name) by {
                    let k = choose|k: int|
                        0 <= k < i + 1 && record_open(#[trigger] definitions@.take(i + 1)[k])
                            && definitions@.take(i + 1)[k].name@ == name;
                    if k < i {
                        assert(definitions@.take(i as int)[k] == definitions@.take(i + 1)[k]);
                    }
                }
                assert forall|name: Seq<char>|
                    name_set_contents(names).contains(name) implies open_records(
                        definitions@.take(i + 1),
                    ).contains(name) by {
                    if open_records(definitions@.take(i as int)).contains(name) {
                        let k = choose|k: int|
                            0 <= k < i && record_open(#[trigger] definitions@.take(i as int)[k])
                                && definitions@.take(i as int)[k].name@ == name;
                        assert(definitions@.take(i as int)[k] == definitions@.take(i + 1)[k]);
                    } else {
                        assert(definitions@.take(i + 1)[i as int] == definitions@[i as int]);
                    }
                }
            }
        }
        i = i + 1;
    }
    proof {
        assert(definitions@.take(i as int) =~= definitions@);
    }
    names
}

fn check_record_access(
    type_: &Type,
    position: &crate::position::Position,
    types: &TypeMap,
    open: &NameSet,
) -> (result: Result<(), AnalysisError>)
    requires
        aliases_acyclic(type_map_contents(*types)),
    ensures
        view_unit(result) == record_access(
            type_@,
            position@,
            type_map_contents(*types),
            name_set_contents(*open),
        ),
{
    proof {
        assert(canonicalizable(type_@, type_map_contents(*types)));
    }
    match canonicalize_record(type_, types)? {
        Some(Type::Record { name, .. }) => if open.contains(name.as_str()) {
            Ok(())
        } else {
            Err(AnalysisError::RecordFieldPrivate(position.copy()))
        },
        _ => Err(AnalysisError::RecordExpected(position.copy(), type_.clone())),
    }
}

/// Validates that every record construction, deconstruction and update of
/// a module accesses an open record type, in the order in which
/// `expression_visitor::visit` lists expressions.
pub fn validate(context: &AnalysisContext, module: &Module) -> (result: Result<(), AnalysisError>)
    requires
        aliases_acyclic(type_map_contents(*context.types())),
    ensures
        view_unit(result) == first_access_error(
            expressions_in_definitions(module.function_definitions@),
            type_map_contents(*context.types()),
            open_records(module.type_definitions@),
        ),
{
    let open = collect_open_records(&module.type_definitions);
    let types = context.types();
    let expressions = visit(module);
    let ghost all = derefs(expressions@);
    let mut i: usize = 0;
    proof {
        assert(all.skip(0) =~= all);
    }
    while i < expressions.len()
        invariant
            i <= expressions.len(),
            all == derefs(expressions@),
            all == expressions_in_definitions(module.function_definitions@),
            types == context.types(),
            aliases_acyclic(type_map_contents(*types)),
            name_set_contents(open) == open_records(module.type_definitions@),
            first_access_error(all, type_map_contents(*types), name_set_contents(open))
                == first_access_error(
                all.skip(i as int),
                type_map_contents(*types),
                name_set_contents(open),
            ),
        decreases expressions.len() - i,
    {
        proof {
            assert(all.skip(i as int)[0] == *expressions@[i as int]);
            assert(all.skip(i as int).drop_first() =~= all.skip(i + 1));
        }
        match expressions[i] {
            Expression::RecordConstruction { type_, position, .. } => {
                check_record_access(type_, position, types, &open)?;
            },
            Expression::RecordDeconstruction { type_, position, .. } => match type_ {
                Some(type_) => {
                    check_record_access(type_, position, types, &open)?;
                },
                None => {
                    return Err(AnalysisError::TypeNotInferred(position.copy()));
                },
            },
            Expression::RecordUpdate { type_, position, .. } => {
                check_record_access(type_, position, types, &open)?;
            },
            _ => {},
        }
        i = i + 1;
    }
    proof {
        assert(all.skip(i as int).len() == 0);
    }
    Ok(())
}

} // verus!
