//! Validation that no error value is dropped: a let expression without a
//! name may not bind a value whose type can be an error, unless its type
//! is `any`.
use crate::context::AnalysisContext;
use crate::error::{AnalysisError, SpecAnalysisError};
use crate::expression_visitor::{derefs, expressions_in_definitions, visit};
use crate::ir::{expression_position, Expression, Module};
use crate::tables::{type_map_contents, TypeMap};
use crate::type_canonicalizer::{aliases_acyclic, canonical, canonicalizable, canonicalize};
use crate::type_subsumption_checker::{check as check_subsumed, subsumes};
use crate::types::{SpecType, Type};
use vstd::prelude::*;

verus! {

/// What validating one expression finds: for a let expression without a
/// name whose type is no `any` and subsumes errors, the error at its bound
/// expression; the first error of resolving types; else nothing.
pub open spec fn unused_error(expression: Expression, types: Map<Seq<char>, SpecType>) -> Result<
    (),
    SpecAnalysisError,
> {
    match expression {
        Expression::Let { name, type_, bound_expression, position, .. } => match type_ {
            None => Err(SpecAnalysisError::TypeNotInferred(position@)),
            Some(type_) => if name is Some {
                Ok(())
            } else {
                match canonical(type_@, types) {
                    Err(error) => Err(error),
                    Ok(canonical_type) => if canonical_type is Any {
                        Ok(())
                    } else {
                        match subsumes(SpecType::Error { position: position@ }, type_@, types) {
                            Err(error) => Err(error),
                            Ok(true) => Err(
                                SpecAnalysisError::UnusedErrorValue(
                                    expression_position(*bound_expression),
                                ),
                            ),
                            Ok(false) => Ok(()),
                        }
                    },
                }
            },
        },
        _ => Ok(()),
    }
}

/// The first error that validating some expressions in order finds.
pub open spec fn first_unused_error(expressions: Seq<Expression>, types: Map<Seq<char>, SpecType>) -> Result<
    (),
    SpecAnalysisError,
>
    decreases expressions.len(),
{
    if expressions.len() == 0 {
        Ok(())
    } else {
        match unused_error(expressions[0], types) {
            Err(error) => Err(error),
            Ok(()) => first_unused_error(expressions.drop_first(), types),
        }
    }
}

/// The models of a result that holds nothing.
pub open spec fn view_unit(result: Result<(), AnalysisError>) -> Result<(), SpecAnalysisError> {
    match result {
        Ok(()) => Ok(()),
        Err(error) => Err(error@),
    }
}

fn validate_expression(expression: &Expression, types: &TypeMap) -> (result: Result<(), AnalysisError>)
    requires
        aliases_acyclic(type_map_contents(*types)),
    ensures
        view_unit(result) == unused_error(*expression, type_map_contents(*types)),
{
    match expression {
        Expression::Let { name, type_, bound_expression, position, .. } => {
            let type_ = match type_ {
                Some(type_) => type_,
                None => {
                    return Err(AnalysisError::TypeNotInferred(position.copy()));
                },
            };
            if name.is_some() {
                return Ok(());
            }
            let error = Type::Error { position: position.copy() };
            proof {
                assert(canonicalizable(type_@, type_map_contents(*types)));
                assert(canonicalizable(error@, type_map_contents(*types)));
            }
            if !canonicalize(type_, types)?.is_any() && check_subsumed(&error, type_, types)? {
                return Err(AnalysisError::UnusedErrorValue(bound_expression.position().copy()));
            }
            Ok(())
        },
        _ => Ok(()),
    }
}

/// Validates that no let expression without a name drops an error value,
/// in the order in which `expression_visitor::visit` lists expressions.
pub fn validate(context: &AnalysisContext, module: &Module) -> (result: Result<(), AnalysisError>)
    requires
        aliases_acyclic(type_map_contents(*context.types())),
    ensures
        view_unit(result) == first_unused_error(
            expressions_in_definitions(module.function_definitions@),
            type_map_contents(*context.types()),
        ),
{
    let expressions = visit(module);
    let ghost all = derefs(expressions@);
    let mut i: usize = 0;
    proof {
        assert(all.skip(0) =~= all);
    }
    while i < expressions.len()
        invariant
            i <= expressions.len(),
            all == derefs(expressions@),
            all == expressions_in_definitions(module.function_definitions@),
            aliases_acyclic(type_map_contents(*context.types())),
            first_unused_error(all, type_map_contents(*context.types())) == first_unused_error(
                all.skip(i as int),
                type_map_contents(*context.types()),
            ),
        decreases expressions.len() - i,
    {
        proof {
            assert(all.skip(i as int)[0] == *expressions@[i as int]);
            assert(all.skip(i as int).drop_first() =~= all.skip(i + 1));
        }
        validate_expression(expressions[i], context.types())?;
        i = i + 1;
    }
    proof {
        assert(all.skip(i as int).len() == 0);
    }
    Ok(())
}

} // verus!
