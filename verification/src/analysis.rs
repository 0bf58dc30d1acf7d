//! The analysis of a module as a whole: validation, type inference, type
//! checking, and the replacement of subtyping by type coercions.
use crate::context::AnalysisContext;
use crate::duplicate_function_name_validator::{
    duplicate_function_error,
    validate as validate_function_names,
};
use crate::duplicate_type_name_validator::{duplicate_type_error, validate as validate_type_names};
use crate::error::{AnalysisError, SpecAnalysisError};
use crate::expression_visitor::expressions_in_definitions;
use crate::ir::Module;
use crate::module_environment::environment;
use crate::record_field_validator::{
    first_access_error,
    open_records,
    validate as validate_record_fields,
};
use crate::recursive_type_alias_validator::{
    recursive_alias_error,
    validate as validate_recursive_aliases,
};
use crate::tables::{name_set_contents, record_map_contents, type_map_contents, NameSet};
use crate::try_operation_validator::{
    try_validated_definitions,
    validate as validate_try_operations,
    view_error_type,
};
use crate::type_canonicalizer::aliases_acyclic;
use crate::type_checker::{check_types, checked_lambda};
use crate::type_coercer::{coerce_types, coerced_module, produced, view_module_result};
use crate::type_existence_validator::{first_missing, validate as validate_type_existence};
use crate::type_inferrer::{infer, inferred_module, module_inferable};
use crate::type_visitor::types_in_module;
use crate::types::{SpecRecordField, SpecType};
use crate::unused_error_validator::{first_unused_error, validate as validate_unused_errors};
use vstd::prelude::*;

verus! {

/// `result` is what type checking gives of a module: `Ok` where the lambda
/// of every function definition checks, else the error of the first that
/// does not.
pub open spec fn module_checked(
    module: Module,
    result: Result<(), SpecAnalysisError>,
    types: Map<Seq<char>, SpecType>,
    records: Map<Seq<char>, Seq<SpecRecordField>>,
) -> bool {
    match result {
        Ok(()) => forall|i: int|
            0 <= i < module.function_definitions@.len() ==> checked_lambda(
                #[trigger] module.function_definitions@[i].lambda,
                environment(module),
                types,
                records,
            ) is Ok,
        Err(error) => exists|i: int|
            0 <= i < module.function_definitions@.len() && checked_lambda(
                #[trigger] module.function_definitions@[i].lambda,
                environment(module),
                types,
                records,
            ) == Err::<SpecType, SpecAnalysisError>(error) && forall|k: int|
                0 <= k < i ==> checked_lambda(
                    #[trigger] module.function_definitions@[k].lambda,
                    environment(module),
                    types,
                    records,
                ) is Ok,
    }
}

/// `result` is what becomes of an inferred module once it is checked,
/// validated, coerced and checked again; the first error otherwise.
pub open spec fn analyzed_inferred(
    inferred: Module,
    result: Result<Module, SpecAnalysisError>,
    types: Map<Seq<char>, SpecType>,
    records: Map<Seq<char>, Seq<SpecRecordField>>,
    error_type: Option<SpecType>,
) -> bool {
    exists|checked: Result<(), SpecAnalysisError>|
        #[trigger] produced(checked) && module_checked(inferred, checked, types, records) && match checked {
            Err(error) => result == Err::<Module, SpecAnalysisError>(error),
            Ok(()) => match try_validated_definitions(inferred, 0, types, error_type) {
                Err(error) => result == Err::<Module, SpecAnalysisError>(error),
                Ok(()) => match first_access_error(
                    expressions_in_definitions(inferred.function_definitions@),
                    types,
                    open_records(inferred.type_definitions@),
                ) {
                    Err(error) => result == Err::<Module, SpecAnalysisError>(error),
                    Ok(()) => match first_unused_error(
                        expressions_in_definitions(inferred.function_definitions@),
                        types,
                    ) {
                        Err(error) => result == Err::<Module, SpecAnalysisError>(error),
                        Ok(()) => exists|coerced: Result<Module, SpecAnalysisError>|
                            #[trigger] produced(coerced) && coerced_module(
                                inferred,
                                coerced,
                                types,
                                records,
                            ) && match coerced {
                                Err(error) => result == Err::<Module, SpecAnalysisError>(error),
                                Ok(coerced) => exists|rechecked: Result<(), SpecAnalysisError>|
                                    #[trigger] produced(rechecked) && module_checked(
                                        coerced,
                                        rechecked,
                                        types,
                                        records,
                                    ) && match rechecked {
                                        Err(error) => result == Err::<Module, SpecAnalysisError>(
                                            error,
                                        ),
                                        Ok(()) => result == Ok::<Module, SpecAnalysisError>(
                                            coerced,
                                        ),
                                    },
                            },
                    },
                },
            },
        }
}

/// `result` is what the analysis of a module gives: its function names,
/// type names, type references and type aliases validated, its types
/// inferred, then the inferred module checked, validated, coerced and
/// checked again; the first error otherwise.
pub open spec fn analyzed(
    module: Module,
    result: Result<Module, SpecAnalysisError>,
    types: Map<Seq<char>, SpecType>,
    records: Map<Seq<char>, Seq<SpecRecordField>>,
    error_type: Option<SpecType>,
) -> bool {
    match duplicate_function_error(module) {
        Some(error) => result == Err::<Module, SpecAnalysisError>(error),
        None => match duplicate_type_error(module) {
            Some(error) => result == Err::<Module, SpecAnalysisError>(error),
            None => match first_missing(types_in_module(module), types.dom(), records.dom()) {
                Some(error) => result == Err::<Module, SpecAnalysisError>(error),
                None => match recursive_alias_error(module) {
                    Some(error) => result == Err::<Module, SpecAnalysisError>(error),
                    None => exists|inferred: Result<Module, SpecAnalysisError>|
                        #[trigger] produced(inferred) && inferred_module(
                            module,
                            inferred,
                            types,
                            records,
                        ) && match inferred {
                            Err(error) => result == Err::<Module, SpecAnalysisError>(error),
                            Ok(inferred) => analyzed_inferred(inferred, result, types, records, error_type),
                        },
                },
            },
        },
    }
}

/// A set of names that holds the given names.
fn name_set(names: Vec<String>) -> (set: NameSet)
    ensures
        forall|name: Seq<char>|
            name_set_contents(set).contains(name) <==> exists|i: int|
                0 <= i < names@.len() && #[trigger] names@[i]@ == name,
{
    let mut set = NameSet::new();
    let mut i: usize = 0;
    while i < names.len()
        invariant
            i <= names.len(),
            forall|name: Seq<char>|
                name_set_contents(set).contains(name) <==> exists|j: int|
                    0 <= j < i && #[trigger] names@[j]@ == name,
        decreases names.len() - i,
    {
        let ghost before = name_set_contents(set);
        set.insert(names[i].clone());
        proof {
            assert forall|name: Seq<char>|
                name_set_contents(set).contains(name) implies exists|j: int|
                    0 <= j < i + 1 && #[trigger] names@[j]@ == name by {
                if name != names@[i as int]@ {
                    assert(before.contains(name));
                }
            }
        }
        i = i + 1;
    }
    set
}

/// The steps of the analysis after type inference.
fn analyze_inferred(context: &AnalysisContext, module: Module) -> (result: Result<Module, AnalysisError>)
    requires
        aliases_acyclic(type_map_contents(*context.types())),
        crate::ir::module_if_types_complete(module),
    ensures
        analyzed_inferred(
            module,
            view_module_result(result),
            type_map_contents(*context.types()),
            record_map_contents(*context.records()),
            view_error_type(*context.error_type_option()),
        ),
{
    let checked = check_types(context, &module);
    let ghost checked_view = crate::type_checker::view_unit_result(checked);
    proof {
        assert(produced(checked_view));
        assert(module_checked(
            module,
            checked_view,
            type_map_contents(*context.types()),
            record_map_contents(*context.records()),
        ));
    }
    checked?;
    validate_try_operations(context, &module)?;
    validate_record_fields(context, &module)?;
    validate_unused_errors(context, &module)?;
    let coerced = coerce_types(context, &module);
    proof {
        assert(produced(view_module_result(coerced)));
    }
    let coerced = coerced?;
    let rechecked = check_types(context, &coerced);
    let ghost rechecked_view = crate::type_checker::view_unit_result(rechecked);
    proof {
        assert(produced(rechecked_view));
        assert(module_checked(
            coerced,
            rechecked_view,
            type_map_contents(*context.types()),
            record_map_contents(*context.records()),
        ));
    }
    rechecked?;
    Ok(coerced)
}

/// The validations that come before type inference find nothing: no
/// duplicate function or type names, no reference to a missing type, no
/// recursive type alias.
pub open spec fn validated_for_inference(
    module: Module,
    types: Map<Seq<char>, SpecType>,
    records: Map<Seq<char>, Seq<SpecRecordField>>,
) -> bool {
    &&& duplicate_function_error(module) is None
    &&& duplicate_type_error(module) is None
    &&& first_missing(types_in_module(module), types.dom(), records.dom()) is None
    &&& recursive_alias_error(module) is None
}

/// Validates a module, infers its types, checks them, and replaces
/// subtyping with type coercions. Inference resolves type aliases, so it
/// needs the aliases of the context to refer to no chain that loops, and
/// every if-type expression to have a branch, once the validations before
/// it have passed.
pub fn analyze(context: &AnalysisContext, module: &Module) -> (result: Result<Module, AnalysisError>)
    requires
        validated_for_inference(*module, type_map_contents(*context.types()), record_map_contents(*context.records()))
            ==> aliases_acyclic(type_map_contents(*context.types())) && module_inferable(*module),
        module.type_definitions@.len() + module.type_aliases@.len() <= usize::MAX,
    ensures
        analyzed(
            *module,
            view_module_result(result),
            type_map_contents(*context.types()),
            record_map_contents(*context.records()),
            view_error_type(*context.error_type_option()),
        ),
{
    validate_function_names(module)?;
    validate_type_names(module)?;
    let types = name_set(context.types().names());
    let records = name_set(context.records().names());
    proof {
        assert(name_set_contents(types) =~= type_map_contents(*context.types()).dom());
        assert(name_set_contents(records) =~= record_map_contents(*context.records()).dom());
    }
    validate_type_existence(module, &types, &records)?;
    validate_recursive_aliases(module)?;
    let inferred = infer(context, module);
    proof {
        assert(produced(view_module_result(inferred)));
    }
    let inferred = inferred?;
    analyze_inferred(context, inferred)
}

} // verus!
