//! Semantic analysis of the high-level intermediate representation of the
//! Pen programming language: type canonicalization, equality, subsumption and
//! comparability of types, module transformations and validations.
pub mod position;
pub mod types;
pub mod type_formatter;
pub mod error;
pub mod tables;
pub mod type_order;
pub mod type_resolver;
pub mod type_canonicalizer;
pub mod canonical_form;
pub mod type_equality_checker;
pub mod type_subsumption_checker;
pub mod union_type_creator;
pub mod union_type_member_calculator;
pub mod type_difference_calculator;
pub mod type_id_calculator;
pub mod ir;
pub mod ir_copy;
pub mod variable_transformer;
pub mod built_in_variable_transformer;
pub mod type_transformer;
pub mod built_in_type_transformer;
pub mod built_in_type_replacer;
pub mod expression_visitor;
pub mod type_visitor;
pub mod variable_renamer;
pub mod definition_qualifier;
pub mod type_extractor;
pub mod module_environment;
pub mod type_collector;
pub mod context;
pub mod record_field_resolver;
pub mod type_comparability_checker;
pub mod type_existence_validator;
pub mod type_checker;
pub mod duplicate_function_name_validator;
pub mod duplicate_type_name_validator;
pub mod unused_error_validator;
pub mod try_operation_validator;
pub mod record_field_validator;
pub mod impossible_type_validator;
pub mod type_qualifier;
pub mod recursive_type_alias_validator;
pub mod alias_acyclicity;
pub mod error_message;
pub mod type_coercer;
pub mod type_inferrer;
pub mod analysis;
