//! Errors of the analysis.
use crate::position::{Position, SpecPosition};
use crate::types::{SpecType, Type};
use vstd::prelude::*;

verus! {

/// An error found in a module. Types in `RecordNotFound` and `TypeNotFound`
/// are the record or reference types that name nothing; `TypesNotMatched`
/// holds the found position and type, then the expected ones;
/// `RecordFieldNotFound` and `VariableNotFound` hold a name and a position.
#[derive(Debug, PartialEq, Eq)]
pub enum AnalysisError {
    AnyTypeBranch(Position),
    ArgumentCount(Position),
    BuiltInFunctionNotCalled(Position),
    CollectionExpected(Position, Type),
    DuplicateFunctionNames(Position, Position),
    DuplicateTypeNames(Position, Position),
    ElementNameNotDefined(Position),
    ErrorTypeUndefined,
    FunctionExpected(Position, Type),
    ImpossibleRecord(Position),
    InvalidAdditionOperand(Position),
    InvalidTryOperation(Position),
    KeyNameNotDefined(Position),
    ListComprehensionIterateeCount(Position),
    ListExpected(Position, Type),
    MapExpected(Position, Type),
    MissingElseBlock(Position),
    RecordExpected(Position, Type),
    RecordFieldNotFound(String, Position),
    RecordFieldPrivate(Position),
    RecordFieldUnknown(Position),
    RecordNotFound(Type),
    RecursiveTypeAlias(Position),
    SpawnedFunctionArguments(Position),
    TryOperationInList(Position),
    TypeNotFound(Type),
    TypeNotInferred(Position),
    TypeNotComparable(Position, Type),
    TypesNotMatched(Position, Type, Position, Type),
    UnionExpected(Position, Type),
    UnknownRecordField(Position),
    UnreachableCode(Position),
    UnusedErrorValue(Position),
    ValueNameNotDefined(Position),
    VariableNotFound(String, Position),
    VariantExpected(Position, Type),
}

/// The mathematical value of an analysis error.
pub enum SpecAnalysisError {
    AnyTypeBranch(SpecPosition),
    ArgumentCount(SpecPosition),
    BuiltInFunctionNotCalled(SpecPosition),
    CollectionExpected(SpecPosition, SpecType),
    DuplicateFunctionNames(SpecPosition, SpecPosition),
    DuplicateTypeNames(SpecPosition, SpecPosition),
    ElementNameNotDefined(SpecPosition),
    ErrorTypeUndefined,
    FunctionExpected(SpecPosition, SpecType),
    ImpossibleRecord(SpecPosition),
    InvalidAdditionOperand(SpecPosition),
    InvalidTryOperation(SpecPosition),
    KeyNameNotDefined(SpecPosition),
    ListComprehensionIterateeCount(SpecPosition),
    ListExpected(SpecPosition, SpecType),
    MapExpected(SpecPosition, SpecType),
    MissingElseBlock(SpecPosition),
    RecordExpected(SpecPosition, SpecType),
    RecordFieldNotFound(Seq<char>, SpecPosition),
    RecordFieldPrivate(SpecPosition),
    RecordFieldUnknown(SpecPosition),
    RecordNotFound(SpecType),
    RecursiveTypeAlias(SpecPosition),
    SpawnedFunctionArguments(SpecPosition),
    TryOperationInList(SpecPosition),
    TypeNotFound(SpecType),
    TypeNotInferred(SpecPosition),
    TypeNotComparable(SpecPosition, SpecType),
    TypesNotMatched(SpecPosition, SpecType, SpecPosition, SpecType),
    UnionExpected(SpecPosition, SpecType),
    UnknownRecordField(SpecPosition),
    UnreachableCode(SpecPosition),
    UnusedErrorValue(SpecPosition),
    ValueNameNotDefined(SpecPosition),
    VariableNotFound(Seq<char>, SpecPosition),
    VariantExpected(SpecPosition, SpecType),
}

impl View for AnalysisError {
    type V = SpecAnalysisError;

    open spec fn view(&self) -> SpecAnalysisError {
        match self {
            AnalysisError::AnyTypeBranch(x0) => SpecAnalysisError::AnyTypeBranch(x0@),
            AnalysisError::ArgumentCount(x0) => SpecAnalysisError::ArgumentCount(x0@),
            AnalysisError::BuiltInFunctionNotCalled(x0) => SpecAnalysisError::BuiltInFunctionNotCalled(x0@),
            AnalysisError::CollectionExpected(x0, x1) => SpecAnalysisError::CollectionExpected(x0@, x1@),
            AnalysisError::DuplicateFunctionNames(x0, x1) => SpecAnalysisError::DuplicateFunctionNames(x0@, x1@),
            AnalysisError::DuplicateTypeNames(x0, x1) => SpecAnalysisError::DuplicateTypeNames(x0@, x1@),
            AnalysisError::ElementNameNotDefined(x0) => SpecAnalysisError::ElementNameNotDefined(x0@),
            AnalysisError::ErrorTypeUndefined => SpecAnalysisError::ErrorTypeUndefined,
            AnalysisError::FunctionExpected(x0, x1) => SpecAnalysisError::FunctionExpected(x0@, x1@),
            AnalysisError::ImpossibleRecord(x0) => SpecAnalysisError::ImpossibleRecord(x0@),
            AnalysisError::InvalidAdditionOperand(x0) => SpecAnalysisError::InvalidAdditionOperand(x0@),
            AnalysisError::InvalidTryOperation(x0) => SpecAnalysisError::InvalidTryOperation(x0@),
            AnalysisError::KeyNameNotDefined(x0) => SpecAnalysisError::KeyNameNotDefined(x0@),
            AnalysisError::ListComprehensionIterateeCount(x0) => SpecAnalysisError::ListComprehensionIterateeCount(x0@),
            AnalysisError::ListExpected(x0, x1) => SpecAnalysisError::ListExpected(x0@, x1@),
            AnalysisError::MapExpected(x0, x1) => SpecAnalysisError::MapExpected(x0@, x1@),
            AnalysisError::MissingElseBlock(x0) => SpecAnalysisError::MissingElseBlock(x0@),
            AnalysisError::RecordExpected(x0, x1) => SpecAnalysisError::RecordExpected(x0@, x1@),
            AnalysisError::RecordFieldNotFound(x0, x1) => SpecAnalysisError::RecordFieldNotFound(x0@, x1@),
            AnalysisError::RecordFieldPrivate(x0) => SpecAnalysisError::RecordFieldPrivate(x0@),
            AnalysisError::RecordFieldUnknown(x0) => SpecAnalysisError::RecordFieldUnknown(x0@),
            AnalysisError::RecordNotFound(x0) => SpecAnalysisError::RecordNotFound(x0@),
            AnalysisError::RecursiveTypeAlias(x0) => SpecAnalysisError::RecursiveTypeAlias(x0@),
            AnalysisError::SpawnedFunctionArguments(x0) => SpecAnalysisError::SpawnedFunctionArguments(x0@),
            AnalysisError::TryOperationInList(x0) => SpecAnalysisError::TryOperationInList(x0@),
            AnalysisError::TypeNotFound(x0) => SpecAnalysisError::TypeNotFound(x0@),
            AnalysisError::TypeNotInferred(x0) => SpecAnalysisError::TypeNotInferred(x0@),
            AnalysisError::TypeNotComparable(x0, x1) => SpecAnalysisError::TypeNotComparable(x0@, x1@),
            AnalysisError::TypesNotMatched(x0, x1, x2, x3) => SpecAnalysisError::TypesNotMatched(x0@, x1@, x2@, x3@),
            AnalysisError::UnionExpected(x0, x1) => SpecAnalysisError::UnionExpected(x0@, x1@),
            AnalysisError::UnknownRecordField(x0) => SpecAnalysisError::UnknownRecordField(x0@),
            AnalysisError::UnreachableCode(x0) => SpecAnalysisError::UnreachableCode(x0@),
            AnalysisError::UnusedErrorValue(x0) => SpecAnalysisError::UnusedErrorValue(x0@),
            AnalysisError::ValueNameNotDefined(x0) => SpecAnalysisError::ValueNameNotDefined(x0@),
            AnalysisError::VariableNotFound(x0, x1) => SpecAnalysisError::VariableNotFound(x0@, x1@),
            AnalysisError::VariantExpected(x0, x1) => SpecAnalysisError::VariantExpected(x0@, x1@),
        }
    }
}

} // verus!
