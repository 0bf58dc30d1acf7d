//! Modules and expressions of the intermediate representation.
//!
//! Nested parts of expressions (branches, elements, fields) are generic in
//! the expression type that they hold, so that recursion over expressions
//! can go through them.
use crate::position::{Position, SpecPosition};
use crate::types::{RecordField, Type};
use vstd::prelude::*;

verus! {

/// A compiled module: its type definitions, type aliases, foreign function
/// declarations, declarations of functions of other modules, and function
/// definitions.
#[derive(Debug, PartialEq)]
pub struct Module {
    pub type_definitions: Vec<TypeDefinition>,
    pub type_aliases: Vec<TypeAlias>,
    pub foreign_declarations: Vec<ForeignDeclaration>,
    pub function_declarations: Vec<FunctionDeclaration>,
    pub function_definitions: Vec<FunctionDefinition>,
    pub position: Position,
}

/// A record type definition.
#[derive(Debug, PartialEq)]
pub struct TypeDefinition {
    pub name: String,
    pub original_name: String,
    pub fields: Vec<RecordField>,
    pub is_open: bool,
    pub is_public: bool,
    pub is_external: bool,
    pub position: Position,
}

/// A type alias.
#[derive(Debug, PartialEq)]
pub struct TypeAlias {
    pub name: String,
    pub original_name: String,
    pub type_: Type,
    pub is_public: bool,
    pub is_external: bool,
    pub position: Position,
}

/// How a foreign function is called.
#[derive(Clone, Copy, Debug, PartialEq, Eq)]
pub enum CallingConvention {
    Native,
    C,
}

/// A function implemented in another language.
#[derive(Debug, PartialEq)]
pub struct ForeignDeclaration {
    pub name: String,
    pub foreign_name: String,
    pub calling_convention: CallingConvention,
    pub type_: Type,
    pub position: Position,
}

/// A function defined in another module; `type_` is a function type.
#[derive(Debug, PartialEq)]
pub struct FunctionDeclaration {
    pub name: String,
    pub type_: Type,
    pub position: Position,
}

/// How a function is exported to other languages.
#[derive(Clone, Copy, Debug, PartialEq, Eq)]
pub struct ForeignDefinitionConfiguration {
    pub calling_convention: CallingConvention,
}

/// A function definition.
#[derive(Debug, PartialEq)]
pub struct FunctionDefinition {
    pub name: String,
    pub original_name: String,
    pub lambda: Lambda<Expression>,
    pub foreign_definition_configuration: Option<ForeignDefinitionConfiguration>,
    pub is_public: bool,
    pub position: Position,
}

/// An argument of a function literal.
#[derive(Debug, PartialEq)]
pub struct Argument {
    pub name: String,
    pub type_: Type,
}

/// A function literal.
#[derive(Debug, PartialEq)]
pub struct Lambda<E> {
    pub arguments: Vec<Argument>,
    pub result_type: Type,
    pub body: Box<E>,
    pub position: Position,
}

/// Functions built into the language.
#[derive(Clone, Copy, Debug, PartialEq, Eq)]
pub enum BuiltInFunctionName {
    Debug,
    Delete,
    Error,
    Keys,
    Race,
    ReflectDebug,
    ReflectEqual,
    Size,
    Source,
    Spawn,
    Values,
}

#[derive(Clone, Copy, Debug, PartialEq, Eq)]
pub enum ArithmeticOperator {
    Add,
    Subtract,
    Multiply,
    Divide,
}

#[derive(Clone, Copy, Debug, PartialEq, Eq)]
pub enum BooleanOperator {
    And,
    Or,
}

#[derive(Clone, Copy, Debug, PartialEq, Eq)]
pub enum EqualityOperator {
    Equal,
    NotEqual,
}

#[derive(Clone, Copy, Debug, PartialEq, Eq)]
pub enum OrderOperator {
    LessThan,
    LessThanOrEqual,
    GreaterThan,
    GreaterThanOrEqual,
}

/// A branch of an if-type expression for values of a type.
#[derive(Debug, PartialEq)]
pub struct IfTypeBranch<E> {
    pub type_: Type,
    pub expression: E,
}

/// The else branch of an if-type expression; its type is the rest of the
/// argument's type once inferred.
#[derive(Debug, PartialEq)]
pub struct ElseBranch<E> {
    pub type_: Option<Type>,
    pub expression: E,
    pub position: Position,
}

/// An element of a list literal: one element, or all elements of a list.
#[derive(Debug, PartialEq)]
pub enum ListElement<E> {
    Multiple(E),
    Single(E),
}

/// A list iterated over by a list comprehension; its type is inferred.
#[derive(Debug, PartialEq)]
pub struct ListComprehensionIteratee<E> {
    pub type_: Option<Type>,
    pub expression: E,
    pub position: Position,
}

/// A branch of a list comprehension, binding its names to the elements of
/// its iteratees, with an optional condition.
#[derive(Debug, PartialEq)]
pub struct ListComprehensionBranch<E> {
    pub names: Vec<String>,
    pub iteratees: Vec<ListComprehensionIteratee<E>>,
    pub condition: Option<E>,
    pub position: Position,
}

/// An entry of a map literal.
#[derive(Debug, PartialEq)]
pub struct MapEntry<E> {
    pub key: E,
    pub value: E,
    pub position: Position,
}

/// An element of a map literal: one entry, or all entries of a map.
#[derive(Debug, PartialEq)]
pub enum MapElement<E> {
    Single(MapEntry<E>),
    Multiple(E),
}

/// A field of a record construction or update.
#[derive(Debug, PartialEq)]
pub struct RecordFieldValue<E> {
    pub name: String,
    pub expression: E,
    pub position: Position,
}

/// An operation; types are those of operands, once inferred.
#[derive(Debug, PartialEq)]
pub enum Operation<E> {
    Addition { type_: Option<Type>, lhs: Box<E>, rhs: Box<E>, position: Position },
    Arithmetic { operator: ArithmeticOperator, lhs: Box<E>, rhs: Box<E>, position: Position },
    Boolean { operator: BooleanOperator, lhs: Box<E>, rhs: Box<E>, position: Position },
    Equality {
        type_: Option<Type>,
        operator: EqualityOperator,
        lhs: Box<E>,
        rhs: Box<E>,
        position: Position,
    },
    Not { expression: Box<E>, position: Position },
    Order { operator: OrderOperator, lhs: Box<E>, rhs: Box<E>, position: Position },
    Try { type_: Option<Type>, expression: Box<E>, position: Position },
}

/// An expression. Optional types are filled in by type inference.
/// Number literals hold the bits of their IEEE 754 value.
#[derive(Debug, PartialEq)]
pub enum Expression {
    Boolean { value: bool, position: Position },
    BuiltInFunction { name: BuiltInFunctionName, position: Position },
    Call {
        function_type: Option<Type>,
        function: Box<Expression>,
        arguments: Vec<Expression>,
        position: Position,
    },
    If {
        condition: Box<Expression>,
        then: Box<Expression>,
        else_: Box<Expression>,
        position: Position,
    },
    IfList {
        type_: Option<Type>,
        list: Box<Expression>,
        first_name: String,
        rest_name: String,
        then: Box<Expression>,
        else_: Box<Expression>,
        position: Position,
    },
    IfMap {
        key_type: Option<Type>,
        value_type: Option<Type>,
        name: String,
        map: Box<Expression>,
        key: Box<Expression>,
        then: Box<Expression>,
        else_: Box<Expression>,
        position: Position,
    },
    IfType {
        name: String,
        argument: Box<Expression>,
        branches: Vec<IfTypeBranch<Expression>>,
        else_: Option<Box<ElseBranch<Expression>>>,
        position: Position,
    },
    Lambda(Lambda<Expression>),
    Let {
        name: Option<String>,
        type_: Option<Type>,
        bound_expression: Box<Expression>,
        expression: Box<Expression>,
        position: Position,
    },
    List { type_: Type, elements: Vec<ListElement<Expression>>, position: Position },
    ListComprehension {
        type_: Type,
        element: Box<Expression>,
        branches: Vec<ListComprehensionBranch<Expression>>,
        position: Position,
    },
    Mapping {
        key_type: Type,
        value_type: Type,
        elements: Vec<MapElement<Expression>>,
        position: Position,
    },
    Unit { position: Position },
    Number { value: u64, position: Position },
    Operation(Operation<Expression>),
    RecordConstruction {
        type_: Type,
        fields: Vec<RecordFieldValue<Expression>>,
        position: Position,
    },
    RecordDeconstruction {
        type_: Option<Type>,
        record: Box<Expression>,
        field_name: String,
        position: Position,
    },
    RecordUpdate {
        type_: Type,
        record: Box<Expression>,
        fields: Vec<RecordFieldValue<Expression>>,
        position: Position,
    },
    String { value: Vec<u8>, position: Position },
    Thunk { type_: Option<Type>, expression: Box<Expression>, position: Position },
    TypeCoercion { from: Type, to: Type, argument: Box<Expression>, position: Position },
    Variable { name: String, position: Position },
}

/// The position of an operation.
pub open spec fn operation_position<E>(operation: Operation<E>) -> SpecPosition {
    match operation {
        Operation::Addition { position, .. } => position@,
        Operation::Arithmetic { position, .. } => position@,
        Operation::Boolean { position, .. } => position@,
        Operation::Equality { position, .. } => position@,
        Operation::Not { position, .. } => position@,
        Operation::Order { position, .. } => position@,
        Operation::Try { position, .. } => position@,
    }
}

/// The position of an expression.
pub open spec fn expression_position(expression: Expression) -> SpecPosition {
    match expression {
        Expression::Boolean { position, .. } => position@,
        Expression::BuiltInFunction { position, .. } => position@,
        Expression::Call { position, .. } => position@,
        Expression::If { position, .. } => position@,
        Expression::IfList { position, .. } => position@,
        Expression::IfMap { position, .. } => position@,
        Expression::IfType { position, .. } => position@,
        Expression::Lambda(lambda) => lambda.position@,
        Expression::Let { position, .. } => position@,
        Expression::List { position, .. } => position@,
        Expression::ListComprehension { position, .. } => position@,
        Expression::Mapping { position, .. } => position@,
        Expression::Unit { position } => position@,
        Expression::Number { position, .. } => position@,
        Expression::Operation(operation) => operation_position(operation),
        Expression::RecordConstruction { position, .. } => position@,
        Expression::RecordDeconstruction { position, .. } => position@,
        Expression::RecordUpdate { position, .. } => position@,
        Expression::String { position, .. } => position@,
        Expression::Thunk { position, .. } => position@,
        Expression::TypeCoercion { position, .. } => position@,
        Expression::Variable { position, .. } => position@,
    }
}

impl<E> Operation<E> {
    /// The position of the operation.
    pub fn position(&self) -> (position: &Position)
        ensures
            position@ == operation_position(*self),
    {
        match self {
            Operation::Addition { position, .. } => position,
            Operation::Arithmetic { position, .. } => position,
            Operation::Boolean { position, .. } => position,
            Operation::Equality { position, .. } => position,
            Operation::Not { position, .. } => position,
            Operation::Order { position, .. } => position,
            Operation::Try { position, .. } => position,
        }
    }
}

impl Expression {
    /// The position of the expression.
    pub fn position(&self) -> (position: &Position)
        ensures
            position@ == expression_position(*self),
    {
        match self {
            Expression::Boolean { position, .. } => position,
            Expression::BuiltInFunction { position, .. } => position,
            Expression::Call { position, .. } => position,
            Expression::If { position, .. } => position,
            Expression::IfList { position, .. } => position,
            Expression::IfMap { position, .. } => position,
            Expression::IfType { position, .. } => position,
            Expression::Lambda(lambda) => &lambda.position,
            Expression::Let { position, .. } => position,
            Expression::List { position, .. } => position,
            Expression::ListComprehension { position, .. } => position,
            Expression::Mapping { position, .. } => position,
            Expression::Unit { position } => position,
            Expression::Number { position, .. } => position,
            Expression::Operation(operation) => operation.position(),
            Expression::RecordConstruction { position, .. } => position,
            Expression::RecordDeconstruction { position, .. } => position,
            Expression::RecordUpdate { position, .. } => position,
            Expression::String { position, .. } => position,
            Expression::Thunk { position, .. } => position,
            Expression::TypeCoercion { position, .. } => position,
            Expression::Variable { position, .. } => position,
        }
    }
}

/// Every if-type expression in an expression has a branch or an else
/// branch.
pub open spec fn if_types_complete(expression: Expression) -> bool
    decreases expression,
{
    match expression {
        Expression::Call { function, arguments, .. } => if_types_complete(*function) && forall|
            i: int,
        | 0 <= i < arguments@.len() ==> if_types_complete(#[trigger] arguments@[i]),
        Expression::If { condition, then, else_, .. } => if_types_complete(*condition)
            && if_types_complete(*then) && if_types_complete(*else_),
        Expression::IfList { list, then, else_, .. } => if_types_complete(*list) && if_types_complete(
            *then,
        ) && if_types_complete(*else_),
        Expression::IfMap { map, key, then, else_, .. } => if_types_complete(*map)
            && if_types_complete(*key) && if_types_complete(*then) && if_types_complete(*else_),
        Expression::IfType { argument, branches, else_, .. } => (branches@.len() > 0 || else_ is Some)
            && if_types_complete(*argument) && (forall|i: int|
            0 <= i < branches@.len() ==> if_types_complete(#[trigger] branches@[i].expression))
            && match else_ {
            Some(branch) => if_types_complete(branch.expression),
            None => true,
        },
        Expression::Lambda(lambda) => if_types_complete(*lambda.body),
        Expression::Let { bound_expression, expression, .. } => if_types_complete(*bound_expression)
            && if_types_complete(*expression),
        Expression::List { elements, .. } => forall|i: int|
            0 <= i < elements@.len() ==> match #[trigger] elements@[i] {
                ListElement::Multiple(x) => if_types_complete(x),
                ListElement::Single(x) => if_types_complete(x),
            },
        Expression::ListComprehension { element, branches, .. } => if_types_complete(*element)
            && forall|i: int|
            0 <= i < branches@.len() ==> (forall|j: int|
                0 <= j < branches@[i].iteratees@.len() ==> if_types_complete(
                    #[trigger] branches@[i].iteratees@[j].expression,
                )) && match #[trigger] branches@[i].condition {
                Some(condition) => if_types_complete(condition),
                None => true,
            },
        Expression::Mapping { elements, .. } => forall|i: int|
            0 <= i < elements@.len() ==> match #[trigger] elements@[i] {
                MapElement::Single(entry) => if_types_complete(entry.key) && if_types_complete(
                    entry.value,
                ),
                MapElement::Multiple(x) => if_types_complete(x),
            },
        Expression::Operation(operation) => match operation {
            Operation::Addition { lhs, rhs, .. } => if_types_complete(*lhs) && if_types_complete(
                *rhs,
            ),
            Operation::Arithmetic { lhs, rhs, .. } => if_types_complete(*lhs) && if_types_complete(
                *rhs,
            ),
            Operation::Boolean { lhs, rhs, .. } => if_types_complete(*lhs) && if_types_complete(
                *rhs,
            ),
            Operation::Equality { lhs, rhs, .. } => if_types_complete(*lhs) && if_types_complete(
                *rhs,
            ),
            Operation::Not { expression, .. } => if_types_complete(*expression),
            Operation::Order { lhs, rhs, .. } => if_types_complete(*lhs) && if_types_complete(*rhs),
            Operation::Try { expression, .. } => if_types_complete(*expression),
        },
        Expression::RecordConstruction { fields, .. } => forall|i: int|
            0 <= i < fields@.len() ==> if_types_complete(#[trigger] fields@[i].expression),
        Expression::RecordDeconstruction { record, .. } => if_types_complete(*record),
        Expression::RecordUpdate { record, fields, .. } => if_types_complete(*record) && forall|
            i: int,
        | 0 <= i < fields@.len() ==> if_types_complete(#[trigger] fields@[i].expression),
        Expression::Thunk { expression, .. } => if_types_complete(*expression),
        Expression::TypeCoercion { argument, .. } => if_types_complete(*argument),
        _ => true,
    }
}

/// Every if-type expression in a module has a branch or an else branch.
pub open spec fn module_if_types_complete(module: Module) -> bool {
    forall|i: int|
        0 <= i < module.function_definitions@.len() ==> if_types_complete(
            *(#[trigger] module.function_definitions@[i]).lambda.body,
        )
}

} // verus!
