//! Types of the intermediate representation, and their mathematical model.
use crate::position::{Position, SpecPosition};
use vstd::prelude::*;

verus! {

/// A type. The variants stand in the order by which canonical unions sort
/// their members.
#[derive(Debug, PartialEq, Eq)]
pub enum Type {
    /// The top type.
    Any { position: Position },
    Boolean { position: Position },
    Error { position: Position },
    Function { arguments: Vec<Type>, result: Box<Type>, position: Position },
    List { element: Box<Type>, position: Position },
    /// A map type from keys to values.
    Mapping { key: Box<Type>, value: Box<Type>, position: Position },
    /// The type `none`, whose only value is `none`.
    Unit { position: Position },
    Number { position: Position },
    /// A record type, named by its qualified name; `original_name` is the
    /// name written in the source.
    Record { name: String, original_name: String, position: Position },
    /// A reference to a type alias or a record type by name.
    Reference { name: String, position: Position },
    /// The byte string type.
    String { position: Position },
    Union { lhs: Box<Type>, rhs: Box<Type>, position: Position },
}

/// The mathematical value of a type.
pub enum SpecType {
    Any { position: SpecPosition },
    Boolean { position: SpecPosition },
    Error { position: SpecPosition },
    Function { arguments: Seq<SpecType>, result: Box<SpecType>, position: SpecPosition },
    List { element: Box<SpecType>, position: SpecPosition },
    Mapping { key: Box<SpecType>, value: Box<SpecType>, position: SpecPosition },
    Unit { position: SpecPosition },
    Number { position: SpecPosition },
    Record { name: Seq<char>, original_name: Seq<char>, position: SpecPosition },
    Reference { name: Seq<char>, position: SpecPosition },
    String { position: SpecPosition },
    Union { lhs: Box<SpecType>, rhs: Box<SpecType>, position: SpecPosition },
}

/// The models of a sequence of types.
pub open spec fn view_types(types: Seq<Type>) -> Seq<SpecType>
    decreases types,
{
    if types.len() == 0 {
        Seq::empty()
    } else {
        view_types(types.drop_last()).push(view_type(types.last()))
    }
}

/// The model of a type.
pub open spec fn view_type(type_: Type) -> SpecType
    decreases type_,
{
    match type_ {
        Type::Any { position } => SpecType::Any { position: position@ },
        Type::Boolean { position } => SpecType::Boolean { position: position@ },
        Type::Error { position } => SpecType::Error { position: position@ },
        Type::Function { arguments, result, position } => SpecType::Function {
            arguments: view_types(arguments@),
            result: Box::new(view_type(*result)),
            position: position@,
        },
        Type::List { element, position } => SpecType::List {
            element: Box::new(view_type(*element)),
            position: position@,
        },
        Type::Mapping { key, value, position } => SpecType::Mapping {
            key: Box::new(view_type(*key)),
            value: Box::new(view_type(*value)),
            position: position@,
        },
        Type::Unit { position } => SpecType::Unit { position: position@ },
        Type::Number { position } => SpecType::Number { position: position@ },
        Type::Record { name, original_name, position } => SpecType::Record {
            name: name@,
            original_name: original_name@,
            position: position@,
        },
        Type::Reference { name, position } => SpecType::Reference {
            name: name@,
            position: position@,
        },
        Type::String { position } => SpecType::String { position: position@ },
        Type::Union { lhs, rhs, position } => SpecType::Union {
            lhs: Box::new(view_type(*lhs)),
            rhs: Box::new(view_type(*rhs)),
            position: position@,
        },
    }
}

impl View for Type {
    type V = SpecType;

    open spec fn view(&self) -> SpecType {
        view_type(*self)
    }
}

pub broadcast proof fn lemma_view_types_len(types: Seq<Type>)
    ensures
        #[trigger] view_types(types).len() == types.len(),
    decreases types.len(),
{
    if types.len() > 0 {
        lemma_view_types_len(types.drop_last());
    }
}

/// The model of each element of a sequence is the element of the model.
pub broadcast proof fn lemma_view_types_index(types: Seq<Type>, i: int)
    requires
        0 <= i < types.len(),
    ensures
        #[trigger] view_types(types)[i] == view_type(types[i]),
    decreases types.len(),
{
    lemma_view_types_len(types.drop_last());
    if i < types.len() - 1 {
        lemma_view_types_index(types.drop_last(), i);
    }
}

/// The model of a sequence of types, element by element.
pub proof fn lemma_view_types(types: Seq<Type>)
    ensures
        view_types(types).len() == types.len(),
        forall|i: int| 0 <= i < types.len() ==> #[trigger] view_types(types)[i] == view_type(types[i]),
{
    lemma_view_types_len(types);
    assert forall|i: int| 0 <= i < types.len() implies #[trigger] view_types(types)[i] == view_type(types[i]) by {
        lemma_view_types_index(types, i);
    }
}

impl SpecType {
    /// The position of the outermost node of a type.
    pub open spec fn position_of(self) -> SpecPosition {
        match self {
            SpecType::Any { position } => position,
            SpecType::Boolean { position } => position,
            SpecType::Error { position } => position,
            SpecType::Function { position, .. } => position,
            SpecType::List { position, .. } => position,
            SpecType::Mapping { position, .. } => position,
            SpecType::Unit { position } => position,
            SpecType::Number { position } => position,
            SpecType::Record { position, .. } => position,
            SpecType::Reference { position, .. } => position,
            SpecType::String { position } => position,
            SpecType::Union { position, .. } => position,
        }
    }

    /// The same type with the position of its outermost node replaced.
    pub open spec fn with_position(self, p: SpecPosition) -> SpecType {
        match self {
            SpecType::Any { .. } => SpecType::Any { position: p },
            SpecType::Boolean { .. } => SpecType::Boolean { position: p },
            SpecType::Error { .. } => SpecType::Error { position: p },
            SpecType::Function { arguments, result, .. } => SpecType::Function {
                arguments,
                result,
                position: p,
            },
            SpecType::List { element, .. } => SpecType::List { element, position: p },
            SpecType::Mapping { key, value, .. } => SpecType::Mapping { key, value, position: p },
            SpecType::Unit { .. } => SpecType::Unit { position: p },
            SpecType::Number { .. } => SpecType::Number { position: p },
            SpecType::Record { name, original_name, .. } => SpecType::Record {
                name,
                original_name,
                position: p,
            },
            SpecType::Reference { name, .. } => SpecType::Reference { name, position: p },
            SpecType::String { .. } => SpecType::String { position: p },
            SpecType::Union { lhs, rhs, .. } => SpecType::Union { lhs, rhs, position: p },
        }
    }
}

/// A field of a record type.
#[derive(Debug, PartialEq, Eq)]
pub struct RecordField {
    pub name: String,
    pub type_: Type,
}

/// The mathematical value of a record field.
pub struct SpecRecordField {
    pub name: Seq<char>,
    pub type_: SpecType,
}

impl View for RecordField {
    type V = SpecRecordField;

    open spec fn view(&self) -> SpecRecordField {
        SpecRecordField { name: self.name@, type_: self.type_@ }
    }
}

/// The models of a sequence of record fields.
pub open spec fn view_fields(fields: Seq<RecordField>) -> Seq<SpecRecordField> {
    fields.map_values(|field: RecordField| field@)
}

impl RecordField {
    pub fn new(name: &str, type_: Type) -> (field: RecordField)
        ensures
            field@ == (SpecRecordField { name: name@, type_: type_@ }),
    {
        RecordField { name: String::from_str(name), type_ }
    }
}

impl Type {
    pub fn any(position: Position) -> (type_: Type)
        ensures
            type_@ == (SpecType::Any { position: position@ }),
    {
        Type::Any { position }
    }

    pub fn boolean(position: Position) -> (type_: Type)
        ensures
            type_@ == (SpecType::Boolean { position: position@ }),
    {
        Type::Boolean { position }
    }

    pub fn error(position: Position) -> (type_: Type)
        ensures
            type_@ == (SpecType::Error { position: position@ }),
    {
        Type::Error { position }
    }

    pub fn function(arguments: Vec<Type>, result: Type, position: Position) -> (type_: Type)
        ensures
            type_@ == (SpecType::Function {
                arguments: view_types(arguments@),
                result: Box::new(result@),
                position: position@,
            }),
    {
        Type::Function { arguments, result: Box::new(result), position }
    }

    pub fn list(element: Type, position: Position) -> (type_: Type)
        ensures
            type_@ == (SpecType::List { element: Box::new(element@), position: position@ }),
    {
        Type::List { element: Box::new(element), position }
    }

    pub fn map(key: Type, value: Type, position: Position) -> (type_: Type)
        ensures
            type_@ == (SpecType::Mapping {
                key: Box::new(key@),
                value: Box::new(value@),
                position: position@,
            }),
    {
        Type::Mapping { key: Box::new(key), value: Box::new(value), position }
    }

    pub fn none(position: Position) -> (type_: Type)
        ensures
            type_@ == (SpecType::Unit { position: position@ }),
    {
        Type::Unit { position }
    }

    pub fn number(position: Position) -> (type_: Type)
        ensures
            type_@ == (SpecType::Number { position: position@ }),
    {
        Type::Number { position }
    }

    pub fn record(name: &str, original_name: &str, position: Position) -> (type_: Type)
        ensures
            type_@ == (SpecType::Record {
                name: name@,
                original_name: original_name@,
                position: position@,
            }),
    {
        Type::Record {
            name: String::from_str(name),
            original_name: String::from_str(original_name),
            position,
        }
    }

    pub fn reference(name: &str, position: Position) -> (type_: Type)
        ensures
            type_@ == (SpecType::Reference { name: name@, position: position@ }),
    {
        Type::Reference { name: String::from_str(name), position }
    }

    pub fn string(position: Position) -> (type_: Type)
        ensures
            type_@ == (SpecType::String { position: position@ }),
    {
        Type::String { position }
    }

    pub fn union(lhs: Type, rhs: Type, position: Position) -> (type_: Type)
        ensures
            type_@ == (SpecType::Union {
                lhs: Box::new(lhs@),
                rhs: Box::new(rhs@),
                position: position@,
            }),
    {
        Type::Union { lhs: Box::new(lhs), rhs: Box::new(rhs), position }
    }

    pub fn position(&self) -> (position: &Position)
        ensures
            position@ == self@.position_of(),
    {
        match self {
            Type::Any { position } => position,
            Type::Boolean { position } => position,
            Type::Error { position } => position,
            Type::Function { position, .. } => position,
            Type::List { position, .. } => position,
            Type::Mapping { position, .. } => position,
            Type::Unit { position } => position,
            Type::Number { position } => position,
            Type::Record { position, .. } => position,
            Type::Reference { position, .. } => position,
            Type::String { position } => position,
            Type::Union { position, .. } => position,
        }
    }

    pub fn set_position(self, p: Position) -> (type_: Type)
        ensures
            type_@ == self@.with_position(p@),
    {
        match self {
            Type::Any { .. } => Type::Any { position: p },
            Type::Boolean { .. } => Type::Boolean { position: p },
            Type::Error { .. } => Type::Error { position: p },
            Type::Function { arguments, result, .. } => Type::Function {
                arguments,
                result,
                position: p,
            },
            Type::List { element, .. } => Type::List { element, position: p },
            Type::Mapping { key, value, .. } => Type::Mapping { key, value, position: p },
            Type::Unit { .. } => Type::Unit { position: p },
            Type::Number { .. } => Type::Number { position: p },
            Type::Record { name, original_name, .. } => Type::Record {
                name,
                original_name,
                position: p,
            },
            Type::Reference { name, .. } => Type::Reference { name, position: p },
            Type::String { .. } => Type::String { position: p },
            Type::Union { lhs, rhs, .. } => Type::Union { lhs, rhs, position: p },
        }
    }

    pub fn is_any(&self) -> (any: bool)
        ensures
            any == self@ is Any,
    {
        matches!(self, Type::Any { .. })
    }

    pub fn is_list(&self) -> (list: bool)
        ensures
            list == self@ is List,
    {
        matches!(self, Type::List { .. })
    }

    pub fn is_map(&self) -> (map: bool)
        ensures
            map == self@ is Mapping,
    {
        matches!(self, Type::Mapping { .. })
    }

    /// Whether values of this type can be told apart by their type at run
    /// time: unions and the top type.
    pub fn is_variant(&self) -> (variant: bool)
        ensures
            variant == (self@ is Any || self@ is Union),
    {
        matches!(self, Type::Any { .. } | Type::Union { .. })
    }
}

/// A copy of a type, node by node.
pub fn clone_type(type_: &Type) -> (copy: Type)
    ensures
        copy@ == type_@,
    decreases type_,
{
    match type_ {
        Type::Any { position } => Type::Any { position: position.copy() },
        Type::Boolean { position } => Type::Boolean { position: position.copy() },
        Type::Error { position } => Type::Error { position: position.copy() },
        Type::Function { arguments, result, position } => Type::Function {
            arguments: clone_types(arguments),
            result: Box::new(clone_type(result)),
            position: position.copy(),
        },
        Type::List { element, position } => Type::List {
            element: Box::new(clone_type(element)),
            position: position.copy(),
        },
        Type::Mapping { key, value, position } => Type::Mapping {
            key: Box::new(clone_type(key)),
            value: Box::new(clone_type(value)),
            position: position.copy(),
        },
        Type::Unit { position } => Type::Unit { position: position.copy() },
        Type::Number { position } => Type::Number { position: position.copy() },
        Type::Record { name, original_name, position } => Type::Record {
            name: name.clone(),
            original_name: original_name.clone(),
            position: position.copy(),
        },
        Type::Reference { name, position } => Type::Reference {
            name: name.clone(),
            position: position.copy(),
        },
        Type::String { position } => Type::String { position: position.copy() },
        Type::Union { lhs, rhs, position } => Type::Union {
            lhs: Box::new(clone_type(lhs)),
            rhs: Box::new(clone_type(rhs)),
            position: position.copy(),
        },
    }
}

/// A copy of a vector of types.
pub fn clone_types(types: &Vec<Type>) -> (copies: Vec<Type>)
    ensures
        view_types(copies@) == view_types(types@),
    decreases types,
{
    let mut copies: Vec<Type> = Vec::new();
    let mut i: usize = 0;
    while i < types.len()
        invariant
            i <= types.len(),
            view_types(copies@) == view_types(types@.take(i as int)),
        decreases types.len() - i,
    {
        proof {
            assert(decreases_to!(types => types@[i as int]));
        }
        let copy = clone_type(&types[i]);
        proof {
            assert(types@.take(i + 1).drop_last() =~= types@.take(i as int));
        }
        let ghost before = copies@;
        copies.push(copy);
        proof {
            assert(copies@.drop_last() =~= before);
        }
        i = i + 1;
    }
    assert(types@.take(i as int) =~= types@);
    copies
}

impl Clone for Type {
    fn clone(&self) -> (copy: Type)
        ensures
            copy@ == self@,
    {
        clone_type(self)
    }
}

impl Clone for RecordField {
    fn clone(&self) -> (copy: RecordField)
        ensures
            copy@ == self@,
    {
        RecordField { name: self.name.clone(), type_: clone_type(&self.type_) }
    }
}

} // verus!
