//! The text of analysis errors, with the positions that they point at.
use crate::error::{AnalysisError, SpecAnalysisError};
use crate::position::{Position, SpecPosition};
use crate::type_formatter::format_spec;
use crate::types::{SpecType, Type};
use vstd::prelude::*;
use vstd::string::StringExecFns;

verus! {

/// The character of a decimal digit.
pub open spec fn digit_char(d: int) -> char {
    (d + 48) as char
}

/// The decimal digits of a number, without leading zeros.
pub open spec fn decimal(n: usize) -> Seq<char>
    decreases n,
{
    let digit = digit_char((n % 10) as int);
    if n < 10 {
        seq![digit]
    } else {
        decimal(n / 10).push(digit)
    }
}

/// The text of a position: its path, line number and column number joined
/// by colons, then the text of the line on a line of its own.
pub open spec fn position_text(position: SpecPosition) -> Seq<char> {
    position.path + ":"@ + decimal(position.line_number) + ":"@ + decimal(position.column_number)
        + "\n"@ + position.line
}

/// A message about a position: the position's text, then the message.
pub open spec fn position_message(position: SpecPosition, message: Seq<char>) -> Seq<char> {
    position_text(position) + "\n"@ + message
}

/// A type as messages quote it.
pub open spec fn quoted(type_: SpecType) -> Seq<char> {
    "`"@ + format_spec(type_) + "`"@
}

/// A headline, then a position.
pub open spec fn at(headline: Seq<char>, position: SpecPosition) -> Seq<char> {
    headline + "\n"@ + position_text(position)
}

/// A headline, then the type found at a position.
pub open spec fn found(headline: Seq<char>, position: SpecPosition, type_: SpecType) -> Seq<char> {
    headline + "\n"@ + position_message(position, "found "@ + quoted(type_))
}

/// The text of an analysis error.
pub open spec fn error_message(error: SpecAnalysisError) -> Seq<char> {
    match error {
        SpecAnalysisError::AnyTypeBranch(p) => at("any type cannot be used for downcast"@, p),
        SpecAnalysisError::ArgumentCount(p) => at("wrong number of arguments in function call"@, p),
        SpecAnalysisError::BuiltInFunctionNotCalled(p) => at(
            "built-in function must be called directly"@,
            p,
        ),
        SpecAnalysisError::CollectionExpected(p, t) => found("list or map expected"@, p, t),
        SpecAnalysisError::DuplicateFunctionNames(p, q) => at("duplicate function names"@, p)
            + "\n"@ + position_text(q),
        SpecAnalysisError::DuplicateTypeNames(p, q) => at("duplicate type names"@, p) + "\n"@
            + position_text(q),
        SpecAnalysisError::ElementNameNotDefined(p) => at("element name not defined"@, p),
        SpecAnalysisError::ErrorTypeUndefined => "error type undefined"@,
        SpecAnalysisError::FunctionExpected(p, t) => found("function expected"@, p, t),
        SpecAnalysisError::ImpossibleRecord(p) => at("record construction dependent on itself"@, p),
        SpecAnalysisError::InvalidAdditionOperand(p) => at(
            "addition operands must be numbers or strings"@,
            p,
        ),
        SpecAnalysisError::InvalidTryOperation(p) => at(
            "try operation cannot be used in function not returning error"@,
            p,
        ),
        SpecAnalysisError::KeyNameNotDefined(p) => at("key name not defined"@, p),
        SpecAnalysisError::ListComprehensionIterateeCount(p) => at(
            "unmatched iteratee count in list comprehension"@,
            p,
        ),
        SpecAnalysisError::ListExpected(p, t) => found("list expected"@, p, t),
        SpecAnalysisError::MapExpected(p, t) => found("map expected"@, p, t),
        SpecAnalysisError::MissingElseBlock(p) => at("missing else block in if-type expression"@, p),
        SpecAnalysisError::RecordExpected(p, t) => found("record expected"@, p, t),
        SpecAnalysisError::RecordFieldNotFound(name, p) => at(
            "missing record field: "@ + name,
            p,
        ),
        SpecAnalysisError::RecordFieldPrivate(p) => at("private record field"@, p),
        SpecAnalysisError::RecordFieldUnknown(p) => at("unknown record field"@, p),
        SpecAnalysisError::RecordNotFound(record) => at(
            "record type \""@ + named(record) + "\" not found"@,
            record.position_of(),
        ),
        SpecAnalysisError::RecursiveTypeAlias(p) => at("recursive type alias"@, p),
        SpecAnalysisError::SpawnedFunctionArguments(p) => at(
            "function passed to go built-in function cannot have any argument"@,
            p,
        ),
        SpecAnalysisError::TryOperationInList(p) => at(
            "try operation not allowed in list literal"@,
            p,
        ),
        SpecAnalysisError::TypeNotComparable(p, t) => "type not comparable\n"@ + position_message(
            p,
            quoted(t) + " might include function, "@ + quoted(SpecType::Error { position: p })
                + ", or "@ + quoted(SpecType::Any { position: p }) + " types"@,
        ),
        SpecAnalysisError::TypeNotFound(reference) => at(
            "type \""@ + named(reference) + "\" not found"@,
            reference.position_of(),
        ),
        SpecAnalysisError::TypeNotInferred(p) => at("type not inferred"@, p),
        SpecAnalysisError::TypesNotMatched(p, t, q, u) => "types not matched\n"@ + position_message(
            p,
            "found "@ + quoted(t),
        ) + "\n"@ + position_message(q, "expected "@ + quoted(u)),
        SpecAnalysisError::UnionExpected(p, t) => found("union type expected"@, p, t),
        SpecAnalysisError::UnknownRecordField(p) => at("unknown record field"@, p),
        SpecAnalysisError::UnreachableCode(p) => at("unreachable code"@, p),
        SpecAnalysisError::UnusedErrorValue(p) => at("unused error value"@, p),
        SpecAnalysisError::ValueNameNotDefined(p) => at("value name not defined"@, p),
        SpecAnalysisError::VariableNotFound(name, p) => at(
            "variable \""@ + name + "\" not found"@,
            p,
        ),
        SpecAnalysisError::VariantExpected(p, t) => found("union or any type expected"@, p, t),
    }
}

/// The name of a record type or reference; nothing for other types.
pub open spec fn named(type_: SpecType) -> Seq<char> {
    match type_ {
        SpecType::Record { name, .. } => name,
        SpecType::Reference { name, .. } => name,
        _ => Seq::empty(),
    }
}

fn digit_text(d: usize) -> (text: String)
    requires
        d < 10,
    ensures
        text@ == seq![digit_char(d as int)],
{
    proof {
        reveal_strlit("0");
        reveal_strlit("1");
        reveal_strlit("2");
        reveal_strlit("3");
        reveal_strlit("4");
        reveal_strlit("5");
        reveal_strlit("6");
        reveal_strlit("7");
        reveal_strlit("8");
        reveal_strlit("9");
    }
    let literal = if d == 0 {
        "0"
    } else if d == 1 {
        "1"
    } else if d == 2 {
        "2"
    } else if d == 3 {
        "3"
    } else if d == 4 {
        "4"
    } else if d == 5 {
        "5"
    } else if d == 6 {
        "6"
    } else if d == 7 {
        "7"
    } else if d == 8 {
        "8"
    } else {
        "9"
    };
    String::from_str(literal)
}

/// The decimal digits of a number.
pub fn decimal_text(n: usize) -> (text: String)
    ensures
        text@ == decimal(n),
    decreases n,
{
    let mut text = if n < 10 {
        String::new()
    } else {
        decimal_text(n / 10)
    };
    let digit = digit_text(n % 10);
    text.append(digit.as_str());
    proof {
        if n < 10 {
            assert(text@ =~= seq![digit_char((n % 10) as int)]);
        } else {
            assert(text@ =~= decimal(n / 10).push(digit_char((n % 10) as int)));
        }
    }
    text
}

impl Position {
    /// The text of the position.
    pub fn format(&self) -> (text: String)
        ensures
            text@ == position_text(self@),
    {
        let mut text = self.path.clone();
        text.append(":");
        text.append(decimal_text(self.line_number).as_str());
        text.append(":");
        text.append(decimal_text(self.column_number).as_str());
        text.append("\n");
        text.append(self.line.as_str());
        text
    }
}

fn at_text(headline: String, position: &Position) -> (text: String)
    ensures
        text@ == at(headline@, position@),
{
    let mut text = headline;
    text.append("\n");
    text.append(position.format().as_str());
    text
}

fn quoted_text(type_: &Type) -> (text: String)
    ensures
        text@ == quoted(type_@),
{
    let mut text = String::from_str("`");
    text.append(crate::type_formatter::format(type_).as_str());
    text.append("`");
    text
}

fn position_message_text(position: &Position, message: String) -> (text: String)
    ensures
        text@ == position_message(position@, message@),
{
    let mut text = position.format();
    text.append("\n");
    text.append(message.as_str());
    text
}

fn found_text(headline: &str, position: &Position, type_: &Type) -> (text: String)
    ensures
        text@ == found(headline@, position@, type_@),
{
    let mut text = String::from_str(headline);
    text.append("\n");
    let mut message = String::from_str("found ");
    message.append(quoted_text(type_).as_str());
    text.append(position_message_text(position, message).as_str());
    text
}

fn name_text(type_: &Type) -> (name: String)
    ensures
        name@ == named(type_@),
{
    match type_ {
        Type::Record { name, .. } => name.clone(),
        Type::Reference { name, .. } => name.clone(),
        _ => String::new(),
    }
}

impl AnalysisError {
    /// The text of the error.
    pub fn message(&self) -> (text: String)
        ensures
            text@ == error_message(self@),
    {
        match self {
            AnalysisError::AnyTypeBranch(p) => at_text(String::from_str("any type cannot be used for downcast"), p),
            AnalysisError::ArgumentCount(p) => at_text(
                String::from_str("wrong number of arguments in function call"),
                p,
            ),
            AnalysisError::BuiltInFunctionNotCalled(p) => at_text(
                String::from_str("built-in function must be called directly"),
                p,
            ),
            AnalysisError::CollectionExpected(p, t) => found_text("list or map expected", p, t),
            AnalysisError::DuplicateFunctionNames(p, q) => {
                let mut text = at_text(String::from_str("duplicate function names"), p);
                text.append("\n");
                text.append(q.format().as_str());
                text
            },
            AnalysisError::DuplicateTypeNames(p, q) => {
                let mut text = at_text(String::from_str("duplicate type names"), p);
                text.append("\n");
                text.append(q.format().as_str());
                text
            },
            AnalysisError::ElementNameNotDefined(p) => at_text(String::from_str("element name not defined"), p),
            AnalysisError::ErrorTypeUndefined => String::from_str("error type undefined"),
            AnalysisError::FunctionExpected(p, t) => found_text("function expected", p, t),
            AnalysisError::ImpossibleRecord(p) => at_text(
                String::from_str("record construction dependent on itself"),
                p,
            ),
            AnalysisError::InvalidAdditionOperand(p) => at_text(
                String::from_str("addition operands must be numbers or strings"),
                p,
            ),
            AnalysisError::InvalidTryOperation(p) => at_text(
                String::from_str("try operation cannot be used in function not returning error"),
                p,
            ),
            AnalysisError::KeyNameNotDefined(p) => at_text(String::from_str("key name not defined"), p),
            AnalysisError::ListComprehensionIterateeCount(p) => at_text(
                String::from_str("unmatched iteratee count in list comprehension"),
                p,
            ),
            AnalysisError::ListExpected(p, t) => found_text("list expected", p, t),
            AnalysisError::MapExpected(p, t) => found_text("map expected", p, t),
            AnalysisError::MissingElseBlock(p) => at_text(
                String::from_str("missing else block in if-type expression"),
                p,
            ),
            AnalysisError::RecordExpected(p, t) => found_text("record expected", p, t),
            AnalysisError::RecordFieldNotFound(name, p) => {
                let mut headline = String::from_str("missing record field: ");
                headline.append(name.as_str());
                at_text(headline, p)
            },
            AnalysisError::RecordFieldPrivate(p) => at_text(String::from_str("private record field"), p),
            AnalysisError::RecordFieldUnknown(p) => at_text(String::from_str("unknown record field"), p),
            AnalysisError::RecordNotFound(record) => {
                let mut headline = String::from_str("record type \"");
                headline.append(name_text(record).as_str());
                headline.append("\" not found");
                at_text(headline, record.position())
            },
            AnalysisError::RecursiveTypeAlias(p) => at_text(String::from_str("recursive type alias"), p),
            AnalysisError::SpawnedFunctionArguments(p) => at_text(
                String::from_str("function passed to go built-in function cannot have any argument"),
                p,
            ),
            AnalysisError::TryOperationInList(p) => at_text(
                String::from_str("try operation not allowed in list literal"),
                p,
            ),
            AnalysisError::TypeNotComparable(p, t) => {
                let mut message = quoted_text(t);
                message.append(" might include function, ");
                message.append(quoted_text(&Type::Error { position: p.copy() }).as_str());
                message.append(", or ");
                message.append(quoted_text(&Type::Any { position: p.copy() }).as_str());
                message.append(" types");
                let mut text = String::from_str("type not comparable\n");
                text.append(position_message_text(p, message).as_str());
                text
            },
            AnalysisError::TypeNotFound(reference) => {
                let mut headline = String::from_str("type \"");
                headline.append(name_text(reference).as_str());
                headline.append("\" not found");
                at_text(headline, reference.position())
            },
            AnalysisError::TypeNotInferred(p) => at_text(String::from_str("type not inferred"), p),
            AnalysisError::TypesNotMatched(p, t, q, u) => {
                let mut found_message = String::from_str("found ");
                found_message.append(quoted_text(t).as_str());
                let mut expected_message = String::from_str("expected ");
                expected_message.append(quoted_text(u).as_str());
                let mut text = String::from_str("types not matched\n");
                text.append(position_message_text(p, found_message).as_str());
                text.append("\n");
                text.append(position_message_text(q, expected_message).as_str());
                text
            },
            AnalysisError::UnionExpected(p, t) => found_text("union type expected", p, t),
            AnalysisError::UnknownRecordField(p) => at_text(String::from_str("unknown record field"), p),
            AnalysisError::UnreachableCode(p) => at_text(String::from_str("unreachable code"), p),
            AnalysisError::UnusedErrorValue(p) => at_text(String::from_str("unused error value"), p),
            AnalysisError::ValueNameNotDefined(p) => at_text(String::from_str("value name not defined"), p),
            AnalysisError::VariableNotFound(name, p) => {
                let mut headline = String::from_str("variable \"");
                headline.append(name.as_str());
                headline.append("\" not found");
                at_text(headline, p)
            },
            AnalysisError::VariantExpected(p, t) => found_text("union or any type expected", p, t),
        }
    }
}

} // verus!
