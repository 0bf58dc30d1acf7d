//! Source positions attached to types and expressions.
use vstd::prelude::*;

verus! {

/// A position in a source file: its path, line and column numbers, and the
/// text of the line.
///
/// Positions carry diagnostics only: two positions always compare equal, so
/// that types and expressions compare by their structure alone.
#[derive(Debug)]
pub struct Position {
    pub path: String,
    pub line_number: usize,
    pub column_number: usize,
    pub line: String,
}

impl Position {
    pub fn new(path: &str, line_number: usize, column_number: usize, line: &str) -> (position:
        Position)
        ensures
            position@ == (SpecPosition {
                path: path@,
                line_number,
                column_number,
                line: line@,
            }),
    {
        Position {
            path: String::from_str(path),
            line_number,
            column_number,
            line: String::from_str(line),
        }
    }

    /// A position for values that come from no source file.
    pub fn fake() -> (position: Position)
        ensures
            position@ == (SpecPosition {
                path: Seq::empty(),
                line_number: 1,
                column_number: 1,
                line: Seq::empty(),
            }),
    {
        proof {
            reveal_strlit("");
            assert(""@ =~= Seq::<char>::empty());
        }
        Position::new("", 1, 1, "")
    }
}

/// The mathematical value of a position.
pub struct SpecPosition {
    pub path: Seq<char>,
    pub line_number: usize,
    pub column_number: usize,
    pub line: Seq<char>,
}

impl View for Position {
    type V = SpecPosition;

    open spec fn view(&self) -> SpecPosition {
        SpecPosition {
            path: self.path@,
            line_number: self.line_number,
            column_number: self.column_number,
            line: self.line@,
        }
    }
}

impl Clone for Position {
    fn clone(&self) -> (position: Position)
        ensures
            position@ == self@,
    {
        self.copy()
    }
}

impl Position {
    /// A copy of this position, field by field.
    pub fn copy(&self) -> (position: Position)
        ensures
            position@ == self@,
    {
        Position {
            path: self.path.clone(),
            line_number: self.line_number,
            column_number: self.column_number,
            line: self.line.clone(),
        }
    }
}

impl PartialEq for Position {
    fn eq(&self, other: &Self) -> (equal: bool) {
        true
    }
}

impl Eq for Position {

}

impl vstd::std_specs::cmp::PartialEqSpecImpl for Position {
    open spec fn obeys_eq_spec() -> bool {
        true
    }

    open spec fn eq_spec(&self, other: &Position) -> bool {
        true
    }
}

} // verus!
