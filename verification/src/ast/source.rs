//! File + line + column position, attached to every layer.

use vstd::prelude::*;

verus! {

/// Tracking where code is in the files.
#[derive(Debug, PartialEq)]
pub struct SourceLocation {
    pub File: String,
    pub Line: usize,
    pub Column: usize,
}

/// The mathematical value of a [`SourceLocation`].
pub struct SpecLocation {
    pub File: Seq<char>,
    pub Line: usize,
    pub Column: usize,
}

impl View for SourceLocation {
    type V = SpecLocation;

    open spec fn view(&self) -> SpecLocation {
        SpecLocation { File: self.File@, Line: self.Line, Column: self.Column }
    }
}

/// Where the things the compiler just knows are located.
pub open spec fn builtin_location() -> SpecLocation {
    SpecLocation { File: "<builtin>"@, Line: 0, Column: 0 }
}

impl SourceLocation {
    /// For code that the compiler just knows.
    pub fn Builtin() -> (l: Self)
        ensures
            l.File@ == "<builtin>"@,
            l.Line == 0,
            l.Column == 0,
            l@ == builtin_location(),
    {
        Self { File: String::from_str("<builtin>"), Line: 0, Column: 0 }
    }
}

impl Clone for SourceLocation {
    fn clone(&self) -> (r: Self)
        ensures
            r == *self,
    {
        SourceLocation { File: self.File.clone(), Line: self.Line, Column: self.Column }
    }
}

} // verus!
