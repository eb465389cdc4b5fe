//! Layer 2 (types) — errors.

use vstd::prelude::*;
use crate::ast::{SourceLocation, SpecType, Type};
use crate::ast::source::SpecLocation;

verus! {

/// What type checking reports.
#[derive(Debug, PartialEq)]
pub enum TypeError {
    /// Types were expected to match but didn't (assignment, argument, return).
    Mismatch { Expected: Type, Found: Type, At: SourceLocation },
    /// An operator was applied to operands it doesn't support.
    BadOperator { Op: String, Lhs: Type, Rhs: Type, At: SourceLocation },
    /// A function was called with the wrong number of arguments.
    ArityMismatch { Name: String, Expected: usize, Found: usize, At: SourceLocation },
    /// A required check isn't implemented yet.
    NotImplemented(String),
}

/// The mathematical value of a [`TypeError`].
pub enum SpecTypeError {
    Mismatch { Expected: SpecType, Found: SpecType, At: SpecLocation },
    BadOperator { Op: Seq<char>, Lhs: SpecType, Rhs: SpecType, At: SpecLocation },
    ArityMismatch { Name: Seq<char>, Expected: usize, Found: usize, At: SpecLocation },
    NotImplemented(Seq<char>),
}

impl View for TypeError {
    type V = SpecTypeError;

    open spec fn view(&self) -> SpecTypeError {
        match *self {
            TypeError::Mismatch { Expected, Found, At } => SpecTypeError::Mismatch {
                Expected: Expected@,
                Found: Found@,
                At: At@,
            },
            TypeError::BadOperator { Op, Lhs, Rhs, At } => SpecTypeError::BadOperator {
                Op: Op@,
                Lhs: Lhs@,
                Rhs: Rhs@,
                At: At@,
            },
            TypeError::ArityMismatch { Name, Expected, Found, At } => SpecTypeError::ArityMismatch {
                Name: Name@,
                Expected,
                Found,
                At: At@,
            },
            TypeError::NotImplemented(m) => SpecTypeError::NotImplemented(m@),
        }
    }
}

impl Clone for TypeError {
    fn clone(&self) -> (r: Self)
        ensures
            r@ == self@,
    {
        match self {
            TypeError::Mismatch { Expected, Found, At } => TypeError::Mismatch {
                Expected: Expected.clone(),
                Found: Found.clone(),
                At: At.clone(),
            },
            TypeError::BadOperator { Op, Lhs, Rhs, At } => TypeError::BadOperator {
                Op: Op.clone(),
                Lhs: Lhs.clone(),
                Rhs: Rhs.clone(),
                At: At.clone(),
            },
            TypeError::ArityMismatch { Name, Expected, Found, At } => TypeError::ArityMismatch {
                Name: Name.clone(),
                Expected: *Expected,
                Found: *Found,
                At: At.clone(),
            },
            TypeError::NotImplemented(m) => TypeError::NotImplemented(m.clone()),
        }
    }
}

/// The views of a list of errors.
pub open spec fn type_errors_view(s: Seq<TypeError>) -> Seq<SpecTypeError> {
    Seq::new(s.len(), |i: int| s[i]@)
}

/// The view of a result carrying a type.
pub open spec fn type_result(r: Result<Type, TypeError>) -> Result<SpecType, SpecTypeError> {
    match r {
        Ok(t) => Ok(t@),
        Err(e) => Err(e@),
    }
}

/// The view of a result without a value.
pub open spec fn unit_type_result(r: Result<(), TypeError>) -> Result<(), SpecTypeError> {
    match r {
        Ok(()) => Ok(()),
        Err(e) => Err(e@),
    }
}

} // verus!
