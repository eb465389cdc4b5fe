//! The `Type` enum: every static/structural type LayerScript understands.

use vstd::prelude::*;
use crate::ast::expr::{ExprEq, Expression, SpecExpression};

verus! {

/// The actual types for LayerScript.
#[derive(Debug, PartialEq)]
pub enum Type {
    /// Bit-precise stuff like i32 or b8.
    BitPrecise(char, u32),
    /// Names for types we made ourselves.
    Named(String),
    /// Pointers for bare-metal stuff.
    Pointer(Box<Type>),
    /// Arrays for holding a bunch of things.
    Array(Box<Type>, usize),
    /// Refinements for SMT checks like `x < 10`; the third field is an
    /// optional fallback expression used when the predicate is false.
    Where(Box<Type>, Box<Expression>, Option<Box<Expression>>),
    /// Unit type: no value.
    Unit,
    /// No explicit annotation; elaboration infers it from the initializer.
    Inferred,
    /// References for borrowing values.
    Reference(Box<Type>),
    /// Null value.
    Null,
}

/// The mathematical value of a [`Type`].
pub enum SpecType {
    BitPrecise(char, u32),
    Named(Seq<char>),
    Pointer(Box<SpecType>),
    Array(Box<SpecType>, usize),
    Where(Box<SpecType>, SpecExpression, Option<SpecExpression>),
    Unit,
    Inferred,
    Reference(Box<SpecType>),
    Null,
}

pub open spec fn type_view(t: Type) -> SpecType
    decreases t,
{
    match t {
        Type::BitPrecise(k, b) => SpecType::BitPrecise(k, b),
        Type::Named(n) => SpecType::Named(n@),
        Type::Pointer(i) => SpecType::Pointer(Box::new(type_view(*i))),
        Type::Array(i, n) => SpecType::Array(Box::new(type_view(*i)), n),
        Type::Where(b, p, f) => SpecType::Where(
            Box::new(type_view(*b)),
            p@,
            match f {
                Some(e) => Some(e@),
                None => None,
            },
        ),
        Type::Unit => SpecType::Unit,
        Type::Inferred => SpecType::Inferred,
        Type::Reference(i) => SpecType::Reference(Box::new(type_view(*i))),
        Type::Null => SpecType::Null,
    }
}

impl View for Type {
    type V = SpecType;

    open spec fn view(&self) -> SpecType {
        type_view(*self)
    }
}

impl Clone for Type {
    fn clone(&self) -> (r: Self)
        ensures
            r@ == self@,
        decreases self,
    {
        match self {
            Type::BitPrecise(k, b) => Type::BitPrecise(*k, *b),
            Type::Named(n) => Type::Named(n.clone()),
            Type::Pointer(i) => Type::Pointer(Box::new((**i).clone())),
            Type::Array(i, n) => Type::Array(Box::new((**i).clone()), *n),
            Type::Where(b, p, f) => Type::Where(
                Box::new((**b).clone()),
                Box::new((**p).clone()),
                match f {
                    Some(e) => Some(Box::new((**e).clone())),
                    None => None,
                },
            ),
            Type::Unit => Type::Unit,
            Type::Inferred => Type::Inferred,
            Type::Reference(i) => Type::Reference(Box::new((**i).clone())),
            Type::Null => Type::Null,
        }
    }
}

/// Whether two types are the same: the same variant with the same contents.
pub fn TypeEq(a: &Type, b: &Type) -> (r: bool)
    ensures
        r == (a@ == b@),
    decreases a,
{
    match (a, b) {
        (Type::BitPrecise(k1, b1), Type::BitPrecise(k2, b2)) => *k1 == *k2 && *b1 == *b2,
        (Type::Named(x), Type::Named(y)) => *x == *y,
        (Type::Pointer(x), Type::Pointer(y)) => TypeEq(x, y),
        (Type::Array(x, n), Type::Array(y, m)) => *n == *m && TypeEq(x, y),
        (Type::Where(b1, p1, f1), Type::Where(b2, p2, f2)) => {
            let same_fallback = match (f1, f2) {
                (Some(x), Some(y)) => ExprEq(x, y),
                (None, None) => true,
                _ => false,
            };
            same_fallback && TypeEq(b1, b2) && ExprEq(p1, p2)
        },
        (Type::Unit, Type::Unit) => true,
        (Type::Inferred, Type::Inferred) => true,
        (Type::Reference(x), Type::Reference(y)) => TypeEq(x, y),
        (Type::Null, Type::Null) => true,
        _ => false,
    }
}

/// Copies an optional type.
pub fn clone_opt_type(t: &Option<Type>) -> (r: Option<Type>)
    ensures
        opt_type_view(r) == opt_type_view(*t),
{
    match t {
        Some(x) => Some(x.clone()),
        None => None,
    }
}

/// The view of an optional type.
pub open spec fn opt_type_view(t: Option<Type>) -> Option<SpecType> {
    match t {
        Some(x) => Some(x@),
        None => None,
    }
}

} // verus!
