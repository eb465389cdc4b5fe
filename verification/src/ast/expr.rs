//! Expressions: every syntactic thing that can be computed or matched on.

use vstd::prelude::*;

verus! {

/// Everything we can compute or do math with.
///
/// A decimal literal keeps the text it was written with; the number is read
/// from that text by whoever evaluates it.
#[derive(Debug, PartialEq)]
pub enum Expression {
    /// Just a variable name.
    Variable(String),
    /// A whole number.
    LiteralInt(i64),
    /// A number with a decimal point, as written in the source.
    LiteralFloat(String),
    /// True or false bits.
    LiteralBool(bool),
    /// Text inside quotes.
    LiteralString(String),
    /// Bit-precise type used as a value.
    TypeLiteral { Kind: char, Bits: u32 },
    /// Two things joined by an operator like `+` or `<`.
    BinaryOp { Op: String, Lhs: Box<Expression>, Rhs: Box<Expression> },
    /// One thing with an operator like `*ptr`.
    UnaryOp { Op: String, Target: Box<Expression> },
    /// Calling a function with args.
    FunctionCall { Name: String, Args: Vec<Expression> },
    /// Reaching into a struct like `cpu.rax`.
    MemberAccess { Target: Box<Expression>, Member: String },
    /// Bit-precise type specifically for the lexer.
    BitPreciseType { Kind: char, Bits: u32 },
    /// Indexing into an array or pointer like `ptr[index]`.
    IndexAccess { Target: Box<Expression>, Index: Box<Expression> },
    /// Invalid (used as a sentinel by error recovery paths).
    Invalid,
}

/// The mathematical value of an [`Expression`]: names as character
/// sequences, argument lists as sequences.
pub enum SpecExpression {
    Variable(Seq<char>),
    LiteralInt(i64),
    LiteralFloat(Seq<char>),
    LiteralBool(bool),
    LiteralString(Seq<char>),
    TypeLiteral { Kind: char, Bits: u32 },
    BinaryOp { Op: Seq<char>, Lhs: Box<SpecExpression>, Rhs: Box<SpecExpression> },
    UnaryOp { Op: Seq<char>, Target: Box<SpecExpression> },
    FunctionCall { Name: Seq<char>, Args: Seq<SpecExpression> },
    MemberAccess { Target: Box<SpecExpression>, Member: Seq<char> },
    BitPreciseType { Kind: char, Bits: u32 },
    IndexAccess { Target: Box<SpecExpression>, Index: Box<SpecExpression> },
    Invalid,
}

pub open spec fn expr_view(e: Expression) -> SpecExpression
    decreases e,
{
    match e {
        Expression::Variable(s) => SpecExpression::Variable(s@),
        Expression::LiteralInt(n) => SpecExpression::LiteralInt(n),
        Expression::LiteralFloat(s) => SpecExpression::LiteralFloat(s@),
        Expression::LiteralBool(b) => SpecExpression::LiteralBool(b),
        Expression::LiteralString(s) => SpecExpression::LiteralString(s@),
        Expression::TypeLiteral { Kind, Bits } => SpecExpression::TypeLiteral { Kind, Bits },
        Expression::BinaryOp { Op, Lhs, Rhs } => SpecExpression::BinaryOp {
            Op: Op@,
            Lhs: Box::new(expr_view(*Lhs)),
            Rhs: Box::new(expr_view(*Rhs)),
        },
        Expression::UnaryOp { Op, Target } => SpecExpression::UnaryOp {
            Op: Op@,
            Target: Box::new(expr_view(*Target)),
        },
        Expression::FunctionCall { Name, Args } => SpecExpression::FunctionCall {
            Name: Name@,
            Args: Seq::new(
                Args@.len(),
                |i: int|
                    if 0 <= i < Args@.len() {
                        expr_view(Args@[i])
                    } else {
                        SpecExpression::Invalid
                    },
            ),
        },
        Expression::MemberAccess { Target, Member } => SpecExpression::MemberAccess {
            Target: Box::new(expr_view(*Target)),
            Member: Member@,
        },
        Expression::BitPreciseType { Kind, Bits } => SpecExpression::BitPreciseType { Kind, Bits },
        Expression::IndexAccess { Target, Index } => SpecExpression::IndexAccess {
            Target: Box::new(expr_view(*Target)),
            Index: Box::new(expr_view(*Index)),
        },
        Expression::Invalid => SpecExpression::Invalid,
    }
}

impl View for Expression {
    type V = SpecExpression;

    open spec fn view(&self) -> SpecExpression {
        expr_view(*self)
    }
}

/// The views of a list of expressions.
pub open spec fn exprs_view(s: Seq<Expression>) -> Seq<SpecExpression> {
    Seq::new(s.len(), |i: int| s[i]@)
}

impl Clone for Expression {
    #[verifier::loop_isolation(false)]
    fn clone(&self) -> (r: Self)
        ensures
            r@ == self@,
        decreases self,
    {
        match self {
            Expression::Variable(s) => Expression::Variable(s.clone()),
            Expression::LiteralInt(n) => Expression::LiteralInt(*n),
            Expression::LiteralFloat(s) => Expression::LiteralFloat(s.clone()),
            Expression::LiteralBool(b) => Expression::LiteralBool(*b),
            Expression::LiteralString(s) => Expression::LiteralString(s.clone()),
            Expression::TypeLiteral { Kind, Bits } => Expression::TypeLiteral { Kind: *Kind, Bits: *Bits },
            Expression::BinaryOp { Op, Lhs, Rhs } => Expression::BinaryOp {
                Op: Op.clone(),
                Lhs: Box::new((**Lhs).clone()),
                Rhs: Box::new((**Rhs).clone()),
            },
            Expression::UnaryOp { Op, Target } => Expression::UnaryOp {
                Op: Op.clone(),
                Target: Box::new((**Target).clone()),
            },
            Expression::FunctionCall { Name, Args } => {
                let mut out: Vec<Expression> = Vec::new();
                let mut i: usize = 0;
                while i < Args.len()
                    invariant
                        i <= Args.len(),
                        out@.len() == i,
                        forall|j: int| 0 <= j < i ==> out@[j]@ == Args@[j]@,
                    decreases Args.len() - i,
                {
                    proof {
                        broadcast use vstd::std_specs::vec::axiom_vec_index_decreases;
                        assert(decreases_to!(*Args => Args@[i as int]));
                        assert(decreases_to!(*self => *Args));
                    }
                    out.push(Args[i].clone());
                    i = i + 1;
                }
                let r = Expression::FunctionCall { Name: Name.clone(), Args: out };
                assert(r@ == self@) by {
                    if let SpecExpression::FunctionCall { Args: a, .. } = r@ {
                        if let SpecExpression::FunctionCall { Args: b, .. } = self@ {
                            assert(a =~= b);
                        }
                    }
                }
                r
            },
            Expression::MemberAccess { Target, Member } => Expression::MemberAccess {
                Target: Box::new((**Target).clone()),
                Member: Member.clone(),
            },
            Expression::BitPreciseType { Kind, Bits } => Expression::BitPreciseType { Kind: *Kind, Bits: *Bits },
            Expression::IndexAccess { Target, Index } => Expression::IndexAccess {
                Target: Box::new((**Target).clone()),
                Index: Box::new((**Index).clone()),
            },
            Expression::Invalid => Expression::Invalid,
        }
    }
}

/// Whether two expressions are the same: the same variant with the same
/// contents, argument lists compared element by element.
#[verifier::loop_isolation(false)]
pub fn ExprEq(a: &Expression, b: &Expression) -> (r: bool)
    ensures
        r == (a@ == b@),
    decreases a,
{
    match (a, b) {
        (Expression::Variable(x), Expression::Variable(y)) => *x == *y,
        (Expression::LiteralInt(x), Expression::LiteralInt(y)) => *x == *y,
        (Expression::LiteralFloat(x), Expression::LiteralFloat(y)) => *x == *y,
        (Expression::LiteralBool(x), Expression::LiteralBool(y)) => *x == *y,
        (Expression::LiteralString(x), Expression::LiteralString(y)) => *x == *y,
        (Expression::TypeLiteral { Kind: k1, Bits: b1 }, Expression::TypeLiteral { Kind: k2, Bits: b2 }) => *k1 == *k2
            && *b1 == *b2,
        (Expression::BinaryOp { Op: o1, Lhs: l1, Rhs: r1 }, Expression::BinaryOp { Op: o2, Lhs: l2, Rhs: r2 }) => {
            *o1 == *o2 && ExprEq(l1, l2) && ExprEq(r1, r2)
        },
        (Expression::UnaryOp { Op: o1, Target: t1 }, Expression::UnaryOp { Op: o2, Target: t2 }) => {
            *o1 == *o2 && ExprEq(t1, t2)
        },
        (Expression::FunctionCall { Name: n1, Args: a1 }, Expression::FunctionCall { Name: n2, Args: a2 }) => {
            if *n1 != *n2 || a1.len() != a2.len() {
                proof {
                    if a1@.len() != a2@.len() {
                        assert(a@->FunctionCall_Args.len() != b@->FunctionCall_Args.len());
                    }
                }
                return false;
            }
            let mut i: usize = 0;
            while i < a1.len()
                invariant
                    i <= a1@.len(),
                    a1@.len() == a2@.len(),
                    forall|j: int| 0 <= j < i ==> (#[trigger] a1@[j])@ == a2@[j]@,
                decreases a1@.len() - i,
            {
                proof {
                    broadcast use vstd::std_specs::vec::axiom_vec_index_decreases;
                    assert(decreases_to!(*a1 => a1@[i as int]));
                    assert(decreases_to!(*a => *a1));
                }
                if !ExprEq(&a1[i], &a2[i]) {
                    assert(a@->FunctionCall_Args[i as int] != b@->FunctionCall_Args[i as int]);
                    return false;
                }
                i = i + 1;
            }
            assert(a@->FunctionCall_Args =~= b@->FunctionCall_Args);
            true
        },
        (Expression::MemberAccess { Target: t1, Member: m1 }, Expression::MemberAccess { Target: t2, Member: m2 }) => {
            *m1 == *m2 && ExprEq(t1, t2)
        },
        (Expression::BitPreciseType { Kind: k1, Bits: b1 }, Expression::BitPreciseType { Kind: k2, Bits: b2 }) => *k1
            == *k2 && *b1 == *b2,
        (Expression::IndexAccess { Target: t1, Index: i1 }, Expression::IndexAccess { Target: t2, Index: i2 }) => {
            ExprEq(t1, t2) && ExprEq(i1, i2)
        },
        (Expression::Invalid, Expression::Invalid) => true,
        _ => false,
    }
}

/// Copies a list of expressions.
pub fn clone_exprs(v: &Vec<Expression>) -> (r: Vec<Expression>)
    ensures
        exprs_view(r@) == exprs_view(v@),
{
    let mut out: Vec<Expression> = Vec::new();
    let mut i: usize = 0;
    while i < v.len()
        invariant
            i <= v.len(),
            out@.len() == i,
            forall|j: int| 0 <= j < i ==> out@[j]@ == v@[j]@,
        decreases v.len() - i,
    {
        out.push(v[i].clone());
        i = i + 1;
    }
    assert(exprs_view(out@) =~= exprs_view(v@));
    out
}

} // verus!
