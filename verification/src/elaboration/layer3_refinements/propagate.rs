//! Layer 3 (refinements) — the assumption and goal collector.
//!
//! Walks the layer tree, pushing and popping assumptions as it enters and
//! leaves functions and branches, and emits a proof obligation for every
//! safety goal it finds: each `panic` and `unreachable`, which should be
//! impossible to reach under the assumptions in force.

use vstd::prelude::*;
use crate::ast::{Expression, Layer, LayerKind, Param, SourceLocation, SpecExpression, Type, SpecType};
use crate::ast::source::SpecLocation;
use crate::elaboration::layer3_refinements::branch::{
    AssumptionStack, enter_frame, flatten_frames, leave_frame, push_assumption,
};
use crate::elaboration::layer3_refinements::constraint::{GoalId, ProofObligation, SpecObligation, obligations_view};

verus! {

/// The output of layer 3: every proof obligation the program presents.
#[derive(Debug)]
pub struct ConstraintGraph {
    pub Obligations: Vec<ProofObligation>,
    /// The id the next goal gets.
    pub NextGoalId: usize,
}

/// `n + 1`, wrapping at the top of `usize`.
pub open spec fn next_id(n: usize) -> usize {
    if n == usize::MAX {
        0
    } else {
        (n + 1) as usize
    }
}

impl ConstraintGraph {
    /// The id the next goal gets.
    pub open spec fn next_goal(&self) -> usize {
        self.NextGoalId
    }

    /// The obligations collected so far.
    pub open spec fn obligations(&self) -> Seq<ProofObligation> {
        self.Obligations@
    }

    /// No obligations yet; ids start at 0.
    pub fn New() -> (g: Self)
        ensures
            g.obligations().len() == 0,
            g.next_goal() == 0,
    {
        ConstraintGraph { Obligations: Vec::new(), NextGoalId: 0 }
    }

    /// Reserve a fresh `GoalId`: ids are handed out in order.
    pub fn FreshGoalId(&mut self) -> (id: GoalId)
        ensures
            id == GoalId(old(self).next_goal()),
            final(self).next_goal() == next_id(old(self).next_goal()),
            final(self).obligations() == old(self).obligations(),
    {
        let id = GoalId(self.NextGoalId);
        self.NextGoalId = if self.NextGoalId == usize::MAX { 0 } else { self.NextGoalId + 1 };
        id
    }

    /// Record a goal along with the assumptions currently in scope.
    fn EmitGoal(&mut self, stack: &AssumptionStack, predicate: Expression, at: SourceLocation)
        ensures
            obligations_view(final(self).obligations()) == obligations_view(old(self).obligations()).push(
                SpecObligation {
                    Id: GoalId(old(self).next_goal()),
                    Assumptions: flatten_frames(stack@),
                    Goal: predicate@,
                    At: at@,
                },
            ),
            final(self).next_goal() == next_id(old(self).next_goal()),
    {
        let id = self.FreshGoalId();
        let o = ProofObligation { Id: id, Assumptions: stack.Snapshot(), Goal: predicate, At: at };
        let ghost before = self.Obligations@;
        let ghost ov = o@;
        self.Obligations.push(o);
        assert(obligations_view(self.Obligations@) =~= obligations_view(before).push(ov));
    }
}

/// What the walk carries: the assumption frames, the obligations so far,
/// and the next goal id.
pub struct PState {
    pub frames: Seq<Seq<SpecExpression>>,
    pub obligations: Seq<SpecObligation>,
    pub next: usize,
}

/// The syntactic negation of a predicate.
pub open spec fn negate(e: SpecExpression) -> SpecExpression {
    SpecExpression::UnaryOp { Op: "!"@, Target: Box::new(e) }
}

/// A goal emitted with the assumptions in force.
pub open spec fn emit(s: PState, goal: SpecExpression, at: SpecLocation) -> PState {
    PState {
        obligations: s.obligations.push(
            SpecObligation { Id: GoalId(s.next), Assumptions: flatten_frames(s.frames), Goal: goal, At: at },
        ),
        next: next_id(s.next),
        ..s
    }
}

/// The frames with the `where` predicate of each refined parameter, from
/// `i` on, assumed.
pub open spec fn assume_params(fs: Seq<Seq<SpecExpression>>, ps: Seq<Param>, i: nat) -> Seq<Seq<SpecExpression>>
    decreases ps.len() - i,
{
    if i >= ps.len() {
        fs
    } else {
        let f1 = match ps[i as int].Type_@ {
            SpecType::Where(_, c, _) => push_assumption(fs, c),
            _ => fs,
        };
        assume_params(f1, ps, i + 1)
    }
}

/// Walking one arm in a frame of its own, with `cond` assumed.
pub open spec fn walk_arm(s: PState, cond: SpecExpression, arm: Layer) -> PState
    decreases arm, 2int,
{
    let st = walk_refinements(PState { frames: push_assumption(enter_frame(s.frames), cond), ..s }, arm);
    PState { frames: leave_frame(st.frames), ..st }
}

/// The state after walking a layer: a function's refined parameters are
/// assumed in its body; a refined binding is assumed for the rest of the
/// enclosing frame; a conditional's then-arm is walked with the condition
/// assumed and its else-arm with its negation; `panic` and `unreachable`
/// are goals (`true`: the point should be unreachable).
pub open spec fn walk_refinements(s: PState, l: Layer) -> PState
    decreases l, 1int,
{
    let cs = l.Children@;
    match l.Kind {
        LayerKind::Function { Params, .. } => {
            let s2 = walk_refinements_children(
                PState { frames: assume_params(enter_frame(s.frames), Params@, 0), ..s },
                cs,
                0,
            );
            PState { frames: leave_frame(s2.frames), ..s2 }
        },
        LayerKind::VariableBinding { TypeAnnotation, .. } => match TypeAnnotation {
            Some(t) => match t@ {
                SpecType::Where(_, c, _) => PState { frames: push_assumption(s.frames, c), ..s },
                _ => s,
            },
            None => s,
        },
        LayerKind::Conditional { Condition, .. } => {
            let s1 = if cs.len() > 0 {
                walk_arm(s, Condition@, cs[0])
            } else {
                s
            };
            if cs.len() > 1 {
                walk_arm(s1, negate(Condition@), cs[1])
            } else {
                s1
            }
        },
        LayerKind::Block => {
            let s2 = walk_refinements_children(PState { frames: enter_frame(s.frames), ..s }, cs, 0);
            PState { frames: leave_frame(s2.frames), ..s2 }
        },
        LayerKind::Panic => emit(s, SpecExpression::LiteralBool(true), l.Metadata.SourceLocation@),
        LayerKind::Unreachable => emit(s, SpecExpression::LiteralBool(true), l.Metadata.SourceLocation@),
        _ => walk_refinements_children(s, cs, 0),
    }
}

/// The state after walking the layers from `i` on, in order.
pub open spec fn walk_refinements_children(s: PState, cs: Seq<Layer>, i: nat) -> PState
    decreases cs, cs.len() - i,
{
    if i >= cs.len() {
        s
    } else {
        walk_refinements_children(walk_refinements(s, cs[i as int]), cs, i + 1)
    }
}

/// The state a walk starts from: one empty frame, no obligations, id 0.
pub open spec fn initial_pstate() -> PState {
    PState { frames: seq![Seq::empty()], obligations: Seq::empty(), next: 0 }
}

/// Public entry: walk `root`, produce the graph.
pub fn Propagate(root: &Layer) -> (g: ConstraintGraph)
    ensures
        obligations_view(g.obligations()) == walk_refinements(initial_pstate(), *root).obligations,
        g.next_goal() == walk_refinements(initial_pstate(), *root).next,
{
    let mut g = ConstraintGraph::New();
    let mut stack = AssumptionStack::New();
    assert(obligations_view(g.Obligations@) =~= Seq::<SpecObligation>::empty());
    Walk(root, &mut stack, &mut g);
    g
}

/// The walk's state, read off the stack and the graph.
pub open spec fn pstate(stack: AssumptionStack, g: ConstraintGraph) -> PState {
    PState { frames: stack@, obligations: obligations_view(g.obligations()), next: g.next_goal() }
}

/// Walk the children in order.
#[verifier::loop_isolation(false)]
fn WalkChildren(L: &Layer, stack: &mut AssumptionStack, g: &mut ConstraintGraph)
    ensures
        pstate(*final(stack), *final(g)) == walk_refinements_children(pstate(*old(stack), *old(g)), L.Children@, 0),
    decreases L, 0int,
{
    let ghost s0 = pstate(*stack, *g);
    let mut i: usize = 0;
    while i < L.Children.len()
        invariant
            i <= L.Children@.len(),
            walk_refinements_children(s0, L.Children@, 0) == walk_refinements_children(
                pstate(*stack, *g),
                L.Children@,
                i as nat,
            ),
        decreases L.Children@.len() - i,
    {
        proof {
            broadcast use vstd::std_specs::vec::axiom_vec_index_decreases;
            assert(decreases_to!(L.Children => L.Children@[i as int]));
            assert(decreases_to!(*L => L.Children));
        }
        Walk(&L.Children[i], stack, g);
        i = i + 1;
    }
}

/// Walk one arm of a conditional in a frame of its own, with `cond`
/// assumed.
fn WalkArm(cond: Expression, arm: &Layer, stack: &mut AssumptionStack, g: &mut ConstraintGraph)
    ensures
        pstate(*final(stack), *final(g)) == walk_arm(pstate(*old(stack), *old(g)), cond@, *arm),
    decreases arm, 2int,
{
    stack.EnterFrame();
    stack.PushAssumption(cond);
    Walk(arm, stack, g);
    stack.LeaveFrame();
}

#[verifier::loop_isolation(false)]
fn Walk(L: &Layer, stack: &mut AssumptionStack, g: &mut ConstraintGraph)
    ensures
        pstate(*final(stack), *final(g)) == walk_refinements(pstate(*old(stack), *old(g)), *L),
    decreases L, 1int,
{
    match &L.Kind {
        LayerKind::Function { Params, .. } => {
            stack.EnterFrame();
            let ghost f1 = stack@;
            let mut i: usize = 0;
            while i < Params.len()
                invariant
                    i <= Params@.len(),
                    assume_params(f1, Params@, 0) == assume_params(stack@, Params@, i as nat),
                    g == old(g),
                decreases Params@.len() - i,
            {
                if let Type::Where(_base, cond, _) = &Params[i].Type_ {
                    stack.PushAssumption((**cond).clone());
                }
                i = i + 1;
            }
            WalkChildren(L, stack, g);
            stack.LeaveFrame();
        },
        LayerKind::VariableBinding { TypeAnnotation, .. } => {
            if let Some(Type::Where(_, cond, _)) = TypeAnnotation {
                stack.PushAssumption((**cond).clone());
            }
        },
        LayerKind::Conditional { Condition, .. } => {
            if L.Children.len() > 0 {
                proof {
                    broadcast use vstd::std_specs::vec::axiom_vec_index_decreases;
                    assert(decreases_to!(L.Children => L.Children@[0]));
                    assert(decreases_to!(*L => L.Children));
                }
                WalkArm(Condition.clone(), &L.Children[0], stack, g);
            }
            if L.Children.len() > 1 {
                proof {
                    broadcast use vstd::std_specs::vec::axiom_vec_index_decreases;
                    assert(decreases_to!(L.Children => L.Children@[1]));
                    assert(decreases_to!(*L => L.Children));
                }
                WalkArm(Negate(Condition.clone()), &L.Children[1], stack, g);
            }
        },
        LayerKind::Block => {
            stack.EnterFrame();
            WalkChildren(L, stack, g);
            stack.LeaveFrame();
        },
        LayerKind::Panic | LayerKind::Unreachable => {
            g.EmitGoal(stack, Expression::LiteralBool(true), L.Metadata.SourceLocation.clone());
        },
        _ => WalkChildren(L, stack, g),
    }
}

/// Wrap a predicate in a logical negation, syntactically.
pub fn Negate(e: Expression) -> (r: Expression)
    ensures
        r@ == negate(e@),
{
    Expression::UnaryOp { Op: String::from_str("!"), Target: Box::new(e) }
}

} // verus!
