//! Layer 3 (refinements) — the assumption stack.
//!
//! A stack of frames, each a list of predicates currently assumed true.
//! Frames follow the program's lexical structure: entering a function or
//! block pushes one, leaving pops it; an assumption lands in the current
//! frame.

use vstd::prelude::*;
use crate::ast::{Expression, SpecExpression};
use crate::ast::expr::exprs_view;

verus! {

/// The frames' predicates, outermost first, as one list.
pub open spec fn flatten_frames(fs: Seq<Seq<SpecExpression>>) -> Seq<SpecExpression>
    decreases fs.len(),
{
    if fs.len() == 0 {
        Seq::empty()
    } else {
        flatten_frames(fs.drop_last()) + fs.last()
    }
}

/// The frames after entering a region.
pub open spec fn enter_frame(fs: Seq<Seq<SpecExpression>>) -> Seq<Seq<SpecExpression>> {
    fs.push(Seq::empty())
}

/// The frames after leaving a region; the outermost frame stays.
pub open spec fn leave_frame(fs: Seq<Seq<SpecExpression>>) -> Seq<Seq<SpecExpression>> {
    if fs.len() > 1 {
        fs.drop_last()
    } else {
        fs
    }
}

/// The frames after assuming `e` in the current frame (no change when
/// there is none).
pub open spec fn push_assumption(fs: Seq<Seq<SpecExpression>>, e: SpecExpression) -> Seq<Seq<SpecExpression>> {
    if fs.len() == 0 {
        fs
    } else {
        fs.update(fs.len() - 1, fs.last().push(e))
    }
}

/// The assumption frames.
#[derive(Debug)]
pub struct AssumptionStack {
    frames: Vec<Vec<Expression>>,
}

impl View for AssumptionStack {
    type V = Seq<Seq<SpecExpression>>;

    closed spec fn view(&self) -> Seq<Seq<SpecExpression>> {
        Seq::new(self.frames@.len(), |i: int| exprs_view(self.frames@[i]@))
    }
}

impl AssumptionStack {
    /// One empty frame.
    pub fn New() -> (s: Self)
        ensures
            s@ == seq![Seq::<SpecExpression>::empty()],
    {
        let s = Self { frames: vec![Vec::new()] };
        assert(exprs_view(s.frames@[0]@) =~= Seq::<SpecExpression>::empty());
        assert(s@ =~= seq![Seq::<SpecExpression>::empty()]);
        s
    }

    /// Push an empty frame.
    pub fn EnterFrame(&mut self)
        ensures
            final(self)@ == enter_frame(old(self)@),
    {
        let v: Vec<Expression> = Vec::new();
        assert(exprs_view(v@) =~= Seq::<SpecExpression>::empty());
        self.frames.push(v);
        assert(self@ =~= enter_frame(old(self)@));
    }

    /// Pop the innermost frame; the outermost stays.
    pub fn LeaveFrame(&mut self)
        ensures
            final(self)@ == leave_frame(old(self)@),
    {
        if self.frames.len() > 1 {
            self.frames.pop();
            assert(self@ =~= leave_frame(old(self)@));
        }
    }

    /// Assume `e` in the current frame.
    pub fn PushAssumption(&mut self, e: Expression)
        ensures
            final(self)@ == push_assumption(old(self)@, e@),
    {
        if self.frames.len() > 0 {
            let mut top = self.frames.pop().unwrap();
            let ghost before = top@;
            let ghost ev = e@;
            top.push(e);
            assert(exprs_view(top@) =~= exprs_view(before).push(ev));
            self.frames.push(top);
            assert(self@ =~= push_assumption(old(self)@, ev));
        }
    }

    /// Every frame's assumptions, outermost first, as one list — what the
    /// solver is given.
    pub fn Snapshot(&self) -> (r: Vec<Expression>)
        ensures
            exprs_view(r@) == flatten_frames(self@),
    {
        let mut out: Vec<Expression> = Vec::new();
        let mut i: usize = 0;
        assert(self@.subrange(0, 0) =~= Seq::<Seq<SpecExpression>>::empty());
        assert(exprs_view(out@) =~= flatten_frames(self@.subrange(0, 0)));
        while i < self.frames.len()
            invariant
                i <= self.frames@.len(),
                self@.len() == self.frames@.len(),
                exprs_view(out@) == flatten_frames(self@.subrange(0, i as int)),
            decreases self.frames@.len() - i,
        {
            let frame = &self.frames[i];
            let ghost base = exprs_view(out@);
            let mut j: usize = 0;
            while j < frame.len()
                invariant
                    j <= frame@.len(),
                    exprs_view(out@) == base + exprs_view(frame@).subrange(0, j as int),
                decreases frame@.len() - j,
            {
                let ghost before = out@;
                out.push(frame[j].clone());
                assert(exprs_view(out@) =~= exprs_view(before).push(frame@[j as int]@));
                assert(exprs_view(frame@).subrange(0, j + 1) =~= exprs_view(frame@).subrange(0, j as int).push(
                    frame@[j as int]@,
                ));
                j = j + 1;
            }
            assert(exprs_view(frame@).subrange(0, frame@.len() as int) =~= exprs_view(frame@));
            assert(self@.subrange(0, i + 1).drop_last() =~= self@.subrange(0, i as int));
            assert(self@[i as int] == exprs_view(frame@));
            i = i + 1;
        }
        assert(self@.subrange(0, self@.len() as int) =~= self@);
        out
    }
}

/// What is assumed inside a region is gone once the region is left.
pub proof fn lemma_frame_assumptions_end_with_region(fs: Seq<Seq<SpecExpression>>, e: SpecExpression)
    requires
        fs.len() >= 1,
    ensures
        leave_frame(push_assumption(enter_frame(fs), e)) == fs,
{
    assert(push_assumption(enter_frame(fs), e).drop_last() =~= fs);
}

/// An assumption joins the snapshot at its end.
pub proof fn lemma_push_extends_snapshot(fs: Seq<Seq<SpecExpression>>, e: SpecExpression)
    requires
        fs.len() >= 1,
    ensures
        flatten_frames(push_assumption(fs, e)) == flatten_frames(fs).push(e),
{
    let p = push_assumption(fs, e);
    assert(p.drop_last() =~= fs.drop_last());
    assert(flatten_frames(fs.drop_last()) + fs.last().push(e) =~= (flatten_frames(fs.drop_last()) + fs.last()).push(e));
}

} // verus!
