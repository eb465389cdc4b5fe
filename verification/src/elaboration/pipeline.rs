//! The elaboration pipeline: the five layers in order.
//!
//! ```text
//! parser tree
//!   → layer 1: Resolve            — name → symbol
//!   → layer 2: CheckProgram       — a type for each expression
//!   → layer 3: Propagate          — refinement obligations
//!   → layer 4: Query (solver)     — sat / unsat / unknown per obligation
//!   → layer 5: Fold + RemoveDead  — erase what was proved unnecessary
//! ```

use vstd::prelude::*;
use crate::ast::{Expression, Layer};
use crate::ast::expr::exprs_view;
use crate::elaboration::layer1_semantics::errors::semantic_errors_view;
use crate::elaboration::layer1_semantics::resolve::{Resolve, ResolvedProgram, seeded, walk};
use crate::elaboration::layer2_types::errors::type_errors_view;
use crate::elaboration::layer2_types::typed_ast::env_of_symbols;
use crate::elaboration::layer2_types::walk::{CheckProgram, TState, TypedProgram, walk_types};
use crate::elaboration::layer3_refinements::constraint::obligations_view;
use crate::elaboration::layer3_refinements::propagate::{ConstraintGraph, Propagate, initial_pstate, walk_refinements};
use crate::elaboration::layer4_smt::backend::{Query, SolverVerdict, query_verdict, verdict_view};
use crate::elaboration::layer5_optimize::constant_fold::{Fold, layer_folded};
use crate::elaboration::layer5_optimize::dead_branch::{RemoveDeadBranches, branches_removed};
use crate::elaboration::layer5_optimize::safety_erasure::{EraseProvenSafe, ErasureSet, proven_safe};

verus! {

/// The full elaboration output: the rewritten tree plus what each layer
/// produced.
#[derive(Debug)]
pub struct Elaborated {
    pub Program: Layer,
    pub Resolved: ResolvedProgram,
    pub Typed: TypedProgram,
    pub Constraints: ConstraintGraph,
    pub Erasures: ErasureSet,
}

/// Public entry point: run the five layers over `Root`. The caller decides
/// what to do with the errors each layer reports.
pub fn RunAll(Root: &Layer) -> (e: Elaborated)
    ensures
        e.Resolved.Symbols@ == walk(seeded(), *Root).symbols,
        semantic_errors_view(e.Resolved.Errors@) == walk(seeded(), *Root).errors,
        ({
            let t = walk_types(
                TState {
                    env: env_of_symbols(e.Resolved.Symbols@, e.Resolved.Symbols@.len()),
                    types: Map::empty(),
                    errors: Seq::empty(),
                    ret: None,
                },
                *Root,
            );
            e.Typed.Types@ == t.types && type_errors_view(e.Typed.Errors@) == t.errors
        }),
        obligations_view(e.Constraints.obligations()) == walk_refinements(initial_pstate(), *Root).obligations,
        e.Erasures.Erased@.to_set() == proven_safe(
            obligations_view(e.Constraints.obligations()),
            e.Constraints.obligations().len(),
        ),
        e.Erasures.Erased@.no_duplicates(),
        exists|folded: Layer| layer_folded(*Root, folded) && branches_removed(folded, Seq::empty(), e.Program),
{
    let Resolved = Resolve(Root);
    let Typed = CheckProgram(Root, &Resolved);
    let Constraints_ = Propagate(Root);
    let Erasures = EraseProvenSafe(&Constraints_);
    let Folded = Fold(Root);
    let Pruned = RemoveDeadBranches(&Folded);
    Elaborated { Program: Pruned, Resolved, Typed, Constraints: Constraints_, Erasures }
}

/// One solver query on its own.
pub fn SolveOnce(assumptions: &[Expression], goal: &Expression) -> (r: SolverVerdict)
    ensures
        verdict_view(r) == query_verdict(exprs_view(assumptions@), goal@),
{
    Query(assumptions, goal)
}

} // verus!
